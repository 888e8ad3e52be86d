//! The export queue: a fixed set of rows, one per chat the run was started
//! with, each of which changes state in place.
//!
//! A row is created for every chat the run starts with, before any of them
//! runs, so the panel answers "what is this run going to do?" and not only
//! "what has it done?".

use std::path::PathBuf;
use vstd::prelude::*;
use crate::strings::{chars_of, dec, int_text, push_all, push_dec, push_int, push_seq, string_of};

verus! {

/// A filesystem path, carried through the queue and never looked inside.
#[verifier::external_type_specification]
#[verifier::external_body]
pub struct ExPathBuf(PathBuf);

/// Where one chat's job has got to. `Stopped` is not `Failed`: a chat the
/// user chose not to export has nothing wrong with it.
#[derive(Debug, Clone, PartialEq, Eq)]
pub enum JobState {
    Queued,
    Exporting,
    Done,
    Failed(String),
    Stopped,
}

/// The word the STATUS column shows: the reason, for a failure.
pub open spec fn state_label(s: JobState) -> Seq<char> {
    match s {
        JobState::Queued => "Queued"@,
        JobState::Exporting => "Exporting"@,
        JobState::Done => "Done"@,
        JobState::Stopped => "Stopped"@,
        JobState::Failed(why) => why@,
    }
}

/// Done, stopped or failed.
pub open spec fn finished_state(s: JobState) -> bool {
    s is Done || s is Stopped || s is Failed
}

impl JobState {
    /// The word the STATUS column shows.
    pub fn label(&self) -> (l: &str)
        ensures
            l@ == state_label(*self),
    {
        match self {
            JobState::Queued => "Queued",
            JobState::Exporting => "Exporting",
            JobState::Done => "Done",
            JobState::Stopped => "Stopped",
            JobState::Failed(why) => why.as_str(),
        }
    }

    pub fn is_finished(&self) -> (b: bool)
        ensures
            b == finished_state(*self),
    {
        match self {
            JobState::Done | JobState::Stopped | JobState::Failed(_) => true,
            _ => false,
        }
    }
}

/// One row of the queue.
#[derive(Debug, Clone)]
pub struct Job {
    pub chat_id: i64,
    pub title: String,
    pub state: JobState,
    /// Messages written so far.
    pub messages: usize,
    /// What Telegram said the chat held; `None` until looked up, and never
    /// zero, which would read as an empty chat.
    pub expected: Option<i64>,
    /// Topic folders this chat produces; `None` for a chat that is no forum.
    pub topics: Option<usize>,
    /// `(downloaded, failed)`, once the media pass has run.
    pub media: Option<(usize, usize)>,
    /// Where it was written, so a finished row can be opened.
    pub root: Option<PathBuf>,
}

/// The MEDIA column: nothing before the media pass, then the count, with
/// the failures in brackets when there are any.
pub open spec fn media_column(media: Option<(usize, usize)>) -> Seq<char> {
    match media {
        None => Seq::empty(),
        Some((done, failed)) => if failed == 0 {
            dec(done as nat)
        } else {
            dec(done as nat) + " ("@ + dec(failed as nat) + " failed)"@
        },
    }
}

/// The TOPICS column: an em dash for a chat with no topics, else the count.
pub open spec fn topics_column(topics: Option<usize>) -> Seq<char> {
    match topics {
        None => "\u{2014}"@,
        Some(n) => dec(n as nat),
    }
}

impl Job {
    fn new(chat_id: i64, title: String) -> (j: Self)
        ensures
            j == fresh_job(chat_id, title),
    {
        Self {
            chat_id,
            title,
            state: JobState::Queued,
            messages: 0,
            expected: None,
            topics: None,
            media: None,
            root: None,
        }
    }

    /// The MEDIA column's text.
    pub fn media_text(&self) -> (s: String)
        ensures
            s@ == media_column(self.media),
    {
        let mut v: Vec<char> = Vec::new();
        match self.media {
            None => {},
            Some((done, failed)) => {
                push_dec(&mut v, done as u64);
                if failed != 0 {
                    push_all(&mut v, " (");
                    push_dec(&mut v, failed as u64);
                    push_all(&mut v, " failed)");
                }
            },
        }
        assert(Seq::<char>::empty() + media_column(self.media) == media_column(self.media));
        string_of(&v)
    }

    /// The TOPICS column's text.
    pub fn topics_text(&self) -> (s: String)
        ensures
            s@ == topics_column(self.topics),
    {
        let mut v: Vec<char> = Vec::new();
        match self.topics {
            None => push_all(&mut v, "\u{2014}"),
            Some(n) => push_dec(&mut v, n as u64),
        }
        assert(Seq::<char>::empty() + topics_column(self.topics) == topics_column(self.topics));
        string_of(&v)
    }
}

/// A row as a run starts it: queued, nothing counted, nothing known.
pub open spec fn fresh_job(chat_id: i64, title: String) -> Job {
    Job {
        chat_id,
        title,
        state: JobState::Queued,
        messages: 0,
        expected: None,
        topics: None,
        media: None,
        root: None,
    }
}

/// The first row of a chat, if the run has one.
pub open spec fn row_of(jobs: Seq<Job>, chat_id: i64) -> Option<int>
    decreases jobs.len(),
{
    if jobs.len() == 0 {
        None
    } else {
        match row_of(jobs.drop_last(), chat_id) {
            Some(k) => Some(k),
            None => if jobs.last().chat_id == chat_id { Some(jobs.len() - 1) } else { None },
        }
    }
}

proof fn lemma_row_of(jobs: Seq<Job>, chat_id: i64)
    ensures
        row_of(jobs, chat_id) matches Some(k) ==> 0 <= k < jobs.len() && jobs[k].chat_id == chat_id,
    decreases jobs.len(),
{
    if jobs.len() > 0 {
        lemma_row_of(jobs.drop_last(), chat_id);
    }
}

/// A row found in a prefix is the row of the whole run.
proof fn lemma_row_of_prefix(jobs: Seq<Job>, chat_id: i64, j: int)
    requires
        0 <= j <= jobs.len(),
        row_of(jobs.take(j), chat_id) is Some,
    ensures
        row_of(jobs, chat_id) == row_of(jobs.take(j), chat_id),
    decreases jobs.len() - j,
{
    if j < jobs.len() {
        assert(jobs.take(j + 1).drop_last() == jobs.take(j));
        lemma_row_of_prefix(jobs, chat_id, j + 1);
    } else {
        assert(jobs.take(j) == jobs);
    }
}

/// `jobs` with the first row of `chat_id` replaced by `f` of it; unchanged
/// when the run has no such chat.
pub open spec fn with_row(jobs: Seq<Job>, chat_id: i64, f: spec_fn(Job) -> Job) -> Seq<Job> {
    match row_of(jobs, chat_id) {
        Some(k) => jobs.update(k, f(jobs[k])),
        None => jobs,
    }
}

/// How many rows satisfy `p`.
pub open spec fn count_rows(jobs: Seq<Job>, p: spec_fn(JobState) -> bool) -> nat
    decreases jobs.len(),
{
    if jobs.len() == 0 {
        0
    } else {
        count_rows(jobs.drop_last(), p) + if p(jobs.last().state) { 1nat } else { 0nat }
    }
}

/// The first row being exported, if any.
pub open spec fn exporting_row(jobs: Seq<Job>) -> Option<int>
    decreases jobs.len(),
{
    if jobs.len() == 0 {
        None
    } else {
        match exporting_row(jobs.drop_last()) {
            Some(k) => Some(k),
            None => if jobs.last().state is Exporting { Some(jobs.len() - 1) } else { None },
        }
    }
}

/// The states counted under each class: 0 done, 1 failed, 2 stopped, 3
/// finished in any way.
pub open spec fn in_class(which: u8, s: JobState) -> bool {
    if which == 0 {
        s is Done
    } else if which == 1 {
        s is Failed
    } else if which == 2 {
        s is Stopped
    } else {
        finished_state(s)
    }
}

proof fn lemma_exporting_prefix(jobs: Seq<Job>, j: int)
    requires
        0 <= j <= jobs.len(),
        exporting_row(jobs.take(j)) is Some,
    ensures
        exporting_row(jobs) == exporting_row(jobs.take(j)),
    decreases jobs.len() - j,
{
    if j < jobs.len() {
        assert(jobs.take(j + 1).drop_last() == jobs.take(j));
        lemma_exporting_prefix(jobs, j + 1);
    } else {
        assert(jobs.take(j) == jobs);
    }
}

/// The caption under the bar while a run is going: the chat in flight with
/// its progress, or how many chats are finished.
pub open spec fn caption_of(jobs: Seq<Job>) -> Seq<char> {
    match exporting_row(jobs) {
        Some(k) => {
            let job = jobs[k];
            match job.expected {
                Some(total) if total > 0 => job.title@ + " \u{2014} "@ + dec(job.messages as nat) + " of "@
                    + int_text(total as int) + " messages"@,
                _ => job.title@ + " \u{2014} "@ + dec(job.messages as nat) + " messages"@,
            }
        },
        None => dec(count_rows(jobs, |s: JobState| finished_state(s))) + " of "@ + dec(jobs.len())
            + " chats"@,
    }
}

/// The one-line summary of a finished run.
pub open spec fn summary_of(jobs: Seq<Job>) -> Seq<char> {
    let done = count_rows(jobs, |s: JobState| s is Done);
    let failed = count_rows(jobs, |s: JobState| s is Failed);
    let stopped = count_rows(jobs, |s: JobState| s is Stopped);
    "Exported "@ + dec(done) + " of "@ + dec(jobs.len()) + " chats"@
        + (if failed > 0 { ", "@ + dec(failed) + " failed"@ } else { Seq::empty() })
        + (if stopped > 0 { ", "@ + dec(stopped) + " not run"@ } else { Seq::empty() })
}

/// Every job of the current run, in queue order.
#[derive(Debug)]
pub struct Queue {
    jobs: Vec<Job>,
}

impl View for Queue {
    type V = Seq<Job>;

    closed spec fn view(&self) -> Seq<Job> {
        self.jobs@
    }
}

impl Default for Queue {
    fn default() -> (q: Self)
        ensures
            q@ == Seq::<Job>::empty(),
    {
        Queue { jobs: Vec::new() }
    }
}

impl Queue {
    /// Start a run, replacing the previous one wholesale: one queued row per
    /// chat, in the order given.
    pub fn start(&mut self, chats: Vec<(i64, String)>)
        ensures
            final(self)@.len() == chats@.len(),
            forall|i: int| 0 <= i < chats@.len() ==> #[trigger] final(self)@[i] == fresh_job(chats@[i].0, chats@[i].1),
    {
        let mut jobs: Vec<Job> = Vec::new();
        let mut rest = chats;
        let ghost all = rest@;
        assert(all.skip(0) =~= all);
        while rest.len() > 0
            invariant
                jobs@.len() <= all.len(),
                rest@ == all.skip(jobs@.len() as int),
                forall|i: int| 0 <= i < jobs@.len() ==> #[trigger] jobs@[i] == fresh_job(all[i].0, all[i].1),
            decreases rest.len(),
        {
            let (id, title) = rest.remove(0);
            jobs.push(Job::new(id, title));
            assert(rest@ =~= all.skip(jobs@.len() as int));
        }
        self.jobs = jobs;
    }

    pub fn is_empty(&self) -> (b: bool)
        ensures
            b == (self@.len() == 0),
    {
        self.jobs.len() == 0
    }

    pub fn jobs(&self) -> (j: &[Job])
        ensures
            j@ == self@,
    {
        self.jobs.as_slice()
    }

    pub fn len(&self) -> (n: usize)
        ensures
            n == self@.len(),
    {
        self.jobs.len()
    }

    /// The row of a chat.
    fn job_index(&self, chat_id: i64) -> (r: Option<usize>)
        ensures
            match r {
                Some(k) => row_of(self@, chat_id) == Some(k as int),
                None => row_of(self@, chat_id) is None,
            },
    {
        let mut i: usize = 0;
        while i < self.jobs.len()
            invariant
                i <= self.jobs@.len(),
                row_of(self.jobs@.take(i as int), chat_id) is None,
            decreases self.jobs.len() - i,
        {
            proof {
                assert(self.jobs@.take(i + 1).drop_last() == self.jobs@.take(i as int));
            }
            if self.jobs[i].chat_id == chat_id {
                proof {
                    lemma_row_of_prefix(self.jobs@, chat_id, i + 1);
                }
                return Some(i);
            }
            i += 1;
        }
        assert(self.jobs@.take(self.jobs@.len() as int) == self.jobs@);
        None
    }

    pub fn began(&mut self, chat_id: i64)
        ensures
            final(self)@ == with_row(old(self)@, chat_id, |j: Job| Job { state: JobState::Exporting, ..j }),
    {
        if let Some(k) = self.job_index(chat_id) {
            proof { lemma_row_of(self@, chat_id); }
            self.jobs[k].state = JobState::Exporting;
        }
    }

    pub fn set_expected(&mut self, chat_id: i64, total: i64)
        ensures
            final(self)@ == with_row(old(self)@, chat_id, |j: Job| Job { expected: Some(total), ..j }),
    {
        if let Some(k) = self.job_index(chat_id) {
            proof { lemma_row_of(self@, chat_id); }
            self.jobs[k].expected = Some(total);
        }
    }

    pub fn set_topics(&mut self, chat_id: i64, topics: usize)
        ensures
            final(self)@ == with_row(old(self)@, chat_id, |j: Job| Job { topics: Some(topics), ..j }),
    {
        if let Some(k) = self.job_index(chat_id) {
            proof { lemma_row_of(self@, chat_id); }
            self.jobs[k].topics = Some(topics);
        }
    }

    /// Progress on the chat in flight; a total of zero or less is no total.
    pub fn progressed(&mut self, chat_id: i64, done: usize, total: i64)
        ensures
            final(self)@ == with_row(
                old(self)@,
                chat_id,
                |j: Job|
                    Job {
                        state: JobState::Exporting,
                        messages: done,
                        expected: if total > 0 { Some(total) } else { j.expected },
                        ..j
                    },
            ),
    {
        if let Some(k) = self.job_index(chat_id) {
            proof { lemma_row_of(self@, chat_id); }
            self.jobs[k].state = JobState::Exporting;
            self.jobs[k].messages = done;
            if total > 0 {
                self.jobs[k].expected = Some(total);
            }
        }
    }

    /// A chat has finished. `topics` is `None` for a chat with no topics,
    /// and then what was counted at the start is kept.
    pub fn finished(
        &mut self,
        chat_id: i64,
        messages: usize,
        expected: i64,
        topics: Option<usize>,
        media_downloaded: usize,
        media_failed: usize,
        root: PathBuf,
    )
        ensures
            final(self)@ == with_row(
                old(self)@,
                chat_id,
                |j: Job|
                    Job {
                        state: JobState::Done,
                        messages,
                        expected: Some(expected),
                        topics: if topics is Some { topics } else { j.topics },
                        media: Some((media_downloaded, media_failed)),
                        root: Some(root),
                        ..j
                    },
            ),
    {
        if let Some(k) = self.job_index(chat_id) {
            proof { lemma_row_of(self@, chat_id); }
            self.jobs[k].state = JobState::Done;
            self.jobs[k].messages = messages;
            self.jobs[k].expected = Some(expected);
            if topics.is_some() {
                self.jobs[k].topics = topics;
            }
            self.jobs[k].media = Some((media_downloaded, media_failed));
            self.jobs[k].root = Some(root);
        }
    }

    /// The title of a queued chat, for the status line.
    pub fn title_of(&self, chat_id: i64) -> (t: Option<&str>)
        ensures
            match row_of(self@, chat_id) {
                Some(k) => t matches Some(s) && s@ == self@[k].title@,
                None => t is None,
            },
    {
        match self.job_index(chat_id) {
            Some(k) => {
                proof { lemma_row_of(self@, chat_id); }
                Some(self.jobs[k].title.as_str())
            },
            None => None,
        }
    }

    /// The first row being exported.
    fn exporting_index(&self) -> (r: Option<usize>)
        ensures
            match r {
                Some(k) => exporting_row(self@) == Some(k as int) && k < self@.len(),
                None => exporting_row(self@) is None,
            },
    {
        let mut i: usize = 0;
        while i < self.jobs.len()
            invariant
                i <= self.jobs@.len(),
                exporting_row(self.jobs@.take(i as int)) is None,
            decreases self.jobs.len() - i,
        {
            proof {
                assert(self.jobs@.take(i + 1).drop_last() == self.jobs@.take(i as int));
            }
            if matches!(self.jobs[i].state, JobState::Exporting) {
                proof {
                    lemma_exporting_prefix(self.jobs@, i + 1);
                }
                return Some(i);
            }
            i += 1;
        }
        assert(self.jobs@.take(self.jobs@.len() as int) == self.jobs@);
        None
    }

    /// How many rows have a state for which `which` holds: 0 done, 1 failed,
    /// 2 stopped, 3 finished in any way.
    fn count_where(&self, which: u8) -> (n: usize)
        requires
            which < 4,
        ensures
            n == count_rows(self@, |s: JobState| in_class(which, s)),
    {
        let ghost p = |s: JobState| in_class(which, s);
        let mut n: usize = 0;
        let mut i: usize = 0;
        while i < self.jobs.len()
            invariant
                i <= self.jobs@.len(),
                which < 4,
                p == (|s: JobState| in_class(which, s)),
                n == count_rows(self.jobs@.take(i as int), p),
                n <= i,
            decreases self.jobs.len() - i,
        {
            let hit = match &self.jobs[i].state {
                JobState::Done => which == 0 || which == 3,
                JobState::Failed(_) => which == 1 || which == 3,
                JobState::Stopped => which == 2 || which == 3,
                _ => false,
            };
            proof {
                assert(self.jobs@.take(i + 1).drop_last() == self.jobs@.take(i as int));
                assert(hit == p(self.jobs@[i as int].state));
            }
            if hit {
                n += 1;
            }
            i += 1;
        }
        assert(self.jobs@.take(self.jobs@.len() as int) == self.jobs@);
        n
    }

    /// What the bar is doing, said in the present tense.
    pub fn running_caption(&self) -> (s: String)
        ensures
            s@ == caption_of(self@),
    {
        let mut v: Vec<char> = Vec::new();
        match self.exporting_index() {
            Some(k) => {
                let job = &self.jobs[k];
                push_all(&mut v, job.title.as_str());
                push_all(&mut v, " \u{2014} ");
                push_dec(&mut v, job.messages as u64);
                match job.expected {
                    Some(total) if total > 0 => {
                        push_all(&mut v, " of ");
                        push_int(&mut v, total);
                        push_all(&mut v, " messages");
                    },
                    _ => {
                        push_all(&mut v, " messages");
                    },
                }
            },
            None => {
                let done = self.count_where(3);
                proof { assert((|s: JobState| in_class(3, s)) =~= (|s: JobState| finished_state(s))); }
                push_dec(&mut v, done as u64);
                push_all(&mut v, " of ");
                push_dec(&mut v, self.jobs.len() as u64);
                push_all(&mut v, " chats");
            },
        }
        assert(Seq::<char>::empty() + caption_of(self@) == caption_of(self@));
        string_of(&v)
    }

    pub fn failed(&mut self, chat_id: i64, why: String)
        ensures
            final(self)@ == with_row(old(self)@, chat_id, |j: Job| Job { state: JobState::Failed(why), ..j }),
    {
        if let Some(k) = self.job_index(chat_id) {
            proof { lemma_row_of(self@, chat_id); }
            self.jobs[k].state = JobState::Failed(why);
        }
    }

    /// Mark whatever never ran as stopped, once a run has ended early: no
    /// row is left reading queued or exporting.
    pub fn stop_remaining(&mut self)
        ensures
            final(self)@.len() == old(self)@.len(),
            forall|i: int| 0 <= i < final(self)@.len() ==> finished_state(#[trigger] final(self)@[i].state),
            forall|i: int| 0 <= i < old(self)@.len() ==> #[trigger] final(self)@[i] == (
                if finished_state(old(self)@[i].state) { old(self)@[i] } else { Job { state: JobState::Stopped, ..old(self)@[i] } }),
    {
        let mut i: usize = 0;
        while i < self.jobs.len()
            invariant
                i <= self.jobs@.len() == old(self)@.len(),
                forall|k: int| i <= k < old(self)@.len() ==> #[trigger] self.jobs@[k] == old(self)@[k],
                forall|k: int| 0 <= k < i ==> #[trigger] self.jobs@[k] == (
                    if finished_state(old(self)@[k].state) { old(self)@[k] } else { Job { state: JobState::Stopped, ..old(self)@[k] } }),
            decreases self.jobs.len() - i,
        {
            if !self.jobs[i].state.is_finished() {
                self.jobs[i].state = JobState::Stopped;
            }
            i += 1;
        }
    }

    /// What the progress bar is drawn from: how many chats are finished, the
    /// chat in flight's `(messages, total)` when it has a positive total, and
    /// how many chats the run has; `None` for an empty run, whose progress is
    /// unknown rather than zero.
    pub fn progress_parts(&self) -> (r: Option<(usize, Option<(usize, i64)>, usize)>)
        ensures
            self@.len() == 0 ==> r is None,
            self@.len() > 0 ==> r == Some((
                count_rows(self@, |s: JobState| finished_state(s)) as usize,
                match exporting_row(self@) {
                    Some(k) => match self@[k].expected {
                        Some(t) if t > 0 => Some((self@[k].messages, t)),
                        _ => None,
                    },
                    None => None,
                },
                self@.len() as usize,
            )),
    {
        if self.jobs.len() == 0 {
            return None;
        }
        let finished = self.count_where(3);
        proof { assert((|s: JobState| in_class(3, s)) =~= (|s: JobState| finished_state(s))); }
        let running = match self.exporting_index() {
            Some(k) => match self.jobs[k].expected {
                Some(t) if t > 0 => Some((self.jobs[k].messages, t)),
                _ => None,
            },
            None => None,
        };
        Some((finished, running, self.jobs.len()))
    }

    /// One line summarising the run, for the status bar.
    pub fn summary(&self) -> (s: String)
        ensures
            s@ == summary_of(self@),
    {
        let done = self.count_where(0);
        let failed = self.count_where(1);
        let stopped = self.count_where(2);
        proof {
            assert((|s: JobState| in_class(0, s)) =~= (|s: JobState| s is Done));
            assert((|s: JobState| in_class(1, s)) =~= (|s: JobState| s is Failed));
            assert((|s: JobState| in_class(2, s)) =~= (|s: JobState| s is Stopped));
        }
        let mut v: Vec<char> = Vec::new();
        push_all(&mut v, "Exported ");
        push_dec(&mut v, done as u64);
        push_all(&mut v, " of ");
        push_dec(&mut v, self.jobs.len() as u64);
        push_all(&mut v, " chats");
        if failed > 0 {
            push_all(&mut v, ", ");
            push_dec(&mut v, failed as u64);
            push_all(&mut v, " failed");
        }
        if stopped > 0 {
            push_all(&mut v, ", ");
            push_dec(&mut v, stopped as u64);
            push_all(&mut v, " not run");
        }
        assert(Seq::<char>::empty() + summary_of(self@) == summary_of(self@));
        string_of(&v)
    }

    /// Where a finished job wrote its export, if it finished.
    pub fn root_of(&self, chat_id: i64) -> (r: Option<&PathBuf>)
        ensures
            match row_of(self@, chat_id) {
                Some(k) => match self@[k].root {
                    Some(p) => r == Some(&p),
                    None => r is None,
                },
                None => r is None,
            },
    {
        match self.job_index(chat_id) {
            Some(k) => {
                proof { lemma_row_of(self@, chat_id); }
                match &self.jobs[k].root {
                    Some(p) => Some(p),
                    None => None,
                }
            },
            None => None,
        }
    }

}

} // verus!
