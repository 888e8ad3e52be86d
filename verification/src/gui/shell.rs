//! The window's state, and how a worker event changes it.
//!
//! Everything here is data: the chat list and its ticks, the status line,
//! the log, the queue, and which jobs are running. The window paints it and
//! performs what a change asks for; deciding the change is this module's.
//!
//! **One writer per fact.** A chat's message count has three sources -- the
//! Count button, the total an export looks up, and the number an export wrote
//! -- and one setter.

use std::path::PathBuf;
use vstd::prelude::*;
use vstd::hash_set::HashSetWithView;
use crate::gui::journal::{written, Journal, JournalView};
use crate::gui::list::{
    buckets_of, category_key, matched_categories, members_of, mode_for_key, needle_of,
    reopen_matched, rows, rows_plan, visible, Category, ChatInfo, Folds, ListView, Row, RowPlan,
    SortMode, CATEGORIES,
};
use crate::gui::login::Stage;
use crate::gui::queue::{caption_of, finished_state, fresh_job, row_of, summary_of, with_row, Job, JobState, Queue};
use crate::gui::window::Activity;
use crate::strings::{
    chars_of, dec, owned, parse_i64, parse_int, push_all, push_dec, string_of, string_of_range,
    trim, trim_bounds,
};

verus! {

/// What a worker tells the window.
#[derive(Debug)]
pub enum Event {
    Status(String),
    Log(String),
    /// A log line that matters. The writer decides, never the text.
    Warn(String),
    SignedIn(String),
    /// The sign-in advanced a step: a code was sent, or 2FA is wanted.
    LoginStage(Stage),
    /// The step failed, and the dialog stays open saying why.
    LoginFailed(String),
    /// The loaded chat list.
    Chats(Vec<ChatInfo>),
    /// One chat's total. `None` is not zero: Telegram would not say.
    Counted { chat_id: i64, total: Option<i64> },
    /// How far the count has got, in chats.
    CountProgress { done: usize, total: usize },
    /// The count ended, however it ended.
    CountFinished { counted: usize, failed: usize },
    ChatStarted { chat_id: i64, title: String },
    /// The total this chat's export looked up.
    ChatTotal { chat_id: i64, total: i64 },
    /// How many topic folders this chat will produce.
    ChatTopics { chat_id: i64, topics: usize },
    Progress { chat_id: i64, done: usize, total: i64 },
    /// A finished chat; `messages` is what was written.
    ChatDone {
        chat_id: i64,
        messages: usize,
        expected: i64,
        /// Topic folders written, or `None` for a chat that has no topics.
        topics: Option<usize>,
        media_downloaded: usize,
        media_failed: usize,
        root: PathBuf,
    },
    /// A cancelled or failed export writes no count at all.
    ChatFailed { chat_id: i64, message: String },
    /// A rate-limit wait, in seconds.
    FloodWait(u64),
    /// The queue ended, and whether it was stopped.
    Finished { stopped: bool },
    /// An action failed, and which action it was.
    Failed { activity: Activity, message: String },
}

/// The stop signal: raised by Stop, read by the worker, lowered when a new
/// run begins.
#[derive(Debug)]
pub struct Cancel {
    cancelled: bool,
}

impl Cancel {
    pub closed spec fn raised(&self) -> bool {
        self.cancelled
    }

    pub fn new() -> (c: Self)
        ensures
            !c.raised(),
    {
        Cancel { cancelled: false }
    }

    pub fn cancel(&mut self)
        ensures
            final(self).raised(),
    {
        self.cancelled = true;
    }

    pub fn reset(&mut self)
        ensures
            !final(self).raised(),
    {
        self.cancelled = false;
    }

    pub fn is_cancelled(&self) -> (b: bool)
        ensures
            b == self.raised(),
    {
        self.cancelled
    }
}

/// The open sign-in dialog, as far as events change it.
#[derive(Debug)]
pub struct LoginState {
    pub stage: Stage,
    /// A request is in flight.
    pub busy: bool,
    /// The error has been copied since it appeared.
    pub copied: bool,
    pub error: Option<String>,
}

/// A dialog as its stage, busy flag, copied flag and error.
pub open spec fn login_view(d: LoginState) -> (Stage, bool, bool, Option<Seq<char>>) {
    (d.stage, d.busy, d.copied, match d.error { Some(e) => Some(e@), None => None })
}

/// The ticked chats, held by id so they survive re-sorting and filtering.
pub struct Selection {
    ids: HashSetWithView<i64>,
}

impl View for Selection {
    type V = Set<i64>;

    closed spec fn view(&self) -> Set<i64> {
        self.ids@
    }
}

/// Does the list hold a chat with this id?
pub open spec fn has_chat(chats: Seq<ChatInfo>, id: i64) -> bool {
    exists|k: int| 0 <= k < chats.len() && #[trigger] chats[k].id == id
}

impl Selection {
    /// How many chats are ticked.
    pub fn len(&self) -> (n: usize)
        ensures
            n == self@.len(),
    {
        self.ids.len()
    }

    pub fn new() -> (s: Self)
        ensures
            s@ == Set::<i64>::empty(),
    {
        broadcast use vstd::std_specs::hash::group_hash_axioms;
        Selection { ids: HashSetWithView::new() }
    }

    pub fn contains(&self, id: &i64) -> (b: bool)
        ensures
            b == self@.contains(*id),
    {
        self.ids.contains(id)
    }

    /// Tick a chat; says whether it was unticked before.
    pub fn insert(&mut self, id: i64) -> (b: bool)
        ensures
            final(self)@ == old(self)@.insert(id),
            b == !old(self)@.contains(id),
    {
        self.ids.insert(id)
    }

    /// Untick a chat; says whether it was ticked.
    pub fn remove(&mut self, id: &i64) -> (b: bool)
        ensures
            final(self)@ == old(self)@.remove(*id),
            b == old(self)@.contains(*id),
    {
        self.ids.remove(id)
    }

    /// Is nothing ticked?
    pub fn is_empty(&self) -> (b: bool)
        ensures
            b == (self@ == Set::<i64>::empty()),
    {
        let b = self.ids.is_empty();
        proof {
            if !b {
                let x = choose|x: i64| self@.contains(x);
                assert(!Set::<i64>::empty().contains(x));
            } else {
                assert(self@ =~= Set::<i64>::empty());
            }
        }
        b
    }

    /// Untick everything.
    pub fn clear(&mut self)
        ensures
            final(self)@ == Set::<i64>::empty(),
    {
        self.ids.clear();
    }

    /// Keep only the ticks whose chat is still in the list.
    pub fn retain_listed(&mut self, chats: &Vec<ChatInfo>)
        ensures
            final(self)@ == old(self)@.filter(|id: i64| has_chat(chats@, id)),
    {
        broadcast use vstd::std_specs::hash::group_hash_axioms;
        let mut kept: HashSetWithView<i64> = HashSetWithView::new();
        let mut i: usize = 0;
        while i < chats.len()
            invariant
                i <= chats@.len(),
                self.ids@ == old(self).ids@,
                forall|x: i64| #[trigger] kept@.contains(x) <==> (self.ids@.contains(x) && has_chat(chats@.take(i as int), x)),
            decreases chats.len() - i,
        {
            let id = chats[i].id;
            if self.ids.contains(&id) {
                kept.insert(id);
            }
            proof {
                let t = chats@.take(i + 1);
                assert forall|x: i64| #[trigger] kept@.contains(x) <==> (self.ids@.contains(x) && has_chat(t, x)) by {
                    if has_chat(chats@.take(i as int), x) {
                        let k = choose|k: int| 0 <= k < chats@.take(i as int).len() && #[trigger] chats@.take(i as int)[k].id == x;
                        assert(t[k].id == x);
                    }
                    if has_chat(t, x) && x != id {
                        let k = choose|k: int| 0 <= k < t.len() && #[trigger] t[k].id == x;
                        assert(k < i);
                        assert(chats@.take(i as int)[k].id == x);
                    }
                    if x == id {
                        assert(t[i as int].id == x);
                    }
                }
            }
            i += 1;
        }
        proof {
            assert(chats@.take(chats@.len() as int) == chats@);
        }
        self.ids = kept;
        assert(self@ =~= old(self)@.filter(|id: i64| has_chat(chats@, id)));
    }
}

/// One row as the list paints it: owned, because it is a cache rebuilt when
/// the chats, the filter, the sort, the grouping or a fold changes.
#[derive(Debug)]
pub enum PaintedRow {
    Heading { category: Category, total: usize, folded: bool },
    Chat(ChatInfo),
}

/// A cached row is the planned one.
pub open spec fn painted_is(r: PaintedRow, p: RowPlan, chats: Seq<ChatInfo>) -> bool {
    match (r, p) {
        (PaintedRow::Heading { category, total, folded }, RowPlan::Heading { category: c, total: t, folded: f }) =>
            category == c && total == t && folded == f,
        (PaintedRow::Chat(c), RowPlan::Chat(i)) => i < chats.len() && c == chats[i as int],
        _ => false,
    }
}

fn copy_chat(c: &ChatInfo) -> (r: ChatInfo)
    ensures
        r == *c,
{
    ChatInfo {
        id: c.id,
        title: c.title.clone(),
        kind: c.kind,
        last_activity: c.last_activity,
        is_forum: c.is_forum,
        public: c.public,
        message_count: c.message_count,
    }
}

/// The first chat with this id.
pub open spec fn chat_index(chats: Seq<ChatInfo>, id: i64) -> Option<int>
    decreases chats.len(),
{
    if chats.len() == 0 {
        None
    } else {
        match chat_index(chats.drop_last(), id) {
            Some(k) => Some(k),
            None => if chats.last().id == id { Some(chats.len() - 1) } else { None },
        }
    }
}

proof fn lemma_chat_index(chats: Seq<ChatInfo>, id: i64)
    ensures
        chat_index(chats, id) matches Some(k) ==> 0 <= k < chats.len() && chats[k].id == id
            && forall|j: int| 0 <= j < k ==> #[trigger] chats[j].id != id,
        chat_index(chats, id) is None ==> forall|j: int| 0 <= j < chats.len() ==> #[trigger] chats[j].id != id,
    decreases chats.len(),
{
    if chats.len() > 0 {
        lemma_chat_index(chats.drop_last(), id);
        assert forall|j: int| 0 <= j < chats.len() - 1 implies #[trigger] chats[j] == chats.drop_last()[j] by {}
    }
}

proof fn lemma_chat_index_prefix(chats: Seq<ChatInfo>, id: i64, i: int)
    requires
        0 < i <= chats.len(),
        chats[i - 1].id == id,
        chat_index(chats.take(i - 1), id) is None,
    ensures
        chat_index(chats, id) == Some(i - 1),
    decreases chats.len(),
{
    if i < chats.len() {
        assert(chats.drop_last().take(i - 1) == chats.take(i - 1));
        lemma_chat_index_prefix(chats.drop_last(), id, i);
    } else {
        assert(chats.drop_last() == chats.take(i - 1));
    }
}

/// A chat's count, when the list has the chat and the chat has a count.
pub open spec fn count_in(chats: Seq<ChatInfo>, id: i64) -> Option<i64> {
    match chat_index(chats, id) {
        Some(k) => chats[k].message_count,
        None => None,
    }
}

/// The list with a count put on a chat; a chat the list lacks is ignored.
pub open spec fn with_count(chats: Seq<ChatInfo>, id: i64, count: Option<i64>) -> Seq<ChatInfo> {
    match chat_index(chats, id) {
        Some(k) => chats.update(k, ChatInfo { message_count: count, ..chats[k] }),
        None => chats,
    }
}

/// The count an earlier list carried for a chat: the last row with this id
/// that had one.
pub open spec fn known_count(chats: Seq<ChatInfo>, id: i64) -> Option<i64>
    decreases chats.len(),
{
    if chats.len() == 0 {
        None
    } else if chats.last().id == id && chats.last().message_count is Some {
        chats.last().message_count
    } else {
        known_count(chats.drop_last(), id)
    }
}

/// A refreshed list with the counts of the old one carried across by id,
/// where the new row has none.
pub open spec fn carried(now: Seq<ChatInfo>, before: Seq<ChatInfo>) -> Seq<ChatInfo> {
    now.map_values(|c: ChatInfo| if c.message_count is None {
        ChatInfo { message_count: known_count(before, c.id), ..c }
    } else {
        c
    })
}

/// Every row that never finished, marked stopped.
pub open spec fn stopped_all(jobs: Seq<Job>) -> Seq<Job> {
    jobs.map_values(|j: Job| if finished_state(j.state) { j } else { Job { state: JobState::Stopped, ..j } })
}

/// The title of a queued chat.
pub open spec fn title_in(jobs: Seq<Job>, chat_id: i64) -> Option<Seq<char>> {
    match row_of(jobs, chat_id) {
        Some(k) => Some(jobs[k].title@),
        None => None,
    }
}

/// The window's state as events change it.
pub struct ShellView {
    pub signed_in: bool,
    pub loaded: bool,
    pub exporting: bool,
    pub counting: bool,
    pub cancelled: bool,
    pub chats: Seq<ChatInfo>,
    pub selected: Set<i64>,
    pub rows_stale: bool,
    pub status: Seq<char>,
    pub failure: Option<Seq<char>>,
    pub journal: JournalView,
    pub queue: Seq<Job>,
    pub count_progress: Option<(usize, usize)>,
    pub login: Option<(Stage, bool, bool, Option<Seq<char>>)>,
    pub log_copied: bool,
}

/// What one event does to the window's state.
pub open spec fn step(s: ShellView, e: Event) -> ShellView {
    match e {
        Event::Status(t) => ShellView { status: t@, ..s },
        Event::Log(t) => ShellView { journal: written(s.journal, (t@, false)), log_copied: false, ..s },
        Event::Warn(t) => ShellView { journal: written(s.journal, (t@, true)), log_copied: false, ..s },
        Event::SignedIn(name) => ShellView { signed_in: true, login: None, status: "Signed in: "@ + name@, ..s },
        Event::LoginStage(stage) => ShellView {
            login: match s.login {
                Some(d) => Some((stage, false, d.2, d.3)),
                None => None,
            },
            ..s
        },
        Event::LoginFailed(msg) => ShellView {
            login: match s.login {
                Some(d) => Some((d.0, false, false, Some(msg@))),
                None => None,
            },
            ..s
        },
        Event::Chats(chats) => {
            let now = carried(chats@, s.chats);
            ShellView {
                loaded: true,
                chats: now,
                selected: s.selected.filter(|id: i64| has_chat(now, id)),
                status: dec(chats@.len()) + " chats"@,
                rows_stale: false,
                ..s
            }
        },
        Event::Counted { chat_id, total } => ShellView { chats: with_count(s.chats, chat_id, total), rows_stale: true, ..s },
        Event::CountProgress { done, total } => if s.exporting {
            s
        } else {
            ShellView {
                count_progress: Some((done, total)),
                status: "Counting "@ + dec(done as nat) + " of "@ + dec(total as nat) + " chats"@,
                ..s
            }
        },
        Event::CountFinished { counted, failed } => ShellView {
            counting: false,
            count_progress: None,
            status: if s.exporting {
                s.status
            } else {
                "Counted "@ + dec(counted as nat) + " chats"@
                    + if failed > 0 { ", "@ + dec(failed as nat) + " could not be counted"@ } else { Seq::empty() }
            },
            rows_stale: false,
            ..s
        },
        Event::ChatStarted { chat_id, title } => ShellView {
            queue: with_row(s.queue, chat_id, |j: Job| Job { state: JobState::Exporting, ..j }),
            status: "Exporting "@ + title@,
            ..s
        },
        Event::ChatTotal { chat_id, total } => {
            let q = with_row(s.queue, chat_id, |j: Job| Job { expected: Some(total), ..j });
            if count_in(s.chats, chat_id) is None {
                ShellView { queue: q, chats: with_count(s.chats, chat_id, Some(total)), rows_stale: true, ..s }
            } else {
                ShellView { queue: q, ..s }
            }
        },
        Event::ChatTopics { chat_id, topics } => ShellView {
            queue: with_row(s.queue, chat_id, |j: Job| Job { topics: Some(topics), ..j }),
            ..s
        },
        Event::Progress { chat_id, done, total } => {
            let q = with_row(s.queue, chat_id, |j: Job| Job {
                state: JobState::Exporting,
                messages: done,
                expected: if total > 0 { Some(total) } else { j.expected },
                ..j
            });
            ShellView {
                queue: q,
                status: match title_in(q, chat_id) {
                    Some(t) => "Exporting "@ + t,
                    None => s.status,
                },
                ..s
            }
        },
        Event::ChatDone { chat_id, messages, expected, topics, media_downloaded, media_failed, root } => ShellView {
            queue: with_row(s.queue, chat_id, |j: Job| Job {
                state: JobState::Done,
                messages,
                expected: Some(expected),
                topics: if topics is Some { topics } else { j.topics },
                media: Some((media_downloaded, media_failed)),
                root: Some(root),
                ..j
            }),
            chats: with_count(s.chats, chat_id, Some(messages as i64)),
            rows_stale: true,
            ..s
        },
        Event::ChatFailed { chat_id, message } => {
            let q = with_row(s.queue, chat_id, |j: Job| Job { state: JobState::Failed(message), ..j });
            let line = match title_in(q, chat_id) {
                Some(t) => t + ": "@ + message@,
                None => message@,
            };
            ShellView { queue: q, journal: written(s.journal, (line, true)), ..s }
        },
        Event::FloodWait(seconds) => ShellView { status: "Rate limited, waiting "@ + dec(seconds as nat) + "s"@, ..s },
        Event::Finished { stopped } => {
            let q = if stopped { stopped_all(s.queue) } else { s.queue };
            let summary = summary_of(q);
            ShellView {
                exporting: false,
                queue: q,
                journal: written(s.journal, (summary, false)),
                status: match s.failure {
                    Some(why) => summary + ": "@ + why,
                    None => summary,
                },
                failure: None,
                rows_stale: false,
                ..s
            }
        },
        Event::Failed { activity, message } => {
            let base = match activity {
                Activity::Export => ShellView { exporting: false, failure: Some(message@), ..s },
                Activity::Count => ShellView { counting: false, ..s },
                _ => s,
            };
            ShellView { status: "Failed: "@ + message@, journal: written(s.journal, (message@, true)), ..base }
        },
    }
}

/// Does this event rebuild the rows there and then?
pub open spec fn rebuilds(e: Event) -> bool {
    e is Chats || e is CountFinished || e is Finished
}

/// The window's state, everything a painter reads.
pub struct Shell {
    pub signed_in: bool,
    /// The list is empty both before a sign-in and after one that found
    /// nothing, and those need opposite instructions.
    pub loaded: bool,
    pub exporting: bool,
    pub counting: bool,
    /// The stop signal the worker reads.
    pub cancel: Cancel,
    pub chats: Vec<ChatInfo>,
    pub selected: Selection,
    pub view: ListView,
    pub rows: Vec<PaintedRow>,
    /// Something changed what the rows would be; they are rebuilt once at
    /// the end of an event batch.
    pub rows_stale: bool,
    /// How many chats the filter leaves, cached with the rows. A folded
    /// category's chats still count.
    pub visible_count: usize,
    pub status: String,
    /// Why the run could not proceed, if something said so, until the run
    /// ends.
    pub failure: Option<String>,
    pub journal: Journal,
    pub queue: Queue,
    /// Chats counted so far, and how many there are. The export owns the bar
    /// while it runs.
    pub count_progress: Option<(usize, usize)>,
    /// One dialog, ever.
    pub login: Option<LoginState>,
    /// Whether the log's Copy control has been used since the last line.
    pub log_copied: bool,
}

impl Shell {
    pub open spec fn model(&self) -> ShellView {
        ShellView {
            signed_in: self.signed_in,
            loaded: self.loaded,
            exporting: self.exporting,
            counting: self.counting,
            cancelled: self.cancel.raised(),
            chats: self.chats@,
            selected: self.selected@,
            rows_stale: self.rows_stale,
            status: self.status@,
            failure: match self.failure { Some(f) => Some(f@), None => None },
            journal: self.journal@,
            queue: self.queue@,
            count_progress: self.count_progress,
            login: match self.login { Some(d) => Some(login_view(d)), None => None },
            log_copied: self.log_copied,
        }
    }

    /// The cached rows and count are what the chats and the view give now.
    pub open spec fn rows_fresh(&self) -> bool {
        let plan = rows_plan(buckets_of(self.chats@, self.view.filter@, self.view.sort, self.view.grouped), self.view.folded@);
        &&& self.visible_count == members_of(buckets_of(self.chats@, self.view.filter@, self.view.sort, self.view.grouped)).len()
        &&& self.rows@.len() == plan.len()
        &&& forall|k: int| 0 <= k < self.rows@.len() ==> #[trigger] painted_is(self.rows@[k], plan[k], self.chats@)
    }

    /// A window that has heard nothing yet, its list arranged as `view`.
    pub fn new(view: ListView) -> (s: Self)
        ensures
            s.model() == (ShellView {
                signed_in: false,
                loaded: false,
                exporting: false,
                counting: false,
                cancelled: false,
                chats: Seq::empty(),
                selected: Set::empty(),
                rows_stale: false,
                status: "Not signed in"@,
                failure: None,
                journal: JournalView { lines: Seq::empty(), dropped: 0 },
                queue: Seq::empty(),
                count_progress: None,
                login: None,
                log_copied: false,
            }),
            s.view == view,
            s.rows@.len() == 0,
            s.visible_count == 0,
    {
        let s = Shell {
            signed_in: false,
            loaded: false,
            exporting: false,
            counting: false,
            cancel: Cancel::new(),
            chats: Vec::new(),
            selected: Selection::new(),
            view,
            rows: Vec::new(),
            rows_stale: false,
            visible_count: 0,
            status: owned("Not signed in"),
            failure: None,
            journal: Journal::new(),
            queue: Queue::default(),
            count_progress: None,
            login: None,
            log_copied: false,
        };
        proof {
            reveal_strlit("Not signed in");
        }
        s
    }

    /// Recompute the painted rows and the visible count.
    pub fn rebuild_rows(&mut self)
        ensures
            final(self).model() == (ShellView { rows_stale: false, ..old(self).model() }),
            final(self).view == old(self).view,
            final(self).rows_fresh(),
    {
        self.rows_stale = false;
        let n = visible(self.chats.as_slice(), &self.view).len();
        let plan_rows = rows(self.chats.as_slice(), &self.view);
        let ghost plan = rows_plan(buckets_of(self.chats@, self.view.filter@, self.view.sort, self.view.grouped), self.view.folded@);
        let mut painted: Vec<PaintedRow> = Vec::new();
        let mut k: usize = 0;
        while k < plan_rows.len()
            invariant
                k <= plan_rows@.len(),
                plan_rows@.len() == plan.len(),
                forall|x: int| 0 <= x < plan_rows@.len() ==> #[trigger] crate::gui::list::row_is(plan_rows@[x], plan[x], self.chats@),
                painted@.len() == k,
                forall|x: int| 0 <= x < k ==> #[trigger] painted_is(painted@[x], plan[x], self.chats@),
            decreases plan_rows.len() - k,
        {
            let r = match &plan_rows[k] {
                Row::Heading { category, total, folded } => PaintedRow::Heading { category: *category, total: *total, folded: *folded },
                Row::Chat(c) => PaintedRow::Chat(copy_chat(c)),
            };
            assert(crate::gui::list::row_is(plan_rows@[k as int], plan[k as int], self.chats@));
            painted.push(r);
            k += 1;
        }
        self.visible_count = n;
        self.rows = painted;
    }

    /// Rebuild the rows if something has invalidated them.
    pub fn rebuild_rows_if_stale(&mut self)
        ensures
            final(self).model() == (ShellView { rows_stale: false, ..old(self).model() }),
            final(self).view == old(self).view,
            old(self).rows_stale ==> final(self).rows_fresh(),
            !old(self).rows_stale ==> final(self).rows == old(self).rows && final(self).visible_count == old(self).visible_count,
    {
        if self.rows_stale {
            self.rebuild_rows();
        }
    }

    /// Put a message count on a chat: the only place that does. `None` means
    /// not counted, and is not zero.
    pub fn set_count(&mut self, chat_id: i64, count: Option<i64>)
        ensures
            final(self).model() == (ShellView {
                chats: with_count(old(self).chats@, chat_id, count),
                rows_stale: true,
                ..old(self).model()
            }),
            final(self).view == old(self).view,
            final(self).rows == old(self).rows,
            final(self).visible_count == old(self).visible_count,
    {
        match self.chat_position(chat_id) {
            Some(k) => {
                proof { lemma_chat_index(self.chats@, chat_id); }
                let mut c = copy_chat(&self.chats[k]);
                c.message_count = count;
                self.chats.set(k, c);
            },
            None => {},
        }
        self.rows_stale = true;
    }

    fn chat_position(&self, chat_id: i64) -> (r: Option<usize>)
        ensures
            match r {
                Some(k) => chat_index(self.chats@, chat_id) == Some(k as int),
                None => chat_index(self.chats@, chat_id) is None,
            },
    {
        let mut i: usize = 0;
        while i < self.chats.len()
            invariant
                i <= self.chats@.len(),
                chat_index(self.chats@.take(i as int), chat_id) is None,
            decreases self.chats.len() - i,
        {
            proof {
                assert(self.chats@.take(i + 1).drop_last() == self.chats@.take(i as int));
            }
            if self.chats[i].id == chat_id {
                proof {
                    lemma_chat_index_prefix(self.chats@, chat_id, i + 1);
                }
                return Some(i);
            }
            i += 1;
        }
        assert(self.chats@.take(self.chats@.len() as int) == self.chats@);
        None
    }

    /// A chat's count, when it has one.
    pub fn count_of(&self, chat_id: i64) -> (r: Option<i64>)
        ensures
            r == count_in(self.chats@, chat_id),
    {
        match self.chat_position(chat_id) {
            Some(k) => {
                proof { lemma_chat_index(self.chats@, chat_id); }
                self.chats[k].message_count
            },
            None => None,
        }
    }

    /// The chats the filter leaves visible: what All, None and Invert act
    /// on.
    pub fn visible(&self) -> (r: Vec<&ChatInfo>)
        ensures
            r@.len() == members_of(buckets_of(self.chats@, self.view.filter@, self.view.sort, self.view.grouped)).len(),
            forall|k: int| 0 <= k < r@.len() ==> {
                let i = #[trigger] members_of(buckets_of(self.chats@, self.view.filter@, self.view.sort, self.view.grouped))[k];
                i < self.chats@.len() && *r@[k] == self.chats@[i as int]
            },
    {
        visible(self.chats.as_slice(), &self.view)
    }

    /// All, None and Invert act on the visible rows, so over an empty list
    /// every one is a no-op, and is offered only when there is something.
    pub fn selection_actions_enabled(&self) -> (b: bool)
        ensures
            b == (self.visible_count > 0),
    {
        self.visible_count > 0
    }
}

fn known(chats: &Vec<ChatInfo>, id: i64) -> (r: Option<i64>)
    ensures
        r == known_count(chats@, id),
{
    let mut j: usize = chats.len();
    assert(chats@.take(j as int) == chats@);
    while j > 0
        invariant
            j <= chats@.len(),
            known_count(chats@, id) == known_count(chats@.take(j as int), id),
        decreases j,
    {
        j -= 1;
        assert(chats@.take(j + 1).drop_last() == chats@.take(j as int));
        assert(chats@.take(j + 1).last() == chats@[j as int]);
        if chats[j].id == id && chats[j].message_count.is_some() {
            return chats[j].message_count;
        }
    }
    None
}

/// The rows cache after an event: rebuilt for the events that rebuild it,
/// untouched for the rest.
pub open spec fn rows_after(before: &Shell, after: &Shell, e: Event) -> bool {
    &&& after.view == before.view
    &&& rebuilds(e) ==> after.rows_fresh()
    &&& !rebuilds(e) ==> after.rows == before.rows && after.visible_count == before.visible_count
}

impl Shell {
    fn on_signed_in(&mut self, name: String)
        ensures
            final(self).model() == step(old(self).model(), Event::SignedIn(name)),
            rows_after(old(self), final(self), Event::SignedIn(name)),
    {
        self.signed_in = true;
        // Success just closes the dialog: the status bar says it.
        self.login = None;
        let mut v: Vec<char> = Vec::new();
        push_all(&mut v, "Signed in: ");
        push_all(&mut v, name.as_str());
        self.status = string_of(&v);
    }

    fn on_login(&mut self, stage: Option<Stage>, error: Option<String>)
        requires
            stage is Some <==> error is None,
        ensures
            final(self).model() == step(old(self).model(), match stage {
                Some(st) => Event::LoginStage(st),
                None => Event::LoginFailed(error->0),
            }),
            rows_after(old(self), final(self), match stage {
                Some(st) => Event::LoginStage(st),
                None => Event::LoginFailed(error->0),
            }),
    {
        self.login = match self.login.take() {
            Some(d) => match stage {
                Some(st) => Some(LoginState { stage: st, busy: false, ..d }),
                None => Some(LoginState { busy: false, copied: false, error, ..d }),
            },
            None => None,
        };
    }

    fn on_chats(&mut self, chats: Vec<ChatInfo>)
        ensures
            final(self).model() == step(old(self).model(), Event::Chats(chats)),
            rows_after(old(self), final(self), Event::Chats(chats)),
    {
        let ghost before = self.model();
        self.loaded = true;
        let n = chats.len();
        // A refresh must not throw away the counts: the dialog list carries
        // none, so they are carried across by id.
        let mut chats = chats;
        let ghost fresh = chats@;
        let mut i: usize = 0;
        while i < chats.len()
            invariant
                i <= chats@.len(),
                chats@.len() == fresh.len(),
                forall|k: int| 0 <= k < i ==> #[trigger] chats@[k] == carried(fresh, self.chats@)[k],
                forall|k: int| i <= k < chats@.len() ==> #[trigger] chats@[k] == fresh[k],
            decreases chats.len() - i,
        {
            if chats[i].message_count.is_none() {
                let count = known(&self.chats, chats[i].id);
                let mut c = copy_chat(&chats[i]);
                c.message_count = count;
                chats.set(i, c);
            }
            i += 1;
        }
        assert(chats@ =~= carried(fresh, before.chats));
        self.chats = chats;
        // Ticks are held by id, so a refresh keeps any selection whose chat
        // is still there and drops the rest.
        self.selected.retain_listed(&self.chats);
        let mut v: Vec<char> = Vec::new();
        push_dec(&mut v, n as u64);
        push_all(&mut v, " chats");
        self.status = string_of(&v);
        self.rebuild_rows();
    }

    fn on_count_progress(&mut self, done: usize, total: usize)
        ensures
            final(self).model() == step(old(self).model(), Event::CountProgress { done, total }),
            rows_after(old(self), final(self), Event::CountProgress { done, total }),
    {
        if !self.exporting {
            self.count_progress = Some((done, total));
            let mut v: Vec<char> = Vec::new();
            push_all(&mut v, "Counting ");
            push_dec(&mut v, done as u64);
            push_all(&mut v, " of ");
            push_dec(&mut v, total as u64);
            push_all(&mut v, " chats");
            self.status = string_of(&v);
        }
    }

    fn on_count_finished(&mut self, counted: usize, failed: usize)
        ensures
            final(self).model() == step(old(self).model(), Event::CountFinished { counted, failed }),
            rows_after(old(self), final(self), Event::CountFinished { counted, failed }),
    {
        self.counting = false;
        self.count_progress = None;
        if !self.exporting {
            let mut v: Vec<char> = Vec::new();
            push_all(&mut v, "Counted ");
            push_dec(&mut v, counted as u64);
            push_all(&mut v, " chats");
            let ghost head = v@;
            if failed > 0 {
                push_all(&mut v, ", ");
                push_dec(&mut v, failed as u64);
                push_all(&mut v, " could not be counted");
                assert(v@ == head + (", "@ + dec(failed as nat) + " could not be counted"@));
            } else {
                assert(v@ == head + Seq::<char>::empty());
            }
            self.status = string_of(&v);
        }
        // A new count can reorder the list under "Most messages".
        self.rebuild_rows();
    }

    fn on_chat_started(&mut self, chat_id: i64, title: String)
        ensures
            final(self).model() == step(old(self).model(), Event::ChatStarted { chat_id, title }),
            rows_after(old(self), final(self), Event::ChatStarted { chat_id, title }),
    {
        self.queue.began(chat_id);
        let mut v: Vec<char> = Vec::new();
        push_all(&mut v, "Exporting ");
        push_all(&mut v, title.as_str());
        self.status = string_of(&v);
    }

    fn on_chat_total(&mut self, chat_id: i64, total: i64)
        ensures
            final(self).model() == step(old(self).model(), Event::ChatTotal { chat_id, total }),
            rows_after(old(self), final(self), Event::ChatTotal { chat_id, total }),
    {
        self.queue.set_expected(chat_id, total);
        // An export of a chat nobody counted looks the number up anyway, and
        // the row should not read blank beside it.
        if self.count_of(chat_id).is_none() {
            self.set_count(chat_id, Some(total));
        }
    }

    fn on_progress(&mut self, chat_id: i64, done: usize, total: i64)
        ensures
            final(self).model() == step(old(self).model(), Event::Progress { chat_id, done, total }),
            rows_after(old(self), final(self), Event::Progress { chat_id, done, total }),
    {
        self.queue.progressed(chat_id, done, total);
        // Put the status line back: a rate-limit wait writes over it.
        match self.queue.title_of(chat_id) {
            Some(title) => {
                let mut v: Vec<char> = Vec::new();
                push_all(&mut v, "Exporting ");
                push_all(&mut v, title);
                self.status = string_of(&v);
            },
            None => {},
        }
    }

    fn on_chat_done(&mut self, chat_id: i64, messages: usize, expected: i64, topics: Option<usize>, media_downloaded: usize, media_failed: usize, root: PathBuf)
        ensures
            final(self).model() == step(old(self).model(), Event::ChatDone { chat_id, messages, expected, topics, media_downloaded, media_failed, root }),
            rows_after(old(self), final(self), Event::ChatDone { chat_id, messages, expected, topics, media_downloaded, media_failed, root }),
    {
        self.queue.finished(chat_id, messages, expected, topics, media_downloaded, media_failed, root);
        // What the export wrote is a measured number, so it replaces whatever
        // the list was carrying.
        self.set_count(chat_id, Some(#[verifier::truncate] (messages as i64)));
    }

    fn on_chat_failed(&mut self, chat_id: i64, message: String)
        requires
            old(self).journal@.dropped < usize::MAX,
        ensures
            final(self).model() == step(old(self).model(), Event::ChatFailed { chat_id, message }),
            rows_after(old(self), final(self), Event::ChatFailed { chat_id, message }),
    {
        // A cancelled or failed export writes no count at all.
        self.queue.failed(chat_id, message.clone());
        // Prefixed with the chat, like every other line.
        let line = match self.queue.title_of(chat_id) {
            Some(title) => {
                let mut v: Vec<char> = Vec::new();
                push_all(&mut v, title);
                push_all(&mut v, ": ");
                push_all(&mut v, message.as_str());
                string_of(&v)
            },
            None => message,
        };
        self.journal.warn(line.as_str());
    }

    fn on_flood_wait(&mut self, seconds: u64)
        ensures
            final(self).model() == step(old(self).model(), Event::FloodWait(seconds)),
            rows_after(old(self), final(self), Event::FloodWait(seconds)),
    {
        let mut v: Vec<char> = Vec::new();
        push_all(&mut v, "Rate limited, waiting ");
        push_dec(&mut v, seconds);
        push_all(&mut v, "s");
        self.status = string_of(&v);
    }

    fn on_finished(&mut self, stopped: bool)
        requires
            old(self).journal@.dropped < usize::MAX,
        ensures
            final(self).model() == step(old(self).model(), Event::Finished { stopped }),
            rows_after(old(self), final(self), Event::Finished { stopped }),
    {
        let ghost before = self.model();
        self.exporting = false;
        if stopped {
            self.queue.stop_remaining();
            assert(self.queue@ =~= stopped_all(before.queue));
        }
        // The queue is the one writer of what the run did, and a stated cause
        // outranks a tally.
        let summary = self.queue.summary();
        self.journal.push(summary.as_str());
        self.status = match self.failure.take() {
            Some(why) => {
                let mut v: Vec<char> = Vec::new();
                push_all(&mut v, summary.as_str());
                push_all(&mut v, ": ");
                push_all(&mut v, why.as_str());
                string_of(&v)
            },
            None => summary,
        };
        self.rebuild_rows();
    }

    fn on_failed(&mut self, activity: Activity, message: String)
        requires
            old(self).journal@.dropped < usize::MAX,
        ensures
            final(self).model() == step(old(self).model(), Event::Failed { activity, message }),
            rows_after(old(self), final(self), Event::Failed { activity, message }),
    {
        // Only the activity that failed is switched off.
        match activity {
            Activity::Export => {
                self.exporting = false;
                self.failure = Some(message.clone());
            },
            Activity::Count => {
                self.counting = false;
            },
            Activity::SignIn => {},
            Activity::Chats => {},
        }
        let mut v: Vec<char> = Vec::new();
        push_all(&mut v, "Failed: ");
        push_all(&mut v, message.as_str());
        self.status = string_of(&v);
        self.journal.warn(message.as_str());
    }

    /// Fold one worker event into the state. Says whether the chat list
    /// should now be fetched, which a sign-in asks for without waiting to
    /// be told.
    pub fn apply(&mut self, event: Event) -> (refresh: bool)
        requires
            old(self).journal@.dropped < usize::MAX,
        ensures
            final(self).model() == step(old(self).model(), event),
            rows_after(old(self), final(self), event),
            refresh == (event is SignedIn),
    {
        match event {
            Event::Status(s) => {
                self.status = s;
                false
            },
            // A new line means what was copied is no longer what is on
            // screen.
            Event::Log(s) => {
                self.journal.push(s.as_str());
                self.log_copied = false;
                false
            },
            Event::Warn(s) => {
                self.journal.warn(s.as_str());
                self.log_copied = false;
                false
            },
            Event::SignedIn(name) => {
                self.on_signed_in(name);
                true
            },
            Event::LoginStage(stage) => {
                self.on_login(Some(stage), None);
                false
            },
            Event::LoginFailed(msg) => {
                self.on_login(None, Some(msg));
                false
            },
            Event::Chats(chats) => {
                self.on_chats(chats);
                false
            },
            Event::Counted { chat_id, total } => {
                self.set_count(chat_id, total);
                false
            },
            Event::CountProgress { done, total } => {
                self.on_count_progress(done, total);
                false
            },
            Event::CountFinished { counted, failed } => {
                self.on_count_finished(counted, failed);
                false
            },
            Event::ChatStarted { chat_id, title } => {
                self.on_chat_started(chat_id, title);
                false
            },
            Event::ChatTotal { chat_id, total } => {
                self.on_chat_total(chat_id, total);
                false
            },
            Event::ChatTopics { chat_id, topics } => {
                self.queue.set_topics(chat_id, topics);
                false
            },
            Event::Progress { chat_id, done, total } => {
                self.on_progress(chat_id, done, total);
                false
            },
            Event::ChatDone { chat_id, messages, expected, topics, media_downloaded, media_failed, root } => {
                self.on_chat_done(chat_id, messages, expected, topics, media_downloaded, media_failed, root);
                false
            },
            Event::ChatFailed { chat_id, message } => {
                self.on_chat_failed(chat_id, message);
                false
            },
            Event::FloodWait(seconds) => {
                self.on_flood_wait(seconds);
                false
            },
            Event::Finished { stopped } => {
                self.on_finished(stopped);
                false
            },
            Event::Failed { activity, message } => {
                self.on_failed(activity, message);
                false
            },
        }
    }

    /// The per-run state a new export resets: the stop signal lowered, the
    /// progress bar claimed, and any cause left from an earlier run cleared.
    pub fn begin_run(&mut self)
        ensures
            final(self).model() == (ShellView {
                cancelled: false,
                exporting: true,
                failure: None,
                count_progress: None,
                ..old(self).model()
            }),
            final(self).view == old(self).view,
            final(self).rows == old(self).rows,
            final(self).visible_count == old(self).visible_count,
    {
        self.cancel.reset();
        self.exporting = true;
        self.failure = None;
        self.count_progress = None;
    }

    /// Ask the run to stop, and wait for it to say it has: the flag is
    /// raised and the status says so, but the run is over only when the
    /// worker's own event arrives.
    pub fn stop(&mut self)
        ensures
            final(self).model() == (ShellView {
                cancelled: true,
                status: if old(self).counting {
                    "Stopping the count\u{2026}"@
                } else if old(self).exporting {
                    "Stopping\u{2026}"@
                } else {
                    old(self).status@
                },
                ..old(self).model()
            }),
            final(self).view == old(self).view,
            final(self).rows == old(self).rows,
            final(self).visible_count == old(self).visible_count,
    {
        self.cancel.cancel();
        if self.exporting {
            self.status = owned("Stopping\u{2026}");
        }
        if self.counting {
            self.status = owned("Stopping the count\u{2026}");
        }
    }

    /// The selected chats' total and whether any of them is uncounted: a
    /// missing count is not a count of zero. `None` when the total does not
    /// fit.
    pub fn selection_total(&self) -> (r: (i64, bool))
        requires
            sums_fit(self.chats@, self.selected@),
        ensures
            r.0 == selection_sum(self.chats@, self.selected@),
            r.1 == selection_uncounted(self.chats@, self.selected@),
    {
        let mut total: i64 = 0;
        let mut any_uncounted = false;
        let mut i: usize = 0;
        while i < self.chats.len()
            invariant
                i <= self.chats@.len(),
                total == selection_sum(self.chats@.take(i as int), self.selected@),
                any_uncounted == selection_uncounted(self.chats@.take(i as int), self.selected@),
                sums_fit(self.chats@, self.selected@),
            decreases self.chats.len() - i,
        {
            proof {
                assert(self.chats@.take(i + 1).drop_last() == self.chats@.take(i as int));
                assert(self.chats@.take(i + 1).last() == self.chats@[i as int]);
                assert(i64::MIN <= selection_sum(self.chats@.take(i + 1), self.selected@) <= i64::MAX);
            }
            if self.selected.contains(&self.chats[i].id) {
                match self.chats[i].message_count {
                    Some(n) => {
                        total = total + n;
                    },
                    None => {
                        any_uncounted = true;
                    },
                }
            }
            i += 1;
        }
        assert(self.chats@.take(self.chats@.len() as int) == self.chats@);
        (total, any_uncounted)
    }

    /// The footer's total, or nothing when a running sum of the ticked
    /// counts leaves `i64`.
    pub fn selection_total_checked(&self) -> (r: Option<(i64, bool)>)
        ensures
            r is Some <==> sums_fit(self.chats@, self.selected@),
            r matches Some(t) ==> t.0 == selection_sum(self.chats@, self.selected@)
                && t.1 == selection_uncounted(self.chats@, self.selected@),
    {
        let mut total: i64 = 0;
        let mut i: usize = 0;
        while i < self.chats.len()
            invariant
                i <= self.chats@.len(),
                total == selection_sum(self.chats@.take(i as int), self.selected@),
                forall|k: int| 0 <= k <= i ==> i64::MIN <= #[trigger] selection_sum(self.chats@.take(k), self.selected@) <= i64::MAX,
            decreases self.chats.len() - i,
        {
            proof {
                assert(self.chats@.take(i + 1).drop_last() == self.chats@.take(i as int));
                assert(self.chats@.take(i + 1).last() == self.chats@[i as int]);
            }
            if self.selected.contains(&self.chats[i].id) {
                match self.chats[i].message_count {
                    Some(n) => {
                        match total.checked_add(n) {
                            Some(t) => {
                                total = t;
                            },
                            None => {
                                assert(!(i64::MIN <= selection_sum(self.chats@.take(i + 1), self.selected@) <= i64::MAX));
                                return None;
                            },
                        }
                    },
                    None => {},
                }
            }
            i += 1;
        }
        assert(self.chats@.take(self.chats@.len() as int) == self.chats@);
        Some(self.selection_total())
    }
}

/// The counts of the ticked chats, added up.
pub open spec fn selection_sum(chats: Seq<ChatInfo>, selected: Set<i64>) -> int
    decreases chats.len(),
{
    if chats.len() == 0 {
        0
    } else {
        let c = chats.last();
        selection_sum(chats.drop_last(), selected) + if selected.contains(c.id) && c.message_count is Some {
            c.message_count->0 as int
        } else {
            0
        }
    }
}

/// Every running total, as the ticked counts are added in list order,
/// fits in `i64`.
pub open spec fn sums_fit(chats: Seq<ChatInfo>, selected: Set<i64>) -> bool {
    forall|i: int| 0 <= i <= chats.len() ==> i64::MIN <= #[trigger] selection_sum(chats.take(i), selected) <= i64::MAX
}

/// Is some ticked chat uncounted?
pub open spec fn selection_uncounted(chats: Seq<ChatInfo>, selected: Set<i64>) -> bool
    decreases chats.len(),
{
    if chats.len() == 0 {
        false
    } else {
        let c = chats.last();
        selection_uncounted(chats.drop_last(), selected) || (selected.contains(c.id) && c.message_count is None)
    }
}

/// A refresh does not throw away counts: a chat the new list leaves
/// uncounted keeps the count the old list carried for it, and a chat the new
/// list counted keeps its own.
pub proof fn law_a_refresh_keeps_the_counts(s: ShellView, chats: Vec<ChatInfo>, k: int)
    requires
        0 <= k < chats@.len(),
    ensures
        ({
            let after = step(s, Event::Chats(chats));
            &&& after.chats.len() == chats@.len()
            &&& after.chats[k].id == chats@[k].id
            &&& chats@[k].message_count is None ==> after.chats[k].message_count == known_count(s.chats, chats@[k].id)
            &&& chats@[k].message_count is Some ==> after.chats[k].message_count == chats@[k].message_count
        }),
{
}

/// A refresh keeps exactly the ticks whose chat is still listed.
pub proof fn law_a_refresh_keeps_only_listed_ticks(s: ShellView, chats: Vec<ChatInfo>, id: i64)
    ensures
        step(s, Event::Chats(chats)).selected.contains(id) <==> (s.selected.contains(id) && has_chat(chats@, id)),
{
    let now = carried(chats@, s.chats);
    if has_chat(chats@, id) {
        let k = choose|k: int| 0 <= k < chats@.len() && #[trigger] chats@[k].id == id;
        assert(now[k].id == id);
    }
    if has_chat(now, id) {
        let k = choose|k: int| 0 <= k < now.len() && #[trigger] now[k].id == id;
        assert(chats@[k].id == id);
    }
}

/// Only the activity that failed is switched off: a sign-in or chat-list
/// failure stops neither an export nor a count, and only an export's own
/// failure becomes the cause its summary reports.
pub proof fn law_a_failure_stops_only_its_own_activity(s: ShellView, activity: Activity, message: String)
    ensures
        ({
            let after = step(s, Event::Failed { activity, message });
            &&& !(activity is Export) ==> after.exporting == s.exporting && after.failure == s.failure
            &&& !(activity is Count) ==> after.counting == s.counting
            &&& activity is Export ==> !after.exporting && after.failure == Some(message@)
            &&& activity is Count ==> !after.counting
        }),
{
}

/// A cancelled or failed export writes no count at all.
pub proof fn law_a_failed_chat_writes_no_count(s: ShellView, chat_id: i64, message: String)
    ensures
        step(s, Event::ChatFailed { chat_id, message }).chats == s.chats,
{
}

/// One bar, two claimants: while an export runs, the count's progress and
/// its ending leave the status line and the bar alone.
pub proof fn law_a_count_never_takes_the_export_s_bar(s: ShellView, done: usize, total: usize, counted: usize, failed: usize)
    requires
        s.exporting,
    ensures
        step(s, Event::CountProgress { done, total }) == s,
        step(s, Event::CountFinished { counted, failed }).status == s.status,
{
}

/// A stopped run leaves no row queued or exporting, and its cause, once
/// reported, is spent.
pub proof fn law_a_stopped_run_finishes_every_row(s: ShellView)
    ensures
        ({
            let after = step(s, Event::Finished { stopped: true });
            &&& after.queue.len() == s.queue.len()
            &&& forall|i: int| 0 <= i < after.queue.len() ==> finished_state(#[trigger] after.queue[i].state)
            &&& after.failure is None
            &&& !after.exporting
        }),
{
}

/// What an export wrote replaces what the list was carrying, on the chat
/// it names and no other.
pub proof fn law_a_written_count_replaces_the_list_s(s: ShellView, chat_id: i64, messages: usize, expected: i64, topics: Option<usize>, media_downloaded: usize, media_failed: usize, root: PathBuf)
    requires
        messages <= i64::MAX,
        has_chat(s.chats, chat_id),
    ensures
        ({
            let after = step(s, Event::ChatDone { chat_id, messages, expected, topics, media_downloaded, media_failed, root });
            &&& count_in(after.chats, chat_id) == Some(messages as i64)
            &&& after.chats.len() == s.chats.len()
            &&& forall|k: int| 0 <= k < s.chats.len() && s.chats[k].id != chat_id ==> #[trigger] after.chats[k] == s.chats[k]
        }),
{
    lemma_chat_index(s.chats, chat_id);
    let k = choose|k: int| 0 <= k < s.chats.len() && #[trigger] s.chats[k].id == chat_id;
    assert(chat_index(s.chats, chat_id) is Some);
    let i = chat_index(s.chats, chat_id)->0;
    let now = with_count(s.chats, chat_id, Some(messages as i64));
    assert(now[i].id == chat_id);
    lemma_chat_index(now, chat_id);
    assert forall|j: int| 0 <= j < i implies #[trigger] now[j].id != chat_id by {
        assert(now[j] == s.chats[j]);
    }
    if chat_index(now, chat_id) is None {
        assert(now[i].id != chat_id);
    }
    assert(chat_index(now, chat_id) == Some(i));
}

/// The folded categories as stored: their keys, in the fixed category
/// order, so two runs that folded the same categories write the same file.
pub open spec fn folded_key_list(folded: Set<Category>) -> Seq<Seq<char>> {
    CATEGORIES@.filter(|c: Category| folded.contains(c)).map_values(|c: Category| category_key(c))
}

pub fn folded_keys(folds: &Folds) -> (keys: Vec<String>)
    ensures
        keys@.map_values(|k: String| k@) == folded_key_list(folds@),
{
    let mut keys: Vec<String> = Vec::new();
    let mut i: usize = 0;
    while i < 5
        invariant
            i <= 5,
            keys@.map_values(|k: String| k@) == CATEGORIES@.take(i as int).filter(|c: Category| folds@.contains(c)).map_values(|c: Category| category_key(c)),
        decreases 5 - i,
    {
        let c = Category::ALL[i];
        let ghost before = keys@;
        proof {
            let t = CATEGORIES@.take(i + 1);
            assert(t.drop_last() == CATEGORIES@.take(i as int));
            assert(t.last() == c);
            reveal(Seq::filter);
        }
        if folds.contains(&c) {
            keys.push(owned(c.key()));
            assert(keys@.map_values(|k: String| k@) == before.map_values(|k: String| k@).push(category_key(c)));
        } else {
            assert(keys@ == before);
        }
        i += 1;
    }
    assert(CATEGORIES@.take(5) == CATEGORIES@);
    keys
}

/// A stored key's category; a key no category has names none.
pub open spec fn category_of_key(key: Seq<char>) -> Option<Category> {
    if key == category_key(Category::Channels) {
        Some(Category::Channels)
    } else if key == category_key(Category::Groups) {
        Some(Category::Groups)
    } else if key == category_key(Category::Supergroups) {
        Some(Category::Supergroups)
    } else if key == category_key(Category::Private) {
        Some(Category::Private)
    } else if key == category_key(Category::Bots) {
        Some(Category::Bots)
    } else {
        None
    }
}

/// The categories stored keys fold: a name that matches no category is
/// dropped rather than kept, so a file from another build opens on a list
/// that is merely unfolded.
pub fn folds_from_keys(names: &[String]) -> (f: Folds)
    ensures
        forall|c: Category| #[trigger] f@.contains(c) <==> exists|i: int| 0 <= i < names@.len() && category_of_key(names@[i]@) == Some(c),
{
    let mut f = Folds::new();
    let mut i: usize = 0;
    while i < names.len()
        invariant
            i <= names@.len(),
            forall|c: Category| #[trigger] f@.contains(c) <==> exists|j: int| 0 <= j < i && category_of_key(names@[j]@) == Some(c),
        decreases names.len() - i,
    {
        let mut k: usize = 0;
        let mut found: Option<Category> = None;
        let name = crate::strings::chars_of(names[i].as_str());
        while k < 5
            invariant
                k <= 5,
                name@ == names@[i as int]@,
                found is None ==> forall|x: int| 0 <= x < k ==> category_key(#[trigger] CATEGORIES@[x]) != name@,
                found matches Some(c) ==> category_key(c) == name@,
            decreases 5 - k,
        {
            let c = Category::ALL[k];
            if found.is_none() && crate::strings::same_chars(&name, &crate::strings::chars_of(c.key())) {
                found = Some(c);
            }
            k += 1;
        }
        proof {
            if found is None {
                assert(category_key(CATEGORIES@[0]) != name@);
                assert(category_key(CATEGORIES@[1]) != name@);
                assert(category_key(CATEGORIES@[2]) != name@);
                assert(category_key(CATEGORIES@[3]) != name@);
                assert(category_key(CATEGORIES@[4]) != name@);
                assert(category_of_key(name@) is None);
            } else {
                reveal_strlit("channel");
                reveal_strlit("group");
                reveal_strlit("supergroup");
                reveal_strlit("personal");
                reveal_strlit("bot");
                assert(category_of_key(name@) == found);
            }
        }
        match found {
            Some(c) => {
                f.insert(c);
            },
            None => {},
        }
        proof {
            assert forall|c: Category| #[trigger] f@.contains(c) <==> exists|j: int| 0 <= j < i + 1 && category_of_key(names@[j]@) == Some(c) by {
                if category_of_key(names@[i as int]@) == Some(c) {
                    assert(0 <= i < i + 1);
                }
            }
        }
        i += 1;
    }
    f
}

/// The list's arrangement as stored: the sort mode by its key (an unknown
/// key falls back rather than breaking), the grouping, and the folds.
pub fn view_from_settings(sort_mode: &str, group_by_type: bool, folded: &[String]) -> (v: ListView)
    ensures
        v.sort == mode_for_key(sort_mode@),
        v.grouped == group_by_type,
        v.filter@ == Seq::<char>::empty(),
        forall|c: Category| #[trigger] v.folded@.contains(c) <==> exists|i: int| 0 <= i < folded@.len() && category_of_key(folded@[i]@) == Some(c),
{
    ListView {
        sort: SortMode::from_key(sort_mode),
        grouped: group_by_type,
        filter: String::new(),
        folded: folds_from_keys(folded),
    }
}

/// What the sign-in dialog's fields hold, as typed.
pub struct LoginInput {
    pub api_id: String,
    pub api_hash: String,
    pub phone: String,
    pub code: String,
    pub password: String,
}

/// What a press of the dialog's button asks the window to do.
#[derive(Debug, PartialEq, Eq)]
pub enum LoginAction {
    /// Nothing: no dialog, or a request already in flight.
    Nothing,
    /// Store the app's credentials; the dialog has moved on to the phone.
    Credentials { api_id: i64, api_hash: String },
    /// The fields were refused, and the dialog says why.
    Refused,
    /// Store the phone and ask Telegram for a code.
    RequestCode { phone: String },
    /// Submit the code, or the two-factor password.
    FinishLogin { secret: String, is_code: bool },
}

pub const BAD_CREDENTIALS: &'static str = "An api_id is a number, and an api_hash cannot be blank.";
pub const NO_PHONE: &'static str = "A phone number is needed, with its country code.";
pub const BLANK_SECRET: &'static str = "This cannot be blank.";

fn trimmed(s: &String) -> (t: String)
    ensures
        t@ == trim(s@),
{
    let cs = chars_of(s.as_str());
    let (lo, hi) = trim_bounds(&cs);
    string_of_range(&cs, lo, hi)
}

/// A login dialog as it is after a refusal saying `why`.
pub open spec fn refused_view(d: (Stage, bool, bool, Option<Seq<char>>), why: Seq<char>) -> (Stage, bool, bool, Option<Seq<char>>) {
    (d.0, d.1, false, Some(why))
}

/// What a press of the button does, from the dialog as it was and what the
/// current stage's fields hold (trimmed; the other stages' fields are not
/// looked at, so a password typed at one step never reaches another): the
/// action, and the dialog after it. A stale failure never sits under a fresh
/// attempt.
pub open spec fn submitted(d: Option<(Stage, bool, bool, Option<Seq<char>>)>, input: LoginInput) -> (LoginAction, Option<(Stage, bool, bool, Option<Seq<char>>)>) {
    match d {
        None => (LoginAction::Nothing, None),
        Some(v) => if v.1 {
            (LoginAction::Nothing, d)
        } else {
            let cleared = (v.0, v.1, false, None::<Seq<char>>);
            match v.0 {
                Stage::Credentials => {
                    let id = parse_int(trim(input.api_id@));
                    let hash = trim(input.api_hash@);
                    if id matches Some(n) && n > 0 && hash.len() > 0 {
                        (LoginAction::Nothing, Some((Stage::Phone, cleared.1, cleared.2, cleared.3)))
                    } else {
                        (LoginAction::Refused, Some(refused_view(cleared, BAD_CREDENTIALS@)))
                    }
                },
                Stage::Phone => if trim(input.phone@).len() == 0 {
                    (LoginAction::Refused, Some(refused_view(cleared, NO_PHONE@)))
                } else {
                    (LoginAction::Nothing, Some((cleared.0, true, cleared.2, cleared.3)))
                },
                _ => {
                    let secret = if v.0 is Code { trim(input.code@) } else { trim(input.password@) };
                    if secret.len() == 0 {
                        (LoginAction::Refused, Some(refused_view(cleared, BLANK_SECRET@)))
                    } else {
                        (LoginAction::Nothing, Some((cleared.0, true, cleared.2, cleared.3)))
                    }
                },
            }
        },
    }
}

/// Does the action carry the values the dialog's step asked for?
pub open spec fn action_carries(a: LoginAction, stage: Stage, input: LoginInput) -> bool {
    match a {
        LoginAction::Credentials { api_id, api_hash } => stage is Credentials
            && parse_int(trim(input.api_id@)) == Some(api_id as int) && api_hash@ == trim(input.api_hash@),
        LoginAction::RequestCode { phone } => stage is Phone && phone@ == trim(input.phone@),
        LoginAction::FinishLogin { secret, is_code } => (stage is Code || stage is Password)
            && is_code == (stage is Code)
            && secret@ == if is_code { trim(input.code@) } else { trim(input.password@) },
        _ => true,
    }
}

/// The kind of an action, with its values left out.
pub open spec fn action_kind(a: LoginAction) -> int {
    match a {
        LoginAction::Nothing => 0,
        LoginAction::Credentials { .. } => 1,
        LoginAction::Refused => 2,
        LoginAction::RequestCode { .. } => 3,
        LoginAction::FinishLogin { .. } => 4,
    }
}

/// The kind of action a press yields.
pub open spec fn submitted_kind(d: Option<(Stage, bool, bool, Option<Seq<char>>)>, input: LoginInput) -> int {
    match d {
        None => 0,
        Some(v) => if v.1 {
            0
        } else {
            match v.0 {
                Stage::Credentials => if parse_int(trim(input.api_id@)) matches Some(n) && n > 0 && trim(input.api_hash@).len() > 0 { 1 } else { 2 },
                Stage::Phone => if trim(input.phone@).len() == 0 { 2 } else { 3 },
                Stage::Code => if trim(input.code@).len() == 0 { 2 } else { 4 },
                Stage::Password => if trim(input.password@).len() == 0 { 2 } else { 4 },
            }
        },
    }
}

impl Shell {
    /// Advance the sign-in by one step.
    pub fn submit_login(&mut self, input: &LoginInput) -> (a: LoginAction)
        ensures
            action_kind(a) == submitted_kind(old(self).model().login, *input),
            final(self).model() == (ShellView { login: submitted(old(self).model().login, *input).1, ..old(self).model() }),
            old(self).model().login matches Some(v) ==> action_carries(a, v.0, *input),
            final(self).view == old(self).view,
            final(self).rows == old(self).rows,
            final(self).visible_count == old(self).visible_count,
    {
        let d = match self.login.take() {
            Some(d) => d,
            None => return LoginAction::Nothing,
        };
        if d.busy {
            self.login = Some(d);
            return LoginAction::Nothing;
        }
        let stage = d.stage;
        // A stale failure must not sit under a fresh attempt.
        let d = LoginState { error: None, copied: false, ..d };
        match stage {
            Stage::Credentials => {
                let id_text = trimmed(&input.api_id);
                let hash = trimmed(&input.api_hash);
                let cs = chars_of(id_text.as_str());
                let id = parse_i64(&cs, 0, cs.len());
                proof {
                    assert(cs@.subrange(0, cs@.len() as int) == cs@);
                }
                match id {
                    Some(n) => {
                        if n > 0 && hash.unicode_len() > 0 {
                            self.login = Some(LoginState { stage: Stage::Phone, ..d });
                            return LoginAction::Credentials { api_id: n, api_hash: hash };
                        }
                    },
                    None => {},
                }
                self.login = Some(LoginState { copied: false, error: Some(owned(BAD_CREDENTIALS)), ..d });
                LoginAction::Refused
            },
            Stage::Phone => {
                let phone = trimmed(&input.phone);
                if phone.unicode_len() == 0 {
                    self.login = Some(LoginState { copied: false, error: Some(owned(NO_PHONE)), ..d });
                    return LoginAction::Refused;
                }
                self.login = Some(LoginState { busy: true, ..d });
                LoginAction::RequestCode { phone }
            },
            Stage::Code | Stage::Password => {
                let is_code = match stage {
                    Stage::Code => true,
                    _ => false,
                };
                let secret = if is_code { trimmed(&input.code) } else { trimmed(&input.password) };
                if secret.unicode_len() == 0 {
                    self.login = Some(LoginState { copied: false, error: Some(owned(BLANK_SECRET)), ..d });
                    return LoginAction::Refused;
                }
                self.login = Some(LoginState { busy: true, ..d });
                LoginAction::FinishLogin { secret, is_code }
            },
        }
    }

    /// Open the sign-in dialog, or raise the one already open: one dialog,
    /// ever. Without stored credentials it opens on them, else on the phone.
    pub fn open_login(&mut self, have_credentials: bool)
        ensures
            old(self).login is Some ==> final(self).model() == old(self).model(),
            old(self).login is None ==> final(self).model() == (ShellView {
                login: Some((if have_credentials { Stage::Phone } else { Stage::Credentials }, false, false, None)),
                ..old(self).model()
            }),
            final(self).view == old(self).view,
            final(self).rows == old(self).rows,
            final(self).visible_count == old(self).visible_count,
    {
        if self.login.is_some() {
            return;
        }
        let stage = if have_credentials { Stage::Phone } else { Stage::Credentials };
        self.login = Some(LoginState { stage, busy: false, copied: false, error: None });
    }

    /// Count every chat, or stop a count already running: the button undoes
    /// itself, since a count can sit in a long rate-limit wait. Gives the
    /// chats to count when a count starts.
    pub fn start_count(&mut self) -> (ids: Option<Vec<i64>>)
        ensures
            old(self).counting ==> ids is None && final(self).model() == (ShellView {
                cancelled: true,
                status: "Stopping the count\u{2026}"@,
                ..old(self).model()
            }),
            !old(self).counting && old(self).chats@.len() == 0 ==> ids is None && final(self).model() == old(self).model(),
            !old(self).counting && old(self).chats@.len() > 0 ==> (ids matches Some(v)
                && v@ == old(self).chats@.map_values(|c: ChatInfo| c.id)
                && final(self).model() == (ShellView {
                    cancelled: false,
                    counting: true,
                    count_progress: Some((0usize, old(self).chats@.len() as usize)),
                    ..old(self).model()
                })),
            final(self).view == old(self).view,
            final(self).rows == old(self).rows,
            final(self).visible_count == old(self).visible_count,
    {
        if self.counting {
            self.cancel.cancel();
            self.status = owned("Stopping the count\u{2026}");
            return None;
        }
        if self.chats.len() == 0 {
            return None;
        }
        self.cancel.reset();
        self.counting = true;
        let mut ids: Vec<i64> = Vec::new();
        let mut i: usize = 0;
        while i < self.chats.len()
            invariant
                i <= self.chats@.len(),
                ids@ == self.chats@.take(i as int).map_values(|c: ChatInfo| c.id),
            decreases self.chats.len() - i,
        {
            ids.push(self.chats[i].id);
            proof {
                assert(self.chats@.take(i + 1) == self.chats@.take(i as int).push(self.chats@[i as int]));
            }
            assert(ids@ =~= self.chats@.take(i + 1).map_values(|c: ChatInfo| c.id));
            i += 1;
        }
        assert(self.chats@.take(self.chats@.len() as int) == self.chats@);
        self.count_progress = Some((0, ids.len()));
        Some(ids)
    }
}


/// The chats an export takes: the ticked ones, in the list's order.
pub open spec fn export_queue(chats: Seq<ChatInfo>, selected: Set<i64>) -> Seq<ChatInfo> {
    chats.filter(|c: ChatInfo| selected.contains(c.id))
}

pub const NOTHING_TO_WRITE: &'static str = "Nothing to write: enable HTML, JSON or both under Format.";
pub const NO_FORMAT: &'static str = "No output format selected";

/// The status line while `n` chats export.
pub open spec fn exporting_status(n: nat) -> Seq<char> {
    "Exporting "@ + dec(n) + " chats\u{2026}"@
}

/// The journal line that opens a run of `n` chats into `dir`.
pub open spec fn starting_line(n: nat, dir: Seq<char>) -> Seq<char> {
    "Starting "@ + dec(n) + " export(s) into "@ + dir
}

fn ticked(chats: &Vec<ChatInfo>, selected: &Selection) -> (q: Vec<ChatInfo>)
    ensures
        q@ == export_queue(chats@, selected@),
{
    let mut q: Vec<ChatInfo> = Vec::new();
    let mut i: usize = 0;
    proof {
        reveal(Seq::filter);
        assert(chats@.take(0) =~= Seq::<ChatInfo>::empty());
    }
    while i < chats.len()
        invariant
            i <= chats@.len(),
            q@ == export_queue(chats@.take(i as int), selected@),
        decreases chats.len() - i,
    {
        let ghost before = q@;
        if selected.contains(&chats[i].id) {
            q.push(copy_chat(&chats[i]));
        }
        proof {
            reveal(Seq::filter);
            assert(chats@.take(i + 1).drop_last() =~= chats@.take(i as int));
            assert(chats@.take(i + 1).last() == chats@[i as int]);
        }
        i += 1;
    }
    assert(chats@.take(chats@.len() as int) =~= chats@);
    q
}

fn job_rows(q: &Vec<ChatInfo>) -> (r: Vec<(i64, String)>)
    ensures
        r@.len() == q@.len(),
        forall|i: int| 0 <= i < q@.len() ==> #[trigger] r@[i] == (q@[i].id, q@[i].title),
{
    let mut r: Vec<(i64, String)> = Vec::new();
    let mut i: usize = 0;
    while i < q.len()
        invariant
            i <= q@.len(),
            r@.len() == i,
            forall|k: int| 0 <= k < i ==> #[trigger] r@[k] == (q@[k].id, q@[k].title),
        decreases q.len() - i,
    {
        r.push((q[i].id, q[i].title.clone()));
        i += 1;
    }
    r
}

impl Shell {
    /// Start an export of the ticked chats. Without an output format nothing
    /// starts and the journal says why; without a tick nothing happens.
    /// Otherwise the run claims the progress bar, queues one row per chat and
    /// announces itself, and the chats are handed back for the worker.
    pub fn start_export(&mut self, export_html: bool, export_json: bool, output_dir: &str) -> (queue: Option<Vec<ChatInfo>>)
        requires
            old(self).journal@.dropped < usize::MAX,
        ensures
            !(export_html || export_json) ==> queue is None && final(self).model() == (ShellView {
                journal: written(old(self).journal@, (NOTHING_TO_WRITE@, true)),
                status: NO_FORMAT@,
                ..old(self).model()
            }),
            (export_html || export_json) && export_queue(old(self).chats@, old(self).selected@).len() == 0
                ==> queue is None && final(self).model() == old(self).model(),
            (export_html || export_json) && export_queue(old(self).chats@, old(self).selected@).len() > 0
                ==> (queue matches Some(q) && q@ == export_queue(old(self).chats@, old(self).selected@)
                && final(self).model() == (ShellView {
                    cancelled: false,
                    exporting: true,
                    failure: None,
                    count_progress: None,
                    queue: q@.map_values(|c: ChatInfo| fresh_job(c.id, c.title)),
                    status: exporting_status(q@.len()),
                    journal: written(old(self).journal@, (starting_line(q@.len(), output_dir@), false)),
                    ..old(self).model()
                })),
            final(self).view == old(self).view,
            final(self).rows == old(self).rows,
            final(self).visible_count == old(self).visible_count,
    {
        if !(export_html || export_json) {
            self.journal.warn(NOTHING_TO_WRITE);
            self.status = owned(NO_FORMAT);
            return None;
        }
        let queue = ticked(&self.chats, &self.selected);
        if queue.len() == 0 {
            return None;
        }
        self.begin_run();
        let rows = job_rows(&queue);
        self.queue.start(rows);
        let n = queue.len();
        proof {
            assert(self.queue@ =~= queue@.map_values(|c: ChatInfo| fresh_job(c.id, c.title)));
        }
        let mut v: Vec<char> = Vec::new();
        push_all(&mut v, "Exporting ");
        push_dec(&mut v, n as u64);
        push_all(&mut v, " chats\u{2026}");
        self.status = string_of(&v);
        let mut w: Vec<char> = Vec::new();
        push_all(&mut w, "Starting ");
        push_dec(&mut w, n as u64);
        push_all(&mut w, " export(s) into ");
        push_all(&mut w, output_dir);
        let line = string_of(&w);
        self.journal.push(line.as_str());
        Some(queue)
    }
}


impl Shell {
    /// The filter box's text became this. Only a change does anything: it
    /// re-opens the folded categories the search found something in (a
    /// category may still be folded while the search runs) and rebuilds the
    /// rows.
    pub fn set_filter(&mut self, text: String)
        ensures
            old(self).view.filter@ == text@ ==> final(self).model() == old(self).model()
                && final(self).view == old(self).view
                && final(self).rows == old(self).rows
                && final(self).visible_count == old(self).visible_count,
            old(self).view.filter@ != text@ ==> final(self).model() == (ShellView { rows_stale: false, ..old(self).model() })
                && final(self).view.filter@ == text@
                && final(self).view.sort == old(self).view.sort
                && final(self).view.grouped == old(self).view.grouped
                && final(self).view.folded@ == (if trim(text@).len() == 0 {
                    old(self).view.folded@
                } else {
                    old(self).view.folded@.difference(matched_categories(old(self).chats@, needle_of(text@)))
                })
                && final(self).rows_fresh(),
    {
        if self.view.filter == text {
            return;
        }
        self.view.filter = text;
        reopen_matched(self.chats.as_slice(), &mut self.view);
        self.rebuild_rows();
    }
}


/// The four selection controls, acting on the visible rows.
#[derive(Debug, Clone, Copy, PartialEq, Eq, Structural)]
pub enum SelectAction {
    /// Tick every visible chat.
    All,
    /// Untick every visible chat.
    Clear,
    /// Flip every visible chat.
    Invert,
    /// Tick the visible forums and untick the other visible chats: it
    /// replaces, it does not add.
    OnlyForums,
}

/// One visible chat under a selection control.
pub open spec fn tick_step(sel: Set<i64>, a: SelectAction, c: ChatInfo) -> Set<i64> {
    match a {
        SelectAction::All => sel.insert(c.id),
        SelectAction::Clear => sel.remove(c.id),
        SelectAction::Invert => if sel.contains(c.id) { sel.remove(c.id) } else { sel.insert(c.id) },
        SelectAction::OnlyForums => if c.is_forum { sel.insert(c.id) } else { sel.remove(c.id) },
    }
}

/// A selection control applied to the chats in order.
pub open spec fn ticked_over(sel: Set<i64>, a: SelectAction, items: Seq<ChatInfo>) -> Set<i64>
    decreases items.len(),
{
    if items.len() == 0 {
        sel
    } else {
        tick_step(ticked_over(sel, a, items.drop_last()), a, items.last())
    }
}

/// The chats the filter leaves visible, in the list's order.
pub open spec fn visible_chats(chats: Seq<ChatInfo>, view: ListView) -> Seq<ChatInfo> {
    members_of(buckets_of(chats, view.filter@, view.sort, view.grouped)).map_values(|i: usize| chats[i as int])
}

/// Folding is a way of looking at the list, not a second filter: two views
/// that differ only in what is folded leave the same chats visible, so
/// tidying the view cannot change what All selects.
pub proof fn law_folding_never_hides_a_chat_from_the_selection(chats: Seq<ChatInfo>, v: ListView, folded: Folds)
    ensures
        visible_chats(chats, ListView { folded: folded, ..v }) == visible_chats(chats, v),
{
}

/// Is some chat of `items` this one?
pub open spec fn lists_id(items: Seq<ChatInfo>, id: i64) -> bool {
    exists|k: int| 0 <= k < items.len() && #[trigger] items[k].id == id
}

/// A selection control touches only the chats it is applied to.
pub proof fn lemma_ticked_over_leaves_the_rest(sel: Set<i64>, a: SelectAction, items: Seq<ChatInfo>, x: i64)
    requires
        !lists_id(items, x),
    ensures
        ticked_over(sel, a, items).contains(x) == sel.contains(x),
    decreases items.len(),
{
    if items.len() > 0 {
        assert(!lists_id(items.drop_last(), x)) by {
            if lists_id(items.drop_last(), x) {
                let k = choose|k: int| 0 <= k < items.drop_last().len() && #[trigger] items.drop_last()[k].id == x;
                assert(items[k].id == x);
            }
        }
        assert(items.last().id != x) by {
            if items.last().id == x {
                assert(items[items.len() - 1].id == x);
            }
        }
        lemma_ticked_over_leaves_the_rest(sel, a, items.drop_last(), x);
    }
}

/// All ticks every chat it is applied to and Clear unticks every one; what
/// else was ticked stays as it was.
pub proof fn lemma_all_and_clear(sel: Set<i64>, items: Seq<ChatInfo>, x: i64)
    ensures
        ticked_over(sel, SelectAction::All, items).contains(x) == (sel.contains(x) || lists_id(items, x)),
        ticked_over(sel, SelectAction::Clear, items).contains(x) == (sel.contains(x) && !lists_id(items, x)),
    decreases items.len(),
{
    if items.len() > 0 {
        lemma_all_and_clear(sel, items.drop_last(), x);
        if lists_id(items, x) && !lists_id(items.drop_last(), x) {
            let k = choose|k: int| 0 <= k < items.len() && #[trigger] items[k].id == x;
            if k < items.len() - 1 {
                assert(items.drop_last()[k].id == x);
            }
        }
        if lists_id(items.drop_last(), x) {
            let k = choose|k: int| 0 <= k < items.drop_last().len() && #[trigger] items.drop_last()[k].id == x;
            assert(items[k].id == x);
        }
        if items.last().id == x {
            assert(items[items.len() - 1].id == x);
        }
    }
}

/// A tick on a chat the filter is hiding is left where it is, whichever
/// selection control is pressed; All then ticks exactly the visible chats
/// on top of what was ticked, and Clear unticks exactly those.
pub proof fn law_selection_controls_act_on_the_visible_rows_only(sel: Set<i64>, a: SelectAction, chats: Seq<ChatInfo>, view: ListView, x: i64)
    ensures
        !lists_id(visible_chats(chats, view), x) ==> ticked_over(sel, a, visible_chats(chats, view)).contains(x) == sel.contains(x),
        ticked_over(sel, SelectAction::All, visible_chats(chats, view)).contains(x) == (sel.contains(x) || lists_id(visible_chats(chats, view), x)),
        ticked_over(sel, SelectAction::Clear, visible_chats(chats, view)).contains(x) == (sel.contains(x) && !lists_id(visible_chats(chats, view), x)),
{
    if !lists_id(visible_chats(chats, view), x) {
        lemma_ticked_over_leaves_the_rest(sel, a, visible_chats(chats, view), x);
    }
    lemma_all_and_clear(sel, visible_chats(chats, view), x);
}

/// Which of the window's actions are offered: each step only when it can
/// do something, Stop only while something runs.
#[derive(Debug, Clone, Copy, PartialEq, Eq, Structural)]
pub struct NavState {
    pub sign_in: bool,
    pub refresh: bool,
    pub export: bool,
    pub stop: bool,
    /// The count button: offered with chats to count and no export running.
    pub count: bool,
}

pub const STOP_COUNTING: &'static str = "Stop counting";
pub const COUNT_MESSAGES: &'static str = "Count messages";
pub const NO_COUNTS_YET: &'static str = "No message counts yet \u{2014} press Count messages";

/// Does no chat have a count?
pub open spec fn none_counted(chats: Seq<ChatInfo>) -> bool {
    forall|k: int| 0 <= k < chats.len() ==> (#[trigger] chats[k]).message_count is None
}

fn any_counted(chats: &Vec<ChatInfo>) -> (b: bool)
    ensures
        b == !none_counted(chats@),
{
    let mut i: usize = 0;
    while i < chats.len()
        invariant
            i <= chats@.len(),
            forall|k: int| 0 <= k < i ==> (#[trigger] chats@[k]).message_count is None,
        decreases chats.len() - i,
    {
        if chats[i].message_count.is_some() {
            return true;
        }
        i += 1;
    }
    false
}

impl Shell {
    /// A click on a row flips its tick; ticks are held by id.
    pub fn toggle_tick(&mut self, id: i64)
        ensures
            final(self).model() == (ShellView {
                selected: if old(self).selected@.contains(id) { old(self).selected@.remove(id) } else { old(self).selected@.insert(id) },
                ..old(self).model()
            }),
            final(self).view == old(self).view,
            final(self).rows == old(self).rows,
            final(self).visible_count == old(self).visible_count,
    {
        let ghost before = self.selected@;
        if !self.selected.remove(&id) {
            assert(before.remove(id) =~= before);
            self.selected.insert(id);
        }
    }

    /// All, None, Invert or Only forums, over the visible rows in their
    /// order; ticks the filter hides are left alone.
    pub fn select_visible(&mut self, a: SelectAction)
        ensures
            final(self).model() == (ShellView {
                selected: ticked_over(old(self).selected@, a, visible_chats(old(self).chats@, old(self).view)),
                ..old(self).model()
            }),
            final(self).view == old(self).view,
            final(self).rows == old(self).rows,
            final(self).visible_count == old(self).visible_count,
    {
        let vis: Vec<(i64, bool)> = self.visible_marks();
        let ghost items = visible_chats(self.chats@, self.view);
        let mut i: usize = 0;
        while i < vis.len()
            invariant
                i <= vis@.len() == items.len(),
                forall|k: int| 0 <= k < vis@.len() ==> #[trigger] vis@[k] == (items[k].id, items[k].is_forum),
                self.selected@ == ticked_over(old(self).selected@, a, items.take(i as int)),
                self.chats == old(self).chats,
                self.view == old(self).view,
                self.rows == old(self).rows,
                self.visible_count == old(self).visible_count,
                self.model() == (ShellView { selected: self.selected@, ..old(self).model() }),
            decreases vis.len() - i,
        {
            let (id, forum) = vis[i];
            match a {
                SelectAction::All => {
                    self.selected.insert(id);
                },
                SelectAction::Clear => {
                    self.selected.remove(&id);
                },
                SelectAction::Invert => {
                    if !self.selected.remove(&id) {
                        self.selected.insert(id);
                    }
                },
                SelectAction::OnlyForums => {
                    if forum {
                        self.selected.insert(id);
                    } else {
                        self.selected.remove(&id);
                    }
                },
            }
            proof {
                assert(items.take(i + 1).drop_last() =~= items.take(i as int));
                assert(items.take(i + 1).last() == items[i as int]);
            }
            i += 1;
        }
        assert(items.take(items.len() as int) =~= items);
    }

    /// The visible chats' ids and whether each is a forum, asked once.
    fn visible_marks(&self) -> (r: Vec<(i64, bool)>)
        ensures
            r@.len() == visible_chats(self.chats@, self.view).len(),
            forall|k: int| 0 <= k < r@.len() ==> #[trigger] r@[k] == (visible_chats(self.chats@, self.view)[k].id, visible_chats(self.chats@, self.view)[k].is_forum),
    {
        let v = self.visible();
        let ghost items = visible_chats(self.chats@, self.view);
        let mut r: Vec<(i64, bool)> = Vec::new();
        let mut i: usize = 0;
        while i < v.len()
            invariant
                i <= v@.len() == items.len(),
                forall|k: int| 0 <= k < v@.len() ==> *v@[k] == #[trigger] items[k],
                r@.len() == i,
                forall|k: int| 0 <= k < i ==> #[trigger] r@[k] == (items[k].id, items[k].is_forum),
            decreases v.len() - i,
        {
            r.push((v[i].id, v[i].is_forum));
            i += 1;
        }
        r
    }

    /// A sort chosen from the menu. Sorting by size with nothing counted is
    /// no error, but a list that will not move, and the status says so.
    pub fn choose_sort(&mut self, mode: SortMode)
        ensures
            final(self).model() == (ShellView {
                rows_stale: false,
                status: if (mode is Largest || mode is Smallest) && none_counted(old(self).chats@) {
                    NO_COUNTS_YET@
                } else {
                    old(self).status@
                },
                ..old(self).model()
            }),
            final(self).view == (ListView { sort: mode, ..old(self).view }),
            final(self).rows_fresh(),
    {
        self.view.sort = mode;
        self.rebuild_rows();
        let by_size = match mode {
            SortMode::Largest | SortMode::Smallest => true,
            _ => false,
        };
        if by_size && !any_counted(&self.chats) {
            self.status = owned(NO_COUNTS_YET);
        }
    }

    /// A click on a category heading inverts the fold painted beside it,
    /// not the one stored, so a heading whose painting and storage parted
    /// takes one click, not two.
    pub fn toggle_fold(&mut self, category: Category, painted_folded: bool)
        ensures
            final(self).model() == (ShellView { rows_stale: false, ..old(self).model() }),
            final(self).view.folded@ == if painted_folded {
                old(self).view.folded@.remove(category)
            } else {
                old(self).view.folded@.insert(category)
            },
            final(self).view.sort == old(self).view.sort,
            final(self).view.grouped == old(self).view.grouped,
            final(self).view.filter == old(self).view.filter,
            final(self).rows_fresh(),
    {
        if painted_folded {
            self.view.folded.remove(&category);
        } else {
            self.view.folded.insert(category);
        }
        self.rebuild_rows();
    }

    /// Group by type, switched.
    pub fn toggle_grouping(&mut self)
        ensures
            final(self).model() == (ShellView { rows_stale: false, ..old(self).model() }),
            final(self).view == (ListView { grouped: !old(self).view.grouped, ..old(self).view }),
            final(self).rows_fresh(),
    {
        self.view.grouped = !self.view.grouped;
        self.rebuild_rows();
    }

    /// What the window offers. Sign in is withheld while the dialog is up
    /// (a second press would open a second connection behind the first);
    /// the export needs an account and a tick; nothing starts while a run
    /// or a count is going, and Stop is offered only then.
    pub fn nav_state(&self) -> (n: NavState)
        ensures
            n.sign_in == (!(self.exporting || self.counting) && self.login is None),
            n.refresh == (self.signed_in && !(self.exporting || self.counting)),
            n.export == (self.signed_in && self.selected@ != Set::<i64>::empty() && !(self.exporting || self.counting)),
            n.stop == (self.exporting || self.counting),
            n.count == (self.chats@.len() > 0 && !self.exporting),
    {
        let busy = self.exporting || self.counting;
        NavState {
            sign_in: !busy && self.login.is_none(),
            refresh: self.signed_in && !busy,
            export: self.signed_in && !self.selected.is_empty() && !busy,
            stop: busy,
            count: self.chats.len() > 0 && !self.exporting,
        }
    }

    /// The count button's label: it undoes itself while a count runs.
    pub fn count_label(&self) -> (l: &'static str)
        ensures
            l@ == if self.counting { STOP_COUNTING@ } else { COUNT_MESSAGES@ },
    {
        if self.counting { STOP_COUNTING } else { COUNT_MESSAGES }
    }
}


/// The caption under the progress bar. The export owns the bar while it
/// runs; a count says how far it has got; a finished run keeps its summary
/// rather than throwing away the one place that says how it ended; and
/// nothing running is Idle.
pub open spec fn progress_caption_of(m: ShellView) -> Seq<char> {
    if m.exporting {
        caption_of(m.queue)
    } else {
        match m.count_progress {
            Some(p) => "Counting "@ + dec(p.0 as nat) + " of "@ + dec(p.1 as nat) + " chats"@,
            None => if m.queue.len() > 0 { summary_of(m.queue) } else { "Idle"@ },
        }
    }
}

impl Shell {
    pub fn progress_caption(&self) -> (s: String)
        ensures
            s@ == progress_caption_of(self.model()),
    {
        if self.exporting {
            return self.queue.running_caption();
        }
        match self.count_progress {
            Some((done, total)) => {
                let mut v: Vec<char> = Vec::new();
                push_all(&mut v, "Counting ");
                push_dec(&mut v, done as u64);
                push_all(&mut v, " of ");
                push_dec(&mut v, total as u64);
                push_all(&mut v, " chats");
                string_of(&v)
            },
            None => if !self.queue.is_empty() {
                self.queue.summary()
            } else {
                owned("Idle")
            },
        }
    }

    /// The count's figure for the status bar, `done of total`; empty when
    /// no count is running or an export owns the line.
    pub fn count_figure(&self) -> (s: String)
        ensures
            s@ == match self.count_progress {
                Some(p) => if self.exporting { Seq::empty() } else { dec(p.0 as nat) + " of "@ + dec(p.1 as nat) },
                None => Seq::<char>::empty(),
            },
    {
        match self.count_progress {
            Some((done, total)) => {
                if self.exporting {
                    return String::new();
                }
                let mut v: Vec<char> = Vec::new();
                push_dec(&mut v, done as u64);
                push_all(&mut v, " of ");
                push_dec(&mut v, total as u64);
                proof {
                    assert(v@ =~= dec(done as nat) + " of "@ + dec(total as nat));
                }
                string_of(&v)
            },
            None => String::new(),
        }
    }
}


impl Shell {
    /// The sign-in dialog is closed without finishing: Cancel, Escape or a
    /// click outside. The half-finished credential goes with it (the window
    /// asks the worker to forget it).
    pub fn abandon_login(&mut self)
        ensures
            final(self).model() == (ShellView { login: None, ..old(self).model() }),
            final(self).view == old(self).view,
            final(self).rows == old(self).rows,
            final(self).visible_count == old(self).visible_count,
    {
        self.login = None;
    }

    /// The dialog's error was clicked and copied; nothing changes without a
    /// dialog.
    pub fn mark_error_copied(&mut self)
        ensures
            final(self).model() == (ShellView {
                login: match old(self).model().login {
                    Some(d) => Some((d.0, d.1, true, d.3)),
                    None => None,
                },
                ..old(self).model()
            }),
            final(self).view == old(self).view,
            final(self).rows == old(self).rows,
            final(self).visible_count == old(self).visible_count,
    {
        match self.login.as_mut() {
            Some(d) => {
                d.copied = true;
            },
            None => {},
        }
    }

    /// The journal was copied to the clipboard; a new line clears this.
    pub fn mark_log_copied(&mut self)
        ensures
            final(self).model() == (ShellView { log_copied: true, ..old(self).model() }),
            final(self).view == old(self).view,
            final(self).rows == old(self).rows,
            final(self).visible_count == old(self).visible_count,
    {
        self.log_copied = true;
    }
}

} // verus!
