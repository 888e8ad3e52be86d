//! What the background jobs decide between their calls to Telegram: which
//! events a step's outcome becomes, when a forum's topic split survives a
//! rate limit, and everything a finished chat has to admit to.
//!
//! The jobs themselves await the network; every choice they make on what
//! came back is here, as a function of that answer.
//!
//! **The queue owns what a run did.** Nothing here composes a run's summary.

use std::path::PathBuf;
use vstd::prelude::*;
use crate::gui::login::Stage;
use crate::gui::shell::Event;
use crate::gui::window::Activity;
use crate::strings::{dec, int_text, owned, push_all, push_dec, push_int, string_of};

verus! {

/// The refusal an action sends when the account is reachable but not
/// signed in.
pub const NOT_SIGNED_IN: &'static str = "Not signed in. Press 01 Sign in first.";

/// What an action that needs an authorised account does with the answer to
/// "is this session signed in?": go on, or fail its own activity saying why.
pub fn ready_outcome(connected: Result<bool, String>, activity: Activity) -> (r: Option<Event>)
    ensures
        match connected {
            Ok(true) => r is None,
            Ok(false) => r matches Some(Event::Failed { activity: a, message: m }) && a == activity && m@ == NOT_SIGNED_IN@,
            Err(e) => r matches Some(Event::Failed { activity: a, message: m }) && a == activity && m@ == e@,
        },
{
    match connected {
        Ok(true) => None,
        Ok(false) => Some(Event::Failed { activity, message: owned(NOT_SIGNED_IN) }),
        Err(e) => Some(Event::Failed { activity, message: e }),
    }
}

/// How the sign-in probe ended: not reachable, reachable but not signed in,
/// or signed in under a name (or with the name unreadable).
pub enum Probe {
    Unreachable(String),
    SignedOut,
    SignedIn(Result<String, String>),
}

/// Reaching Telegram without being signed in is a success, not an error:
/// the window opens the sign-in dialog on it.
pub fn sign_in_outcome(p: Probe) -> (e: Event)
    ensures
        match p {
            Probe::Unreachable(m) => e matches Event::Failed { activity: a, message: x } && a is SignIn && x@ == m@,
            Probe::SignedOut => e matches Event::Status(s) && s@ == "Not signed in"@,
            Probe::SignedIn(Ok(name)) => e matches Event::SignedIn(n) && n@ == name@,
            Probe::SignedIn(Err(m)) => e matches Event::Failed { activity: a, message: x } && a is SignIn && x@ == m@,
        },
{
    match p {
        Probe::Unreachable(m) => Event::Failed { activity: Activity::SignIn, message: m },
        Probe::SignedOut => {
            let s = owned("Not signed in");
            proof {
                reveal_strlit("Not signed in");
            }
            Event::Status(s)
        },
        Probe::SignedIn(Ok(name)) => Event::SignedIn(name),
        Probe::SignedIn(Err(m)) => Event::Failed { activity: Activity::SignIn, message: m },
    }
}

/// The end of a count: how many were counted and how many could not be,
/// said as a warning when any could not, since a blank row reads like an
/// empty chat; then the count's end, however it ended.
pub fn count_finished(counted: usize, failed: usize) -> (events: Vec<Event>)
    ensures
        failed > 0 ==> events@.len() == 2
            && (events@[0] matches Event::Warn(w) && w@ == dec(counted as nat) + " chats counted, "@ + dec(failed as nat)
                + " could not be \u{2014} those rows stay blank and sort last."@)
            && (events@[1] matches Event::CountFinished { counted: c, failed: f } && c == counted && f == failed),
        failed == 0 ==> events@.len() == 1
            && (events@[0] matches Event::CountFinished { counted: c, failed: f } && c == counted && f == failed),
{
    let mut events: Vec<Event> = Vec::new();
    if failed > 0 {
        let mut v: Vec<char> = Vec::new();
        push_dec(&mut v, counted as u64);
        push_all(&mut v, " chats counted, ");
        push_dec(&mut v, failed as u64);
        push_all(&mut v, " could not be \u{2014} those rows stay blank and sort last.");
        events.push(Event::Warn(string_of(&v)));
    }
    events.push(Event::CountFinished { counted, failed });
    events
}

/// One chat counted: its count (`None` is not zero), and how far the count
/// has got.
pub fn counted_one(done_before: usize, total: usize, chat_id: i64, count: Option<i64>) -> (r: (usize, Vec<Event>))
    requires
        done_before < usize::MAX,
    ensures
        r.0 == done_before + 1,
        r.1@.len() == 2,
        r.1@[0] matches Event::Counted { chat_id: c, total: t } && c == chat_id && t == count,
        r.1@[1] matches Event::CountProgress { done: d, total: t } && d == done_before + 1 && t == total,
{
    let done = done_before + 1;
    (done, vec![Event::Counted { chat_id, total: count }, Event::CountProgress { done, total }])
}

/// What one attempt at listing a forum's topics came back with.
pub enum TopicsAnswer {
    /// The topics, as many as there are.
    Listed(usize),
    /// A rate limit, and how long Telegram asked to wait.
    Throttled(u64),
    /// A real refusal, with its reason.
    Refused(String),
}

/// What to do after an attempt at listing a forum's topics.
pub enum TopicsStep {
    /// Split into this many topic folders.
    Split(usize),
    /// Say so, wait this long (or until cancelled), and try once more.
    Wait(u64),
    /// Still rate-limited after the retry: the chat fails this run, keeping
    /// its split for the next.
    RateLimited(Event),
    /// A real refusal: there is no shape to preserve, so the chat exports as
    /// one folder, and the window is told why.
    Unsplit(Event),
}

/// The message a chat fails with when topic listing stays rate-limited.
pub const TOPICS_THROTTLED: &'static str =
    "rate limited while listing topics \u{2014} retry this chat later rather than lose its topic split";

/// Splitting by topic is this app's reason to exist, so a rate limit during
/// discovery never turns a forum into one folder: it is waited out once, and
/// a second one fails just this chat. A genuine refusal degrades.
pub fn topics_step(title: &str, chat_id: i64, retried: bool, answer: TopicsAnswer) -> (s: TopicsStep)
    ensures
        match answer {
            TopicsAnswer::Listed(n) => s matches TopicsStep::Split(k) && k == n,
            TopicsAnswer::Throttled(secs) => if !retried {
                s matches TopicsStep::Wait(w) && w == secs
            } else {
                s matches TopicsStep::RateLimited(Event::ChatFailed { chat_id: c, message: m }) && c == chat_id && m@ == TOPICS_THROTTLED@
            },
            TopicsAnswer::Refused(why) => s matches TopicsStep::Unsplit(Event::Warn(w))
                && w@ == title@ + ": could not list topics ("@ + why@ + "); exporting as one folder"@,
        },
{
    match answer {
        TopicsAnswer::Listed(n) => TopicsStep::Split(n),
        TopicsAnswer::Throttled(secs) => {
            if !retried {
                TopicsStep::Wait(secs)
            } else {
                TopicsStep::RateLimited(Event::ChatFailed { chat_id, message: owned(TOPICS_THROTTLED) })
            }
        },
        TopicsAnswer::Refused(why) => {
            let mut v: Vec<char> = Vec::new();
            push_all(&mut v, title);
            push_all(&mut v, ": could not list topics (");
            push_all(&mut v, why.as_str());
            push_all(&mut v, "); exporting as one folder");
            TopicsStep::Unsplit(Event::Warn(string_of(&v)))
        },
    }
}

/// What a finished chat produced, as the engine counts it.
pub struct ChatOutcome {
    pub messages: usize,
    pub expected: i64,
    /// Output folders, which an unsplit chat has one of.
    pub topics: usize,
    pub empty_topics: usize,
    pub media_downloaded: usize,
    /// Lines in `missing_media.txt`.
    pub media_missing: usize,
    pub members: usize,
    pub members_complete: bool,
    pub enrich_deferred: usize,
    /// Telegram types this build could not map, written as text.
    pub degraded: Vec<String>,
    /// Everything Telegram counted came through.
    pub complete: bool,
}

/// The names, joined with `, `.
pub open spec fn comma_list(names: Seq<Seq<char>>) -> Seq<char>
    decreases names.len(),
{
    if names.len() == 0 {
        Seq::empty()
    } else if names.len() == 1 {
        names[0]
    } else {
        comma_list(names.drop_last()) + ", "@ + names.last()
    }
}

/// The summary line of a finished chat: messages, the topic folders when it
/// was split (and the empty ones skipped), and the files with their size.
pub open spec fn result_line(title: Seq<char>, r: ChatOutcome, split: bool, mb: Seq<char>) -> Seq<char> {
    title + ": "@ + dec(r.messages as nat) + " messages"@
        + (if split && r.topics > 0 {
            ", "@ + dec(r.topics as nat) + " topic folders"@
                + (if r.empty_topics > 0 { " ("@ + dec(r.empty_topics as nat) + " empty skipped)"@ } else { Seq::empty() })
        } else {
            Seq::empty()
        })
        + ", "@ + dec(r.media_downloaded as nat) + " files ("@ + mb + " MB)"@
}

/// Every line a finished chat has to admit to, as `(text, is_warning)`: the
/// summary; a short export as INCOMPLETE; missing files; a truncated member
/// list; lookups lost to rate limits; and types written as text.
pub open spec fn report_of(title: Seq<char>, r: ChatOutcome, split: bool, mb: Seq<char>) -> Seq<(Seq<char>, bool)> {
    seq![(result_line(title, r, split, mb), false)]
        + (if !r.complete {
            seq![(title + ": INCOMPLETE \u{2014} Telegram counted "@ + int_text(r.expected as int) + ", "@
                + dec(r.messages as nat) + " came through"@, true)]
        } else {
            Seq::empty()
        })
        + (if r.media_missing > 0 {
            seq![(title + ": "@ + dec(r.media_missing as nat) + " files could not be fetched \u{2014} see missing_media.txt"@, true)]
        } else {
            Seq::empty()
        })
        + (if r.members > 0 && !r.members_complete {
            seq![(title + ": the member list is INCOMPLETE \u{2014} see participants.json"@, true)]
        } else {
            Seq::empty()
        })
        + (if r.enrich_deferred > 0 {
            seq![(title + ": "@ + dec(r.enrich_deferred as nat)
                + " extra lookups were lost to rate limits \u{2014} reaction names, poll results or custom emoji may be missing. Re-exporting this chat later will fill them in."@, true)]
        } else {
            Seq::empty()
        })
        + (if r.degraded@.len() > 0 {
            seq![(title + ": Telegram data this build has no mapping for, written as text: "@
                + comma_list(r.degraded@.map_values(|d: String| d@)), false)]
        } else {
            Seq::empty()
        })
}

/// An event as the line it writes to the log, and whether it warns.
pub open spec fn line_of(e: Event) -> (Seq<char>, bool) {
    match e {
        Event::Log(t) => (t@, false),
        Event::Warn(t) => (t@, true),
        _ => (Seq::empty(), false),
    }
}

fn join_names(names: &Vec<String>) -> (s: String)
    ensures
        s@ == comma_list(names@.map_values(|d: String| d@)),
{
    let mut v: Vec<char> = Vec::new();
    let mut i: usize = 0;
    while i < names.len()
        invariant
            i <= names@.len(),
            v@ == comma_list(names@.map_values(|d: String| d@).take(i as int)),
        decreases names.len() - i,
    {
        let ghost t = names@.map_values(|d: String| d@).take(i + 1);
        assert(t.drop_last() == names@.map_values(|d: String| d@).take(i as int));
        assert(t.last() == names@[i as int]@);
        if i > 0 {
            push_all(&mut v, ", ");
        } else {
            assert(t == seq![names@[0]@]);
        }
        push_all(&mut v, names[i].as_str());
        i += 1;
    }
    assert(names@.map_values(|d: String| d@).take(names@.len() as int) == names@.map_values(|d: String| d@));
    string_of(&v)
}

/// Everything a finished chat has to admit to, as log events. `mb` is the
/// downloaded size in megabytes, already written to one decimal.
pub fn report_result(title: &str, r: &ChatOutcome, split: bool, mb: &str) -> (events: Vec<Event>)
    ensures
        events@.map_values(|e: Event| line_of(e)) == report_of(title@, *r, split, mb@),
        forall|k: int| 0 <= k < events@.len() ==> (#[trigger] events@[k] is Log || events@[k] is Warn),
{
    let mut events: Vec<Event> = Vec::new();
    let mut line: Vec<char> = Vec::new();
    push_all(&mut line, title);
    push_all(&mut line, ": ");
    push_dec(&mut line, r.messages as u64);
    push_all(&mut line, " messages");
    let ghost head = line@;
    if split && r.topics > 0 {
        push_all(&mut line, ", ");
        push_dec(&mut line, r.topics as u64);
        push_all(&mut line, " topic folders");
        let ghost mid = line@;
        if r.empty_topics > 0 {
            push_all(&mut line, " (");
            push_dec(&mut line, r.empty_topics as u64);
            push_all(&mut line, " empty skipped)");
            assert(line@ == mid + (" ("@ + dec(r.empty_topics as nat) + " empty skipped)"@));
        } else {
            assert(line@ == mid + Seq::<char>::empty());
        }
        assert(line@ == head + (", "@ + dec(r.topics as nat) + " topic folders"@
            + (if r.empty_topics > 0 { " ("@ + dec(r.empty_topics as nat) + " empty skipped)"@ } else { Seq::empty() })));
    } else {
        assert(line@ == head + Seq::<char>::empty());
    }
    push_all(&mut line, ", ");
    push_dec(&mut line, r.media_downloaded as u64);
    push_all(&mut line, " files (");
    push_all(&mut line, mb);
    push_all(&mut line, " MB)");
    assert(line@ == result_line(title@, *r, split, mb@));
    events.push(Event::Log(string_of(&line)));
    let ghost e1 = events@.map_values(|e: Event| line_of(e));
    assert(e1 == seq![(result_line(title@, *r, split, mb@), false)]);

    // A short export must not read like a complete one.
    if !r.complete {
        let mut v: Vec<char> = Vec::new();
        push_all(&mut v, title);
        push_all(&mut v, ": INCOMPLETE \u{2014} Telegram counted ");
        push_int(&mut v, r.expected);
        push_all(&mut v, ", ");
        push_dec(&mut v, r.messages as u64);
        push_all(&mut v, " came through");
        events.push(Event::Warn(string_of(&v)));
    }
    let ghost e2 = events@.map_values(|e: Event| line_of(e));
    if r.media_missing > 0 {
        let mut v: Vec<char> = Vec::new();
        push_all(&mut v, title);
        push_all(&mut v, ": ");
        push_dec(&mut v, r.media_missing as u64);
        push_all(&mut v, " files could not be fetched \u{2014} see missing_media.txt");
        events.push(Event::Warn(string_of(&v)));
    }
    let ghost e3 = events@.map_values(|e: Event| line_of(e));
    // A truncated roster that looks complete is worse than no roster.
    if r.members > 0 && !r.members_complete {
        let mut v: Vec<char> = Vec::new();
        push_all(&mut v, title);
        push_all(&mut v, ": the member list is INCOMPLETE \u{2014} see participants.json");
        events.push(Event::Warn(string_of(&v)));
    }
    let ghost e4 = events@.map_values(|e: Event| line_of(e));
    if r.enrich_deferred > 0 {
        let mut v: Vec<char> = Vec::new();
        push_all(&mut v, title);
        push_all(&mut v, ": ");
        push_dec(&mut v, r.enrich_deferred as u64);
        push_all(&mut v, " extra lookups were lost to rate limits \u{2014} reaction names, poll results or custom emoji may be missing. Re-exporting this chat later will fill them in.");
        events.push(Event::Warn(string_of(&v)));
    }
    let ghost e5 = events@.map_values(|e: Event| line_of(e));
    if r.degraded.len() > 0 {
        let mut v: Vec<char> = Vec::new();
        push_all(&mut v, title);
        push_all(&mut v, ": Telegram data this build has no mapping for, written as text: ");
        push_all(&mut v, join_names(&r.degraded).as_str());
        events.push(Event::Log(string_of(&v)));
    }
    let ghost e6 = events@.map_values(|e: Event| line_of(e));
    assert(e6 =~= report_of(title@, *r, split, mb@));
    events
}

/// The topics a finished chat reports: only a chat that really was split
/// has a topic count; an unsplit one has one output folder and no topics.
pub fn reported_topics(split: bool, folders: usize) -> (t: Option<usize>)
    ensures
        t == if split { Some(folders) } else { None },
{
    if split { Some(folders) } else { None }
}

/// Where a sign-in step left the account.
#[derive(Debug, Clone, Copy, PartialEq, Eq, Structural)]
pub enum LoginStep {
    Ready,
    NeedCode,
    NeedPassword,
}

/// What to do once a login code was asked for.
#[derive(Debug)]
pub enum CodeRequested {
    /// Already signed in: ask for the account's name.
    AskName,
    /// Keep the session for the next step, whose code is only usable with
    /// the token it holds, and move the dialog on.
    Hold(Event),
    /// The dialog stays open saying why.
    Fail(Event),
}

pub fn code_requested(step: Result<LoginStep, String>) -> (r: CodeRequested)
    ensures
        match step {
            Ok(LoginStep::Ready) => r is AskName,
            Ok(_) => r matches CodeRequested::Hold(Event::LoginStage(st)) && st == Stage::Code,
            Err(e) => r matches CodeRequested::Fail(Event::LoginFailed(m)) && m@ == e@,
        },
{
    match step {
        Ok(LoginStep::Ready) => CodeRequested::AskName,
        Ok(_) => CodeRequested::Hold(Event::LoginStage(Stage::Code)),
        Err(e) => CodeRequested::Fail(Event::LoginFailed(e)),
    }
}

/// The events for a sign-in that has nothing left to continue: the dialog
/// was reopened, or the app restarted between the code and its typing.
pub fn login_expired() -> (events: Vec<Event>)
    ensures
        events@.len() == 2,
        events@[0] matches Event::LoginFailed(m) && m@ == "That sign-in expired. Send a new code."@,
        events@[1] matches Event::LoginStage(st) && st == Stage::Phone,
{
    let m = owned("That sign-in expired. Send a new code.");
    vec![Event::LoginFailed(m), Event::LoginStage(Stage::Phone)]
}

/// What a submitted code or password decided: go on to ask the account's
/// name, or stop with an event. A password wanted keeps the session (its
/// token cannot be had again), and so does a mistyped code.
pub fn secret_checked(is_code: bool, step: Result<LoginStep, String>) -> (r: Option<Event>)
    ensures
        match step {
            Ok(LoginStep::Ready) => r is None,
            Ok(LoginStep::NeedPassword) => if is_code {
                r matches Some(Event::LoginStage(st)) && st == Stage::Password
            } else {
                r is None
            },
            Ok(LoginStep::NeedCode) => if is_code {
                r matches Some(Event::LoginFailed(m)) && m@ == "Telegram wanted another code."@
            } else {
                r is None
            },
            Err(e) => r matches Some(Event::LoginFailed(m)) && m@ == e@,
        },
{
    match step {
        Ok(LoginStep::Ready) => None,
        Ok(LoginStep::NeedPassword) => if is_code { Some(Event::LoginStage(Stage::Password)) } else { None },
        Ok(LoginStep::NeedCode) => if is_code {
            Some(Event::LoginFailed(owned("Telegram wanted another code.")))
        } else {
            None
        },
        Err(e) => Some(Event::LoginFailed(e)),
    }
}

/// The end of a sign-in: the account's name, or why it could not be read.
pub fn named(me: Result<String, String>) -> (e: Event)
    ensures
        match me {
            Ok(name) => e matches Event::SignedIn(n) && n@ == name@,
            Err(m) => e matches Event::LoginFailed(x) && x@ == m@,
        },
{
    match me {
        Ok(name) => Event::SignedIn(name),
        Err(m) => Event::LoginFailed(m),
    }
}


/// A report from the engine while one chat exports.
pub enum Progress {
    /// Messages written so far, out of what Telegram counted.
    Messages { done: usize, total: i64 },
    /// The total the export looked up.
    Total { total: i64 },
    /// A rate-limit wait, in seconds.
    FloodWait { seconds: u64 },
    /// One topic folder finished, with its message count.
    Topic { title: String, messages: usize },
    /// A line for the journal.
    Log(String),
    /// Per-message detail.
    Detail(String),
}

/// What the window hears of a progress report: counts and waits as they
/// are, topic tallies and log lines indented under their chat, and the
/// per-message detail not at all, which would flush every other line
/// (the warnings among them) out of the journal.
pub fn progress_event(chat_id: i64, p: Progress) -> (e: Option<Event>)
    ensures
        match p {
            Progress::Messages { done, total } => e matches Some(Event::Progress { chat_id: c, done: d, total: t })
                && c == chat_id && d == done && t == total,
            Progress::Total { total } => e matches Some(Event::ChatTotal { chat_id: c, total: t }) && c == chat_id && t == total,
            Progress::FloodWait { seconds } => e matches Some(Event::FloodWait(w)) && w == seconds,
            Progress::Topic { title, messages } => e matches Some(Event::Log(t)) && t@ == "  "@ + title@ + ": "@ + dec(messages as nat),
            Progress::Log(m) => e matches Some(Event::Log(t)) && t@ == "  "@ + m@,
            Progress::Detail(_) => e is None,
        },
{
    match p {
        Progress::Messages { done, total } => Some(Event::Progress { chat_id, done, total }),
        Progress::Total { total } => Some(Event::ChatTotal { chat_id, total }),
        Progress::FloodWait { seconds } => Some(Event::FloodWait(seconds)),
        Progress::Topic { title, messages } => {
            let mut v: Vec<char> = Vec::new();
            push_all(&mut v, "  ");
            push_all(&mut v, title.as_str());
            push_all(&mut v, ": ");
            push_dec(&mut v, messages as u64);
            Some(Event::Log(string_of(&v)))
        },
        Progress::Log(m) => {
            let mut v: Vec<char> = Vec::new();
            push_all(&mut v, "  ");
            push_all(&mut v, m.as_str());
            Some(Event::Log(string_of(&v)))
        },
        Progress::Detail(_) => None,
    }
}

/// How the search for a forum's topics ended.
pub enum TopicsResolution {
    /// Genuinely split, into this many topics.
    Split(usize),
    /// A real refusal: the chat exports as one folder.
    Unsplit,
    /// Still rate-limited after the one retry.
    RateLimited,
    /// Cancelled while waiting out the rate limit.
    Cancelled,
}

/// What the export does with one chat once its topics are settled.
#[derive(Debug)]
pub enum ChatPlan {
    /// Export it: into topic folders when `split`, with `topics` topics
    /// handed to the engine (one, the general topic, when not split), and
    /// the window told the folder count first when split.
    Export { split: bool, topics: usize, announce: Option<Event> },
    /// Go on to the next chat: a forum still rate-limited stays a forum and
    /// is not exported as one folder.
    Skip,
    /// End the queue.
    Stop,
}

/// A chat is split only if it is a forum and splitting is on; `resolved`
/// is what the topic search said, and is only looked at then. A refusal
/// degrades to one folder; a rate limit or a cancel never does.
pub fn chat_plan(chat_id: i64, is_forum: bool, split_topics: bool, resolved: Option<TopicsResolution>) -> (p: ChatPlan)
    ensures
        !(is_forum && split_topics) || resolved is None ==> (p matches ChatPlan::Export { split, topics, announce }
            && !split && topics == 1 && announce is None),
        is_forum && split_topics ==> match resolved {
            Some(TopicsResolution::Split(n)) => p matches ChatPlan::Export { split, topics, announce }
                && split && topics == n
                && (announce matches Some(Event::ChatTopics { chat_id: c, topics: t }) && c == chat_id && t == n),
            Some(TopicsResolution::Unsplit) => p matches ChatPlan::Export { split, topics, announce }
                && !split && topics == 1 && announce is None,
            Some(TopicsResolution::RateLimited) => p is Skip,
            Some(TopicsResolution::Cancelled) => p is Stop,
            None => true,
        },
{
    if !(is_forum && split_topics) {
        return ChatPlan::Export { split: false, topics: 1, announce: None };
    }
    match resolved {
        None => ChatPlan::Export { split: false, topics: 1, announce: None },
        Some(TopicsResolution::Split(n)) => ChatPlan::Export {
            split: true,
            topics: n,
            announce: Some(Event::ChatTopics { chat_id, topics: n }),
        },
        Some(TopicsResolution::Unsplit) => ChatPlan::Export { split: false, topics: 1, announce: None },
        Some(TopicsResolution::RateLimited) => ChatPlan::Skip,
        Some(TopicsResolution::Cancelled) => ChatPlan::Stop,
    }
}

/// The message a chat fails with when it has left the dialog list.
pub const NOT_LISTED: &'static str = "no longer in the dialog list";

/// Why an export ended before its first chat, or mid-queue on a destination
/// that cannot be written.
pub enum ExportRefusal {
    /// Telegram could not be reached.
    Connect(String),
    /// The account is not ready; that was already said.
    NotReady,
    /// The one sweep of the dialog list failed in transport.
    Listing(String),
    /// The destination is unwritable; every later chat would fail the same
    /// way, so the whole queue ends.
    Destination { dir: String, why: String },
}

/// The events that end a refused export: why, for the export activity,
/// then the queue's end as stopped.
pub fn export_refused(r: ExportRefusal) -> (events: Vec<Event>)
    ensures
        events@.len() >= 1,
        events@.last() matches Event::Finished { stopped } && stopped,
        match r {
            ExportRefusal::NotReady => events@.len() == 1,
            ExportRefusal::Connect(e) => events@.len() == 2
                && (events@[0] matches Event::Failed { activity, message } && activity is Export && message@ == e@),
            ExportRefusal::Listing(e) => events@.len() == 2
                && (events@[0] matches Event::Failed { activity, message } && activity is Export
                    && message@ == "listing chats: "@ + e@),
            ExportRefusal::Destination { dir, why } => events@.len() == 2
                && (events@[0] matches Event::Failed { activity, message } && activity is Export
                    && message@ == "cannot write into "@ + dir@ + ": "@ + why@),
        },
{
    let mut events: Vec<Event> = Vec::new();
    match r {
        ExportRefusal::NotReady => {},
        ExportRefusal::Connect(e) => {
            events.push(Event::Failed { activity: Activity::Export, message: e });
        },
        ExportRefusal::Listing(e) => {
            let mut v: Vec<char> = Vec::new();
            push_all(&mut v, "listing chats: ");
            push_all(&mut v, e.as_str());
            events.push(Event::Failed { activity: Activity::Export, message: string_of(&v) });
        },
        ExportRefusal::Destination { dir, why } => {
            let mut v: Vec<char> = Vec::new();
            push_all(&mut v, "cannot write into ");
            push_all(&mut v, dir.as_str());
            push_all(&mut v, ": ");
            push_all(&mut v, why.as_str());
            events.push(Event::Failed { activity: Activity::Export, message: string_of(&v) });
        },
    }
    events.push(Event::Finished { stopped: true });
    events
}

/// The journal line naming where a chat is written.
pub fn writing_to(title: &str, root: &str) -> (e: Event)
    ensures
        e matches Event::Log(t) && t@ == title@ + ": writing to "@ + root@,
{
    let mut v: Vec<char> = Vec::new();
    push_all(&mut v, title);
    push_all(&mut v, ": writing to ");
    push_all(&mut v, root);
    Event::Log(string_of(&v))
}

/// How the engine's run of one chat ended.
pub enum ChatEnd {
    Done(ChatOutcome),
    /// Stopped on request: whatever was written is closed and valid.
    Cancelled,
    Failed(String),
}

/// The events for a chat's end, and whether the queue stops there. A done
/// chat reports what it wrote (its topic count only when it was split) and
/// everything it has to admit to; a stop is no failure; a failure is this
/// chat's alone.
pub fn chat_ended(
    chat_id: i64,
    title: &str,
    end: ChatEnd,
    split: bool,
    mb: &str,
    media_failed: usize,
    root: PathBuf,
) -> (r: (Vec<Event>, bool))
    ensures
        match end {
            ChatEnd::Done(o) => !r.1 && r.0@.len() >= 1
                && (r.0@[0] matches Event::ChatDone { chat_id: c, messages, expected, topics, media_downloaded, media_failed: f, root: p }
                    && c == chat_id && messages == o.messages && expected == o.expected
                    && topics == (if split { Some(o.topics) } else { None::<usize> })
                    && media_downloaded == o.media_downloaded && f == media_failed && p == root)
                && r.0@.skip(1).map_values(|e: Event| line_of(e)) == report_of(title@, o, split, mb@),
            ChatEnd::Cancelled => r.1 && r.0@.len() == 1
                && (r.0@[0] matches Event::Log(t) && t@ == title@ + ": stopped"@),
            ChatEnd::Failed(m) => !r.1 && r.0@.len() == 1
                && (r.0@[0] matches Event::ChatFailed { chat_id: c, message } && c == chat_id && message@ == m@),
        },
{
    match end {
        ChatEnd::Done(o) => {
            let report = report_result(title, &o, split, mb);
            let mut events: Vec<Event> = Vec::new();
            events.push(Event::ChatDone {
                chat_id,
                messages: o.messages,
                expected: o.expected,
                topics: reported_topics(split, o.topics),
                media_downloaded: o.media_downloaded,
                media_failed,
                root,
            });
            let ghost first = events@[0];
            let mut rest = report;
            let ghost all = rest@;
            let n = rest.len();
            let mut k: usize = 0;
            while rest.len() > 0
                invariant
                    all.len() == n,
                    events@.len() == 1 + k,
                    events@[0] == first,
                    k + rest@.len() == all.len(),
                    rest@ == all.skip(k as int),
                    forall|j: int| 0 <= j < k ==> #[trigger] events@[1 + j] == all[j],
                decreases rest.len(),
            {
                let e = rest.remove(0);
                events.push(e);
                assert(rest@ =~= all.skip(k + 1));
                k += 1;
            }
            assert forall|j: int| 0 <= j < all.len() implies #[trigger] events@.skip(1)[j] == all[j] by {
                assert(events@[1 + j] == all[j]);
            }
            assert(events@.skip(1) =~= all);
            (events, false)
        },
        ChatEnd::Cancelled => {
            let mut v: Vec<char> = Vec::new();
            push_all(&mut v, title);
            push_all(&mut v, ": stopped");
            (vec![Event::Log(string_of(&v))], true)
        },
        ChatEnd::Failed(m) => (vec![Event::ChatFailed { chat_id, message: m }], false),
    }
}


/// How the export meets the next chat in its queue.
#[derive(Debug)]
pub enum ChatOpening {
    /// Stop was pressed: the queue ends here, saying nothing more of it.
    Stop,
    /// Announced, then failed at once: the chat has left the dialog list.
    Skip(Vec<Event>),
    /// Announced; go on to its topics.
    Go(Event),
}

/// The start of one chat's turn: a pressed Stop ends the queue before the
/// chat is announced; otherwise it is announced, and a chat no longer in the
/// dialog list fails there and the queue moves on.
pub fn chat_opening(cancelled: bool, chat_id: i64, title: &str, listed: bool) -> (r: ChatOpening)
    ensures
        cancelled ==> r is Stop,
        !cancelled && listed ==> (r matches ChatOpening::Go(Event::ChatStarted { chat_id: c, title: t })
            && c == chat_id && t@ == title@),
        !cancelled && !listed ==> (r matches ChatOpening::Skip(events) && events@.len() == 2
            && (events@[0] matches Event::ChatStarted { chat_id: c, title: t } && c == chat_id && t@ == title@)
            && (events@[1] matches Event::ChatFailed { chat_id: c, message: m } && c == chat_id && m@ == NOT_LISTED@)),
{
    if cancelled {
        return ChatOpening::Stop;
    }
    let started = Event::ChatStarted { chat_id, title: owned(title) };
    if listed {
        ChatOpening::Go(started)
    } else {
        ChatOpening::Skip(vec![started, Event::ChatFailed { chat_id, message: owned(NOT_LISTED) }])
    }
}

/// The queue's last word, however it ended: whether Stop ended it. The run
/// sends it once, after every chat's events.
pub fn run_finished(cancelled: bool) -> (e: Event)
    ensures
        e matches Event::Finished { stopped } && stopped == cancelled,
{
    Event::Finished { stopped: cancelled }
}

} // verus!
