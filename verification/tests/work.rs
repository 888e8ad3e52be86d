use tgx::gui::shell::Event;
use tgx::gui::window::Activity;
use tgx::gui::work::{
    chat_ended, chat_opening, chat_plan, run_finished, ChatOpening, code_requested, count_finished, counted_one, export_refused,
    login_expired, named, progress_event, ready_outcome, report_result, reported_topics,
    secret_checked, sign_in_outcome, topics_step, writing_to, ChatEnd, ChatOutcome, ChatPlan,
    CodeRequested, ExportRefusal, LoginStep, Probe, Progress, TopicsAnswer, TopicsResolution,
    TopicsStep, NOT_LISTED,
};
use std::path::PathBuf;
use tgx::gui::login::Stage;

fn outcome() -> ChatOutcome {
    ChatOutcome {
        messages: 6640,
        expected: 6643,
        topics: 4,
        empty_topics: 1,
        media_downloaded: 830,
        media_missing: 0,
        members: 0,
        members_complete: true,
        enrich_deferred: 0,
        degraded: vec![],
        complete: true,
    }
}

fn lines(events: &[Event]) -> Vec<(String, bool)> {
    events
        .iter()
        .map(|e| match e {
            Event::Log(t) => (t.clone(), false),
            Event::Warn(t) => (t.clone(), true),
            other => panic!("not a log line: {other:?}"),
        })
        .collect()
}

#[test]
fn a_rate_limit_during_topic_discovery_waits_once_then_skips_the_chat() {
    match topics_step("forum", 7, false, TopicsAnswer::Throttled(60)) {
        TopicsStep::Wait(60) => {}
        _ => panic!("the first rate limit is waited out"),
    }
    match topics_step("forum", 7, true, TopicsAnswer::Throttled(60)) {
        TopicsStep::RateLimited(Event::ChatFailed { chat_id: 7, message }) => {
            assert!(message.contains("rather than lose its topic split"), "{message}");
        }
        _ => panic!("a second rate limit fails the chat, it does not collapse it"),
    }
}

#[test]
fn a_real_refusal_still_degrades_to_one_folder() {
    match topics_step("forum", 7, false, TopicsAnswer::Refused("CHANNEL_PRIVATE".into())) {
        TopicsStep::Unsplit(Event::Warn(w)) => {
            assert_eq!(w, "forum: could not list topics (CHANNEL_PRIVATE); exporting as one folder");
        }
        _ => panic!("a refusal degrades"),
    }
    match topics_step("forum", 7, true, TopicsAnswer::Listed(4)) {
        TopicsStep::Split(4) => {}
        _ => panic!("listed topics split"),
    }
}

#[test]
fn a_chat_that_was_never_split_reports_no_topics() {
    assert_eq!(reported_topics(false, 1), None);
    assert_eq!(reported_topics(true, 4), Some(4));
}

#[test]
fn a_count_that_lost_some_chats_says_so_before_it_ends() {
    let events = count_finished(10, 2);
    assert_eq!(events.len(), 2);
    match &events[0] {
        Event::Warn(w) => assert_eq!(
            w,
            "10 chats counted, 2 could not be — those rows stay blank and sort last."
        ),
        other => panic!("{other:?}"),
    }
    assert!(matches!(events[1], Event::CountFinished { counted: 10, failed: 2 }));
    let clean = count_finished(3, 0);
    assert_eq!(clean.len(), 1);
    assert!(matches!(clean[0], Event::CountFinished { counted: 3, failed: 0 }));
}

#[test]
fn each_counted_chat_moves_the_count_on() {
    let (done, events) = counted_one(4, 12, 99, None);
    assert_eq!(done, 5);
    assert!(matches!(events[0], Event::Counted { chat_id: 99, total: None }));
    assert!(matches!(events[1], Event::CountProgress { done: 5, total: 12 }));
}

#[test]
fn an_unauthorised_account_is_named_not_left_to_fail_later() {
    assert!(ready_outcome(Ok(true), Activity::Export).is_none());
    match ready_outcome(Ok(false), Activity::Count) {
        Some(Event::Failed { activity: Activity::Count, message }) => {
            assert_eq!(message, "Not signed in. Press 01 Sign in first.")
        }
        other => panic!("{other:?}"),
    }
    match ready_outcome(Err("timed out".into()), Activity::Chats) {
        Some(Event::Failed { activity: Activity::Chats, message }) => assert_eq!(message, "timed out"),
        other => panic!("{other:?}"),
    }
}

#[test]
fn reaching_telegram_signed_out_is_not_an_error() {
    match sign_in_outcome(Probe::SignedOut) {
        Event::Status(s) => assert_eq!(s, "Not signed in"),
        other => panic!("{other:?}"),
    }
    match sign_in_outcome(Probe::SignedIn(Ok("kosta".into()))) {
        Event::SignedIn(n) => assert_eq!(n, "kosta"),
        other => panic!("{other:?}"),
    }
    match sign_in_outcome(Probe::Unreachable("no network".into())) {
        Event::Failed { activity: Activity::SignIn, message } => assert_eq!(message, "no network"),
        other => panic!("{other:?}"),
    }
}

#[test]
fn a_finished_chat_reports_its_folders_and_files() {
    let r = outcome();
    let got = lines(&report_result("news", &r, true, "12.5"));
    assert_eq!(
        got,
        vec![("news: 6640 messages, 4 topic folders (1 empty skipped), 830 files (12.5 MB)".to_string(), false)]
    );
    let unsplit = lines(&report_result("news", &r, false, "12.5"));
    assert_eq!(unsplit[0].0, "news: 6640 messages, 830 files (12.5 MB)");
}

#[test]
fn a_short_export_does_not_read_like_a_complete_one() {
    let mut r = outcome();
    r.complete = false;
    r.media_missing = 42;
    r.members = 100;
    r.members_complete = false;
    r.enrich_deferred = 3;
    r.degraded = vec!["MessageMediaFoo".into(), "MessageActionBar".into()];
    let got = lines(&report_result("news", &r, true, "0.0"));
    assert_eq!(got.len(), 6);
    assert_eq!(got[1], ("news: INCOMPLETE — Telegram counted 6643, 6640 came through".to_string(), true));
    assert_eq!(got[2], ("news: 42 files could not be fetched — see missing_media.txt".to_string(), true));
    assert_eq!(got[3], ("news: the member list is INCOMPLETE — see participants.json".to_string(), true));
    assert!(got[4].1 && got[4].0.starts_with("news: 3 extra lookups were lost"));
    assert_eq!(
        got[5],
        (
            "news: Telegram data this build has no mapping for, written as text: MessageMediaFoo, MessageActionBar"
                .to_string(),
            false
        )
    );
}

#[test]
fn a_code_request_holds_the_session_for_the_code() {
    assert!(matches!(code_requested(Ok(LoginStep::Ready)), CodeRequested::AskName));
    assert!(matches!(
        code_requested(Ok(LoginStep::NeedCode)),
        CodeRequested::Hold(Event::LoginStage(Stage::Code))
    ));
    match code_requested(Err("PHONE_NUMBER_INVALID".into())) {
        CodeRequested::Fail(Event::LoginFailed(m)) => assert_eq!(m, "PHONE_NUMBER_INVALID"),
        other => panic!("{other:?}"),
    }
}

#[test]
fn an_expired_sign_in_starts_again_from_the_phone() {
    let events = login_expired();
    match &events[0] {
        Event::LoginFailed(m) => assert_eq!(m, "That sign-in expired. Send a new code."),
        other => panic!("{other:?}"),
    }
    assert!(matches!(events[1], Event::LoginStage(Stage::Phone)));
}

#[test]
fn a_code_that_wants_a_password_moves_the_dialog_on() {
    assert!(secret_checked(true, Ok(LoginStep::Ready)).is_none());
    assert!(matches!(
        secret_checked(true, Ok(LoginStep::NeedPassword)),
        Some(Event::LoginStage(Stage::Password))
    ));
    match secret_checked(true, Ok(LoginStep::NeedCode)) {
        Some(Event::LoginFailed(m)) => assert_eq!(m, "Telegram wanted another code."),
        other => panic!("{other:?}"),
    }
    match secret_checked(false, Err("PASSWORD_HASH_INVALID".into())) {
        Some(Event::LoginFailed(m)) => assert_eq!(m, "PASSWORD_HASH_INVALID"),
        other => panic!("{other:?}"),
    }
    assert!(secret_checked(false, Ok(LoginStep::Ready)).is_none());
    match named(Ok("kosta".into())) {
        Event::SignedIn(n) => assert_eq!(n, "kosta"),
        other => panic!("{other:?}"),
    }
}

#[test]
fn progress_reaches_the_window_except_per_message_detail() {
    assert!(matches!(
        progress_event(9, Progress::Messages { done: 10, total: 40 }),
        Some(Event::Progress { chat_id: 9, done: 10, total: 40 })
    ));
    assert!(matches!(
        progress_event(9, Progress::Total { total: 6643 }),
        Some(Event::ChatTotal { chat_id: 9, total: 6643 })
    ));
    assert!(matches!(progress_event(9, Progress::FloodWait { seconds: 31 }), Some(Event::FloodWait(31))));
    match progress_event(9, Progress::Topic { title: "General".into(), messages: 120 }) {
        Some(Event::Log(t)) => assert_eq!(t, "  General: 120"),
        other => panic!("{other:?}"),
    }
    match progress_event(9, Progress::Log("resuming".into())) {
        Some(Event::Log(t)) => assert_eq!(t, "  resuming"),
        other => panic!("{other:?}"),
    }
    assert!(progress_event(9, Progress::Detail("message 17".into())).is_none());
}

#[test]
fn a_rate_limit_never_turns_a_forum_into_one_folder() {
    match chat_plan(5, true, true, Some(TopicsResolution::Split(7))) {
        ChatPlan::Export { split, topics, announce } => {
            assert!(split);
            assert_eq!(topics, 7);
            assert!(matches!(announce, Some(Event::ChatTopics { chat_id: 5, topics: 7 })));
        }
        other => panic!("{other:?}"),
    }
    assert!(matches!(chat_plan(5, true, true, Some(TopicsResolution::RateLimited)), ChatPlan::Skip));
    assert!(matches!(chat_plan(5, true, true, Some(TopicsResolution::Cancelled)), ChatPlan::Stop));
    assert!(matches!(
        chat_plan(5, true, true, Some(TopicsResolution::Unsplit)),
        ChatPlan::Export { split: false, topics: 1, announce: None }
    ));
}

#[test]
fn a_chat_that_is_no_forum_or_not_split_exports_as_one_folder() {
    assert!(matches!(
        chat_plan(5, false, true, None),
        ChatPlan::Export { split: false, topics: 1, announce: None }
    ));
    assert!(matches!(
        chat_plan(5, true, false, Some(TopicsResolution::Split(3))),
        ChatPlan::Export { split: false, topics: 1, announce: None }
    ));
    assert_eq!(NOT_LISTED, "no longer in the dialog list");
}

#[test]
fn a_refused_export_says_why_and_ends_stopped() {
    let e = export_refused(ExportRefusal::Destination { dir: "/mnt/gone".into(), why: "not found".into() });
    assert_eq!(e.len(), 2);
    match &e[0] {
        Event::Failed { activity: Activity::Export, message } => {
            assert_eq!(message, "cannot write into /mnt/gone: not found")
        }
        other => panic!("{other:?}"),
    }
    assert!(matches!(e[1], Event::Finished { stopped: true }));
    let e = export_refused(ExportRefusal::Listing("timeout".into()));
    match &e[0] {
        Event::Failed { message, .. } => assert_eq!(message, "listing chats: timeout"),
        other => panic!("{other:?}"),
    }
    let e = export_refused(ExportRefusal::NotReady);
    assert_eq!(e.len(), 1);
    assert!(matches!(e[0], Event::Finished { stopped: true }));
    let e = export_refused(ExportRefusal::Connect("offline".into()));
    assert!(matches!(&e[0], Event::Failed { message, .. } if message == "offline"));
}

#[test]
fn the_journal_names_where_a_chat_is_written() {
    match writing_to("News", "/out/News") {
        Event::Log(t) => assert_eq!(t, "News: writing to /out/News"),
        other => panic!("{other:?}"),
    }
}

#[test]
fn a_finished_chat_reports_its_topics_only_when_split() {
    let (events, stop) = chat_ended(3, "Forum", ChatEnd::Done(outcome()), false, "12.5", 2, PathBuf::from("/out/Forum"));
    assert!(!stop);
    match &events[0] {
        Event::ChatDone { chat_id, messages, expected, topics, media_downloaded, media_failed, root } => {
            assert_eq!((*chat_id, *messages, *expected), (3, 6640, 6643));
            assert_eq!(*topics, None);
            assert_eq!((*media_downloaded, *media_failed), (830, 2));
            assert_eq!(root, &PathBuf::from("/out/Forum"));
        }
        other => panic!("{other:?}"),
    }
    assert_eq!(lines(&events[1..]), lines(&report_result("Forum", &outcome(), false, "12.5")));
    let (events, _) = chat_ended(3, "Forum", ChatEnd::Done(outcome()), true, "12.5", 0, PathBuf::from("/x"));
    assert!(matches!(events[0], Event::ChatDone { topics: Some(4), .. }));
}

#[test]
fn a_stopped_chat_is_no_failure_and_ends_the_queue() {
    let (events, stop) = chat_ended(3, "Forum", ChatEnd::Cancelled, true, "0.0", 0, PathBuf::new());
    assert!(stop);
    assert!(matches!(&events[0], Event::Log(t) if t == "Forum: stopped"));
    let (events, stop) = chat_ended(3, "Forum", ChatEnd::Failed("boom".into()), true, "0.0", 0, PathBuf::new());
    assert!(!stop);
    assert!(matches!(&events[0], Event::ChatFailed { chat_id: 3, message } if message == "boom"));
}

#[test]
fn a_chat_is_announced_unless_stop_was_pressed() {
    assert!(matches!(chat_opening(true, 4, "News", true), ChatOpening::Stop));
    match chat_opening(false, 4, "News", true) {
        ChatOpening::Go(Event::ChatStarted { chat_id: 4, title }) => assert_eq!(title, "News"),
        other => panic!("{other:?}"),
    }
    match chat_opening(false, 4, "News", false) {
        ChatOpening::Skip(events) => {
            assert_eq!(events.len(), 2);
            assert!(matches!(&events[0], Event::ChatStarted { chat_id: 4, .. }));
            assert!(matches!(&events[1], Event::ChatFailed { chat_id: 4, message } if message == NOT_LISTED));
        }
        other => panic!("{other:?}"),
    }
    assert!(matches!(run_finished(true), Event::Finished { stopped: true }));
    assert!(matches!(run_finished(false), Event::Finished { stopped: false }));
}
