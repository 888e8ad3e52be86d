use tgx::gui::list::{Category, ChatInfo, ChatKind, Folds, ListView, SortMode};
use tgx::gui::queue::JobState;
use tgx::gui::login::Stage;
use tgx::gui::shell::{
    folded_keys, folds_from_keys, view_from_settings, Event, LoginAction, LoginInput, LoginState,
    PaintedRow, SelectAction, Shell, BAD_CREDENTIALS, BLANK_SECRET, NO_COUNTS_YET, NO_PHONE,
};
use tgx::gui::window::Activity;

fn chat(id: i64, title: &str, count: Option<i64>) -> ChatInfo {
    ChatInfo {
        id,
        title: title.into(),
        kind: ChatKind::Supergroup,
        last_activity: 0,
        is_forum: false,
        public: false,
        message_count: count,
    }
}

fn headless() -> Shell {
    Shell::new(ListView::default())
}

fn shell_with(chats: Vec<ChatInfo>) -> Shell {
    let mut s = headless();
    s.signed_in = true;
    s.loaded = true;
    s.chats = chats;
    s.rebuild_rows();
    s
}

#[test]
fn tests_selection_actions_are_disabled_over_an_empty_list() {
    let s = headless();
    assert!(!s.selection_actions_enabled());
    let populated = shell_with(vec![chat(1, "a", None)]);
    assert!(populated.selection_actions_enabled());
}

#[test]
fn tests_ticks_are_held_by_id_so_they_survive_filtering() {
    let mut s = shell_with(vec![chat(1, "news", None), chat(2, "other", None)]);
    s.view.filter = "news".into();
    s.selected.insert(1);
    s.view.filter = "other".into();
    assert!(s.selected.contains(&1));
    s.view.filter.clear();
    assert_eq!(s.visible().len(), 2);
    assert!(s.selected.contains(&1));
}

#[test]
fn tests_a_zero_count_is_summed_and_a_missing_one_is_not() {
    let mut s = shell_with(vec![chat(1, "empty", Some(0)), chat(2, "unknown", None)]);
    s.selected.insert(1);
    assert_eq!(s.selection_total(), (0, false), "0 is a count");
    s.selected.clear();
    s.selected.insert(2);
    assert_eq!(s.selection_total(), (0, true), "blank is not a count");
}

#[test]
fn the_footer_total_counts_only_the_ticked_counted_chats() {
    let mut s = shell_with(vec![chat(1, "a", Some(10)), chat(2, "b", None)]);
    s.selected.insert(1);
    assert_eq!(s.selection_total(), (10, false));
    s.selected.insert(2);
    assert_eq!(s.selection_total(), (10, true));
}

#[test]
fn a_count_reaches_the_row_the_list_paints_and_sorts_on() {
    let mut s = shell_with(vec![chat(1, "a", None)]);
    s.apply(Event::Counted { chat_id: 1, total: Some(6643) });
    assert_eq!(s.chats[0].message_count, Some(6643));
    assert_eq!(s.count_of(1), Some(6643));
}

#[test]
fn a_chat_telegram_would_not_count_stays_blank_rather_than_zero() {
    let mut s = shell_with(vec![chat(1, "a", Some(5))]);
    s.apply(Event::Counted { chat_id: 1, total: None });
    assert_eq!(s.chats[0].message_count, None, "None is not zero");
}

#[test]
fn an_export_fills_in_a_count_nobody_asked_for() {
    let mut s = shell_with(vec![chat(1, "a", None)]);
    s.queue.start(vec![(1, "a".to_string())]);
    s.apply(Event::ChatTotal { chat_id: 1, total: 900 });
    assert_eq!(s.count_of(1), Some(900));
}

#[test]
fn a_looked_up_total_does_not_overwrite_a_measured_one() {
    let mut s = shell_with(vec![chat(1, "a", Some(6643))]);
    s.queue.start(vec![(1, "a".to_string())]);
    s.apply(Event::ChatTotal { chat_id: 1, total: 10 });
    assert_eq!(s.count_of(1), Some(6643));
}

#[test]
fn what_an_export_wrote_replaces_what_the_list_was_carrying() {
    let mut s = shell_with(vec![chat(1, "a", Some(6643))]);
    s.queue.start(vec![(1, "a".to_string())]);
    s.apply(Event::ChatDone {
        chat_id: 1,
        messages: 6640,
        expected: 6643,
        topics: Some(4),
        media_downloaded: 830,
        media_failed: 6,
        root: std::path::PathBuf::from("out"),
    });
    assert_eq!(s.count_of(1), Some(6640), "a measured number wins");
    assert_eq!(s.queue.jobs()[0].state, JobState::Done);
}

#[test]
fn a_failed_export_writes_no_count_at_all() {
    let mut s = shell_with(vec![chat(1, "a", None)]);
    s.queue.start(vec![(1, "a".to_string())]);
    s.apply(Event::ChatFailed { chat_id: 1, message: "CHAT_ADMIN_REQUIRED".into() });
    assert_eq!(s.count_of(1), None);
    assert_eq!(s.journal.warnings(), 1);
}

#[test]
fn a_count_finishing_mid_export_does_not_touch_the_export_s_progress() {
    let mut s = shell_with(vec![chat(1, "a", None)]);
    s.exporting = true;
    s.status = "Exporting a".into();
    s.apply(Event::CountProgress { done: 12, total: 12 });
    assert_eq!(s.count_progress, None);
    assert_eq!(s.status.as_str(), "Exporting a");
    s.apply(Event::CountFinished { counted: 12, failed: 0 });
    assert_eq!(s.status.as_str(), "Exporting a");
}

#[test]
fn a_rate_limit_does_not_take_the_status_line_for_the_rest_of_the_chat() {
    let mut s = shell_with(vec![chat(1, "news", None)]);
    s.exporting = true;
    s.queue.start(vec![(1, "news".to_string())]);
    s.apply(Event::FloodWait(60));
    assert!(s.status.as_str().contains("Rate limited"));
    s.apply(Event::Progress { chat_id: 1, done: 200, total: 6643 });
    assert_eq!(s.status.as_str(), "Exporting news");
}

#[test]
fn a_run_that_could_not_start_says_why_and_not_only_how_many() {
    let mut s = shell_with(vec![chat(1, "a", None)]);
    s.exporting = true;
    s.queue.start(vec![(1, "a".to_string())]);
    s.apply(Event::Failed {
        activity: Activity::Export,
        message: "cannot write into D:\\gone".into(),
    });
    s.apply(Event::Finished { stopped: true });
    assert!(s.status.as_str().contains("cannot write into"), "got {}", s.status);
    assert!(s.failure.is_none());
}

#[test]
fn a_sign_in_failing_mid_export_does_not_stop_the_export() {
    let mut s = shell_with(vec![chat(1, "a", None)]);
    s.exporting = true;
    s.counting = true;
    s.apply(Event::Failed {
        activity: Activity::SignIn,
        message: "Telegram did not answer".into(),
    });
    assert!(s.exporting, "a sign-in failure is not an export failure");
    assert!(s.counting, "nor a count failure");
    assert!(s.status.as_str().contains("did not answer"));
    assert!(s.failure.is_none());
    s.apply(Event::Failed { activity: Activity::Count, message: "rate limited".into() });
    assert!(!s.counting);
    assert!(s.exporting);
}

#[test]
fn a_failure_from_the_last_run_does_not_reach_the_next_ones_summary() {
    let mut s = shell_with(vec![chat(1, "a", None)]);
    s.failure = Some("cannot write into D:\\gone".into());
    s.begin_run();
    assert!(s.failure.is_none(), "a stale cause survived into a new run");
}

#[test]
fn a_failed_chat_says_which_chat() {
    let mut s = shell_with(vec![chat(1, "news", None), chat(2, "other", None)]);
    s.queue.start(vec![(1, "news".to_string()), (2, "other".to_string())]);
    s.apply(Event::ChatFailed { chat_id: 2, message: "no messages could be read".into() });
    let last = s.journal.to_text();
    assert!(last.contains("other: no messages could be read"), "{last}");
}

#[test]
fn a_refresh_keeps_the_counts_it_took_minutes_to_fetch() {
    let mut s = shell_with(vec![chat(1, "a", Some(6643)), chat(2, "b", Some(0))]);
    s.apply(Event::Chats(vec![chat(1, "a", None), chat(2, "b", None), chat(3, "new", None)]));
    assert_eq!(s.count_of(1), Some(6643));
    assert_eq!(s.count_of(2), Some(0), "0 is a count and survives too");
    assert_eq!(s.count_of(3), None, "a chat nobody counted stays blank");
}

#[test]
fn a_chat_that_was_never_split_reports_no_topic_count() {
    let mut s = shell_with(vec![chat(1, "a", None)]);
    s.queue.start(vec![(1, "a".to_string())]);
    s.apply(Event::ChatDone {
        chat_id: 1,
        messages: 250,
        expected: 250,
        topics: None,
        media_downloaded: 12,
        media_failed: 0,
        root: std::path::PathBuf::from("out"),
    });
    assert_eq!(s.queue.jobs()[0].topics_text(), "\u{2014}");
}

#[test]
fn stop_raises_the_flag_the_worker_reads() {
    let mut s = shell_with(vec![chat(1, "a", None)]);
    s.exporting = true;
    s.stop();
    assert!(s.cancel.is_cancelled(), "nothing told the worker");
    assert!(s.exporting, "the run is over when the worker says so, not when the button is pressed");
    assert_eq!(s.status.as_str(), "Stopping…");
}

#[test]
fn a_stopped_run_is_not_reported_as_a_success() {
    let mut s = shell_with(vec![chat(1, "a", None), chat(2, "b", None)]);
    s.exporting = true;
    s.queue.start(vec![(1, "a".to_string()), (2, "b".to_string())]);
    s.apply(Event::ChatDone {
        chat_id: 1,
        messages: 5,
        expected: 5,
        topics: None,
        media_downloaded: 0,
        media_failed: 0,
        root: std::path::PathBuf::from("out"),
    });
    s.stop();
    s.apply(Event::Finished { stopped: true });
    assert!(!s.exporting);
    assert_eq!(s.queue.jobs()[1].state, JobState::Stopped);
    assert!(s.status.as_str().contains("1 not run"), "got {}", s.status);
}

#[test]
fn starting_a_run_clears_a_cancel_left_over_from_the_last_one() {
    let mut s = shell_with(vec![chat(1, "a", None)]);
    s.cancel.cancel();
    s.cancel.reset();
    assert!(!s.cancel.is_cancelled());
    s.cancel.cancel();
    s.begin_run();
    assert!(!s.cancel.is_cancelled());
}

#[test]
fn a_warning_survives_the_chats_that_finish_after_it() {
    let mut s = headless();
    s.apply(Event::Warn("INCOMPLETE".into()));
    for i in 0..50 {
        s.apply(Event::Log(format!("chat {i}: done")));
    }
    assert_eq!(s.journal.warnings(), 1);
    assert!(s.journal.lines().any(|l| l.text == "INCOMPLETE"));
}

#[test]
fn the_painted_rows_follow_the_filter_without_touching_the_ticks() {
    let mut s = shell_with(vec![chat(1, "news", None), chat(2, "other", None)]);
    s.selected.insert(1);
    s.view.filter = "news".into();
    s.rebuild_rows();
    let chats: Vec<&ChatInfo> = s
        .rows
        .iter()
        .filter_map(|r| match r {
            PaintedRow::Chat(c) => Some(c),
            _ => None,
        })
        .collect();
    assert_eq!(chats.len(), 1);
    assert_eq!(chats[0].title, "news");
    assert!(s.selected.contains(&1));
}

#[test]
fn a_refresh_drops_ticks_for_chats_that_vanished() {
    let mut s = shell_with(vec![chat(1, "a", None), chat(2, "b", None)]);
    s.selected.insert(1);
    s.selected.insert(2);
    s.apply(Event::Chats(vec![chat(2, "b", None)]));
    assert!(!s.selected.contains(&1));
    assert!(s.selected.contains(&2));
}

#[test]
fn counting_a_large_account_rebuilds_the_rows_once_not_once_per_chat() {
    let mut s = shell_with((1..=50).map(|i| chat(i, &format!("chat {i}"), None)).collect());
    for i in 1..=50 {
        s.apply(Event::Counted { chat_id: i, total: Some(i * 10) });
    }
    assert!(s.rows_stale, "the rows should still be waiting to rebuild");
    s.rebuild_rows_if_stale();
    assert!(!s.rows_stale);
    assert_eq!(s.count_of(50), Some(500));
}

#[test]
fn a_folded_category_is_remembered_across_a_restart() {
    let mut s = shell_with(vec![chat(1, "a", None)]);
    s.view.folded.insert(Category::Bots);
    let stored = folded_keys(&s.view.folded);
    assert_eq!(stored, vec!["bot"]);
    let restored = folds_from_keys(&["bot".to_string(), "sasquatch".to_string()]);
    assert_eq!(restored, s.view.folded);
    assert_eq!(folds_from_keys(&[]), Folds::new());
}

#[test]
fn the_sort_and_grouping_are_taken_from_the_saved_settings() {
    let mut s = headless();
    s.view.sort = SortMode::from_key("largest");
    assert_eq!(s.view.sort, SortMode::Largest);
    assert_eq!(SortMode::from_key("nonsense"), SortMode::Recent);
    let v = view_from_settings("oldest", false, &["channel".to_string()]);
    assert_eq!(v.sort, SortMode::Oldest);
    assert!(!v.grouped);
    assert!(v.folded.contains(&Category::Channels));
    assert!(!v.folded.contains(&Category::Bots));
}

#[test]
fn a_sign_in_closes_the_dialog_and_asks_for_the_list() {
    let mut s = headless();
    assert!(s.apply(Event::SignedIn("kosta".into())));
    assert!(s.signed_in);
    assert!(s.login.is_none());
    assert_eq!(s.status.as_str(), "Signed in: kosta");
    assert!(!s.apply(Event::Status("x".into())));
}

#[test]
fn a_count_reports_how_far_it_got_and_how_it_ended() {
    let mut s = shell_with(vec![chat(1, "a", None)]);
    s.counting = true;
    s.apply(Event::CountProgress { done: 3, total: 12 });
    assert_eq!(s.count_progress, Some((3, 12)));
    assert_eq!(s.status.as_str(), "Counting 3 of 12 chats");
    s.apply(Event::CountFinished { counted: 10, failed: 2 });
    assert!(!s.counting);
    assert_eq!(s.count_progress, None);
    assert_eq!(s.status.as_str(), "Counted 10 chats, 2 could not be counted");
}

fn input(api_id: &str, api_hash: &str, phone: &str, code: &str, password: &str) -> LoginInput {
    LoginInput {
        api_id: api_id.into(),
        api_hash: api_hash.into(),
        phone: phone.into(),
        code: code.into(),
        password: password.into(),
    }
}

#[test]
fn opening_the_login_twice_keeps_one_dialog() {
    let mut s = headless();
    s.open_login(false);
    assert_eq!(s.login.as_ref().map(|d| d.stage), Some(Stage::Credentials));
    s.login.as_mut().unwrap().error = Some("kept".into());
    s.open_login(true);
    let d = s.login.as_ref().unwrap();
    assert_eq!(d.stage, Stage::Credentials, "the open dialog is raised, not replaced");
    assert_eq!(d.error.as_deref(), Some("kept"));
}

#[test]
fn stored_credentials_open_the_login_on_the_phone() {
    let mut s = headless();
    s.open_login(true);
    assert_eq!(s.login.as_ref().map(|d| d.stage), Some(Stage::Phone));
}

#[test]
fn credentials_are_trimmed_and_move_the_dialog_on() {
    let mut s = headless();
    s.open_login(false);
    let a = s.submit_login(&input(" 12345 ", "  abc  ", "", "", ""));
    assert_eq!(a, LoginAction::Credentials { api_id: 12345, api_hash: "abc".into() });
    let d = s.login.as_ref().unwrap();
    assert_eq!(d.stage, Stage::Phone);
    assert!(!d.busy);
    assert_eq!(d.error, None);
}

#[test]
fn bad_credentials_are_refused_with_a_reason() {
    for (id, hash) in [("abc", "h"), ("0", "h"), ("-4", "h"), ("12", "   ")] {
        let mut s = headless();
        s.open_login(false);
        let a = s.submit_login(&input(id, hash, "", "", ""));
        assert_eq!(a, LoginAction::Refused, "{id:?} {hash:?}");
        let d = s.login.as_ref().unwrap();
        assert_eq!(d.stage, Stage::Credentials);
        assert_eq!(d.error.as_deref(), Some(BAD_CREDENTIALS));
    }
}

#[test]
fn a_blank_phone_is_refused_and_a_fresh_attempt_clears_the_error() {
    let mut s = headless();
    s.open_login(true);
    assert_eq!(s.submit_login(&input("", "", "   ", "", "")), LoginAction::Refused);
    assert_eq!(s.login.as_ref().unwrap().error.as_deref(), Some(NO_PHONE));
    let a = s.submit_login(&input("", "", " +44 1234 ", "", ""));
    assert_eq!(a, LoginAction::RequestCode { phone: "+44 1234".into() });
    let d = s.login.as_ref().unwrap();
    assert!(d.busy);
    assert_eq!(d.error, None, "a stale failure never sits under a fresh attempt");
}

#[test]
fn a_busy_dialog_ignores_the_button() {
    let mut s = headless();
    s.login = Some(LoginState { stage: Stage::Code, busy: true, copied: false, error: None });
    assert_eq!(s.submit_login(&input("", "", "", "12345", "")), LoginAction::Nothing);
    assert!(s.login.as_ref().unwrap().busy);
    let mut closed = headless();
    assert_eq!(closed.submit_login(&input("1", "h", "p", "c", "w")), LoginAction::Nothing);
    assert!(closed.login.is_none());
}

#[test]
fn the_code_and_the_password_are_taken_from_their_own_fields() {
    let mut s = headless();
    s.login = Some(LoginState { stage: Stage::Code, busy: false, copied: false, error: None });
    let a = s.submit_login(&input("", "", "", " 55555 ", "secret"));
    assert_eq!(a, LoginAction::FinishLogin { secret: "55555".into(), is_code: true });
    let mut p = headless();
    p.login = Some(LoginState { stage: Stage::Password, busy: false, copied: false, error: None });
    let a = p.submit_login(&input("", "", "", "55555", " hunter2 "));
    assert_eq!(a, LoginAction::FinishLogin { secret: "hunter2".into(), is_code: false });
    let mut blank = headless();
    blank.login = Some(LoginState { stage: Stage::Password, busy: false, copied: false, error: None });
    assert_eq!(blank.submit_login(&input("", "", "", "55555", "  ")), LoginAction::Refused);
    assert_eq!(blank.login.as_ref().unwrap().error.as_deref(), Some(BLANK_SECRET));
}

#[test]
fn the_count_button_starts_and_then_stops_a_count() {
    let mut s = shell_with(vec![chat(7, "a", None), chat(3, "b", None)]);
    let ids = s.start_count();
    assert_eq!(ids, Some(vec![7, 3]));
    assert!(s.counting);
    assert_eq!(s.count_progress, Some((0, 2)));
    assert_eq!(s.start_count(), None);
    assert!(s.cancel.raised());
    assert_eq!(s.status, "Stopping the count\u{2026}");
    let mut empty = shell_with(vec![]);
    assert_eq!(empty.start_count(), None);
    assert!(!empty.counting);
}

#[test]
fn start_export_needs_a_signed_in_account_and_a_selection() {
    let mut s = headless();
    assert!(!(s.signed_in && !s.selected.is_empty()));
    s.signed_in = true;
    assert!(!(s.signed_in && !s.selected.is_empty()));
    s.selected.insert(1);
    assert!(s.signed_in && !s.selected.is_empty());
}

#[test]
fn an_export_without_a_format_writes_nothing_and_says_why() {
    let mut s = shell_with(vec![chat(1, "a", None)]);
    s.selected.insert(1);
    assert!(s.start_export(false, false, "/tmp/out").is_none());
    assert!(!s.exporting);
    assert_eq!(s.status, "No output format selected");
    let last = s.journal.to_text();
    assert!(last.contains("Nothing to write: enable HTML, JSON or both under Format."));
}

#[test]
fn an_export_takes_the_ticked_chats_in_list_order() {
    let mut s = shell_with(vec![chat(5, "five", None), chat(6, "six", None), chat(7, "seven", None)]);
    s.selected.insert(7);
    s.selected.insert(5);
    s.failure = Some("left over".into());
    let q = s.start_export(true, false, "/tmp/out").expect("a run starts");
    let ids: Vec<i64> = q.iter().map(|c| c.id).collect();
    assert_eq!(ids, vec![5, 7]);
    assert!(s.exporting);
    assert_eq!(s.failure, None, "a cause from an earlier run is cleared on the way in");
    assert_eq!(s.status, "Exporting 2 chats\u{2026}");
    assert_eq!(s.queue.len(), 2);
    assert!(s.journal.to_text().contains("Starting 2 export(s) into /tmp/out"));
}

#[test]
fn an_export_with_nothing_ticked_does_nothing() {
    let mut s = shell_with(vec![chat(5, "five", None)]);
    assert!(s.start_export(true, true, "/tmp/out").is_none());
    assert!(!s.exporting);
    assert!(s.queue.is_empty());
}

#[test]
fn setting_the_filter_reopens_what_the_search_found_and_rebuilds_the_rows() {
    let mut s = shell_with(vec![chat(1, "news desk", None), chat(2, "other", None)]);
    s.view.grouped = true;
    s.view.folded.insert(Category::Supergroups);
    s.rebuild_rows();
    s.set_filter("news".into());
    assert_eq!(s.view.filter, "news");
    assert!(!s.view.folded.contains(&Category::Supergroups));
    assert_eq!(s.visible().len(), 1);
    // The same text again changes nothing: a fold made during the search stays.
    s.view.folded.insert(Category::Supergroups);
    s.set_filter("news".into());
    assert!(s.view.folded.contains(&Category::Supergroups));
}

fn forum(id: i64, title: &str) -> ChatInfo {
    ChatInfo { is_forum: true, ..chat(id, title, None) }
}

fn ticked(s: &Shell, ids: &[i64]) -> Vec<bool> {
    ids.iter().map(|id| s.selected.contains(id)).collect()
}

#[test]
fn a_row_click_flips_its_tick() {
    let mut s = shell_with(vec![chat(1, "a", None)]);
    s.toggle_tick(1);
    assert!(s.selected.contains(&1));
    s.toggle_tick(1);
    assert!(!s.selected.contains(&1));
}

#[test]
fn the_selection_controls_leave_hidden_ticks_alone() {
    let mut s = shell_with(vec![forum(1, "news forum"), chat(2, "news", None), chat(3, "other", None)]);
    s.selected.insert(3);
    s.set_filter("news".into());
    s.select_visible(SelectAction::All);
    assert_eq!(ticked(&s, &[1, 2, 3]), [true, true, true]);
    s.select_visible(SelectAction::Clear);
    assert_eq!(ticked(&s, &[1, 2, 3]), [false, false, true], "the hidden tick stays");
    s.select_visible(SelectAction::Invert);
    assert_eq!(ticked(&s, &[1, 2, 3]), [true, true, true]);
    s.select_visible(SelectAction::OnlyForums);
    assert_eq!(ticked(&s, &[1, 2, 3]), [true, false, true], "only forums replaces among the visible");
}

#[test]
fn sorting_by_size_with_nothing_counted_says_so() {
    let mut s = shell_with(vec![chat(1, "a", None), chat(2, "b", None)]);
    s.choose_sort(SortMode::Largest);
    assert_eq!(s.view.sort, SortMode::Largest);
    assert_eq!(s.status, NO_COUNTS_YET);
    let mut counted = shell_with(vec![chat(1, "a", Some(4)), chat(2, "b", None)]);
    let before = counted.status.clone();
    counted.choose_sort(SortMode::Smallest);
    assert_eq!(counted.status, before);
}

#[test]
fn a_heading_click_inverts_the_fold_it_was_painted_with() {
    let mut s = shell_with(vec![chat(1, "a", None)]);
    let grouped = s.view.grouped;
    s.toggle_grouping();
    assert_eq!(s.view.grouped, !grouped);
    s.toggle_fold(Category::Supergroups, false);
    assert!(s.view.folded.contains(&Category::Supergroups));
    s.toggle_fold(Category::Supergroups, true);
    assert!(!s.view.folded.contains(&Category::Supergroups));
}

#[test]
fn the_nav_offers_only_what_can_run() {
    let mut s = shell_with(vec![chat(1, "a", None)]);
    s.signed_in = false;
    let n = s.nav_state();
    assert!(n.sign_in && !n.refresh && !n.export && !n.stop && n.count);
    s.signed_in = true;
    s.selected.insert(1);
    let n = s.nav_state();
    assert!(n.refresh && n.export);
    s.exporting = true;
    let n = s.nav_state();
    assert!(!n.sign_in && !n.refresh && !n.export && n.stop && !n.count);
    s.exporting = false;
    s.open_login(true);
    assert!(!s.nav_state().sign_in, "one dialog, ever");
}

#[test]
fn the_count_button_names_what_it_will_do() {
    let mut s = shell_with(vec![chat(1, "a", None)]);
    assert_eq!(s.count_label(), "Count messages");
    s.start_count();
    assert_eq!(s.count_label(), "Stop counting");
}

#[test]
fn the_bar_caption_follows_whoever_owns_the_bar() {
    let mut s = shell_with(vec![chat(1, "a", None), chat(2, "b", None)]);
    assert_eq!(s.progress_caption(), "Idle");
    s.count_progress = Some((1, 2));
    assert_eq!(s.progress_caption(), "Counting 1 of 2 chats");
    assert_eq!(s.count_figure(), "1 of 2");
    s.exporting = true;
    assert_eq!(s.count_figure(), "");
    s.count_progress = None;
    assert_eq!(s.count_figure(), "");
}

#[test]
fn the_tick_count_holds_each_chat_once() {
    let mut s = shell_with(vec![chat(1, "a", Some(5)), chat(2, "b", Some(7))]);
    s.selected.insert(1);
    s.selected.insert(1);
    s.selected.insert(2);
    assert_eq!(s.selected.len(), 2);
    s.selected.remove(&1);
    assert_eq!(s.selected.len(), 1);
    assert_eq!(s.selection_total_checked(), Some((7, false)));
}

#[test]
fn a_total_that_leaves_i64_is_refused_rather_than_wrapped() {
    let mut s = shell_with(vec![chat(1, "a", Some(i64::MAX)), chat(2, "b", Some(1))]);
    s.selected.insert(1);
    assert_eq!(s.selection_total_checked(), Some((i64::MAX, false)));
    s.selected.insert(2);
    assert_eq!(s.selection_total_checked(), None);
}

#[test]
fn folding_a_category_never_changes_what_all_selects() {
    let mut s = shell_with(vec![chat(1, "a", None), chat(2, "b", None)]);
    if !s.view.grouped {
        s.toggle_grouping();
    }
    let before = s.visible().len();
    s.toggle_fold(Category::Supergroups, false);
    assert_eq!(s.visible().len(), before);
    assert_eq!(s.visible_count, before);
    s.select_visible(SelectAction::All);
    assert!(s.selected.contains(&1) && s.selected.contains(&2));
}

#[test]
fn closing_the_dialog_and_copying_go_through_the_shell() {
    let mut s = headless();
    s.open_login(false);
    s.login.as_mut().unwrap().error = Some("AUTH_RESTART".into());
    s.mark_error_copied();
    assert!(s.login.as_ref().unwrap().copied);
    s.abandon_login();
    assert!(s.login.is_none());
    s.mark_error_copied();
    assert!(s.login.is_none());
    s.mark_log_copied();
    assert!(s.log_copied);
    s.apply(Event::Log("new".into()));
    assert!(!s.log_copied);
}
