use std::path::PathBuf;
use tgx::gui::queue::{JobState, Queue};

fn queue_of(n: i64) -> Queue {
    let mut q = Queue::default();
    q.start((1..=n).map(|i| (i, format!("chat {i}"))).collect());
    q
}

#[test]
fn a_run_gets_a_row_per_chat_before_any_of_them_runs() {
    let q = queue_of(3);
    assert_eq!(q.len(), 3);
    assert!(q.jobs().iter().all(|j| j.state == JobState::Queued));
}

#[test]
fn stopping_a_run_does_not_leave_rows_reading_queued() {
    let mut q = queue_of(3);
    q.began(1);
    q.finished(1, 10, 10, None, 0, 0, PathBuf::from("a"));
    q.stop_remaining();
    assert_eq!(q.jobs()[0].state, JobState::Done);
    assert_eq!(q.jobs()[1].state, JobState::Stopped);
    assert_eq!(q.jobs()[2].state, JobState::Stopped);
}

#[test]
fn a_stopped_chat_is_not_reported_as_a_failure() {
    let mut q = queue_of(2);
    q.failed(1, "CHAT_ADMIN_REQUIRED".into());
    q.stop_remaining();
    assert_eq!(q.jobs()[0].state.label(), "CHAT_ADMIN_REQUIRED");
    assert_eq!(q.jobs()[1].state.label(), "Stopped");
    assert_eq!(q.summary(), "Exported 0 of 2 chats, 1 failed, 1 not run");
}

#[test]
fn a_chat_without_topics_paints_a_dash_not_zero() {
    let mut q = queue_of(2);
    assert_eq!(q.jobs()[0].topics_text(), "\u{2014}");
    q.set_topics(1, 0);
    assert_eq!(q.jobs()[0].topics_text(), "0");
}

#[test]
fn the_media_column_says_nothing_until_the_media_pass_has_run() {
    let mut q = queue_of(1);
    assert_eq!(q.jobs()[0].media_text(), "");
    q.finished(1, 5, 5, Some(1), 12, 2, PathBuf::from("a"));
    assert_eq!(q.jobs()[0].media_text(), "12 (2 failed)");
}

#[test]
fn a_new_run_replaces_the_previous_one_rather_than_appending() {
    let mut q = queue_of(3);
    q.finished(1, 1, 1, None, 0, 0, PathBuf::from("a"));
    q.start(vec![(9, "later".to_string())]);
    assert_eq!(q.len(), 1);
    assert_eq!(q.jobs()[0].state, JobState::Queued);
    assert_eq!(q.root_of(1), None);
}

#[test]
fn an_empty_queue_has_no_progress_rather_than_zero() {
    assert_eq!(Queue::default().progress_parts(), None);
    assert!(Queue::default().is_empty());
}

#[test]
fn a_running_chat_reports_its_share() {
    let mut q = queue_of(1);
    q.began(1);
    assert_eq!(q.progress_parts(), Some((0, None, 1)));
    q.progressed(1, 3000, 6000);
    assert_eq!(q.progress_parts(), Some((0, Some((3000, 6000)), 1)));
}

#[test]
fn a_chat_with_no_known_total_does_not_claim_progress() {
    let mut q = queue_of(2);
    q.began(1);
    q.progressed(1, 500, 0);
    assert_eq!(q.progress_parts(), Some((0, None, 2)));
    assert_eq!(q.jobs()[0].expected, None, "0 is not a total");
}

#[test]
fn the_caption_speaks_in_the_present_tense() {
    let mut q = queue_of(3);
    assert_eq!(q.running_caption(), "0 of 3 chats");
    q.began(2);
    assert_eq!(q.running_caption(), "chat 2 \u{2014} 0 messages");
    q.progressed(2, 10, 40);
    assert_eq!(q.running_caption(), "chat 2 \u{2014} 10 of 40 messages");
    q.finished(2, 40, 40, None, 0, 0, PathBuf::from("b"));
    assert_eq!(q.running_caption(), "1 of 3 chats");
    assert_eq!(q.title_of(2), Some("chat 2"));
    assert_eq!(q.title_of(7), None);
    assert_eq!(q.root_of(2), Some(&PathBuf::from("b")));
}

#[test]
fn finishing_without_a_topic_count_keeps_the_one_counted_earlier() {
    let mut q = queue_of(1);
    q.set_topics(1, 4);
    q.set_expected(1, 99);
    q.finished(1, 99, 99, None, 3, 0, PathBuf::from("c"));
    assert_eq!(q.jobs()[0].topics, Some(4));
    assert_eq!(q.jobs()[0].media_text(), "3");
    assert!(q.jobs()[0].state.is_finished());
    assert_eq!(q.summary(), "Exported 1 of 1 chats");
}
