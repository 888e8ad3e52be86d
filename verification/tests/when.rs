use chrono::{Local, NaiveDateTime};
use tgx::gui::list::{ChatInfo, ChatKind};
use tgx::gui::when::{caption, describe_when, human_when, local_time_of, LocalTime};

fn stamp(text: &str) -> i64 {
    NaiveDateTime::parse_from_str(text, "%Y-%m-%d %H:%M:%S")
        .unwrap()
        .and_local_timezone(Local)
        .unwrap()
        .timestamp()
}

/// A fixed "now", so the thresholds are tested rather than the clock.
fn at(text: &str) -> LocalTime {
    local_time_of(stamp(text)).unwrap()
}

fn kinded(id: i64, title: &str, kind: ChatKind) -> ChatInfo {
    ChatInfo {
        id,
        title: title.into(),
        kind,
        last_activity: 0,
        is_forum: false,
        public: false,
        message_count: None,
    }
}

#[test]
fn a_timestamp_reads_the_way_telegram_words_it() {
    let now = at("2026-08-26 14:00:00");
    assert_eq!(human_when(stamp("2026-08-26 09:30:00"), &now), "09:30");
    assert_eq!(human_when(stamp("2026-08-25 23:50:00"), &now), "Yesterday");
    assert_eq!(human_when(stamp("2026-08-22 10:00:00"), &now), "Saturday");
    assert_eq!(human_when(stamp("2026-03-02 10:00:00"), &now), "02 Mar");
    assert_eq!(human_when(stamp("2024-03-02 10:00:00"), &now), "02 Mar 2024");
}

#[test]
fn yesterday_is_decided_by_the_date_and_not_by_the_hours_between() {
    let now = at("2026-08-26 00:10:00");
    assert_eq!(human_when(stamp("2026-08-25 23:50:00"), &now), "Yesterday");
}

#[test]
fn a_chat_with_no_last_message_reads_as_its_kind_alone() {
    let now = at("2026-08-26 14:00:00");
    let mut c = kinded(1, "quiet", ChatKind::Channel);
    c.last_activity = 0;
    assert_eq!(caption(&c, &now), "Channel");
    assert_eq!(human_when(0, &now), "");
    assert_eq!(human_when(-1, &now), "", "a negative stamp is not a date");
}

#[test]
fn the_caption_carries_what_the_default_sort_orders_on() {
    let now = at("2026-08-26 14:00:00");
    let mut c = kinded(1, "news", ChatKind::Supergroup);
    c.last_activity = stamp("2026-08-25 12:00:00");
    assert_eq!(caption(&c, &now), "Supergroup  Yesterday");
}

#[test]
fn a_moment_in_the_future_is_written_as_a_date() {
    let now = LocalTime { year: 2026, month: 8, day: 26, hour: 14, minute: 0, day_number: 739_854 };
    let later = LocalTime { year: 2026, month: 8, day: 28, hour: 9, minute: 5, day_number: 739_856 };
    assert_eq!(describe_when(&later, &now), "28 Aug");
}

#[test]
fn a_caption_shows_the_kind_then_the_last_activity() {
    let now = at("2026-08-26 14:00:00");
    let mut chat = kinded(1, "a", ChatKind::Channel);
    chat.last_activity = stamp("2026-08-26 09:30:00");
    assert_eq!(caption(&chat, &now), "Channel  09:30");
    chat.last_activity = 0;
    assert_eq!(caption(&chat, &now), "Channel");
}
