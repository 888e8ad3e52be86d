use tgx::format::value::{Json, Number};
use tgx::html::join::{parse_date, JoinKey, JoinState, Stamp};

fn s(x: &str) -> Json {
    Json::Str(x.to_string())
}

fn obj(pairs: Vec<(&str, Json)>) -> Json {
    Json::Object(pairs.into_iter().map(|(k, v)| (k.to_string(), v)).collect())
}

fn msg(from: &str, date: &str) -> Json {
    obj(vec![("from_id", s(from)), ("date", s(date))])
}

/// A message with both clocks, as an export writes it.
fn msg_at(from: &str, date: &str, unixtime: i64) -> Json {
    obj(vec![
        ("from_id", s(from)),
        ("date", s(date)),
        ("date_unixtime", s(&unixtime.to_string())),
    ])
}

fn at(x: &str) -> Option<Stamp> {
    parse_date(Some(&s(x)))
}

#[test]
fn same_sender_inside_fifteen_minutes_joins() {
    let m1 = msg("user1", "2025-12-18T16:00:00");
    let m2 = msg("user1", "2025-12-18T16:14:59");
    let mut st = JoinState::default();
    st.advance(JoinKey::of(&m1), at("2025-12-18T16:00:00"));
    assert!(st.joined(&JoinKey::of(&m2), at("2025-12-18T16:14:59"), false));
}

#[test]
fn one_second_past_the_window_does_not() {
    let m1 = msg("user1", "2025-12-18T16:00:00");
    let m2 = msg("user1", "2025-12-18T16:15:01");
    let mut st = JoinState::default();
    st.advance(JoinKey::of(&m1), at("2025-12-18T16:00:00"));
    assert!(!st.joined(&JoinKey::of(&m2), at("2025-12-18T16:15:01"), false));
}

#[test]
fn a_different_sender_never_joins() {
    let m1 = msg("user1", "2025-12-18T16:00:00");
    let m2 = msg("user2", "2025-12-18T16:00:01");
    let mut st = JoinState::default();
    st.advance(JoinKey::of(&m1), at("2025-12-18T16:00:00"));
    assert!(!st.joined(&JoinKey::of(&m2), at("2025-12-18T16:00:01"), false));
}

#[test]
fn forwards_get_the_tight_window() {
    let m1 = msg("user1", "2025-12-18T16:00:00");
    let m2 = msg("user1", "2025-12-18T16:00:16");
    let mut st = JoinState::default();
    st.advance(JoinKey::of(&m1), at("2025-12-18T16:00:00"));
    assert!(st.joined(&JoinKey::of(&m2), at("2025-12-18T16:00:16"), false));
    assert!(!st.joined(&JoinKey::of(&m2), at("2025-12-18T16:00:16"), true));
}

#[test]
fn a_forward_burst_inside_three_seconds_joins() {
    let m1 = msg("user1", "2025-12-18T16:00:00");
    let m2 = msg("user1", "2025-12-18T16:00:03");
    let mut st = JoinState::default();
    st.advance(JoinKey::of(&m1), at("2025-12-18T16:00:00"));
    assert!(st.joined(&JoinKey::of(&m2), at("2025-12-18T16:00:03"), true));
}

#[test]
fn the_forwards_original_date_is_not_part_of_the_key() {
    let a = obj(vec![
        ("from_id", s("user1")),
        ("forwarded_from", s("X")),
        ("forwarded_date", s("2020-01-01T00:00:00")),
    ]);
    let b = obj(vec![
        ("from_id", s("user1")),
        ("forwarded_from", s("X")),
        ("forwarded_date", s("2020-01-01T11:00:00")),
    ]);
    assert!(JoinKey::of(&a) == JoinKey::of(&b));
}

#[test]
fn a_page_break_starts_a_fresh_block() {
    let m = msg("user1", "2025-12-18T16:00:00");
    let mut st = JoinState::default();
    st.advance(JoinKey::of(&m), at("2025-12-18T16:00:00"));
    st.reset();
    assert!(!st.joined(&JoinKey::of(&m), at("2025-12-18T16:00:01"), false));
}

#[test]
fn a_service_message_breaks_the_block() {
    let m = msg("user1", "2025-12-18T16:00:00");
    let mut st = JoinState::default();
    st.advance(JoinKey::of(&m), at("2025-12-18T16:00:00"));
    st.broke();
    assert!(!st.joined(&JoinKey::of(&m), at("2025-12-18T16:00:01"), false));
}

#[test]
fn a_message_going_backwards_in_time_does_not_join() {
    let m = msg("user1", "2025-12-18T16:00:00");
    let mut st = JoinState::default();
    st.advance(JoinKey::of(&m), at("2025-12-18T16:00:10"));
    assert!(!st.joined(&JoinKey::of(&m), at("2025-12-18T16:00:00"), false));
}

#[test]
fn a_dst_fall_back_does_not_split_the_block() {
    let before = msg_at("user1", "2025-10-26T02:59:00", 1_761_440_340);
    let after = msg_at("user1", "2025-10-26T02:00:30", 1_761_440_430);
    assert!(at("2025-10-26T02:00:30") < at("2025-10-26T02:59:00"));

    let mut st = JoinState::default();
    st.advance(JoinKey::of(&before), at("2025-10-26T02:59:00"));
    assert!(st.joined(&JoinKey::of(&after), at("2025-10-26T02:00:30"), false));
}

#[test]
fn the_real_duration_wins_over_the_wall_clock_the_other_way_too() {
    let before = msg_at("user1", "2025-03-30T01:59:00", 1_743_000_000);
    let after = msg_at("user1", "2025-03-30T02:00:00", 1_743_000_901);
    let mut st = JoinState::default();
    st.advance(JoinKey::of(&before), at("2025-03-30T01:59:00"));
    assert!(!st.joined(&JoinKey::of(&after), at("2025-03-30T02:00:00"), false));
}

#[test]
fn the_timestamp_the_key_carries_is_not_part_of_its_identity() {
    assert!(
        JoinKey::of(&msg_at("user1", "2025-12-18T16:00:00", 1_766_073_600))
            == JoinKey::of(&msg_at("user1", "2025-12-18T16:00:01", 1_766_073_601))
    );
}

#[test]
fn dates_parse_in_desktops_naive_local_form() {
    assert!(parse_date(Some(&s("2025-12-18T16:17:52"))).is_some());
    assert!(parse_date(Some(&s("2025-12-18T16:17:52Z"))).is_none());
    assert!(parse_date(Some(&s(""))).is_none());
    assert!(parse_date(None).is_none());
}

#[test]
fn a_parsed_date_keeps_its_fields_and_epoch() {
    let st = at("2025-12-18T16:17:52").unwrap();
    assert_eq!((st.year, st.month, st.day), (2025, 12, 18));
    assert_eq!((st.hour, st.minute, st.second), (16, 17, 52));
    assert_eq!(st.epoch, 1_766_074_672);
}

#[test]
fn a_number_counts_as_a_unixtime_too() {
    let a = obj(vec![
        ("from_id", s("user1")),
        ("date", s("2025-12-18T16:00:00")),
        ("date_unixtime", Json::Number(Number { int: Some(100), text: "100".to_string() })),
    ]);
    let b = obj(vec![
        ("from_id", s("user1")),
        ("date", s("2025-12-18T17:00:00")),
        ("date_unixtime", Json::Number(Number { int: Some(200), text: "200".to_string() })),
    ]);
    let mut st = JoinState::new();
    st.advance(JoinKey::of(&a), at("2025-12-18T16:00:00"));
    assert!(st.joined(&JoinKey::of(&b), at("2025-12-18T17:00:00"), false));
}
