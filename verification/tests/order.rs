use tgx::format::order::{ordered, rank, tail_rank, DESKTOP_ORDER, EXTRA_ORDER, TAIL_ORDER};
use tgx::format::value::{Json, Number};

#[test]
fn desktop_keys_lead_extras_follow_text_trails() {
    assert!(rank("id") < rank("date"));
    assert!(rank("date") < rank("outgoing"));
    assert!(rank("outgoing") < rank("text"));
    assert!(rank("text") < rank("text_entities"));
    assert!(rank("text_entities") < rank("reactions"));
}

#[test]
fn reactions_is_the_last_ranked_key() {
    let last = TAIL_ORDER.last().unwrap();
    assert_eq!(*last, "reactions");
    assert_eq!(rank("reactions"), tail_rank() - 1);
}

#[test]
fn no_key_appears_in_two_blocks() {
    let mut seen = std::collections::HashSet::new();
    for k in DESKTOP_ORDER.iter().chain(EXTRA_ORDER.iter()).chain(TAIL_ORDER.iter()) {
        assert!(seen.insert(*k), "{k} is listed twice");
    }
}

#[test]
fn an_unlisted_key_ranks_past_every_listed_one() {
    assert_eq!(rank("zzz_unknown"), tail_rank());
    assert_eq!(rank(""), tail_rank());
    assert_eq!(rank("id"), 0);
    assert_eq!(rank("outgoing"), DESKTOP_ORDER.len());
    assert_eq!(tail_rank(), 124);
}

fn keys_of(fields: Vec<(String, Json)>) -> Vec<String> {
    ordered(fields).into_iter().map(|(k, _)| k).collect()
}

fn n(i: i64) -> Json {
    Json::Number(Number { int: Some(i), text: i.to_string() })
}

#[test]
fn ordering_is_desktops_not_insertion_or_alphabetical() {
    let m = vec![
        ("text".to_string(), Json::Str("hi".into())),
        ("date".to_string(), Json::Str("2025-01-01T00:00:00".into())),
        ("id".to_string(), n(1)),
        ("type".to_string(), Json::Str("message".into())),
    ];
    assert_eq!(keys_of(m), vec!["id", "type", "date", "text"]);
}

#[test]
fn unknown_keys_sort_last_and_stably() {
    let m = vec![
        ("zzz_unknown".to_string(), n(1)),
        ("aaa_unknown".to_string(), n(1)),
        ("id".to_string(), n(1)),
    ];
    assert_eq!(keys_of(m), vec!["id", "aaa_unknown", "zzz_unknown"]);
}

#[test]
fn ordering_moves_the_values_with_their_keys() {
    let m = vec![("reactions".to_string(), n(3)), ("id".to_string(), n(7))];
    let out = ordered(m);
    assert_eq!(out[0].0, "id");
    match &out[0].1 {
        Json::Number(x) => assert_eq!(x.int, Some(7)),
        other => panic!("{other:?}"),
    }
    assert_eq!(out[1].0, "reactions");
}
