use tgx::format::value::{Json, Number};
use tgx::html::service::service_text;

fn s(x: &str) -> Json {
    Json::Str(x.to_string())
}

fn obj(pairs: Vec<(&str, Json)>) -> Json {
    Json::Object(pairs.into_iter().map(|(k, v)| (k.to_string(), v)).collect())
}

fn t(pairs: Vec<(&str, Json)>) -> String {
    service_text(&obj(pairs), None)
}

fn list(items: &[&str]) -> Json {
    Json::Array(items.iter().map(|x| s(x)).collect())
}

#[test]
fn the_actions_the_reference_actually_uses() {
    assert_eq!(
        t(vec![("action", s("join_group_by_link")), ("actor", s("A")), ("inviter", s("B"))]),
        "A joined group by link from B"
    );
    assert_eq!(t(vec![("action", s("invite_members")), ("actor", s("A")), ("members", list(&["B", "C"]))]), "A invited B, C");
    assert_eq!(t(vec![("action", s("remove_members")), ("actor", s("A")), ("members", list(&["B"]))]), "A removed B");
    assert_eq!(
        t(vec![("action", s("topic_created")), ("actor", s("A")), ("title", s("foto video"))]),
        "A created topic &laquo;foto video&raquo;"
    );
    assert_eq!(
        t(vec![("action", s("poll_append_answer")), ("actor", s("A")), ("answer", s("yes"))]),
        "A added &quot;yes&quot; to the poll."
    );
    assert_eq!(
        t(vec![("action", s("edit_group_title")), ("actor", s("A")), ("title", s("X"))]),
        "A changed group title to &laquo;X&raquo;"
    );
}

#[test]
fn topic_edit_joins_with_no_space_after_the_comma() {
    let out = t(vec![
        ("action", s("topic_edit")),
        ("actor", s("A")),
        ("new_title", s("foto video")),
        ("new_icon_emoji_id", s("0")),
    ]);
    assert_eq!(out, "A changed topic title to &laquo;foto video&raquo;,icon to &laquo;0&raquo;");
    assert!(!out.contains(", icon"), "a space crept in: {out}");
}

#[test]
fn topic_edit_with_nothing_changed_still_reads() {
    assert_eq!(t(vec![("action", s("topic_edit")), ("actor", s("A"))]), "A changed topic");
}

#[test]
fn closed_and_hidden_read_both_ways() {
    let e = |k: &str, v: bool| t(vec![("action", s("topic_edit")), ("actor", s("A")), (k, Json::Bool(v))]);
    assert!(e("closed", true).ends_with("closed"));
    assert!(e("closed", false).ends_with("reopened"));
    assert!(e("hidden", true).ends_with("hidden"));
    assert!(e("hidden", false).ends_with("shown"));
}

#[test]
fn a_pin_links_when_it_can_and_says_message_when_it_cannot() {
    let m = obj(vec![("action", s("pin_message")), ("actor", s("A"))]);
    assert_eq!(service_text(&m, None), "A pinned message");
    assert_eq!(
        service_text(&m, Some("<a href=\"#x\">this message</a>")),
        "A pinned <a href=\"#x\">this message</a>"
    );
}

#[test]
fn an_attacker_controlled_actor_is_escaped() {
    let out = t(vec![
        ("action", s("invite_members")),
        ("actor", s("<img src=x onerror=alert(1)>")),
        ("members", list(&["<script>alert(2)</script>"])),
    ]);
    assert!(!out.contains("<img"), "got {out}");
    assert!(!out.contains("<script"), "got {out}");
    assert!(out.contains("&lt;img"), "got {out}");
}

#[test]
fn a_missing_actor_reads_as_someone() {
    assert_eq!(t(vec![("action", s("joined_telegram"))]), "Someone joined Telegram");
}

#[test]
fn an_unknown_action_names_itself_rather_than_vanishing() {
    let out = t(vec![("action", s("something_new_in_2027")), ("actor", s("A"))]);
    assert_eq!(out, "A &mdash; something_new_in_2027");
}

#[test]
fn an_unknown_action_name_is_also_escaped() {
    let out = t(vec![("action", s("<script>")), ("actor", s("A"))]);
    assert!(!out.contains("<script>"), "got {out}");
}

#[test]
fn actions_with_no_actor_at_all_are_fixed_sentences() {
    assert_eq!(t(vec![("action", s("clear_history"))]), "History cleared");
    assert_eq!(t(vec![("action", s("migrate_to_supergroup"))]), "Group converted to supergroup");
}

#[test]
fn a_numeric_score_and_mixed_members_read_as_text() {
    let score = Json::Number(Number { int: Some(42), text: "42".into() });
    assert_eq!(t(vec![("action", s("score_in_game")), ("actor", s("A")), ("score", score)]), "A scored 42 in a game");
    let members = Json::Array(vec![s("B"), Json::Null, s(""), s("C")]);
    assert_eq!(t(vec![("action", s("invite_members")), ("actor", s("A")), ("members", members)]), "A invited B, , C");
}
