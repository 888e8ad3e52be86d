use tgx::format::value::{Json, Number};
use tgx::html::reactions::{colours_in_range, render, CUSTOM_REACTION_GLYPH};
use tgx::html::tree::Tree;
use tgx::html::userpic::Presentation;

fn s(x: &str) -> Json {
    Json::Str(x.to_string())
}

fn n(i: i64) -> Json {
    Json::Number(Number { int: Some(i), text: i.to_string() })
}

fn obj(pairs: Vec<(&str, Json)>) -> Json {
    Json::Object(pairs.into_iter().map(|(k, v)| (k.to_string(), v)).collect())
}

fn render_of(m: Json) -> String {
    let p = Presentation::of(&m);
    let mut t = Tree::new();
    render(&mut t, &m, &p);
    t.into_string()
}

fn reaction(pairs: Vec<(&str, Json)>) -> Json {
    obj(vec![("reactions", Json::Array(vec![obj(pairs)]))])
}

fn who(name: &str, id: &str) -> Json {
    obj(vec![("from", s(name)), ("from_id", s(id))])
}

#[test]
fn no_reactions_emits_nothing() {
    assert_eq!(render_of(obj(vec![("id", n(1))])), "");
    assert_eq!(render_of(obj(vec![("reactions", Json::Array(vec![]))])), "");
}

#[test]
fn the_count_is_hidden_when_every_reactor_is_named() {
    let out = render_of(reaction(vec![
        ("type", s("emoji")),
        ("count", n(3)),
        ("emoji", s("❤")),
        ("recent", Json::Array(vec![who("a", "user1"), who("b", "user2"), who("c", "user3")])),
    ]));
    assert!(!out.contains("class=\"count\""), "got:\n{out}");
    assert_eq!(out.matches("class=\"userpic userpic").count(), 3);
}

#[test]
fn the_count_appears_when_it_exceeds_the_named() {
    let out = render_of(reaction(vec![
        ("type", s("emoji")),
        ("count", n(10)),
        ("emoji", s("❤")),
        ("recent", Json::Array(vec![who("a", "user1")])),
    ]));
    assert!(out.contains("class=\"count\""), "got:\n{out}");
    assert!(out.contains("\n10\n"), "got:\n{out}");
}

#[test]
fn a_reaction_with_no_reactors_shows_its_count_alone() {
    let out = render_of(reaction(vec![("type", s("emoji")), ("count", n(4)), ("emoji", s("❤"))]));
    assert!(!out.contains("userpics"), "got:\n{out}");
    assert!(out.contains("class=\"count\""), "got:\n{out}");
}

#[test]
fn the_reaction_you_picked_is_marked_active() {
    let m = obj(vec![
        (
            "reactions",
            Json::Array(vec![
                obj(vec![("type", s("emoji")), ("count", n(1)), ("emoji", s("a"))]),
                obj(vec![("type", s("emoji")), ("count", n(1)), ("emoji", s("b"))]),
            ]),
        ),
        ("_p", obj(vec![("reactions_chosen", Json::Array(vec![Json::Bool(false), Json::Bool(true)]))])),
    ]);
    let out = render_of(m);
    assert!(out.contains("class=\"reaction\""), "got:\n{out}");
    assert!(out.contains("class=\"reaction active\""), "got:\n{out}");
}

#[test]
fn a_custom_emoji_reaction_uses_the_waving_hand() {
    let out = render_of(reaction(vec![("type", s("custom_emoji")), ("count", n(1)), ("document_id", s("12345"))]));
    assert!(out.contains(CUSTOM_REACTION_GLYPH), "got:\n{out}");
    assert!(out.contains("ShowNotLoadedEmoji"), "got:\n{out}");
}

#[test]
fn a_saved_custom_emoji_links_to_its_file() {
    let out = render_of(reaction(vec![
        ("type", s("custom_emoji")),
        ("count", n(1)),
        ("document_id", s("stickers/a.webp")),
    ]));
    assert!(out.contains("href = \"stickers/a.webp\""), "got:\n{out}");
}

#[test]
fn a_custom_emoji_path_is_still_scheme_checked() {
    let out = render_of(reaction(vec![
        ("type", s("custom_emoji")),
        ("count", n(1)),
        ("document_id", s("javascript:alert(1)")),
    ]));
    assert!(!out.contains("javascript"), "got:\n{out}");
    assert!(out.contains("ShowNotLoadedEmoji"), "got:\n{out}");
}

#[test]
fn a_hostile_emoji_string_is_escaped() {
    let out = render_of(reaction(vec![
        ("type", s("emoji")),
        ("count", n(1)),
        ("emoji", s("<img src=x onerror=alert(1)>")),
    ]));
    assert!(!out.contains("<img"), "got:\n{out}");
    assert!(out.contains("&lt;img"), "got:\n{out}");
}

#[test]
fn more_chosen_flags_than_reactions_does_not_panic() {
    let m = obj(vec![
        ("reactions", Json::Array(vec![obj(vec![("type", s("emoji")), ("count", n(1)), ("emoji", s("a"))])])),
        (
            "_p",
            obj(vec![("reactions_chosen", Json::Array(vec![Json::Bool(true), Json::Bool(true), Json::Bool(true)]))]),
        ),
    ]);
    assert!(render_of(m).contains("reaction active"));
}

#[test]
fn a_numeric_custom_emoji_id_is_written_as_its_number() {
    let out = render_of(reaction(vec![("type", s("custom_emoji")), ("count", n(2)), ("document_id", n(5))]));
    assert!(out.contains("ShowNotLoadedEmoji"), "got:\n{out}");
    assert!(out.contains("\n2\n"), "got:\n{out}");
}

#[test]
fn a_colour_with_no_successor_is_caught_before_writing() {
    let fine = obj(vec![("_p", obj(vec![("colours", obj(vec![("user1", n(3))]))]))]);
    assert!(colours_in_range(&fine));
    let bare = obj(vec![("id", n(1))]);
    assert!(colours_in_range(&bare));
    let top = obj(vec![("_p", obj(vec![("colours", obj(vec![("user1", n(i64::MAX))]))]))]);
    assert!(!colours_in_range(&top));
    // Only the first member of a name is ever read.
    let shadowed = obj(vec![(
        "_p",
        obj(vec![("colours", obj(vec![("user1", n(2)), ("user1", n(i64::MAX))]))]),
    )]);
    assert!(colours_in_range(&shadowed));
}
