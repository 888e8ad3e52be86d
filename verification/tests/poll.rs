use tgx::format::value::{Json, Number};
use tgx::html::poll::render;
use tgx::html::tree::Tree;

fn s(x: &str) -> Json {
    Json::Str(x.to_string())
}

fn n(i: i64) -> Json {
    Json::Number(Number { int: Some(i), text: i.to_string() })
}

fn obj(pairs: Vec<(&str, Json)>) -> Json {
    Json::Object(pairs.into_iter().map(|(k, v)| (k.to_string(), v)).collect())
}

fn render_of(v: Json) -> String {
    let mut t = Tree::new();
    render(&mut t, &v);
    t.into_string()
}

#[test]
fn the_reference_poll_is_reproduced() {
    let out = render_of(obj(vec![
        ("question", s("klip")),
        (
            "answers",
            Json::Array(vec![
                obj(vec![("text", s("da")), ("voters", n(0))]),
                obj(vec![("text", s("ne")), ("voters", n(0))]),
            ]),
        ),
        ("total_voters", n(8)),
    ]));
    let expect = [
        "<div class=\"media_wrap clearfix\">\n",
        "\n",
        " <div class=\"media_poll\">\n",
        "\n",
        "  <div class=\"question bold\">\n",
        "klip\n",
        "  </div>\n",
        "\n",
        "  <div class=\"details\">\n",
        "Anonymous poll\n",
        "  </div>\n",
        "\n",
        "  <div class=\"answer\">\n",
        "- da\n",
        "  </div>\n",
        "\n",
        "  <div class=\"answer\">\n",
        "- ne\n",
        "  </div>\n",
        "\n",
        "  <div class=\"total details&#x09;\">\n",
        "8 votes\n",
        "  </div>\n",
        "\n",
        " </div>\n",
        "\n",
        "</div>\n",
    ]
    .join("");
    assert_eq!(out, expect);
}

#[test]
fn the_stray_tab_in_the_class_name_survives_as_a_reference() {
    let out = render_of(obj(vec![("question", s("q")), ("total_voters", n(1))]));
    assert!(out.contains("class=\"total details&#x09;\""), "got:\n{out}");
    assert!(!out.contains("details\t"), "got:\n{out}");
}

#[test]
fn an_answer_with_no_votes_gets_no_span() {
    let out = render_of(obj(vec![
        ("question", s("q")),
        ("answers", Json::Array(vec![obj(vec![("text", s("a")), ("voters", n(0))])])),
        ("total_voters", n(0)),
    ]));
    assert!(out.contains("- a\n"), "got:\n{out}");
    assert!(!out.contains("<span"), "got:\n{out}");
}

#[test]
fn a_voted_answer_gains_its_tally() {
    let out = render_of(obj(vec![
        ("question", s("q")),
        ("answers", Json::Array(vec![obj(vec![("text", s("a")), ("voters", n(3))])])),
        ("total_voters", n(3)),
    ]));
    assert!(out.contains("<span class=\"details\">3 votes</span>"), "got:\n{out}");
}

#[test]
fn your_own_pick_is_marked() {
    let out = render_of(obj(vec![
        ("question", s("q")),
        (
            "answers",
            Json::Array(vec![obj(vec![("text", s("a")), ("voters", n(1)), ("chosen", Json::Bool(true))])]),
        ),
        ("total_voters", n(1)),
    ]));
    assert!(out.contains("1 vote, chosen vote"), "got:\n{out}");
}

#[test]
fn one_vote_is_singular() {
    assert!(render_of(obj(vec![("question", s("q")), ("total_voters", n(1))])).contains("1 vote\n"));
    assert!(render_of(obj(vec![("question", s("q")), ("total_voters", n(2))])).contains("2 votes\n"));
    assert!(render_of(obj(vec![("question", s("q")), ("total_voters", n(0))])).contains("0 votes\n"));
}

#[test]
fn a_hostile_question_is_escaped() {
    let out = render_of(obj(vec![
        ("question", s("<img src=x onerror=alert(1)>")),
        ("answers", Json::Array(vec![obj(vec![("text", s("<script>")), ("voters", n(1))])])),
        ("total_voters", n(1)),
    ]));
    assert!(!out.contains("<img"), "got:\n{out}");
    assert!(!out.contains("<script>"), "got:\n{out}");
}

#[test]
fn an_answer_that_is_not_an_object_is_skipped() {
    let out = render_of(obj(vec![
        ("question", s("q")),
        ("answers", Json::Array(vec![s("stray"), obj(vec![("text", s("b")), ("voters", s("2"))])])),
        ("total_voters", n(2)),
    ]));
    assert_eq!(out.matches("class=\"answer\"").count(), 1);
    assert!(out.contains("- b <span class=\"details\">2 votes</span>"), "got:\n{out}");
}
