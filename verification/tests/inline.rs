use tgx::format::value::Json;
use tgx::html::inline::render_entities;

fn s(x: &str) -> Json {
    Json::Str(x.to_string())
}

fn seg(pairs: &[(&str, &str)]) -> Json {
    Json::Object(pairs.iter().map(|(k, v)| (k.to_string(), s(v))).collect())
}

fn r(v: Json) -> String {
    render_entities(Some(&v))
}

fn one(pairs: &[(&str, &str)]) -> String {
    r(Json::Array(vec![seg(pairs)]))
}

#[test]
fn newlines_become_breaks() {
    assert_eq!(r(s("a\nb")), "a<br>b");
}

#[test]
fn a_bare_string_is_escaped() {
    assert_eq!(r(s("<script>")), "&lt;script&gt;");
}

#[test]
fn every_formatting_type_has_its_tag() {
    let cases = [
        ("bold", "<strong>x</strong>"),
        ("italic", "<em>x</em>"),
        ("underline", "<u>x</u>"),
        ("strikethrough", "<s>x</s>"),
        ("code", "<code>x</code>"),
        ("pre", "<pre>x</pre>"),
        ("blockquote", "<blockquote>x</blockquote>"),
    ];
    for (kind, want) in cases {
        assert_eq!(one(&[("type", kind), ("text", "x")]), want);
    }
}

#[test]
fn a_text_link_with_a_dangerous_scheme_is_inert_but_still_shown() {
    let out = one(&[("type", "text_link"), ("text", "click"), ("href", "javascript:alert(1)")]);
    assert!(!out.contains("<a "), "got {out}");
    assert!(out.contains("click"), "got {out}");
    assert!(out.contains("javascript:alert(1)"), "got {out}");
}

#[test]
fn a_safe_text_link_is_a_link() {
    let out = one(&[("type", "text_link"), ("text", "x"), ("href", "https://a.b")]);
    assert_eq!(out, "<a href=\"https://a.b\">x</a>");
}

#[test]
fn a_bare_domain_link_gets_https() {
    let out = one(&[("type", "link"), ("text", "t.me/foo")]);
    assert_eq!(out, "<a href=\"https://t.me/foo\">t.me/foo</a>");
}

#[test]
fn a_link_that_is_already_absolute_is_left_alone() {
    let out = one(&[("type", "link"), ("text", "https://t.me/foo")]);
    assert_eq!(out, "<a href=\"https://t.me/foo\">https://t.me/foo</a>");
}

#[test]
fn the_three_js_handlers_quote_their_argument() {
    let out = one(&[("type", "hashtag"), ("text", "#a'b")]);
    assert!(out.contains("ShowHashtag("), "got {out}");
    assert!(out.contains("\\&apos;"), "got {out}");
    assert!(!out.contains("');alert("), "got {out}");
}

#[test]
fn a_hashtag_carrying_a_break_out_payload_cannot_break_out() {
    let out = one(&[("type", "hashtag"), ("text", "#x'); alert(1); //")]);
    let onclick = out
        .split("onclick=\"")
        .nth(1)
        .and_then(|s| s.split('"').next())
        .expect("an onclick attribute");
    let decoded = onclick.replace("&apos;", "'").replace("&quot;", "\"");
    let arg = decoded.trim_start_matches("return ShowHashtag(").trim_end_matches(')');
    assert!(arg.starts_with('\'') && arg.ends_with('\''), "got {arg}");
    let inner = &arg[1..arg.len() - 1];
    let mut chars = inner.chars().peekable();
    while let Some(c) = chars.next() {
        if c == '\\' {
            chars.next();
        } else {
            assert_ne!(c, '\'', "an unescaped quote ends the literal: {inner}");
        }
    }
}

#[test]
fn spoilers_carry_desktops_own_handler() {
    let out = one(&[("type", "spoiler"), ("text", "s")]);
    assert_eq!(out, "<span class=\"spoiler hidden\" onclick=\"ShowSpoiler(this)\">s</span>");
}

#[test]
fn a_custom_emoji_with_a_file_uses_desktops_spaced_href() {
    let out = one(&[("type", "custom_emoji"), ("text", "e"), ("document_id", "stickers/a.webp")]);
    assert_eq!(out, "<a href = \"stickers/a.webp\">e</a>");
}

#[test]
fn a_custom_emoji_without_a_file_falls_back_to_the_toast() {
    let out = one(&[("type", "custom_emoji"), ("text", "e"), ("document_id", "12345")]);
    assert!(out.contains("ShowNotLoadedEmoji"), "got {out}");
}

#[test]
fn a_mention_strips_its_at_sign_from_the_href_only() {
    let out = one(&[("type", "mention"), ("text", "@kosta")]);
    assert_eq!(out, "<a href=\"https://t.me/kosta\">@kosta</a>");
}

#[test]
fn an_unknown_entity_type_degrades_to_plain_text() {
    let out = one(&[("type", "something_new_in_2027"), ("text", "<x>")]);
    assert_eq!(out, "&lt;x&gt;");
}

#[test]
fn segments_concatenate_without_separators() {
    let out = r(Json::Array(vec![
        seg(&[("type", "plain"), ("text", "a")]),
        seg(&[("type", "bold"), ("text", "b")]),
        seg(&[("type", "plain"), ("text", "c")]),
    ]));
    assert_eq!(out, "a<strong>b</strong>c");
}

#[test]
fn nothing_renders_to_nothing() {
    assert_eq!(render_entities(None), "");
    assert_eq!(r(Json::Array(vec![])), "");
    assert_eq!(r(Json::Null), "");
}

#[test]
fn email_phone_and_the_other_handlers_link_as_desktop_does() {
    assert_eq!(one(&[("type", "email"), ("text", "a@b.c")]), "<a href=\"mailto:a@b.c\">a@b.c</a>");
    assert_eq!(one(&[("type", "phone"), ("text", "+1")]), "<a href=\"tel:+1\">+1</a>");
    assert!(one(&[("type", "cashtag"), ("text", "$USD")]).contains("ShowCashtag(&apos;USD&apos;)"));
    assert!(one(&[("type", "bot_command"), ("text", "/start")]).contains("ShowBotCommand(&apos;start&apos;)"));
    assert_eq!(
        one(&[("type", "mention_name"), ("text", "K")]),
        "<a href=\"\" onclick=\"return ShowMentionName()\">K</a>"
    );
    assert_eq!(r(Json::Array(vec![s("a\nb")])), "a<br>b");
}
