use tgx::format::value::{Json, Number};
use tgx::html::escape::{attr_value, esc, has_safe_scheme, js_str, message_number, safe_href};

#[test]
fn apostrophe_is_named_not_numeric() {
    assert_eq!(esc("it's"), "it&apos;s");
}

#[test]
fn ampersand_is_escaped_first() {
    assert_eq!(esc("&<>\""), "&amp;&lt;&gt;&quot;");
}

#[test]
fn a_script_payload_is_inert() {
    let out = esc("<img src=x onerror=alert(1)>");
    assert!(!out.contains('<'));
    assert!(out.contains("&lt;img"));
}

#[test]
fn attribute_control_characters_become_references() {
    assert_eq!(attr_value("total details\t"), "total details&#x09;");
    assert_eq!(attr_value("a\nb\rc"), "a&#x0a;b&#x0d;c");
}

#[test]
fn dangerous_schemes_are_refused() {
    for bad in [
        "javascript:alert(1)",
        "JavaScript:alert(1)",
        "data:text/html;base64,PHNjcmlwdD4=",
        "vbscript:msgbox(1)",
    ] {
        assert_eq!(safe_href(bad), None, "{bad} was accepted");
    }
}

#[test]
fn whitespace_and_control_chars_cannot_smuggle_a_scheme() {
    assert_eq!(safe_href("java\tscript:alert(1)"), None);
    assert_eq!(safe_href("java script:alert(1)"), None);
    assert_eq!(safe_href("java\nscript:alert(1)"), None);
    assert_eq!(safe_href("\u{1}javascript:alert(1)"), None);
}

#[test]
fn an_accepted_url_keeps_its_spaces() {
    assert_eq!(
        safe_href("stickers/sticker (55).webp").as_deref(),
        Some("stickers/sticker (55).webp")
    );
}

#[test]
fn ordinary_links_survive() {
    for good in [
        "https://example.com/a?b=1#c",
        "http://t.me/foo",
        "mailto:a@b.c",
        "tel:+3811234567",
        "ftp://files.example.com/x",
        "t.me/foo",
        "./photos/photo_1.jpg",
        "messages2.html#go_to_message12",
    ] {
        assert!(safe_href(good).is_some(), "{good} was refused");
    }
}

#[test]
fn an_empty_or_blank_target_is_no_link() {
    assert_eq!(safe_href(""), None);
    assert_eq!(safe_href("   "), None);
    assert_eq!(safe_href("\u{1}\u{2}"), None);
}

#[test]
fn a_host_relative_target_cannot_reach_a_remote_host() {
    for bad in [
        "//evil.example/x",
        r"\\evil.example\share",
        r"/\evil.example/x",
        r"\/evil.example/x",
        "//evil.example",
        "  //evil.example/x  ",
        "/\t/evil.example/x",
    ] {
        assert_eq!(safe_href(bad), None, "{bad} was accepted");
    }
}

#[test]
fn the_absolute_test_and_the_safety_test_read_one_list() {
    for good in ["ftps://a.b/c", "FTPS://a.b/c", "mailto:a@b.c", "tel:+381"] {
        assert!(has_safe_scheme(good), "{good}");
        assert!(safe_href(good).is_some(), "{good}");
    }
    for relative in ["t.me/foo", "./photos/x.jpg", "messages2.html#go1"] {
        assert!(!has_safe_scheme(relative), "{relative}");
        assert!(safe_href(relative).is_some(), "{relative}");
    }
    assert!(!has_safe_scheme("javascript:alert(1)"));
}

#[test]
fn a_single_leading_slash_is_still_an_ordinary_relative_path() {
    assert!(safe_href("/photos/photo_1.jpg").is_some());
    assert!(safe_href("/a//b").is_some());
}

#[test]
fn js_strings_are_quoted_and_stripped() {
    assert_eq!(js_str("plain"), "'plain'");
    assert_eq!(js_str("it's"), r"'it\'s'");
    assert_eq!(js_str(r"back\slash"), r"'back\\slash'");
    assert_eq!(js_str("a\nb"), "'ab'");
}

#[test]
fn an_accepted_url_comes_back_trimmed_and_without_controls() {
    assert_eq!(safe_href("  ./a\u{7f}b.jpg  ").as_deref(), Some("./ab.jpg"));
    assert_eq!(safe_href("a/b:c").as_deref(), Some("a/b:c"));
    assert_eq!(safe_href("a?x:y").as_deref(), Some("a?x:y"));
    assert_eq!(esc(""), "");
}

#[test]
fn only_a_whole_number_reaches_go_to_message() {
    let num = |i: i64| Json::Number(Number { int: Some(i), text: i.to_string() });
    assert_eq!(message_number(&num(12)), Some(12));
    assert_eq!(message_number(&Json::Str("12".to_string())), Some(12));
    assert_eq!(message_number(&Json::Str("12); alert(1); //".to_string())), None);
    assert_eq!(message_number(&Json::Str("1.5".to_string())), None);
    assert_eq!(message_number(&Json::Bool(true)), None);
    assert_eq!(message_number(&Json::Null), None);
    assert_eq!(message_number(&Json::Object(Vec::new())), None);
    assert_eq!(message_number(&Json::Number(Number { int: None, text: "1.5".to_string() })), None);
}
