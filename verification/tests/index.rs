use tgx::html::index::{plural, render, IndexEntry};

fn entry(href: &str, title: &str) -> IndexEntry {
    IndexEntry {
        href: href.to_string(),
        title: title.to_string(),
        initials: "ć".to_string(),
        colour: 8,
        detail: Some("pinned".to_string()),
        subname: Some("opened by UA KOLAB, 14.12.2025".to_string()),
        messages: 3811,
    }
}

#[test]
fn the_page_has_every_landmark_the_specimen_has() {
    let entries = [
        entry("0001 - ćaskanje/messages.html", "ćaskanje"),
        entry("0012 - foto video/messages.html", "foto video"),
    ];
    let out = render(
        "UA KOLAB",
        "4 topics, 6643 messages, 43 members",
        Some("https://t.me/+9rwWjprcqyowNDlk"),
        &entries,
        &[("participants.json", "Members")],
    );
    for landmark in [
        "<!DOCTYPE html>\n<html>",
        "<title>UA KOLAB</title>",
        "<link href=\"css/style.css\" rel=\"stylesheet\"/>",
        "<div class=\"page_wrap\">",
        "<div class=\"page_header\">",
        "<div class=\"text bold\">",
        "<div class=\"page_body list_page\">",
        "<div class=\"page_about details\">",
        "4 topics, 6643 messages, 43 members",
        "https://t.me/+9rwWjprcqyowNDlk",
        "<div class=\"entry_list\">",
        "<div class=\"pull_left userpic_wrap\">",
        "<div class=\"userpic userpic8\" style=\"width: 50px; height: 50px\">",
        "<div class=\"initials\" style=\"line-height: 50px\">",
        "<div class=\"name bold\">",
        "<div class=\"details_entry details\">",
        "<div class=\"subname details\">",
        "<div class=\"info details\">\n3811 messages\n",
        "<div class=\"sections\">",
        "<a class=\"section block_link other\" href=\"participants.json\">",
        "<div class=\"label bold\">\nMembers\n",
    ] {
        assert!(out.contains(landmark), "no {landmark:?} in:\n{out}");
    }
    assert_eq!(out.matches("<a class=\"entry block_link clearfix\"").count(), 2);
    assert!(out.contains("href=\"0001 - ćaskanje/messages.html\""));
    assert!(out.contains("href=\"0012 - foto video/messages.html\""));
    assert!(!out.contains("script"), "the index needs no handlers:\n{out}");
    assert!(out.ends_with("</html>\n"));
}

#[test]
fn a_hostile_title_or_target_cannot_inject_markup() {
    let mut e = entry("javascript:alert(1)", "<img src=x onerror=alert(1)>");
    e.initials = "<b>".to_string();
    e.detail = Some("\" onmouseover=\"alert(1)".to_string());
    e.subname = Some("opened by </div><script>alert(1)</script>".to_string());
    let out = render(
        "</title><script>alert(1)</script>",
        "1 topic</div><script>alert(1)</script>",
        Some("javascript:alert(1)"),
        &[e],
        &[],
    );
    assert!(!out.contains("<script"), "markup survived:\n{out}");
    assert!(!out.contains("<img"), "markup survived:\n{out}");
    assert!(!out.contains("<b>"), "markup survived:\n{out}");
    assert!(!out.contains("onmouseover=\""), "an attribute broke out:\n{out}");
    assert!(out.contains("&lt;img src=x onerror=alert(1)&gt;"));
    assert!(out.contains("&lt;/title&gt;&lt;script&gt;"));
    assert!(out.contains("&quot; onmouseover=&quot;alert(1)"));
    assert!(out.contains("href=\"#\""), "{out}");
    assert!(!out.contains("href=\"javascript:"), "a scheme survived:\n{out}");
    assert!(out.contains("\njavascript:alert(1)\n"), "{out}");
}

#[test]
fn a_forum_with_no_topics_still_produces_a_whole_page() {
    let out = render("UA KOLAB", "0 topics, 0 messages", None, &[], &[]);
    assert!(out.contains("<div class=\"entry_list\">"));
    assert!(!out.contains("class=\"entry block_link"));
    assert!(!out.contains("class=\"sections\""));
    assert_eq!(out.matches("class=\"page_about details\"").count(), 1);
    assert_eq!(out.matches("<div").count(), out.matches("</div>").count());
    assert!(out.ends_with("</body>\n\n</html>\n"), "{out}");
}

#[test]
fn one_message_is_singular() {
    assert_eq!(plural(0, "message"), "0 messages");
    assert_eq!(plural(1, "message"), "1 message");
    assert_eq!(plural(4, "topic"), "4 topics");
}

#[test]
fn an_empty_optional_line_is_left_out() {
    let mut e = entry("a/messages.html", "a");
    e.detail = Some(String::new());
    e.subname = None;
    let out = render("T", "s", Some(""), &[e], &[]);
    assert!(!out.contains("details_entry"));
    assert!(!out.contains("subname"));
    assert_eq!(out.matches("class=\"page_about details\"").count(), 1);
    assert!(out.contains("userpic userpic8"));
}
