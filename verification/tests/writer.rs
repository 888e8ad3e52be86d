use tgx::format::value::{Json, Number};
use tgx::html::writer::HtmlWriter;

fn from_value(v: &serde_json::Value) -> Json {
    match v {
        serde_json::Value::Null => Json::Null,
        serde_json::Value::Bool(b) => Json::Bool(*b),
        serde_json::Value::Number(n) => Json::Number(Number { int: n.as_i64(), text: n.to_string() }),
        serde_json::Value::String(s) => Json::Str(s.clone()),
        serde_json::Value::Array(items) => Json::Array(items.iter().map(from_value).collect()),
        serde_json::Value::Object(map) => {
            Json::Object(map.iter().map(|(k, v)| (k.clone(), from_value(v))).collect())
        }
    }
}

fn obj(text: &str) -> Json {
    from_value(&serde_json::from_str(text).unwrap())
}

/// Every page a writer produced, by number, and how many there were.
fn run(page_size: usize, messages: &[Json]) -> (usize, Vec<(usize, String)>) {
    let mut w = HtmlWriter::new("t", page_size, "UTC");
    let mut pages = Vec::new();
    for m in messages {
        if let Some(done) = w.add(m) {
            pages.push(done);
        }
    }
    let (count, last) = w.close();
    if let Some(done) = last {
        pages.push(done);
    }
    (count, pages)
}

fn render_one(text: &str) -> String {
    let (_, pages) = run(1000, &[obj(text)]);
    assert_eq!(pages.len(), 1);
    pages[0].1.clone()
}

fn page(pages: &[(usize, String)], n: usize) -> String {
    pages.iter().find(|(k, _)| *k == n).map(|(_, s)| s.clone()).unwrap()
}

#[test]
fn a_date_divider_opens_the_history() {
    let out = render_one(
        r#"{"id": 1, "type": "message", "date": "2025-12-18T16:17:52",
            "from": "A", "from_id": "user1", "text": "hi"}"#,
    );
    assert!(out.contains("id=\"message-1\""), "got:\n{out}");
    assert!(out.contains("18 December 2025"), "got:\n{out}");
}

#[test]
fn a_service_message_renders_its_sentence() {
    let out = render_one(
        r#"{"id": 66, "type": "service", "date": "2025-12-18T16:17:52",
            "actor": "kosta kosta", "actor_id": "user1",
            "action": "topic_created", "title": "bitno pročitaj"}"#,
    );
    assert!(out.contains("id=\"message66\""), "got:\n{out}");
    assert!(
        out.contains("kosta kosta created topic &laquo;bitno pročitaj&raquo;"),
        "got:\n{out}"
    );
}

#[test]
fn the_time_is_zero_padded_and_the_tooltip_carries_the_zone() {
    let out = render_one(
        r#"{"id": 1, "type": "message", "date": "2025-12-18T09:05:02",
            "from": "A", "from_id": "user1", "text": "x"}"#,
    );
    assert!(out.contains("\n09:05\n"), "got:\n{out}");
    assert!(out.contains("18.12.2025 09:05:02 UTC"), "got:\n{out}");
}

#[test]
fn a_reply_on_the_same_page_uses_the_script_form() {
    let (_, pages) = run(
        1000,
        &[
            obj(r#"{"id": 5, "type": "message", "date": "2025-12-18T16:00:00",
                    "from": "A", "from_id": "user1", "text": "first"}"#),
            obj(r#"{"id": 6, "type": "message", "date": "2025-12-18T16:00:01",
                    "from": "B", "from_id": "user2", "text": "second",
                    "reply_to_message_id": 5}"#),
        ],
    );
    let out = page(&pages, 1);
    assert!(out.contains("onclick=\"return GoToMessage(5)\""), "got:\n{out}");
}

#[test]
fn a_reply_across_a_page_boundary_uses_a_plain_link() {
    let (_, pages) = run(
        1,
        &[
            obj(r#"{"id": 5, "type": "message", "date": "2025-12-18T16:00:00",
                    "from": "A", "from_id": "user1", "text": "first"}"#),
            obj(r#"{"id": 6, "type": "message", "date": "2025-12-18T16:00:01",
                    "from": "B", "from_id": "user2", "text": "second",
                    "reply_to_message_id": 5}"#),
        ],
    );
    let out = page(&pages, 2);
    assert!(out.contains("href=\"messages.html#go_to_message5\""), "got:\n{out}");
    assert!(!out.contains("GoToMessage"), "got:\n{out}");
}

#[test]
fn a_reply_to_another_chat_gets_no_link_at_all() {
    let out = render_one(
        r#"{"id": 6, "type": "message", "date": "2025-12-18T16:00:01",
            "from": "B", "from_id": "user2", "text": "x",
            "reply_to_message_id": 5, "reply_to_peer_id": "channel9"}"#,
    );
    assert!(out.contains("In reply to a message in another chat"), "got:\n{out}");
    assert!(!out.contains("<a "), "got:\n{out}");
}

#[test]
fn a_hostile_reply_target_drops_the_link_rather_than_interpolating() {
    let out = render_one(
        r#"{"id": 6, "type": "message", "date": "2025-12-18T16:00:01",
            "from": "B", "from_id": "user2", "text": "x",
            "reply_to_message_id": "5); alert(1); //"}"#,
    );
    assert!(!out.contains("alert(1)"), "got:\n{out}");
    assert!(out.contains("In reply to this message"), "got:\n{out}");
}

#[test]
fn a_second_message_from_the_same_sender_joins() {
    let msgs: Vec<Json> = [(1, "16:00:00"), (2, "16:00:30")]
        .iter()
        .map(|(id, when)| {
            obj(&format!(
                r#"{{"id": {id}, "type": "message", "date": "2025-12-18T{when}",
                    "from": "A", "from_id": "user1", "text": "x"}}"#
            ))
        })
        .collect();
    let (_, pages) = run(1000, &msgs);
    let out = page(&pages, 1);
    assert_eq!(out.matches("message default clearfix joined").count(), 1);
    assert_eq!(out.matches("userpic_wrap").count(), 1);
    assert_eq!(out.matches("class=\"from_name\"").count(), 1);
}

#[test]
fn pagination_splits_and_links_both_ways() {
    let msgs: Vec<Json> = (1..=5)
        .map(|id| {
            obj(&format!(
                r#"{{"id": {id}, "type": "message", "date": "2025-12-18T16:00:00",
                    "from": "A", "from_id": "user1", "text": "x"}}"#
            ))
        })
        .collect();
    let (count, pages) = run(2, &msgs);
    assert_eq!(count, 3);
    let p1 = page(&pages, 1);
    let p2 = page(&pages, 2);
    assert!(p1.contains("Next messages"));
    assert!(!p1.contains("Previous messages"));
    assert!(p2.contains("Previous messages") && p2.contains("Next messages"));
}

#[test]
fn an_empty_chat_still_produces_a_page() {
    let (count, pages) = run(1000, &[]);
    assert_eq!(count, 1);
    assert_eq!(pages.len(), 1);
    assert_eq!(pages[0].0, 1);
    assert!(pages[0].1.contains("<div class=\"history\">"));
}

#[test]
fn a_sticker_renders_as_an_inline_image() {
    let out = render_one(
        r#"{"id": 1, "type": "message", "date": "2025-12-18T16:00:00",
            "from": "A", "from_id": "user1",
            "file": "stickers/sticker.webp", "media_type": "sticker",
            "width": 512, "height": 512,
            "_p": {"preview": {"src": "stickers/sticker_thumb.webp",
                               "width": 192, "height": 192}}}"#,
    );
    assert!(out.contains("class=\"sticker_wrap clearfix pull_left\""), "got:\n{out}");
    assert!(out.contains("style=\"width: 192px; height: 192px\""), "got:\n{out}");
}

#[test]
fn a_preview_src_goes_through_safe_href_like_every_other_url() {
    let out = render_one(
        r#"{"id": 1, "type": "message", "date": "2025-12-18T16:00:00",
            "from": "A", "from_id": "user1",
            "file": "stickers/sticker.webp", "media_type": "sticker",
            "width": 512, "height": 512,
            "_p": {"preview": {"src": "javascript:alert(1)",
                               "width": 192, "height": 192}}}"#,
    );
    assert!(!out.contains("javascript:"), "got:\n{out}");
    assert!(out.contains("src=\"\""), "got:\n{out}");
    let unc = render_one(
        r#"{"id": 1, "type": "message", "date": "2025-12-18T16:00:00",
            "from": "A", "from_id": "user1",
            "file": "stickers/sticker.webp", "media_type": "sticker",
            "width": 512, "height": 512,
            "_p": {"preview": {"src": "//evil.example/x.png",
                               "width": 192, "height": 192}}}"#,
    );
    assert!(!unc.contains("evil.example"), "got:\n{unc}");
}

#[test]
fn an_ordinary_preview_src_is_unchanged() {
    let out = render_one(
        r#"{"id": 1, "type": "message", "date": "2025-12-18T16:00:00",
            "from": "A", "from_id": "user1",
            "file": "stickers/sticker (55).webp", "media_type": "sticker",
            "width": 512, "height": 512,
            "_p": {"preview": {"src": "stickers/sticker (55).webp",
                               "width": 192, "height": 192}}}"#,
    );
    assert!(out.contains("src=\"stickers/sticker (55).webp\""), "got:\n{out}");
}

#[test]
fn a_video_shows_its_play_button_and_duration() {
    let out = render_one(
        r#"{"id": 1, "type": "message", "date": "2025-12-18T16:00:00",
            "from": "A", "from_id": "user1",
            "file": "video_files/a.mp4", "media_type": "video_file",
            "duration_seconds": 65, "width": 640, "height": 480,
            "_p": {"preview": {"src": "t.jpg", "width": 260, "height": 195}}}"#,
    );
    assert!(out.contains("class=\"video_play\""), "got:\n{out}");
    assert!(out.contains("01:05"), "got:\n{out}");
}

#[test]
fn a_small_photo_becomes_a_row_not_an_inline_image() {
    let out = render_one(
        r#"{"id": 1, "type": "message", "date": "2025-12-18T16:00:00",
            "from": "A", "from_id": "user1",
            "photo": "photos/photo_1.jpg", "width": 260, "height": 74,
            "photo_file_size": 3079,
            "_p": {"preview": {"src": "photos/photo_1_thumb.jpg",
                               "width": 260, "height": 74}}}"#,
    );
    assert!(out.contains("media_photo"), "got:\n{out}");
    assert!(!out.contains("photo_wrap"), "got:\n{out}");
    assert!(out.contains("260×74"), "got:\n{out}");
}

#[test]
fn a_page_break_restates_the_date_and_breaks_the_block() {
    let msgs: Vec<Json> = (1..=2)
        .map(|id| {
            obj(&format!(
                r#"{{"id": {id}, "type": "message", "date": "2025-12-18T16:00:00",
                    "from": "A", "from_id": "user1", "text": "x"}}"#
            ))
        })
        .collect();
    let (_, pages) = run(1, &msgs);
    let p2 = page(&pages, 2);
    assert!(p2.contains("18 December 2025"), "got:\n{p2}");
    assert!(!p2.contains("joined"), "a page break must start a fresh block");
}

#[test]
fn a_large_photo_is_drawn_inline() {
    let out = render_one(
        r#"{"id": 1, "type": "message", "date": "2025-12-18T16:00:00",
            "from": "A", "from_id": "user1",
            "photo": "photos/photo_1.jpg", "width": 800, "height": 600,
            "_p": {"preview": {"src": "photos/photo_1_thumb.jpg",
                               "width": 260, "height": 195}}}"#,
    );
    assert!(out.contains("href=\"photos/photo_1.jpg\""), "got:\n{out}");
    assert!(out.contains("class=\"photo\""), "got:\n{out}");
}

#[test]
fn a_forward_carries_its_source_header_and_original_date() {
    let out = render_one(
        r#"{"id": 3, "type": "message", "date": "2025-12-18T16:00:00",
            "from": "A", "from_id": "user1", "forwarded_from": "Channel X",
            "text": "x",
            "_p": {"forwarded_date": "2020-01-02T03:04:05"}}"#,
    );
    assert!(out.contains("class=\"forwarded body\""), "got:\n{out}");
    assert!(out.contains("Channel X<span class=\"date details\""), "got:\n{out}");
    assert!(out.contains(" 02.01.2020 03:04:05</span>"), "got:\n{out}");
    assert!(out.contains("forwarded userpic_wrap"), "got:\n{out}");
}

#[test]
fn a_quoted_reply_keeps_the_fragment() {
    let out = render_one(
        r#"{"id": 6, "type": "message", "date": "2025-12-18T16:00:01",
            "from": "B", "from_id": "user2", "text": "x",
            "reply_to_message_id": 5, "reply_to_quote": "the part"}"#,
    );
    assert!(out.contains("border-left: 2px solid #3892db"), "got:\n{out}");
    assert!(out.contains("\nthe part\n"), "got:\n{out}");
}

#[test]
fn the_writer_counts_its_pages_and_date_dividers() {
    let mut w = HtmlWriter::new("t", 1, "UTC");
    assert_eq!((w.pages(), w.dividers()), (0, 0));
    w.add(&obj(r#"{"id": 1, "type": "message", "date": "2024-01-01T10:00:00", "from": "A", "from_id": "user1", "text": "hi"}"#));
    assert_eq!((w.pages(), w.dividers()), (1, 1));
    w.add(&obj(r#"{"id": 2, "type": "message", "date": "2024-01-02T10:00:00", "from": "A", "from_id": "user1", "text": "yo"}"#));
    assert_eq!((w.pages(), w.dividers()), (2, 2));
}
