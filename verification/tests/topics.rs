use tgx::media::topics::{
    sanitize_component, topic_dirname, topic_id_for, ReplyHeader, GENERAL_TITLE, GENERAL_TOPIC_ID,
};

#[test]
fn a_topic_creating_service_message_names_its_own_topic() {
    assert_eq!(topic_id_for(66, true, None), 66);
    let r = ReplyHeader { forum_topic: true, reply_to_top_id: Some(9), reply_to_msg_id: None };
    assert_eq!(topic_id_for(66, true, Some(r)), 66);
}

#[test]
fn no_reply_header_is_general() {
    assert_eq!(topic_id_for(5, false, None), GENERAL_TOPIC_ID);
}

#[test]
fn a_forum_reply_routes_to_its_top_id() {
    let r = ReplyHeader { forum_topic: true, reply_to_top_id: Some(42), reply_to_msg_id: Some(77) };
    assert_eq!(topic_id_for(5, false, Some(r)), 42);
}

#[test]
fn a_forum_reply_without_a_top_id_falls_back_to_the_message_id() {
    let r = ReplyHeader { forum_topic: true, reply_to_top_id: None, reply_to_msg_id: Some(42) };
    assert_eq!(topic_id_for(5, false, Some(r)), 42);
}

#[test]
fn a_plain_reply_with_no_forum_flag_is_general() {
    let r = ReplyHeader { forum_topic: false, reply_to_top_id: Some(42), reply_to_msg_id: Some(77) };
    assert_eq!(topic_id_for(5, false, Some(r)), GENERAL_TOPIC_ID);
}

#[test]
fn a_forum_reply_with_neither_id_is_general() {
    let r = ReplyHeader { forum_topic: true, reply_to_top_id: None, reply_to_msg_id: None };
    assert_eq!(topic_id_for(5, false, Some(r)), GENERAL_TOPIC_ID);
}

#[test]
fn topic_folders_are_id_prefixed_and_zero_padded() {
    assert_eq!(topic_dirname(1, "General"), "0001 - General");
    assert_eq!(topic_dirname(42, "Backend"), "0042 - Backend");
    assert_eq!(topic_dirname(12345, "Big"), "12345 - Big");
}

#[test]
fn two_topics_with_the_same_title_never_collide() {
    assert_ne!(topic_dirname(42, "Design"), topic_dirname(43, "Design"));
}

#[test]
fn emoji_survive_but_illegal_characters_do_not() {
    assert_eq!(topic_dirname(43, "Design 🎨"), "0043 - Design 🎨");
    assert_eq!(sanitize_component("a/b:c", "x"), "a_b_c");
}

#[test]
fn whitespace_is_collapsed_and_trimmed() {
    assert_eq!(sanitize_component("  a   b  ", "x"), "a b");
}

#[test]
fn control_characters_become_underscores_before_the_collapse() {
    assert_eq!(sanitize_component("  a \t\n b  ", "x"), "a __ b");
}

#[test]
fn a_reserved_name_is_escaped() {
    assert_eq!(sanitize_component("CON", "x"), "_CON");
    assert_eq!(sanitize_component("com1", "x"), "_com1");
    assert_eq!(sanitize_component("COM10", "x"), "COM10");
}

#[test]
fn an_empty_title_falls_back() {
    assert_eq!(sanitize_component("", "topic"), "topic");
    assert_eq!(sanitize_component("   ", "topic"), "topic");
    assert_eq!(sanitize_component("...", "topic"), "topic");
}

#[test]
fn a_long_title_is_capped_by_characters_not_bytes() {
    let long = "🎨".repeat(200);
    let out = sanitize_component(&long, "x");
    assert_eq!(out.chars().count(), 120);
}

#[test]
fn a_long_title_truncated_onto_a_dot_drops_it() {
    let long = format!("{}.{}", "a".repeat(119), "b".repeat(50));
    let out = sanitize_component(&long, "x");
    assert!(!out.ends_with('.'), "got {out}");
    assert_eq!(out.chars().count(), 119);
}

#[test]
fn a_long_title_truncated_onto_a_space_drops_it() {
    let long = format!("{} {}", "a".repeat(119), "b".repeat(50));
    let out = sanitize_component(&long, "x");
    assert!(!out.ends_with(' '), "got {out}");
    assert_eq!(out.chars().count(), 119);
}

#[test]
fn the_reference_topic_titles_round_trip() {
    for (id, title) in [(1, "ćaskanje"), (12, "foto video"), (15, "editorijal"), (66, "bitno pročitaj")] {
        let d = topic_dirname(id, title);
        assert!(d.ends_with(title), "got {d}");
        assert!(d.starts_with(&format!("{id:04}")), "got {d}");
    }
}

#[test]
fn a_negative_id_pads_like_the_formatter() {
    assert_eq!(topic_dirname(-5, "x"), format!("{:04} - x", -5));
    assert_eq!(topic_dirname(i64::MIN, "x"), format!("{:04} - x", i64::MIN));
}

#[test]
fn the_general_topic_has_its_title() {
    assert_eq!(topic_dirname(GENERAL_TOPIC_ID, GENERAL_TITLE), "0001 - General");
}

#[test]
fn a_title_the_cut_shortens_to_a_device_is_escaped() {
    let name = format!("CON{}x", ".".repeat(117));
    assert_eq!(sanitize_component(&name, "topic"), "_CON");
}
