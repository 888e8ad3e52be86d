use tgx::media::names::{kind_for, layout, sanitize_extension, sanitize_filename, NameBook};

#[test]
fn illegal_characters_become_underscores() {
    assert_eq!(
        sanitize_filename("a<b>c:d\"e/f\\g|h?i*j", "x"),
        "a_b_c_d_e_f_g_h_i_j"
    );
}

#[test]
fn windows_reserved_names_are_escaped_on_the_first_dot() {
    assert_eq!(sanitize_filename("CON", "x"), "_CON");
    assert_eq!(sanitize_filename("CON.txt", "x"), "_CON.txt");
    assert_eq!(sanitize_filename("CON.txt.bak", "x"), "_CON.txt.bak");
    assert_eq!(sanitize_filename("com4.mp3", "x"), "_com4.mp3");
    assert_eq!(sanitize_filename("CONTRACT.pdf", "x"), "CONTRACT.pdf");
}

#[test]
fn a_trailing_dot_is_stripped_after_truncation_not_only_before() {
    let long = format!("{}.", "a".repeat(179));
    let out = sanitize_filename(&long, "x");
    assert!(!out.ends_with('.'), "got {out}");
    assert_eq!(out.chars().count(), 179);
}

#[test]
fn an_empty_or_all_illegal_name_falls_back() {
    assert_eq!(sanitize_filename("", "fallback"), "fallback");
    assert_eq!(sanitize_filename("   ", "fallback"), "fallback");
    assert_eq!(sanitize_filename("...", "fallback"), "fallback");
}

#[test]
fn the_extension_is_sanitised_too() {
    assert_eq!(sanitize_extension("evil../../x"), ".x");
    assert_eq!(sanitize_extension("a.mp4"), ".mp4");
    assert_eq!(sanitize_extension("a.we:rd"), ".werd");
    assert_eq!(sanitize_extension("noext"), ".noext");
    assert_eq!(sanitize_extension(""), "");
}

#[test]
fn a_long_extension_is_capped() {
    let out = sanitize_extension(&format!("a.{}", "x".repeat(100)));
    assert!(out.len() <= 17, "got {out}");
}

#[test]
fn every_media_bearing_message_takes_a_number_written_or_not() {
    let mut b = NameBook::new();
    let a = b.reserve_name("photos", None, "01-01-2025", "");
    let _skipped = b.reserve_name("photos", None, "01-01-2025", "");
    let c = b.reserve_name("photos", None, "01-01-2025", "");
    assert_eq!(a, "photo_1@01-01-2025.jpg");
    assert_eq!(c, "photo_3@01-01-2025.jpg", "a skipped file must still count");
}

#[test]
fn each_prefix_has_its_own_counter() {
    let mut b = NameBook::new();
    b.reserve_name("files", Some("audio.ogg"), "s", "");
    b.reserve_name("files", Some("other.pdf"), "s", "");
    let v1 = b.reserve_name("voice_messages", None, "s", "");
    let v2 = b.reserve_name("voice_messages", None, "s", "");
    assert_eq!(v1, "audio_1@s.ogg");
    assert_eq!(v2, "audio_2@s.ogg");
    assert_eq!(b.reserve_name("photos", None, "s", ""), "photo_1@s.jpg");
}

#[test]
fn a_stripped_thumbnail_does_not_consume_the_file_counter() {
    let mut b = NameBook::new();
    let thumb = b.reserve_name("thumbnails", None, "s", "");
    let doc = b.reserve_name("files", None, "s", "");
    assert_eq!(thumb, "thumb_1@s.jpg");
    assert_eq!(doc, "file_1@s", "the thumbnail must not have taken file_1");
    assert_eq!(b.counter("thumb"), 1);
    assert_eq!(b.counter("file"), 1);
}

#[test]
fn video_numbering_survives_skipped_videos() {
    let mut b = NameBook::new();
    for _ in 0..5 {
        b.reserve_name("video_files", None, "s", "");
    }
    assert_eq!(b.reserve_name("video_files", None, "s", ""), "video_6@s.mp4");
}

#[test]
fn a_named_file_leaves_every_counter_alone() {
    let mut b = NameBook::new();
    b.reserve_name("photos", None, "s", "");
    b.reserve_name("files", Some("report.pdf"), "s", "");
    b.reserve_name("video_files", Some("clip.mp4"), "s", "");
    assert_eq!(b.counter("photo"), 1);
    assert_eq!(b.counter("video"), 0);
    assert_eq!(b.counter("file"), 0);
}

#[test]
fn a_photo_never_takes_a_supplied_name() {
    let mut b = NameBook::new();
    assert_eq!(b.reserve_name("photos", Some("given.png"), "s", ""), "photo_1@s.jpg");
}

#[test]
fn a_webm_sticker_is_filed_as_a_video() {
    assert_eq!(kind_for("sticker", "video/webm"), "video_files");
    assert_eq!(kind_for("sticker", "image/webp"), "stickers");
}

#[test]
fn shape_routing_covers_the_other_kinds() {
    assert_eq!(kind_for("video_file", "video/mp4"), "video_files");
    assert_eq!(kind_for("animation", "video/mp4"), "video_files");
    assert_eq!(kind_for("voice_message", "audio/ogg"), "voice_messages");
    assert_eq!(kind_for("video_message", "video/mp4"), "video_messages");
    assert_eq!(kind_for("", "application/pdf"), "files");
    assert_eq!(kind_for("", "video/mp4"), "video_files");
}

#[test]
fn animations_are_filed_with_the_videos() {
    assert_eq!(layout("animations").0, "video_files");
    assert_eq!(layout("video_messages").0, "round_video_messages");
}

#[test]
fn a_collision_earns_a_numbered_suffix() {
    let mut b = NameBook::new();
    assert_eq!(b.claim("stickers", "sticker.webp"), "stickers/sticker.webp");
    assert_eq!(b.claim("stickers", "sticker.webp"), "stickers/sticker (1).webp");
    assert_eq!(b.claim("stickers", "sticker.webp"), "stickers/sticker (2).webp");
}

#[test]
fn claiming_is_case_insensitive_because_windows_is() {
    let mut b = NameBook::new();
    b.claim("files", "Report.PDF");
    assert_eq!(b.claim("files", "report.pdf"), "files/report (1).pdf");
}

#[test]
fn an_extensionless_collision_suffixes_at_the_end() {
    let mut b = NameBook::new();
    b.claim("files", "README");
    assert_eq!(b.claim("files", "README"), "files/README (1)");
}

#[test]
fn a_telegram_thumbnail_is_claimed_not_string_appended() {
    let mut b = NameBook::new();
    let doc = b.claim("video_files", "clip.mp4_thumb.jpg");
    let thumb = b.claim_telegram_thumb("video_files/clip.mp4");
    assert_eq!(doc, "video_files/clip.mp4_thumb.jpg");
    assert_ne!(thumb, doc, "the thumbnail overwrote a real document");
    assert_eq!(thumb, "video_files/clip.mp4_thumb (1).jpg");
}

#[test]
fn the_two_thumbnails_are_different_files() {
    let mut b = NameBook::new();
    let tg = b.claim_telegram_thumb("video_files/clip.mp4");
    let rendered = b.claim_rendered_preview("video_files/clip.mp4");
    assert_eq!(tg, "video_files/clip.mp4_thumb.jpg");
    assert_eq!(rendered, "video_files/clip_thumb.mp4");
    assert_ne!(tg, rendered);
}

#[test]
fn different_folders_do_not_collide() {
    let mut b = NameBook::new();
    assert_eq!(b.claim("photos", "a.jpg"), "photos/a.jpg");
    assert_eq!(b.claim("files", "a.jpg"), "files/a.jpg");
}

#[test]
fn a_claimed_path_is_recognised_in_any_case() {
    let mut b = NameBook::new();
    b.claim("files", "Doc.TXT");
    assert!(b.is_claimed("FILES/doc.txt"));
    assert!(!b.is_claimed("files/other.txt"));
}

#[test]
fn a_named_file_without_a_dot_gets_the_hint_or_the_default_extension() {
    let mut b = NameBook::new();
    assert_eq!(b.reserve_name("files", Some("notes"), "s", ".txt"), "notes.txt");
    assert_eq!(b.reserve_name("stickers", Some("smile"), "s", ""), "smile.webp");
    assert_eq!(b.reserve_name("files", Some("a<b"), "s", ""), "a_b");
}

#[test]
fn a_name_the_cut_shortens_to_a_device_is_escaped() {
    let name = format!("CON{}x", " ".repeat(177));
    assert_eq!(sanitize_filename(&name, "file"), "_CON");
}
