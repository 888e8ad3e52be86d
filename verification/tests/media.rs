use tgx::format::value::{Json, Number};
use tgx::html::media::{
    file_row, is_placeholder, join_nonempty, join_space, placeholder_text, row_fields, Row,
    NOT_INCLUDED_HTML, TOO_LARGE_HTML, UNAVAILABLE_HTML,
};
use tgx::html::tree::Tree;

fn s(x: &str) -> Json {
    Json::Str(x.to_string())
}

fn n(i: i64) -> Json {
    Json::Number(Number { int: Some(i), text: i.to_string() })
}

fn obj(pairs: Vec<(&str, Json)>) -> Json {
    Json::Object(pairs.into_iter().map(|(k, v)| (k.to_string(), v)).collect())
}

#[test]
fn placeholder_wording_matches_desktops_three_sentences() {
    assert_eq!(
        placeholder_text("(File exceeds maximum size. ...)"),
        TOO_LARGE_HTML
    );
    assert_eq!(
        placeholder_text("(File not included. ...)"),
        NOT_INCLUDED_HTML
    );
    assert_eq!(placeholder_text("(File unavailable...)"), UNAVAILABLE_HTML);
}

#[test]
fn the_wording_is_matched_in_any_case() {
    assert_eq!(placeholder_text("(FILE EXCEEDS MAXIMUM SIZE)"), TOO_LARGE_HTML);
    assert_eq!(placeholder_text(""), UNAVAILABLE_HTML);
}

#[test]
fn an_animation_shows_its_size_but_no_duration() {
    let m = obj(vec![
        ("file", s("video_files/a.mp4")),
        ("media_type", s("animation")),
        ("duration_seconds", n(12)),
        ("file_size", n(1048576)),
    ]);
    let row = row_fields(&m).unwrap();
    assert_eq!(row.css, "media_video");
    assert_eq!(row.title, "Animation");
    assert_eq!(row.status, "1.0 MB");
    assert!(!row.status.contains("00:12"), "got {}", row.status);
}

#[test]
fn a_real_video_shows_both() {
    let m = obj(vec![
        ("file", s("video_files/a.mp4")),
        ("media_type", s("video_file")),
        ("duration_seconds", n(12)),
        ("file_size", n(1048576)),
    ]);
    assert_eq!(row_fields(&m).unwrap().status, "00:12, 1.0 MB");
}

#[test]
fn a_voice_message_shows_its_length_alone() {
    let m = obj(vec![
        ("file", s("voice_messages/a.ogg")),
        ("media_type", s("voice_message")),
        ("duration_seconds", n(65)),
        ("file_size", n(1048576)),
    ]);
    let row = row_fields(&m).unwrap();
    assert_eq!(row.css, "media_voice_message");
    assert_eq!(row.status, "01:05");
}

#[test]
fn a_saved_photo_shows_dimensions_without_a_size() {
    let m = obj(vec![
        ("photo", s("photos/photo_1.jpg")),
        ("width", n(260)),
        ("height", n(74)),
        ("photo_file_size", n(3079)),
    ]);
    let row = row_fields(&m).unwrap();
    assert_eq!(row.status, "260×74");
    assert_eq!(row.href.as_deref(), Some("photos/photo_1.jpg"));
}

#[test]
fn a_skipped_photo_gains_its_size_and_loses_its_link() {
    let m = obj(vec![
        ("photo", s("(File exceeds maximum size. Change data exporting settings to download.)")),
        ("width", n(2560)),
        ("height", n(1706)),
        ("photo_file_size", n(1940744)),
    ]);
    let row = row_fields(&m).unwrap();
    assert_eq!(row.status, "2560×1706, 1.8 MB");
    assert_eq!(row.href, None);
    assert_eq!(row.description, TOO_LARGE_HTML);
}

#[test]
fn an_audio_file_titles_itself_from_performer_and_title() {
    let m = obj(vec![
        ("file", s("files/a.mp3")),
        ("media_type", s("audio_file")),
        ("title", s("Song")),
        ("performer", s("Band")),
        ("file_size", n(1024)),
    ]);
    assert_eq!(row_fields(&m).unwrap().title, "Band - Song");
}

#[test]
fn an_unnamed_document_falls_back_to_file() {
    let m = obj(vec![("file", s("files/x")), ("media_type", s("unknown_kind"))]);
    let row = row_fields(&m).unwrap();
    assert_eq!(row.title, "File");
    assert_eq!(row.css, "media_file");
}

#[test]
fn a_message_with_no_media_gets_no_row() {
    assert_eq!(row_fields(&obj(vec![("id", n(1)), ("text", s("hi"))])), None);
}

fn plain_row(css: &str, title: &str, href: Option<&str>) -> Row {
    Row {
        css: css.into(),
        title: title.into(),
        description: String::new(),
        status: String::new(),
        href: href.map(String::from),
    }
}

#[test]
fn a_dangerous_href_degrades_to_the_unlinked_form() {
    let mut t = Tree::new();
    file_row(&mut t, &plain_row("media_file", "x", Some("javascript:alert(1)")));
    assert!(!t.as_str().contains("<a "), "got:\n{}", t.as_str());
    assert!(!t.as_str().contains("javascript"), "got:\n{}", t.as_str());
}

#[test]
fn a_relative_path_with_a_space_still_links() {
    let mut t = Tree::new();
    file_row(&mut t, &plain_row("media_photo", "Sticker", Some("stickers/sticker (55).webp")));
    assert!(t.as_str().contains("href=\"stickers/sticker (55).webp\""), "got:\n{}", t.as_str());
}

#[test]
fn the_fill_div_stays_bare() {
    let mut t = Tree::new();
    file_row(&mut t, &plain_row("media_video", "Video file", None));
    assert!(t.as_str().contains("<div class=\"fill pull_left\">"));
}

#[test]
fn an_empty_status_still_emits_its_div() {
    let mut t = Tree::new();
    file_row(&mut t, &plain_row("media_file", "x", None));
    assert!(t.as_str().contains("class=\"status details\""));
}

#[test]
fn contacts_locations_games_and_invoices_get_rows() {
    let c = obj(vec![(
        "contact_information",
        obj(vec![("first_name", s("Ana")), ("last_name", s("")), ("phone_number", s("+381"))]),
    )]);
    let row = row_fields(&c).unwrap();
    assert_eq!((row.css.as_str(), row.title.as_str(), row.status.as_str()), ("media_contact", "Ana", "+381"));

    let loc = obj(vec![
        (
            "location_information",
            obj(vec![
                ("latitude", Json::Number(Number { int: None, text: "44.8".into() })),
                ("longitude", s("20.4")),
            ]),
        ),
        ("live_location_period_seconds", n(60)),
    ]);
    let row = row_fields(&loc).unwrap();
    assert_eq!(row.css, "media_live_location");
    assert_eq!(row.title, "Live location");
    assert_eq!(row.status, "44.8, 20.4");
    assert_eq!(row.href.as_deref(), Some("https://maps.google.com/maps?q=44.8,20.4&ll=44.8,20.4&z=16"));

    let game = obj(vec![("game_title", s("Chess")), ("game_link", s("https://g"))]);
    let row = row_fields(&game).unwrap();
    assert_eq!((row.css.as_str(), row.href.as_deref()), ("media_game", Some("https://g")));

    let inv = obj(vec![("invoice_information", obj(vec![("amount", s("")), ("currency", s("EUR"))]))]);
    let row = row_fields(&inv).unwrap();
    assert_eq!((row.title.as_str(), row.status.as_str()), ("Invoice", "EUR"));
}

#[test]
fn a_number_in_a_string_still_counts_and_parts_join_without_blanks() {
    let m = obj(vec![("photo", s("photos/p.jpg")), ("width", s("12")), ("height", s("x"))]);
    assert_eq!(row_fields(&m).unwrap().status, "");
    assert!(is_placeholder(Some(&s("(File not included.)"))));
    assert!(!is_placeholder(Some(&n(3))));
    assert_eq!(join_nonempty(&["".into(), "a".into(), "".into(), "b".into()]), "a, b");
    assert_eq!(join_space(&["x".into(), "".into()]), "x");
}
