use tgx::gui::settings_form::{
    elided_start, extra, number, set_extra, toggle_kind, Extras, SettingsForm, StoredSettings, DOWNLOAD_RANGE, MEMBER_RANGE, PAGE_RANGE,
    SIZE_RANGE,
};

fn stored() -> StoredSettings {
    StoredSettings {
        output_dir: "Exports".into(),
        page_size: 1000,
        size_limit_mb: 20,
        download_concurrency: 5,
        member_limit: 10_000,
    }
}

#[test]
fn nonsense_keeps_the_stored_value_rather_than_becoming_zero() {
    assert_eq!(number("twenty", PAGE_RANGE, 1000), 1000);
    assert_eq!(number("", PAGE_RANGE, 1000), 1000);
    assert_eq!(number("  ", PAGE_RANGE, 1000), 1000);
    assert_eq!(number("12.5", PAGE_RANGE, 1000), 1000);
}

#[test]
fn a_number_out_of_range_is_clamped_not_rejected() {
    assert_eq!(number("0", PAGE_RANGE, 1000), 50);
    assert_eq!(number("999999", PAGE_RANGE, 1000), 20_000);
    assert_eq!(number("-4", DOWNLOAD_RANGE, 5), 1);
    assert_eq!(number("500", PAGE_RANGE, 1000), 500);
}

#[test]
fn zero_is_a_legitimate_size_limit_and_member_cap() {
    assert_eq!(number("0", SIZE_RANGE, 20), 0);
    assert_eq!(number("0", MEMBER_RANGE, 10_000), 0);
}

#[test]
fn a_path_is_elided_at_its_end_so_its_start_stays_readable() {
    let path = r"C:\Users\Kosta\Projekti\TelegramExporter\Exports";
    let short = elided_start(path, 20);
    assert!(short.starts_with(r"C:\Users"), "got {short}");
    assert!(short.ends_with('…'));
    assert_eq!(short.chars().count(), 20);
    assert_eq!(elided_start(path, 200), path);
}

#[test]
fn a_clamped_entry_is_written_back_into_its_field() {
    let mut settings = stored();
    let mut form = SettingsForm::new(&settings);
    form.page_size = "0".into();
    form.collect(&mut settings);
    form.sync(&settings);
    assert_eq!(settings.page_size, 50);
    assert_eq!(form.page_size, "50");
}

#[test]
fn a_blank_destination_keeps_the_stored_one() {
    let mut settings = stored();
    let kept = settings.output_dir.clone();
    let mut form = SettingsForm::new(&settings);
    form.output_dir = "   ".into();
    form.collect(&mut settings);
    assert_eq!(settings.output_dir, kept);
    form.output_dir = "  D:\\out  ".into();
    form.collect(&mut settings);
    assert_eq!(settings.output_dir, "D:\\out");
}

#[test]
fn a_fresh_form_already_holds_what_is_stored() {
    let settings = stored();
    let form = SettingsForm::new(&settings);
    assert_eq!(form.page_size, settings.page_size.to_string());
    assert_eq!(form.output_dir, settings.output_dir);
    assert_eq!(form.member_limit, "10000");
    assert_eq!(form.size_limit, "20");
    assert_eq!(form.downloads, "5");
}

#[test]
fn a_number_is_read_with_its_sign_and_surrounding_space() {
    assert_eq!(number("  +7 ", DOWNLOAD_RANGE, 3), 7);
    assert_eq!(number("-", DOWNLOAD_RANGE, 3), 3);
    assert_eq!(number("99999999999999999999", MEMBER_RANGE, 3), 3);
    assert_eq!(elided_start("abc", 0), "…");
}

const EXTRA_KEYS: [&str; 6] = [
    "full_reactions",
    "chat_metadata",
    "invite_links",
    "refresh_polls",
    "scheduled_messages",
    "member_roster",
];

#[test]
fn every_extra_reads_and_writes_its_own_field() {
    for key in EXTRA_KEYS {
        let mut s = Extras::default();
        set_extra(&mut s, key, false);
        assert!(!extra(&s, key), "{key} did not clear");
        for other in EXTRA_KEYS {
            if other != key {
                assert!(extra(&s, other), "clearing {key} also cleared {other}");
            }
        }
        set_extra(&mut s, key, true);
        assert!(extra(&s, key), "{key} did not set");
    }
}

#[test]
fn an_unknown_extra_is_ignored_rather_than_matching_the_first_arm() {
    let mut s = Extras::default();
    set_extra(&mut s, "nonsense", false);
    assert_eq!(s, Extras::default());
    assert!(!extra(&s, "nonsense"));
}

#[test]
fn a_media_tick_box_adds_or_removes_its_kind() {
    let mut kinds: Vec<String> = vec!["photos".into(), "files".into()];
    toggle_kind(&mut kinds, "files");
    assert_eq!(kinds, ["photos"]);
    toggle_kind(&mut kinds, "stickers");
    assert_eq!(kinds, ["photos", "stickers"]);
}
