use tgx::format::peer::{
    display_name, html_name, initials_from_fields, initials_from_name, initials_from_title,
    userpic_colour, PeerKey, COLOUR_MAP,
};

#[test]
fn the_three_id_spaces_do_not_collide() {
    assert_ne!(
        PeerKey::user(123).to_string(),
        PeerKey::channel(123).to_string()
    );
    assert_eq!(PeerKey::user(123).to_string(), "user123");
    assert_eq!(PeerKey::chat(123).to_string(), "chat123");
    assert_eq!(PeerKey::channel(123).to_string(), "channel123");
}

#[test]
fn peer_keys_round_trip() {
    for k in [
        PeerKey::user(1),
        PeerKey::chat(22),
        PeerKey::channel(3586682625),
    ] {
        assert_eq!(PeerKey::parse(&k.to_string()), Some(k));
    }
    assert_eq!(PeerKey::parse("nonsense"), None);
}

#[test]
fn channel_parses_before_chat() {
    assert_eq!(PeerKey::parse("channel5"), Some(PeerKey::channel(5)));
}

#[test]
fn userpic_colour_is_desktops_permuted_palette() {
    assert_eq!(userpic_colour(0), 1);
    assert_eq!(userpic_colour(1), 8);
    assert_eq!(userpic_colour(2), 5);
    assert_eq!(userpic_colour(3), 2);
    assert_eq!(userpic_colour(4), 7);
    assert_eq!(userpic_colour(5), 4);
    assert_eq!(userpic_colour(6), 6);
    assert_eq!(userpic_colour(7), 1);
}

#[test]
fn userpic_colour_never_panics_on_a_negative_id() {
    for id in [-1i64, -7, -8, i64::MIN + 1] {
        let c = userpic_colour(id);
        assert!(COLOUR_MAP.contains(&c));
    }
}

#[test]
fn initials_come_from_the_fields_not_the_display_string() {
    assert_eq!(
        initials_from_fields("Nađa Gavrilović arh blokade", "fotograf"),
        "Nf"
    );
    assert_eq!(initials_from_fields("Relja Jarkovački pravni", ""), "R");
}

#[test]
fn a_hidden_forward_splits_on_the_first_space() {
    assert_eq!(initials_from_name("Немања Фарм ГМ"), "НФ");
    assert_eq!(initials_from_name("Solo"), "S");
    assert_eq!(initials_from_name(""), "");
}

#[test]
fn a_title_splits_first_and_last() {
    assert_eq!(
        initials_from_title("UA KOLAB TELEGRAM").as_deref(),
        Some("UT")
    );
    assert_eq!(initials_from_title("Redakcija").as_deref(), Some("R"));
    assert_eq!(initials_from_title("   "), None);
}

#[test]
fn html_name_keeps_the_trailing_space_json_trims() {
    assert_eq!(
        html_name("Ivana", "ETF", "", false).as_deref(),
        Some("Ivana ETF")
    );
    assert_eq!(html_name("Ivana", "", "", false).as_deref(), Some("Ivana "));
    assert_eq!(
        display_name("Ivana", "", "", false).as_deref(),
        Some("Ivana")
    );
}

#[test]
fn a_deleted_account_is_named_not_blank() {
    assert_eq!(
        display_name("", "", "", true).as_deref(),
        Some("Deleted Account")
    );
    assert_eq!(
        html_name("", "", "", true).as_deref(),
        Some("Deleted Account")
    );
}

#[test]
fn a_user_with_only_a_username_is_at_prefixed() {
    assert_eq!(
        display_name("", "", "kosta", false).as_deref(),
        Some("@kosta")
    );
}

#[test]
fn negative_ids_and_signs_parse_as_i64_does() {
    assert_eq!(PeerKey::user(-5).to_string(), "user-5");
    assert_eq!(PeerKey::parse("user-5"), Some(PeerKey::user(-5)));
    assert_eq!(PeerKey::parse("chat+7"), Some(PeerKey::chat(7)));
    assert_eq!(PeerKey::parse("user"), None);
    assert_eq!(PeerKey::parse("user99999999999999999999"), None);
    assert_eq!(
        PeerKey::parse("user-9223372036854775808"),
        Some(PeerKey::user(i64::MIN))
    );
}

#[test]
fn initials_skip_extra_spaces_and_keep_the_last_word() {
    assert_eq!(initials_from_name("  Ana   Bel  "), "AB");
    assert_eq!(initials_from_title(" a\tb  c ").as_deref(), Some("ac"));
    assert_eq!(display_name("", "Last", "", false).as_deref(), Some("Last"));
    assert_eq!(html_name("", "", "", false), None);
}
