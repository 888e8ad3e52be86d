use tgx::format::peer::userpic_colour;
use tgx::html::userpic::userpic_class;

#[test]
fn the_colour_comes_from_the_digits_of_a_typed_key() {
    assert_eq!(userpic_class("user7", None), userpic_colour(7) as i64);
    assert_eq!(userpic_class("channel3", None), userpic_colour(3) as i64);
}

#[test]
fn a_self_chosen_colour_overrides_the_palette() {
    assert_eq!(userpic_class("user1", Some(11)), 12);
}

#[test]
fn a_peer_with_no_digits_falls_back_rather_than_panicking() {
    assert_eq!(userpic_class("", None), userpic_colour(0) as i64);
    assert_eq!(userpic_class("anonymous", None), userpic_colour(0) as i64);
}

#[test]
fn a_gigantic_id_gets_its_own_colour_not_the_fallback() {
    let huge = "user1".to_string() + &"0".repeat(30);
    assert_eq!(userpic_class(&huge, None), userpic_colour(1) as i64);
    assert_ne!(userpic_class(&huge, None), userpic_colour(0) as i64);
}

#[test]
fn a_negative_id_keeps_its_sign() {
    assert_eq!(userpic_class("user-1", None), userpic_colour(-1) as i64);
    assert_eq!(userpic_class("user-8", None), userpic_colour(-8) as i64);
    assert_ne!(userpic_class("user-1", None), userpic_class("user1", None));
}

#[test]
fn digits_after_a_letter_still_count() {
    // "a1b2" reads as 12, which is 5 modulo 7.
    assert_eq!(userpic_class("a1b2", None), userpic_colour(12) as i64);
}
