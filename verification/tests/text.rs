use tgx::format::text::{
    build_text_entities, build_text_field, decode_lossy, plain_text, snap_cuts, units, Entity,
    FieldPart, Segment, TextField,
};
use tgx::format::value::{Json, Number};

fn ent(offset: i64, length: i64, kind: &'static str) -> Entity {
    Entity { offset, length, kind, extras: vec![] }
}

fn kinds(segs: &[Segment]) -> Vec<&str> {
    segs.iter().map(|s| s.kind).collect()
}

#[test]
fn a_cut_between_surrogate_halves_snaps_back() {
    let text = "a👍b";
    let units = units(text);
    assert_eq!(units.len(), 4);
    let snapped = snap_cuts(vec![0, 2, 4], &units);
    assert_eq!(snapped, vec![0, 1, 4]);
    for w in snapped.windows(2) {
        let s = decode_lossy(&units[w[0]..w[1]]);
        assert!(!s.contains('\u{FFFD}'), "segment {s:?} lost a character");
    }
}

#[test]
fn an_unpaired_surrogate_decodes_to_the_replacement_character() {
    let u = units("👍");
    assert_eq!(decode_lossy(&u[..1]), "\u{FFFD}");
    assert_eq!(decode_lossy(&u[1..]), "\u{FFFD}");
    assert_eq!(decode_lossy(&u), "👍");
    assert_eq!(decode_lossy(&[0xD800, 0x41]), "\u{FFFD}A");
}

#[test]
fn a_cut_on_a_leading_low_surrogate_clamps_at_zero() {
    let u = vec![0xDC00u16, 0x41];
    assert_eq!(snap_cuts(vec![2, 0, 0, 1], &u), vec![0, 1, 2]);
    assert_eq!(units("é👍").len(), 3);
}

#[test]
fn offsets_are_utf16_not_chars() {
    let text = "👍 bold";
    let segs = build_text_entities(text, &[ent(3, 4, "bold")]);
    let bold: Vec<&Segment> = segs.iter().filter(|s| s.kind == "bold").collect();
    assert_eq!(bold.len(), 1);
    assert_eq!(bold[0].text, "bold");
    let by_chars: String = text.chars().skip(3).take(4).collect();
    assert_ne!(by_chars, "bold");
}

#[test]
fn a_hostile_offset_cannot_produce_an_unwritable_segment() {
    let text = "a👍b";
    let segs = build_text_entities(text, &[ent(2, 1, "bold")]);
    let joined: String = segs.iter().map(|s| s.text.as_str()).collect();
    assert!(joined.contains('a') && joined.contains('b'));
    for s in &segs {
        assert!(std::str::from_utf8(s.text.as_bytes()).is_ok());
        assert!(!s.text.contains('\u{FFFD}'));
    }
}

#[test]
fn plain_runs_merge() {
    let segs = build_text_entities("abcdef", &[ent(2, 2, "bold")]);
    assert_eq!(segs.len(), 3);
    assert_eq!(segs[0].text, "ab");
    assert_eq!(segs[1].kind, "bold");
    assert_eq!(segs[2].text, "ef");
}

#[test]
fn innermost_entity_wins() {
    let segs = build_text_entities("abcdef", &[ent(0, 6, "bold"), ent(2, 2, "italic")]);
    assert_eq!(kinds(&segs), vec!["bold", "italic", "bold"]);
    assert_eq!(segs[1].entity, Some(1));
    assert_eq!(segs[0].entity, Some(0));
}

#[test]
fn text_field_is_a_bare_string_when_unformatted() {
    let segs = build_text_entities("hello", &[]);
    assert_eq!(build_text_field(&segs), TextField::Bare("hello".into()));
}

#[test]
fn text_field_is_a_list_when_formatted() {
    let segs = build_text_entities("abcdef", &[ent(2, 2, "bold")]);
    let field = build_text_field(&segs);
    match field {
        TextField::Parts(parts) => {
            assert_eq!(parts[0], FieldPart::Text("ab".into()));
            assert_eq!(parts[1], FieldPart::Whole(1));
            assert_eq!(segs[1].kind, "bold");
        }
        other => panic!("expected a list, got {other:?}"),
    }
}

#[test]
fn plain_text_unwraps_until_a_string_appears() {
    let inner = Json::Object(vec![("text".to_string(), Json::Str("the answer".into()))]);
    let nested = Json::Object(vec![("text".to_string(), inner)]);
    assert_eq!(plain_text(&nested), "the answer");
    assert_eq!(plain_text(&Json::Str("flat".into())), "flat");
    assert_eq!(plain_text(&Json::Null), "");
    let n = Json::Number(Number { int: Some(7), text: "7".into() });
    assert_eq!(plain_text(&n), "7");
    assert_eq!(plain_text(&Json::Object(vec![])), "");
}

#[test]
fn a_trailing_entity_gets_desktops_empty_tail_when_the_text_is_not_ascii() {
    let text = "Treba mi nešto malo starije fazon 2021-2023";
    let segs = build_text_entities(text, &[ent(34, 9, "phone")]);
    assert_eq!(segs.len(), 3);
    assert_eq!(segs[1].kind, "phone");
    assert_eq!(segs[1].text, "2021-2023");
    assert_eq!((segs[2].kind, segs[2].text.as_str(), segs[2].entity), ("plain", "", None));
    let field = build_text_field(&segs);
    assert_eq!(
        field,
        TextField::Parts(vec![
            FieldPart::Text("Treba mi nešto malo starije fazon ".into()),
            FieldPart::Whole(1),
            FieldPart::Text("".into()),
        ])
    );
}

#[test]
fn a_trailing_entity_in_pure_ascii_text_gets_no_tail() {
    let text = ".lens\n@flicsbysoleee";
    let segs = build_text_entities(text, &[ent(6, 14, "mention")]);
    assert_eq!(segs.len(), 2);
    assert_eq!(segs[1].kind, "mention");
    assert_eq!(segs[1].text, "@flicsbysoleee");
    assert_eq!(
        build_text_field(&segs),
        TextField::Parts(vec![FieldPart::Text(".lens\n".into()), FieldPart::Whole(1)])
    );
}

#[test]
fn a_non_ascii_message_ending_in_plain_text_gets_no_tail() {
    let segs = build_text_entities("šta @matfic hm", &[ent(4, 7, "mention")]);
    assert_eq!(segs.len(), 3);
    assert_eq!((segs[2].kind, segs[2].text.as_str()), ("plain", " hm"));
}

#[test]
fn empty_text_has_no_entities() {
    assert!(build_text_entities("", &[ent(0, 4, "bold")]).is_empty());
}

#[test]
fn out_of_range_entities_are_clamped_away() {
    let segs = build_text_entities("hi", &[ent(50, 4, "bold")]);
    assert_eq!(segs.len(), 1);
    assert_eq!(segs[0].kind, "plain");
}

#[test]
fn a_huge_length_saturates_and_an_entity_covers_the_rest() {
    let segs = build_text_entities("hello", &[ent(2, i64::MAX, "bold"), ent(-5, 6, "italic")]);
    assert_eq!(kinds(&segs), vec!["italic", "plain", "bold"]);
    assert_eq!(segs[0].text, "h");
    assert_eq!(segs[1].text, "e");
    assert_eq!(segs[2].text, "llo");
}

#[test]
fn equally_short_entities_go_to_the_first() {
    let segs = build_text_entities("abcd", &[ent(1, 2, "bold"), ent(1, 2, "italic")]);
    assert_eq!(kinds(&segs), vec!["plain", "bold", "plain"]);
    assert_eq!(segs[1].entity, Some(0));
}
