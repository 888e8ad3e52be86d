use tgx::gui::journal::{warnings_label, Journal, Line, CAPACITY};

#[test]
fn a_warning_is_marked_by_its_writer_not_sniffed_from_its_text() {
    let mut j = Journal::default();
    j.push("chat: 12 files (0 failed)");
    j.warn("chat: INCOMPLETE — Telegram counted 6,643, 5,608 came through");
    let lines: Vec<&Line> = j.lines().collect();
    assert!(!lines[0].warning);
    assert!(lines[1].warning);
    assert_eq!(j.warnings(), 1);
}

#[test]
fn the_transcript_reads_oldest_first() {
    let mut j = Journal::default();
    j.push("first");
    j.push("second");
    let texts: Vec<&str> = j.lines().map(|l| l.text.as_str()).collect();
    assert_eq!(texts, ["first", "second"]);
}

#[test]
fn the_cap_drops_the_oldest_and_says_how_many() {
    let mut j = Journal::default();
    for i in 0..CAPACITY + 5 {
        j.push(&format!("line {i}"));
    }
    assert_eq!(j.lines().len(), CAPACITY);
    assert_eq!(j.dropped(), 5);
    assert_eq!(j.lines().next().unwrap().text, "line 5");
}

#[test]
fn the_copied_text_keeps_what_the_panel_says_in_colour_and_position() {
    let mut j = Journal::default();
    j.push("chat: 12 files (0 failed)");
    j.warn("chat: INCOMPLETE");
    let text = j.to_text();
    assert_eq!(text, "chat: 12 files (0 failed)\r\n! chat: INCOMPLETE\r\n");

    let mut long = Journal::default();
    for i in 0..CAPACITY + 2 {
        long.push(&format!("line {i}"));
    }
    assert!(
        long.to_text().starts_with("[2 earlier lines dropped]\r\n"),
        "a truncated run must not paste as a whole one"
    );
}

#[test]
fn an_empty_journal_is_empty_and_holds_no_warnings() {
    let j = Journal::default();
    assert!(j.is_empty());
    assert_eq!(j.lines().len(), 0);
    assert_eq!(j.warnings(), 0);
    assert_eq!(j.dropped(), 0);
}

#[test]
fn the_newest_lines_survive_the_cap_in_order() {
    let mut j = Journal::new();
    for i in 0..CAPACITY + 3 {
        if i % 2 == 0 {
            j.warn(&format!("w{i}"));
        } else {
            j.push(&format!("p{i}"));
        }
    }
    let texts: Vec<String> = j.lines().map(|l| l.text.clone()).collect();
    assert_eq!(texts.first().unwrap(), "p3");
    assert_eq!(texts.last().unwrap(), &format!("w{}", CAPACITY + 2));
    assert_eq!(j.warnings(), CAPACITY / 2);
    assert!(!j.is_empty());
}

#[test]
fn the_warning_count_is_pluralised() {
    assert_eq!(warnings_label(1), "1 warning");
    assert_eq!(warnings_label(3), "3 warnings");
    assert_eq!(warnings_label(0), "0 warnings");
}
