use tgx::format::json::{desktop_reaction_indent, footer, header_prelude, message_block, Degraded};

#[test]
fn reaction_block_is_indented_one_space_too_deep() {
    let lines: Vec<String> = vec![
        "  {".into(),
        "   \"id\": 1,".into(),
        "   \"reactions\": [".into(),
        "    {".into(),
        "     \"type\": \"emoji\"".into(),
        "    }".into(),
        "   ]".into(),
        "  }".into(),
    ];
    let out = desktop_reaction_indent(lines);
    assert_eq!(out[2], "   \"reactions\": [");
    assert_eq!(out[3], "     {");
    assert_eq!(out[6], "    ]");
    assert_eq!(out[7], "  }");
}

#[test]
fn a_message_without_reactions_is_untouched() {
    let lines: Vec<String> = vec!["  {".into(), "   \"id\": 1".into(), "  }".into()];
    assert_eq!(desktop_reaction_indent(lines.clone()), lines);
}

#[test]
fn a_key_sorting_after_reactions_keeps_its_own_indent() {
    let lines: Vec<String> = vec![
        "  {".into(),
        "   \"id\": 1,".into(),
        "   \"reactions\": [".into(),
        "    {".into(),
        "     \"type\": \"emoji\"".into(),
        "    }".into(),
        "   ],".into(),
        "   \"something_new_in_2027\": 1".into(),
        "  }".into(),
    ];
    let out = desktop_reaction_indent(lines);
    assert_eq!(out[3], "     {");
    assert_eq!(out[6], "    ],");
    assert_eq!(out[7], "   \"something_new_in_2027\": 1");
    assert_eq!(out[8], "  }");
}

#[test]
fn an_empty_reactions_array_moves_nothing() {
    let lines: Vec<String> = vec![
        "  {".into(),
        "   \"reactions\": [],".into(),
        "   \"something_new_in_2027\": 1".into(),
        "  }".into(),
    ];
    assert_eq!(desktop_reaction_indent(lines.clone()), lines);
}

#[test]
fn the_file_ends_on_the_brace_with_no_trailing_newline() {
    assert_eq!(footer(), "\n ]\n}");
    assert!(!footer().ends_with('\n'));
}

#[test]
fn a_single_line_is_never_shifted() {
    let lines: Vec<String> = vec!["   \"reactions\": [".into()];
    assert_eq!(desktop_reaction_indent(lines.clone()), lines);
}

#[test]
fn degraded_names_are_kept_once_and_in_order() {
    let mut d = Degraded::new();
    assert!(d.is_empty());
    d.note("MessageActionZ");
    d.note("MessageActionA");
    d.note("MessageActionZ");
    assert!(!d.is_empty());
    assert_eq!(d.names(), vec!["MessageActionA".to_string(), "MessageActionZ".to_string()]);
    let fresh = Degraded::default();
    assert!(fresh.is_empty());
}

#[test]
fn message_block_matches_the_reference_shape() {
    let serialized = "{\n \"id\": 66,\n \"type\": \"service\",\n \"text\": \"\",\n \"text_entities\": []\n}";
    let block = message_block(serialized);
    assert!(block.starts_with("  {\n   \"id\": 66,\n"), "got:\n{block}");
    assert!(block.ends_with("\n  }"), "got:\n{block}");
    assert_eq!(
        block,
        "  {\n   \"id\": 66,\n   \"type\": \"service\",\n   \"text\": \"\",\n   \"text_entities\": []\n  }"
    );
}

#[test]
fn a_message_block_carries_the_reaction_quirk() {
    let serialized = "{\n \"id\": 1,\n \"reactions\": [\n  {\n   \"type\": \"emoji\"\n  }\n ]\n}";
    let block = message_block(serialized);
    let lines: Vec<&str> = block.split('\n').collect();
    assert_eq!(lines[2], "   \"reactions\": [");
    assert_eq!(lines[3], "     {");
    assert_eq!(lines[6], "    ]");
    assert_eq!(lines[7], "  }");
}

#[test]
fn message_lines_split_as_str_lines_does() {
    // A CRLF ending counts as one line ending, and the final one is optional.
    assert_eq!(message_block("a\r\nb\n"), "  a\n  b");
    assert_eq!(message_block("a\rb"), "  a\rb");
    assert_eq!(message_block(""), "");
}

#[test]
fn header_prelude_splices_the_array_on() {
    let serialized = "{\n \"name\": \"bitno pročitaj\",\n \"type\": \"public_supergroup\",\n \"id\": 3586682625\n}";
    let out = header_prelude(serialized);
    assert_eq!(
        out,
        "{\n \"name\": \"bitno pročitaj\",\n \"type\": \"public_supergroup\",\n \"id\": 3586682625,\n \"messages\": [\n"
    );
}

#[test]
fn an_empty_header_still_opens_a_valid_object() {
    let out = header_prelude("{}");
    assert_eq!(out, "{\n \"messages\": [\n");
    let whole = format!("{out}{}", footer());
    let parsed: serde_json::Value = serde_json::from_str(&whole).expect("valid JSON");
    assert_eq!(parsed["messages"], serde_json::Value::Array(vec![]));
}

#[test]
fn chat_id_is_the_bare_peer_number() {
    let serialized = "{\n \"id\": 3586682625\n}";
    assert!(header_prelude(serialized).contains("3586682625"));
    assert!(!header_prelude(serialized).contains("-100"));
}

#[test]
fn date_pair_is_naive_local_plus_utc_seconds() {
    let (date, unix) = tgx::format::date_pair(1_766_071_072).expect("a real timestamp");
    assert!(!date.ends_with('Z'), "got {date}");
    assert!(!date.contains('+'), "got {date}");
    assert_eq!(date.len(), 19, "got {date}");
    assert_eq!(unix, "1766071072");
}

#[test]
fn every_placeable_second_has_a_wall_clock_date() {
    for ts in [-62_135_510_400_i64, 0, 1_766_071_072, 253_402_214_399] {
        let (date, unix) = tgx::format::date_pair(ts).expect("a placeable second");
        assert_eq!(date.len(), 19, "{date}");
        assert_eq!(&date[10..11], "T");
        assert_eq!(unix, ts.to_string());
    }
}
