use tgx::html::page::{close_page, open_page, page_name, suffix_for, utc_suffix, PageChrome};
use tgx::html::tree::Tree;

#[test]
fn the_first_page_is_not_numbered() {
    assert_eq!(page_name(0), "messages.html");
    assert_eq!(page_name(1), "messages.html");
    assert_eq!(page_name(2), "messages2.html");
    assert_eq!(page_name(9), "messages9.html");
}

#[test]
fn the_header_title_ends_with_desktops_trailing_space() {
    let mut t = Tree::new();
    let chrome = PageChrome {
        title: "bitno pročitaj".into(),
        back_href: None,
    };
    open_page(&mut t, &chrome, 1);
    assert!(
        t.as_str().contains("bitno pročitaj \n"),
        "the trailing space is Desktop's and it is load-bearing:\n{}",
        t.as_str()
    );
}

#[test]
fn a_later_page_links_backwards() {
    let mut t = Tree::new();
    let chrome = PageChrome {
        title: "x".into(),
        back_href: None,
    };
    open_page(&mut t, &chrome, 3);
    assert!(t.as_str().contains("Previous messages"));
    assert!(t.as_str().contains("href=\"messages2.html\""));
}

#[test]
fn the_first_page_has_no_previous_link() {
    let mut t = Tree::new();
    let chrome = PageChrome {
        title: "x".into(),
        back_href: None,
    };
    open_page(&mut t, &chrome, 1);
    assert!(!t.as_str().contains("Previous messages"));
}

#[test]
fn a_page_with_a_successor_links_forwards() {
    let mut t = Tree::new();
    close_page(&mut t, 1, true);
    assert!(t.as_str().contains("href=\"messages2.html\""));
    let mut t2 = Tree::new();
    close_page(&mut t2, 1, false);
    assert!(!t2.as_str().contains("Next messages"));
}

#[test]
fn a_forum_topic_page_links_back_to_its_index() {
    let mut t = Tree::new();
    let chrome = PageChrome {
        title: "a<b".into(),
        back_href: Some("../export_results.html".into()),
    };
    open_page(&mut t, &chrome, 1);
    assert!(t
        .as_str()
        .contains("<a class=\"text bold\" href=\"../export_results.html\">\n&lsaquo; a&lt;b \n"));
    assert!(t.as_str().ends_with(" <div class=\"history\">\n"));
    assert_eq!(t.indent(), 5);
}

#[test]
fn utc_suffix_has_desktops_shape() {
    let s = utc_suffix();
    assert!(s.starts_with("UTC"), "got {s}");
    assert_eq!(s.len(), 9, "got {s}");
    assert!(s[3..4].contains('+') || s[3..4].contains('-'), "got {s}");
}

#[test]
fn the_standard_offset_is_the_smaller_of_the_two() {
    // Central Europe: +01:00 in January, +02:00 in July.
    assert_eq!(suffix_for(Some(3600), Some(7200)), "UTC+01:00");
    // Sydney: daylight time falls in January.
    assert_eq!(suffix_for(Some(39600), Some(36000)), "UTC+10:00");
    // West of UTC, with a half hour.
    assert_eq!(suffix_for(Some(-12600), Some(-9000)), "UTC-03:30");
    assert_eq!(suffix_for(None, None), "UTC+00:00");
    // Less than a minute west still reads as zero, with a plus.
    assert_eq!(suffix_for(Some(-30), Some(0)), "UTC+00:00");
}
