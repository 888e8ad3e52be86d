use std::collections::HashSet;
use tgx::gui::list::{
    reopen_matched, rows, visible, Category, ChatInfo, ChatKind, Folds, ListView, Row, SortMode,
};

fn chat(id: i64, title: &str, count: Option<i64>) -> ChatInfo {
    ChatInfo {
        id,
        title: title.into(),
        kind: ChatKind::Supergroup,
        last_activity: 0,
        is_forum: false,
        public: false,
        message_count: count,
    }
}

fn kinded(id: i64, title: &str, kind: ChatKind) -> ChatInfo {
    ChatInfo { kind, ..chat(id, title, Some(1)) }
}

fn flat(sort: SortMode) -> ListView {
    ListView { sort, grouped: false, ..ListView::default() }
}

fn titles(rows: &[Row<'_>]) -> Vec<String> {
    rows.iter()
        .filter_map(|r| match r {
            Row::Chat(c) => Some(c.title.clone()),
            Row::Heading { .. } => None,
        })
        .collect()
}

fn headings(rows: &[Row<'_>]) -> Vec<Category> {
    rows.iter()
        .filter_map(|r| match r {
            Row::Heading { category, .. } => Some(*category),
            Row::Chat(_) => None,
        })
        .collect()
}

#[test]
fn sorting_by_size_orders_on_the_number_not_the_text() {
    let chats = vec![chat(1, "ninety nine", Some(99)), chat(2, "hundred", Some(100))];
    assert_eq!(titles(&rows(&chats, &flat(SortMode::Largest))), ["hundred", "ninety nine"]);
    assert_eq!(titles(&rows(&chats, &flat(SortMode::Smallest))), ["ninety nine", "hundred"]);
}

#[test]
fn an_uncounted_chat_sorts_last_in_both_directions() {
    let chats = vec![chat(1, "unknown", None), chat(2, "small", Some(2)), chat(3, "big", Some(900))];
    assert_eq!(titles(&rows(&chats, &flat(SortMode::Largest))), ["big", "small", "unknown"]);
    assert_eq!(titles(&rows(&chats, &flat(SortMode::Smallest))), ["small", "big", "unknown"]);
}

#[test]
fn an_uncounted_chat_is_not_a_chat_with_no_messages() {
    let chats = vec![chat(1, "unknown", None), chat(2, "empty", Some(0))];
    assert_eq!(titles(&rows(&chats, &flat(SortMode::Smallest))), ["empty", "unknown"]);
    assert_eq!(titles(&rows(&chats, &flat(SortMode::Largest))), ["empty", "unknown"]);
}

#[test]
fn ties_read_alphabetically_in_both_directions() {
    let chats = vec![chat(1, "Zulu", Some(5)), chat(2, "alpha", Some(5)), chat(3, "Mike", Some(5))];
    for sort in [SortMode::Largest, SortMode::Smallest] {
        assert_eq!(titles(&rows(&chats, &flat(sort))), ["alpha", "Mike", "Zulu"], "{}", sort.label());
    }
    for sort in [SortMode::Recent, SortMode::Oldest] {
        assert_eq!(titles(&rows(&chats, &flat(sort))), ["alpha", "Mike", "Zulu"]);
    }
}

#[test]
fn a_name_sort_still_reverses_when_asked() {
    let chats = vec![chat(1, "alpha", None), chat(2, "Zulu", None)];
    assert_eq!(titles(&rows(&chats, &flat(SortMode::Name))), ["alpha", "Zulu"]);
    assert_eq!(titles(&rows(&chats, &flat(SortMode::NameDesc))), ["Zulu", "alpha"]);
}

#[test]
fn the_category_order_is_fixed_whichever_way_the_sort_runs() {
    let chats = vec![
        kinded(1, "a bot", ChatKind::Bot),
        kinded(2, "a channel", ChatKind::Channel),
        kinded(3, "a group", ChatKind::Group),
        kinded(4, "a supergroup", ChatKind::Supergroup),
        kinded(5, "a person", ChatKind::Private),
    ];
    for sort in SortMode::ALL {
        let view = ListView { sort, ..ListView::default() };
        assert_eq!(headings(&rows(&chats, &view)), Category::ALL, "{}", sort.label());
    }
}

#[test]
fn groups_and_supergroups_land_in_different_buckets() {
    let chats = vec![kinded(1, "basic", ChatKind::Group), kinded(2, "super", ChatKind::Supergroup)];
    let painted = rows(&chats, &ListView::default());
    assert_eq!(headings(&painted), [Category::Groups, Category::Supergroups]);
    assert_ne!(Category::of(ChatKind::Group), Category::of(ChatKind::Supergroup));
    assert_ne!(Category::of(ChatKind::Bot), Category::of(ChatKind::Private));
}

#[test]
fn a_search_reopens_a_folded_category_that_matched() {
    let chats = vec![kinded(1, "news desk", ChatKind::Channel)];
    let mut view = ListView { folded: Folds::from_categories(&[Category::Channels]), ..ListView::default() };
    let closed = rows(&chats, &view);
    assert_eq!(closed, vec![Row::Heading { category: Category::Channels, total: 1, folded: true }]);

    view.filter = "news".into();
    reopen_matched(&chats, &mut view);
    let searched = rows(&chats, &view);
    assert!(
        matches!(searched[0], Row::Heading { folded: false, .. }),
        "the fold must open, and say so, or the caller repaints it closed"
    );
    assert_eq!(titles(&searched), ["news desk"]);
    assert!(view.folded.is_empty(), "the re-open must change the fold, not paint over it");
}

#[test]
fn a_category_can_still_be_folded_while_a_search_is_running() {
    let chats = vec![kinded(1, "news desk", ChatKind::Channel)];
    let mut view = ListView { filter: "news".into(), ..ListView::default() };
    reopen_matched(&chats, &mut view);
    assert!(matches!(rows(&chats, &view)[0], Row::Heading { folded: false, .. }));
    view.folded.insert(Category::Channels);
    let painted = rows(&chats, &view);
    assert!(matches!(painted[0], Row::Heading { folded: true, .. }));
    assert_eq!(titles(&painted), Vec::<&str>::new());
}

#[test]
fn a_search_that_matches_nothing_in_a_category_leaves_its_fold_alone() {
    let chats = vec![kinded(1, "news desk", ChatKind::Channel), kinded(2, "a bot", ChatKind::Bot)];
    let mut view = ListView {
        folded: Folds::from_categories(&[Category::Channels, Category::Bots]),
        filter: "news".into(),
        ..ListView::default()
    };
    reopen_matched(&chats, &mut view);
    assert!(!view.folded.contains(&Category::Channels));
    assert!(view.folded.contains(&Category::Bots), "Bots matched nothing");
}

#[test]
fn clearing_the_filter_reopens_nothing() {
    let chats = vec![kinded(1, "news desk", ChatKind::Channel)];
    let mut view = ListView { folded: Folds::from_categories(&[Category::Channels]), ..ListView::default() };
    reopen_matched(&chats, &mut view);
    assert!(view.folded.contains(&Category::Channels));
    view.filter = "   ".into();
    reopen_matched(&chats, &mut view);
    assert!(view.folded.contains(&Category::Channels), "whitespace is not a search");
}

#[test]
fn an_empty_category_is_not_painted() {
    let chats = vec![kinded(1, "only a channel", ChatKind::Channel)];
    assert_eq!(headings(&rows(&chats, &ListView::default())), [Category::Channels]);
}

#[test]
fn a_filter_matching_nothing_yields_no_chat_rows() {
    let chats = vec![kinded(1, "news", ChatKind::Channel)];
    let view = ListView { filter: "zzz".into(), ..ListView::default() };
    assert!(rows(&chats, &view).is_empty());
    assert!(visible(&chats, &view).is_empty());
}

#[test]
fn a_heading_counts_what_it_paints() {
    let chats = vec![
        kinded(1, "news desk", ChatKind::Channel),
        kinded(2, "news wire", ChatKind::Channel),
        kinded(3, "weather", ChatKind::Channel),
    ];
    let mut view = ListView::default();
    assert!(matches!(rows(&chats, &view)[0], Row::Heading { total: 3, .. }));
    view.filter = "news".into();
    assert!(
        matches!(rows(&chats, &view)[0], Row::Heading { total: 2, .. }),
        "a heading must not claim more than the rows beneath it"
    );
}

#[test]
fn the_filter_is_case_insensitive_and_reads_the_stored_title() {
    let chats = vec![chat(1, "UA KOLAB TELEGRAM", None)];
    for needle in ["ua kolab", "  KOLAB  ", "Telegram"] {
        let view = ListView { filter: needle.into(), ..ListView::default() };
        assert_eq!(visible(&chats, &view).len(), 1, "{needle:?}");
    }
}

#[test]
fn nothing_here_marks_a_forum_in_the_title() {
    let forum = ChatInfo { is_forum: true, ..chat(1, "UA KOLAB TELEGRAM", None) };
    let chats = vec![forum];
    assert_eq!(visible(&chats, &ListView::default())[0].title, "UA KOLAB TELEGRAM");
    let view = ListView { filter: "topics".into(), ..ListView::default() };
    assert!(visible(&chats, &view).is_empty());
}

#[test]
fn a_folded_category_still_counts_as_visible_for_selection() {
    let chats = vec![kinded(1, "a channel", ChatKind::Channel), kinded(2, "a bot", ChatKind::Bot)];
    let view = ListView { folded: Folds::from_categories(&[Category::Channels]), ..ListView::default() };
    assert_eq!(titles(&rows(&chats, &view)), ["a bot"]);
    assert_eq!(visible(&chats, &view).len(), 2);
}

#[test]
fn flat_mode_sorts_across_every_chat_at_once() {
    let chats = vec![kinded(1, "zeta", ChatKind::Channel), kinded(2, "alpha", ChatKind::Bot)];
    let painted = rows(&chats, &flat(SortMode::Name));
    assert!(headings(&painted).is_empty());
    assert_eq!(titles(&painted), ["alpha", "zeta"]);
}

#[test]
fn the_most_recent_chat_leads_and_the_least_recent_trails() {
    let mut old = chat(1, "old", None);
    old.last_activity = 100;
    let mut new = chat(2, "new", None);
    new.last_activity = 900;
    let chats = vec![old, new];
    assert_eq!(titles(&rows(&chats, &flat(SortMode::Recent))), ["new", "old"]);
    assert_eq!(titles(&rows(&chats, &flat(SortMode::Oldest))), ["old", "new"]);
}

#[test]
fn an_unknown_sort_key_falls_back_rather_than_breaking() {
    assert_eq!(SortMode::from_key("chartreuse"), SortMode::Recent);
    assert_eq!(SortMode::from_key(""), SortMode::Recent);
    assert_eq!(SortMode::from_key("Recent"), SortMode::Recent, "keys are exact");
    for mode in SortMode::ALL {
        assert_eq!(SortMode::from_key(mode.key()), mode);
    }
}

#[test]
fn every_sort_mode_and_category_is_named_once() {
    let keys: HashSet<&str> = SortMode::ALL.iter().map(|m| m.key()).collect();
    let labels: HashSet<&str> = SortMode::ALL.iter().map(|m| m.label()).collect();
    assert_eq!(keys.len(), SortMode::ALL.len());
    assert_eq!(labels.len(), SortMode::ALL.len());
    let cat_keys: HashSet<&str> = Category::ALL.iter().map(|c| c.key()).collect();
    assert_eq!(cat_keys.len(), Category::ALL.len());
}

#[test]
fn the_kind_sort_groups_the_same_kinds_together() {
    let chats = vec![
        kinded(1, "b", ChatKind::Channel),
        kinded(2, "a", ChatKind::Bot),
        kinded(3, "c", ChatKind::Channel),
    ];
    assert_eq!(titles(&rows(&chats, &flat(SortMode::Kind))), ["a", "b", "c"]);
}

#[test]
fn categories_carry_their_labels_and_fold_keys() {
    assert_eq!(Category::Private.label(), "Private chats");
    assert_eq!(Category::Private.key(), "personal");
    assert_eq!(SortMode::Kind.key(), "type");
    let mut f = Folds::new();
    assert!(f.is_empty());
    assert!(f.insert(Category::Bots));
    assert!(!f.insert(Category::Bots));
    assert!(f.remove(&Category::Bots));
    assert!(f.is_empty());
}
