//! What the chat list paints: the sort, the five buckets, folding, the
//! filter. Pure logic, so every rule here is checkable without a window.

use vstd::prelude::*;
use crate::strings::{
    chars_of, compare_chars, contains_chars, contains_text, lex_lt, lowercase, string_of_range,
    to_lower, trim, trim_bounds,
};

verus! {

/// What kind of chat a row is.
#[derive(Debug, Clone, Copy, PartialEq, Eq, Structural)]
pub enum ChatKind {
    Channel,
    Group,
    Supergroup,
    Private,
    Bot,
}

pub open spec fn kind_label(k: ChatKind) -> Seq<char> {
    match k {
        ChatKind::Channel => "Channel"@,
        ChatKind::Group => "Group"@,
        ChatKind::Supergroup => "Supergroup"@,
        ChatKind::Private => "Private"@,
        ChatKind::Bot => "Bot"@,
    }
}

impl ChatKind {
    /// The word the list shows for this kind, which is also what the kind
    /// sort orders on.
    pub fn label(self) -> (l: &'static str)
        ensures
            l@ == kind_label(self),
    {
        match self {
            ChatKind::Channel => "Channel",
            ChatKind::Group => "Group",
            ChatKind::Supergroup => "Supergroup",
            ChatKind::Private => "Private",
            ChatKind::Bot => "Bot",
        }
    }
}

/// What the list knows of one chat.
#[derive(Debug, Clone, PartialEq, Eq)]
pub struct ChatInfo {
    pub id: i64,
    pub title: String,
    pub kind: ChatKind,
    /// Unix second of the last message; zero or less when there is none.
    pub last_activity: i64,
    pub is_forum: bool,
    pub public: bool,
    /// How many messages Telegram says it holds; `None` until counted.
    pub message_count: Option<i64>,
}

/// The seven sort modes, in the order the menu lists them.
#[derive(Debug, Clone, Copy, PartialEq, Eq, Hash, Structural)]
pub enum SortMode {
    Recent,
    Oldest,
    Name,
    NameDesc,
    Largest,
    Smallest,
    Kind,
}

/// The name a sort mode is stored under in `settings.json`.
pub open spec fn sort_key(m: SortMode) -> Seq<char> {
    match m {
        SortMode::Recent => "recent"@,
        SortMode::Oldest => "oldest"@,
        SortMode::Name => "name"@,
        SortMode::NameDesc => "name_desc"@,
        SortMode::Largest => "largest"@,
        SortMode::Smallest => "smallest"@,
        SortMode::Kind => "type"@,
    }
}

pub open spec fn sort_label(m: SortMode) -> Seq<char> {
    match m {
        SortMode::Recent => "Recent activity"@,
        SortMode::Oldest => "Least recent"@,
        SortMode::Name => "Name (A-Z)"@,
        SortMode::NameDesc => "Name (Z-A)"@,
        SortMode::Largest => "Most messages"@,
        SortMode::Smallest => "Fewest messages"@,
        SortMode::Kind => "Type"@,
    }
}

/// Does this mode run largest-first? Only the primary key is reversed.
pub open spec fn runs_descending(m: SortMode) -> bool {
    m == SortMode::Recent || m == SortMode::NameDesc || m == SortMode::Largest
}

/// Every sort mode, in menu order.
pub const SORT_MODES: [SortMode; 7] = [
    SortMode::Recent,
    SortMode::Oldest,
    SortMode::Name,
    SortMode::NameDesc,
    SortMode::Largest,
    SortMode::Smallest,
    SortMode::Kind,
];

/// The mode stored under `key`: the first whose key it is, else `Recent`.
pub open spec fn mode_for_key(key: Seq<char>) -> SortMode {
    if exists|i: int| 0 <= i < 7 && sort_key(#[trigger] SORT_MODES@[i]) == key {
        let i = choose|i: int| 0 <= i < 7 && sort_key(#[trigger] SORT_MODES@[i]) == key;
        SORT_MODES@[i]
    } else {
        SortMode::Recent
    }
}

impl SortMode {
    pub const ALL: [SortMode; 7] = SORT_MODES;

    /// The name this mode is stored under in `settings.json`. These strings
    /// are the on-disk format.
    pub fn key(self) -> (k: &'static str)
        ensures
            k@ == sort_key(self),
    {
        match self {
            SortMode::Recent => "recent",
            SortMode::Oldest => "oldest",
            SortMode::Name => "name",
            SortMode::NameDesc => "name_desc",
            SortMode::Largest => "largest",
            SortMode::Smallest => "smallest",
            SortMode::Kind => "type",
        }
    }

    pub fn label(self) -> (l: &'static str)
        ensures
            l@ == sort_label(self),
    {
        match self {
            SortMode::Recent => "Recent activity",
            SortMode::Oldest => "Least recent",
            SortMode::Name => "Name (A-Z)",
            SortMode::NameDesc => "Name (Z-A)",
            SortMode::Largest => "Most messages",
            SortMode::Smallest => "Fewest messages",
            SortMode::Kind => "Type",
        }
    }

    /// An unknown key falls back to `Recent` rather than failing: a typo in
    /// a hand-edited settings file costs the sort preference and nothing else.
    pub fn from_key(key: &str) -> (m: SortMode)
        ensures
            m == mode_for_key(key@),
    {
        let k = chars_of(key);
        let mut i: usize = 0;
        while i < 7
            invariant
                i <= 7,
                k@ == key@,
                forall|j: int| 0 <= j < i ==> sort_key(#[trigger] SORT_MODES@[j]) != key@,
            decreases 7 - i,
        {
            let m = SORT_MODES[i];
            if crate::strings::same_chars(&chars_of(m.key()), &k) {
                proof { law_sort_keys_are_distinct(); }
                return m;
            }
            i += 1;
        }
        SortMode::Recent
    }

    /// Does this mode run largest-first?
    fn descending(self) -> (b: bool)
        ensures
            b == runs_descending(self),
    {
        match self {
            SortMode::Recent | SortMode::NameDesc | SortMode::Largest => true,
            _ => false,
        }
    }
}

/// No two sort modes share a settings key, so a stored key names one mode.
pub proof fn law_sort_keys_are_distinct()
    ensures
        forall|i: int, j: int|
            0 <= i < 7 && 0 <= j < 7 && i != j ==> sort_key(#[trigger] SORT_MODES@[i]) != sort_key(
                #[trigger] SORT_MODES@[j],
            ),
{
    reveal_strlit("recent");
    reveal_strlit("oldest");
    reveal_strlit("name");
    reveal_strlit("name_desc");
    reveal_strlit("largest");
    reveal_strlit("smallest");
    reveal_strlit("type");
    assert("name"@.len() != "name_desc"@.len());
    assert("recent"@[0] != "oldest"@[0] && "recent"@[0] != "name"@[0] && "recent"@[0] != "largest"@[0]
        && "recent"@[0] != "smallest"@[0] && "recent"@[0] != "type"@[0] && "recent"@[0] != "name_desc"@[0]);
    assert("oldest"@[0] != "name"@[0] && "oldest"@[0] != "largest"@[0] && "oldest"@[0] != "smallest"@[0]
        && "oldest"@[0] != "type"@[0] && "oldest"@[0] != "name_desc"@[0]);
    assert("name"@[0] != "largest"@[0] && "name"@[0] != "smallest"@[0] && "name"@[0] != "type"@[0]);
    assert("name_desc"@[0] != "largest"@[0] && "name_desc"@[0] != "smallest"@[0] && "name_desc"@[0] != "type"@[0]);
    assert("largest"@[0] != "smallest"@[0] && "largest"@[0] != "type"@[0]);
    assert("smallest"@[0] != "type"@[0]);
}

/// A stored key reads back as the mode that wrote it.
pub proof fn law_sort_key_round_trips(m: SortMode)
    ensures
        mode_for_key(sort_key(m)) == m,
{
    law_sort_keys_are_distinct();
    let i: int = match m {
        SortMode::Recent => 0,
        SortMode::Oldest => 1,
        SortMode::Name => 2,
        SortMode::NameDesc => 3,
        SortMode::Largest => 4,
        SortMode::Smallest => 5,
        SortMode::Kind => 6,
    };
    assert(SORT_MODES@[i] == m);
}

/// The five buckets, in the fixed order they are painted.
#[derive(Debug, Clone, Copy, PartialEq, Eq, Hash, Structural)]
pub enum Category {
    Channels,
    Groups,
    Supergroups,
    Private,
    Bots,
}

pub open spec fn category_of(k: ChatKind) -> Category {
    match k {
        ChatKind::Channel => Category::Channels,
        ChatKind::Group => Category::Groups,
        ChatKind::Supergroup => Category::Supergroups,
        ChatKind::Private => Category::Private,
        ChatKind::Bot => Category::Bots,
    }
}

/// A category's place in the painting order.
pub open spec fn category_index(c: Category) -> int {
    match c {
        Category::Channels => 0,
        Category::Groups => 1,
        Category::Supergroups => 2,
        Category::Private => 3,
        Category::Bots => 4,
    }
}

pub open spec fn category_label(c: Category) -> Seq<char> {
    match c {
        Category::Channels => "Channels"@,
        Category::Groups => "Groups"@,
        Category::Supergroups => "Supergroups"@,
        Category::Private => "Private chats"@,
        Category::Bots => "Bots"@,
    }
}

/// The name a fold is remembered under, an on-disk format.
pub open spec fn category_key(c: Category) -> Seq<char> {
    match c {
        Category::Channels => "channel"@,
        Category::Groups => "group"@,
        Category::Supergroups => "supergroup"@,
        Category::Private => "personal"@,
        Category::Bots => "bot"@,
    }
}

/// Every category, in painting order.
pub const CATEGORIES: [Category; 5] = [
    Category::Channels,
    Category::Groups,
    Category::Supergroups,
    Category::Private,
    Category::Bots,
];

impl Category {
    pub const ALL: [Category; 5] = CATEGORIES;

    pub fn of(kind: ChatKind) -> (c: Category)
        ensures
            c == category_of(kind),
    {
        match kind {
            ChatKind::Channel => Category::Channels,
            ChatKind::Group => Category::Groups,
            ChatKind::Supergroup => Category::Supergroups,
            ChatKind::Private => Category::Private,
            ChatKind::Bot => Category::Bots,
        }
    }

    pub fn label(self) -> (l: &'static str)
        ensures
            l@ == category_label(self),
    {
        match self {
            Category::Channels => "Channels",
            Category::Groups => "Groups",
            Category::Supergroups => "Supergroups",
            Category::Private => "Private chats",
            Category::Bots => "Bots",
        }
    }

    /// The name a fold is remembered under.
    pub fn key(self) -> (k: &'static str)
        ensures
            k@ == category_key(self),
    {
        match self {
            Category::Channels => "channel",
            Category::Groups => "group",
            Category::Supergroups => "supergroup",
            Category::Private => "personal",
            Category::Bots => "bot",
        }
    }

    /// The category's place in the painting order.
    pub fn index(self) -> (i: usize)
        ensures
            i == category_index(self),
    {
        match self {
            Category::Channels => 0,
            Category::Groups => 1,
            Category::Supergroups => 2,
            Category::Private => 3,
            Category::Bots => 4,
        }
    }
}

/// Which categories are folded shut.
#[derive(Debug, Clone, Copy, PartialEq, Eq)]
pub struct Folds {
    shut: [bool; 5],
}

impl View for Folds {
    type V = Set<Category>;

    closed spec fn view(&self) -> Set<Category> {
        Set::new(|c: Category| self.shut@[category_index(c)])
    }
}

impl Folds {
    /// Nothing folded.
    pub fn new() -> (f: Self)
        ensures
            f@ == Set::<Category>::empty(),
    {
        let f = Folds { shut: [false, false, false, false, false] };
        assert(f@ =~= Set::<Category>::empty());
        f
    }

    pub fn contains(&self, c: &Category) -> (b: bool)
        ensures
            b == self@.contains(*c),
    {
        self.shut[c.index()]
    }

    /// Fold a category; says whether it was open before.
    pub fn insert(&mut self, c: Category) -> (b: bool)
        ensures
            final(self)@ == old(self)@.insert(c),
            b == !old(self)@.contains(c),
    {
        let i = c.index();
        let was = self.shut[i];
        self.shut[i] = true;
        assert(self@ =~= old(self)@.insert(c));
        !was
    }

    /// Open a category; says whether it was folded before.
    pub fn remove(&mut self, c: &Category) -> (b: bool)
        ensures
            final(self)@ == old(self)@.remove(*c),
            b == old(self)@.contains(*c),
    {
        let i = c.index();
        let was = self.shut[i];
        self.shut[i] = false;
        assert(self@ =~= old(self)@.remove(*c));
        was
    }

    pub fn is_empty(&self) -> (b: bool)
        ensures
            b == (self@ == Set::<Category>::empty()),
    {
        let b = !self.shut[0] && !self.shut[1] && !self.shut[2] && !self.shut[3] && !self.shut[4];
        if !b {
            let k: usize = if self.shut[0] { 0 } else if self.shut[1] { 1 } else if self.shut[2] { 2 } else if self.shut[3] { 3 } else { 4 };
            assert(self@.contains(CATEGORIES@[k as int]));
        } else {
            assert(self@ =~= Set::<Category>::empty());
        }
        b
    }

    /// The categories given, folded.
    pub fn from_categories(cats: &[Category]) -> (f: Self)
        ensures
            f@ == cats@.to_set(),
    {
        let mut f = Folds::new();
        let mut i: usize = 0;
        while i < cats.len()
            invariant
                i <= cats@.len(),
                f@ == cats@.take(i as int).to_set(),
            decreases cats.len() - i,
        {
            f.insert(cats[i]);
            proof {
                assert(cats@.take(i + 1) == cats@.take(i as int).push(cats@[i as int]));
                cats@.take(i as int).lemma_push_to_set_commute(cats@[i as int]);
            }
            i += 1;
        }
        assert(cats@.take(cats@.len() as int) == cats@);
        f
    }
}

/// Everything the list needs to decide what to paint.
#[derive(Debug, Clone)]
pub struct ListView {
    pub sort: SortMode,
    /// Off means one flat list with the sort applied across every chat.
    pub grouped: bool,
    pub filter: String,
    pub folded: Folds,
}

impl Default for ListView {
    fn default() -> (v: Self)
        ensures
            v.sort == SortMode::Recent,
            v.grouped,
            v.filter@ == Seq::<char>::empty(),
            v.folded@ == Set::<Category>::empty(),
    {
        ListView { sort: SortMode::Recent, grouped: true, filter: String::new(), folded: Folds::new() }
    }
}

/// What a chat is ordered by: its last activity, its title and kind label
/// case folded, and its message count.
pub struct SortKey {
    pub activity: i64,
    pub folded: Seq<char>,
    pub count: Option<i64>,
    pub kind: Seq<char>,
}

/// The form of a title that sorting and filtering compare: lower case, so
/// capitalisation never decides a place in the list.
pub open spec fn folded(title: Seq<char>) -> Seq<char> {
    lowercase(title)
}

pub open spec fn key_of(c: ChatInfo) -> SortKey {
    SortKey {
        activity: c.last_activity,
        folded: folded(c.title@),
        count: c.message_count,
        kind: folded(kind_label(c.kind)),
    }
}

/// Three-way comparison of numbers: `-1`, `0` or `1`.
pub open spec fn three_way(a: int, b: int) -> int {
    if a < b { -1 } else if a == b { 0 } else { 1 }
}

/// Three-way comparison of text, character by character.
pub open spec fn three_way_text(a: Seq<char>, b: Seq<char>) -> int {
    if lex_lt(a, b) { -1 } else if a == b { 0 } else { 1 }
}

/// A descending mode's direction applied to one comparison.
pub open spec fn direct(o: int, descending: bool) -> int {
    if descending { -o } else { o }
}

/// The comparison a sort mode makes on its own key: reversed for a
/// descending mode, except that a missing count sorts after every count in
/// both directions.
pub open spec fn primary(a: SortKey, b: SortKey, m: SortMode) -> int {
    let d = runs_descending(m);
    match m {
        SortMode::Recent | SortMode::Oldest => direct(three_way(a.activity as int, b.activity as int), d),
        SortMode::Name | SortMode::NameDesc => direct(three_way_text(a.folded, b.folded), d),
        SortMode::Largest | SortMode::Smallest => match (a.count, b.count) {
            (Some(x), Some(y)) => direct(three_way(x as int, y as int), d),
            (None, Some(_)) => 1,
            (Some(_), None) => -1,
            (None, None) => 0,
        },
        SortMode::Kind => direct(three_way_text(a.kind, b.kind), d),
    }
}

/// Two chats under one sort mode: the mode's own comparison, ties broken
/// by the folded title, never reversed.
pub open spec fn order(a: SortKey, b: SortKey, m: SortMode) -> int {
    let p = primary(a, b, m);
    if p != 0 { p } else { three_way_text(a.folded, b.folded) }
}

/// Does a chat survive the filter? An empty needle keeps everything; else
/// the folded title must contain it.
pub open spec fn passes(c: ChatInfo, needle: Seq<char>) -> bool {
    needle.len() == 0 || contains_text(folded(c.title@), needle)
}

pub open spec fn in_bucket(c: ChatInfo, cat: Option<Category>) -> bool {
    match cat {
        None => true,
        Some(k) => category_of(c.kind) == k,
    }
}

/// The positions of the chats that pass the filter and belong to `cat`, in
/// list order.
pub open spec fn kept(chats: Seq<ChatInfo>, needle: Seq<char>, cat: Option<Category>) -> Seq<usize>
    decreases chats.len(),
{
    if chats.len() == 0 {
        Seq::empty()
    } else {
        let r = kept(chats.drop_last(), needle, cat);
        if passes(chats.last(), needle) && in_bucket(chats.last(), cat) {
            r.push((chats.len() - 1) as usize)
        } else {
            r
        }
    }
}

/// Where a stable insertion puts `x`: before the first entry that sorts
/// after it.
pub open spec fn insert_pos(s: Seq<usize>, x: usize, keys: Seq<SortKey>, m: SortMode) -> nat
    decreases s.len(),
{
    if s.len() == 0 {
        0
    } else if order(keys[s[0] as int], keys[x as int], m) > 0 {
        0
    } else {
        1 + insert_pos(s.drop_first(), x, keys, m)
    }
}

/// Positions stably sorted by `order`: each one placed after every earlier
/// one that does not sort after it.
pub open spec fn sorted_by(s: Seq<usize>, keys: Seq<SortKey>, m: SortMode) -> Seq<usize>
    decreases s.len(),
{
    if s.len() == 0 {
        s
    } else {
        let t = sorted_by(s.drop_last(), keys, m);
        t.insert(insert_pos(t, s.last(), keys, m) as int, s.last())
    }
}

/// The grouped buckets of the first `k` categories: each non-empty one with
/// its members sorted; an empty category is left out.
pub open spec fn grouped_upto(chats: Seq<ChatInfo>, needle: Seq<char>, m: SortMode, k: nat) -> Seq<(Option<Category>, Seq<usize>)>
    decreases k,
{
    if k == 0 {
        Seq::empty()
    } else {
        let before = grouped_upto(chats, needle, m, (k - 1) as nat);
        let c = CATEGORIES@[k - 1];
        let members = sorted_by(kept(chats, needle, Some(c)), chats.map_values(|x: ChatInfo| key_of(x)), m);
        if members.len() > 0 { before.push((Some(c), members)) } else { before }
    }
}

/// The text the filter searches for: trimmed and case folded.
pub open spec fn needle_of(filter: Seq<char>) -> Seq<char> {
    lowercase(trim(filter))
}

/// The chats the filter leaves, bucketed and sorted the way they paint: one
/// bucket per non-empty category in the fixed order when grouped, else one
/// bucket with every chat, or none when nothing is left.
pub open spec fn buckets_of(chats: Seq<ChatInfo>, filter: Seq<char>, sort: SortMode, grouped: bool) -> Seq<(Option<Category>, Seq<usize>)> {
    let needle = needle_of(filter);
    if grouped {
        grouped_upto(chats, needle, sort, 5)
    } else {
        let all = sorted_by(kept(chats, needle, None), chats.map_values(|x: ChatInfo| key_of(x)), sort);
        if all.len() == 0 { Seq::empty() } else { seq![(None, all)] }
    }
}

/// Every bucket's members, one after another.
pub open spec fn members_of(bs: Seq<(Option<Category>, Seq<usize>)>) -> Seq<usize>
    decreases bs.len(),
{
    if bs.len() == 0 {
        Seq::empty()
    } else {
        members_of(bs.drop_last()) + bs.last().1
    }
}

/// One painted row, by position in the chat list.
pub ghost enum RowPlan {
    Heading { category: Category, total: nat, folded: bool },
    Chat(usize),
}

pub open spec fn chat_rows(members: Seq<usize>) -> Seq<RowPlan> {
    members.map_values(|i: usize| RowPlan::Chat(i))
}

/// The rows to paint: a flat bucket is its chats; a category is its heading,
/// counting what the filter left, then its chats unless it is folded.
pub open spec fn rows_plan(bs: Seq<(Option<Category>, Seq<usize>)>, folds: Set<Category>) -> Seq<RowPlan>
    decreases bs.len(),
{
    if bs.len() == 0 {
        Seq::empty()
    } else {
        let (cat, members) = bs.last();
        rows_plan(bs.drop_last(), folds) + match cat {
            None => chat_rows(members),
            Some(c) => seq![RowPlan::Heading { category: c, total: members.len(), folded: folds.contains(c) }]
                + if folds.contains(c) { Seq::empty() } else { chat_rows(members) },
        }
    }
}

/// A chat's sort key, computed once per list.
struct Key {
    activity: i64,
    folded: Vec<char>,
    count: Option<i64>,
    kind: Vec<char>,
}

spec fn key_view(k: Key) -> SortKey {
    SortKey { activity: k.activity, folded: k.folded@, count: k.count, kind: k.kind@ }
}

/// The form of a title that sorting and filtering compare.
fn folded_title(title: &str) -> (v: Vec<char>)
    ensures
        v@ == folded(title@),
{
    let lower = to_lower(title);
    chars_of(lower.as_str())
}

fn key_for(c: &ChatInfo) -> (k: Key)
    ensures
        key_view(k) == key_of(*c),
{
    Key {
        activity: c.last_activity,
        folded: folded_title(c.title.as_str()),
        count: c.message_count,
        kind: folded_title(c.kind.label()),
    }
}

/// Apply a descending mode's direction to a primary comparison, and to
/// nothing else.
fn directed(o: i8, descending: bool) -> (r: i8)
    requires
        -1 <= o <= 1,
    ensures
        r == direct(o as int, descending),
{
    if descending { -o } else { o }
}

fn three_way_i64(a: i64, b: i64) -> (r: i8)
    ensures
        r == three_way(a as int, b as int),
{
    if a < b { -1 } else if a == b { 0 } else { 1 }
}

/// Order two chats' keys under one sort mode, on real values rather than on
/// the text that happens to be painted.
fn compare(a: &Key, b: &Key, sort: SortMode) -> (r: i8)
    ensures
        r == order(key_view(*a), key_view(*b), sort),
{
    let descending = sort.descending();
    let primary: i8 = match sort {
        SortMode::Recent | SortMode::Oldest => directed(three_way_i64(a.activity, b.activity), descending),
        SortMode::Name | SortMode::NameDesc => directed(compare_chars(&a.folded, &b.folded), descending),
        SortMode::Largest | SortMode::Smallest => match (a.count, b.count) {
            (Some(x), Some(y)) => directed(three_way_i64(x, y), descending),
            (None, Some(_)) => 1,
            (Some(_), None) => -1,
            (None, None) => 0,
        },
        SortMode::Kind => directed(compare_chars(&a.kind, &b.kind), descending),
    };
    if primary != 0 {
        return primary;
    }
    compare_chars(&a.folded, &b.folded)
}

/// Does this chat survive the filter? Case-insensitive, on the stored title.
fn passes_filter(folded_title: &Vec<char>, needle: &Vec<char>) -> (b: bool)
    ensures
        b == (needle@.len() == 0 || contains_text(folded_title@, needle@)),
{
    needle.len() == 0 || contains_chars(folded_title, needle)
}

/// The filter's needle: trimmed and case folded.
fn needle_for(filter: &str) -> (v: Vec<char>)
    ensures
        v@ == needle_of(filter@),
{
    let cs = chars_of(filter);
    let (lo, hi) = trim_bounds(&cs);
    let t = string_of_range(&cs, lo, hi);
    folded_title(t.as_str())
}

/// Every chat's sort key, in list order.
fn keys_for(chats: &[ChatInfo]) -> (ks: Vec<Key>)
    ensures
        ks@.len() == chats@.len(),
        forall|i: int| 0 <= i < chats@.len() ==> #[trigger] key_view(ks@[i]) == key_of(chats@[i]),
{
    let mut ks: Vec<Key> = Vec::new();
    let mut i: usize = 0;
    while i < chats.len()
        invariant
            i <= chats@.len(),
            ks@.len() == i,
            forall|j: int| 0 <= j < i ==> #[trigger] key_view(ks@[j]) == key_of(chats@[j]),
        decreases chats.len() - i,
    {
        ks.push(key_for(&chats[i]));
        i += 1;
    }
    ks
}

/// The positions of the chats that pass the filter and belong to `cat`.
fn kept_positions(chats: &[ChatInfo], keys: &Vec<Key>, needle: &Vec<char>, cat: Option<Category>) -> (r: Vec<usize>)
    requires
        keys@.len() == chats@.len(),
        forall|i: int| 0 <= i < chats@.len() ==> #[trigger] key_view(keys@[i]) == key_of(chats@[i]),
    ensures
        r@ == kept(chats@, needle@, cat),
        forall|k: int| 0 <= k < r@.len() ==> #[trigger] r@[k] < chats@.len(),
{
    let mut r: Vec<usize> = Vec::new();
    let mut i: usize = 0;
    while i < chats.len()
        invariant
            i <= chats@.len(),
            keys@.len() == chats@.len(),
            forall|j: int| 0 <= j < chats@.len() ==> #[trigger] key_view(keys@[j]) == key_of(chats@[j]),
            r@ == kept(chats@.take(i as int), needle@, cat),
            forall|k: int| 0 <= k < r@.len() ==> #[trigger] r@[k] < i,
        decreases chats.len() - i,
    {
        proof {
            let t = chats@.take(i + 1);
            assert(t.drop_last() == chats@.take(i as int));
            assert(t.last() == chats@[i as int]);
            assert(key_view(keys@[i as int]) == key_of(chats@[i as int]));
        }
        let belongs = match cat {
            None => true,
            Some(k) => Category::of(chats[i].kind) == k,
        };
        if passes_filter(&keys[i].folded, needle) && belongs {
            r.push(i);
        }
        i += 1;
    }
    assert(chats@.take(chats@.len() as int) == chats@);
    r
}

/// Stably sort positions by `compare`: each inserted before the first
/// entry that sorts after it.
fn sort_positions(idx: &Vec<usize>, keys: &Vec<Key>, sort: SortMode) -> (r: Vec<usize>)
    requires
        forall|k: int| 0 <= k < idx@.len() ==> #[trigger] idx@[k] < keys@.len(),
    ensures
        r@ == sorted_by(idx@, keys@.map_values(|k: Key| key_view(k)), sort),
        forall|k: int| 0 <= k < r@.len() ==> #[trigger] r@[k] < keys@.len(),
{
    let ghost ks = keys@.map_values(|k: Key| key_view(k));
    let mut out: Vec<usize> = Vec::new();
    let mut i: usize = 0;
    while i < idx.len()
        invariant
            i <= idx@.len(),
            ks == keys@.map_values(|k: Key| key_view(k)),
            forall|k: int| 0 <= k < idx@.len() ==> #[trigger] idx@[k] < keys@.len(),
            out@ == sorted_by(idx@.take(i as int), ks, sort),
            forall|k: int| 0 <= k < out@.len() ==> #[trigger] out@[k] < keys@.len(),
        decreases idx.len() - i,
    {
        let x = idx[i];
        let mut j: usize = 0;
        assert(out@.skip(0) == out@);
        while j < out.len() && compare(&keys[out[j]], &keys[x], sort) <= 0
            invariant
                j <= out@.len(),
                x < keys@.len(),
                ks == keys@.map_values(|k: Key| key_view(k)),
                forall|k: int| 0 <= k < out@.len() ==> #[trigger] out@[k] < keys@.len(),
                insert_pos(out@, x, ks, sort) == j + insert_pos(out@.skip(j as int), x, ks, sort),
            decreases out.len() - j,
        {
            proof {
                assert(out@.skip(j as int).drop_first() == out@.skip(j + 1));
                assert(out@.skip(j as int)[0] == out@[j as int]);
            }
            j += 1;
        }
        proof {
            if j < out@.len() {
                assert(out@.skip(j as int)[0] == out@[j as int]);
            }
            let t = idx@.take(i + 1);
            assert(t.drop_last() == idx@.take(i as int));
            assert(t.last() == x);
        }
        out.insert(j, x);
        i += 1;
    }
    assert(idx@.take(idx@.len() as int) == idx@);
    out
}

/// A bucket as computed: its category and the positions of its chats.
pub open spec fn bucket_views(r: Seq<(Option<Category>, Vec<usize>)>) -> Seq<(Option<Category>, Seq<usize>)> {
    r.map_values(|b: (Option<Category>, Vec<usize>)| (b.0, b.1@))
}

/// The chats the filter leaves, bucketed and sorted the way they will paint.
/// A category with nothing in it is not returned at all.
fn buckets(chats: &[ChatInfo], view: &ListView) -> (r: Vec<(Option<Category>, Vec<usize>)>)
    ensures
        bucket_views(r@) == buckets_of(chats@, view.filter@, view.sort, view.grouped),
        forall|b: int, k: int| 0 <= b < r@.len() && 0 <= k < r@[b].1@.len() ==> #[trigger] r@[b].1@[k] < chats@.len(),
{
    let needle = needle_for(view.filter.as_str());
    let keys = keys_for(chats);
    let ghost ks = keys@.map_values(|k: Key| key_view(k));
    assert(ks =~= chats@.map_values(|x: ChatInfo| key_of(x)));
    let mut out: Vec<(Option<Category>, Vec<usize>)> = Vec::new();
    if view.grouped {
        let mut c: usize = 0;
        while c < 5
            invariant
                c <= 5,
                keys@.len() == chats@.len(),
                forall|j: int| 0 <= j < chats@.len() ==> #[trigger] key_view(keys@[j]) == key_of(chats@[j]),
                ks == keys@.map_values(|k: Key| key_view(k)),
                ks == chats@.map_values(|x: ChatInfo| key_of(x)),
                bucket_views(out@) == grouped_upto(chats@, needle@, view.sort, c as nat),
                forall|b: int, k: int| 0 <= b < out@.len() && 0 <= k < out@[b].1@.len() ==> #[trigger] out@[b].1@[k] < chats@.len(),
            decreases 5 - c,
        {
            let cat = CATEGORIES[c];
            let idx = kept_positions(chats, &keys, &needle, Some(cat));
            let members = sort_positions(&idx, &keys, view.sort);
            let ghost before = out@;
            if members.len() > 0 {
                out.push((Some(cat), members));
                assert(bucket_views(out@) =~= bucket_views(before).push((Some(cat), members@)));
            }
            c += 1;
        }
        assert(needle_of(view.filter@) == needle@);
    } else {
        let idx = kept_positions(chats, &keys, &needle, None);
        let all = sort_positions(&idx, &keys, view.sort);
        if all.len() > 0 {
            out.push((None, all));
            assert(bucket_views(out@) =~= seq![(None::<Category>, all@)]);
        } else {
            assert(bucket_views(out@) =~= Seq::<(Option<Category>, Seq<usize>)>::empty());
        }
    }
    out
}

/// One painted row: a category heading or a chat.
#[derive(Debug, Clone, PartialEq)]
pub enum Row<'a> {
    Heading {
        category: Category,
        /// How many chats this heading owns now, after the filter.
        total: usize,
        /// Whether this category is folded shut.
        folded: bool,
    },
    Chat(&'a ChatInfo),
}

/// A painted row is the planned one: the same heading, or the chat at the
/// planned position.
pub open spec fn row_is(r: Row, p: RowPlan, chats: Seq<ChatInfo>) -> bool {
    match (r, p) {
        (Row::Heading { category, total, folded }, RowPlan::Heading { category: c, total: t, folded: f }) =>
            category == c && total == t && folded == f,
        (Row::Chat(c), RowPlan::Chat(i)) => i < chats.len() && *c == chats[i as int],
        _ => false,
    }
}

/// The rows to paint, in order.
pub fn rows<'a>(chats: &'a [ChatInfo], view: &ListView) -> (r: Vec<Row<'a>>)
    ensures
        r@.len() == rows_plan(buckets_of(chats@, view.filter@, view.sort, view.grouped), view.folded@).len(),
        forall|k: int| 0 <= k < r@.len() ==> #[trigger] row_is(r@[k],
            rows_plan(buckets_of(chats@, view.filter@, view.sort, view.grouped), view.folded@)[k], chats@),
{
    let bs = buckets(chats, view);
    let ghost plan_bs = bucket_views(bs@);
    let mut out: Vec<Row<'a>> = Vec::new();
    let mut b: usize = 0;
    while b < bs.len()
        invariant
            b <= bs@.len(),
            plan_bs == bucket_views(bs@),
            forall|x: int, k: int| 0 <= x < bs@.len() && 0 <= k < bs@[x].1@.len() ==> #[trigger] bs@[x].1@[k] < chats@.len(),
            out@.len() == rows_plan(plan_bs.take(b as int), view.folded@).len(),
            forall|k: int| 0 <= k < out@.len() ==> #[trigger] row_is(out@[k], rows_plan(plan_bs.take(b as int), view.folded@)[k], chats@),
        decreases bs.len() - b,
    {
        let ghost before = out@;
        let ghost prev = rows_plan(plan_bs.take(b as int), view.folded@);
        let (cat, members) = (&bs[b].0, &bs[b].1);
        let show = match cat {
            None => true,
            Some(c) => {
                let folded = view.folded.contains(c);
                out.push(Row::Heading { category: *c, total: members.len(), folded });
                !folded
            },
        };
        let ghost head = out@;
        assert(head.len() == before.len() + if cat is Some { 1int } else { 0int });
        if show {
            let mut k: usize = 0;
            while k < members.len()
                invariant
                    k <= members@.len(),
                    out@.len() == head.len() + k,
                    forall|x: int| 0 <= x < head.len() ==> #[trigger] out@[x] == head[x],
                    forall|x: int| 0 <= x < members@.len() ==> #[trigger] members@[x] < chats@.len(),
                    forall|x: int| 0 <= x < k ==> #[trigger] out@[head.len() + x] == Row::Chat(&chats@[members@[x] as int]),
                decreases members.len() - k,
            {
                out.push(Row::Chat(&chats[members[k]]));
                k += 1;
            }
        }
        assert(!show ==> out@ == head);
        assert(show ==> out@.len() == head.len() + members@.len());
        proof {
            let t = plan_bs.take(b + 1);
            assert(t.drop_last() == plan_bs.take(b as int));
            assert(t.last() == (bs@[b as int].0, bs@[b as int].1@));
            let now = rows_plan(t, view.folded@);
            assert forall|k: int| 0 <= k < out@.len() implies #[trigger] row_is(out@[k], now[k], chats@) by {
                if k < before.len() {
                    assert(out@[k] == before[k]);
                    assert(now[k] == prev[k]);
                } else if cat is Some && k == before.len() {
                } else {
                    assert(show);
                    assert(head.len() == before.len() + if cat is Some { 1int } else { 0int });
                    let x = k - head.len();
                    assert(0 <= x < members@.len());
                    assert(out@[head.len() + x] == Row::Chat(&chats@[members@[x] as int]));
                }
            }
        }
        b += 1;
    }
    assert(plan_bs.take(bs@.len() as int) == plan_bs);
    out
}

/// The chats a filter leaves visible, in painting order: what All, None,
/// Invert and Only forums act on. A folded category's chats still count.
pub fn visible<'a>(chats: &'a [ChatInfo], view: &ListView) -> (r: Vec<&'a ChatInfo>)
    ensures
        r@.len() == members_of(buckets_of(chats@, view.filter@, view.sort, view.grouped)).len(),
        forall|k: int| 0 <= k < r@.len() ==> {
            let i = #[trigger] members_of(buckets_of(chats@, view.filter@, view.sort, view.grouped))[k];
            i < chats@.len() && *r@[k] == chats@[i as int]
        },
{
    let bs = buckets(chats, view);
    let ghost plan_bs = bucket_views(bs@);
    let mut out: Vec<&'a ChatInfo> = Vec::new();
    let mut b: usize = 0;
    while b < bs.len()
        invariant
            b <= bs@.len(),
            plan_bs == bucket_views(bs@),
            forall|x: int, k: int| 0 <= x < bs@.len() && 0 <= k < bs@[x].1@.len() ==> #[trigger] bs@[x].1@[k] < chats@.len(),
            out@.len() == members_of(plan_bs.take(b as int)).len(),
            forall|k: int| 0 <= k < out@.len() ==> {
                let i = #[trigger] members_of(plan_bs.take(b as int))[k];
                i < chats@.len() && *out@[k] == chats@[i as int]
            },
        decreases bs.len() - b,
    {
        let ghost before = out@;
        let ghost prev = members_of(plan_bs.take(b as int));
        let members = &bs[b].1;
        let mut k: usize = 0;
        while k < members.len()
            invariant
                k <= members@.len(),
                out@.len() == before.len() + k,
                forall|x: int| 0 <= x < before.len() ==> #[trigger] out@[x] == before[x],
                forall|x: int| 0 <= x < members@.len() ==> #[trigger] members@[x] < chats@.len(),
                forall|x: int| 0 <= x < k ==> *#[trigger] out@[before.len() + x] == chats@[members@[x] as int],
            decreases members.len() - k,
        {
            out.push(&chats[members[k]]);
            k += 1;
        }
        proof {
            let t = plan_bs.take(b + 1);
            assert(t.drop_last() == plan_bs.take(b as int));
            assert(t.last() == (bs@[b as int].0, bs@[b as int].1@));
            let now = members_of(t);
            assert(now == prev + members@);
            assert forall|k: int| 0 <= k < out@.len() implies {
                let i = #[trigger] now[k];
                i < chats@.len() && *out@[k] == chats@[i as int]
            } by {
                if k < before.len() {
                    assert(out@[k] == before[k]);
                    assert(now[k] == prev[k]);
                } else {
                    let x = k - before.len();
                    assert(now[k] == members@[x]);
                    assert(*out@[before.len() + x] == chats@[members@[x] as int]);
                }
            }
        }
        b += 1;
    }
    assert(plan_bs.take(bs@.len() as int) == plan_bs);
    out
}

/// The categories a search found something in.
pub open spec fn matched_categories(chats: Seq<ChatInfo>, needle: Seq<char>) -> Set<Category> {
    Set::new(|c: Category| exists|i: int| 0 <= i < chats.len() && passes(#[trigger] chats[i], needle) && category_of(chats[i].kind) == c)
}

/// Re-open every folded category a search has found something in, by
/// changing the fold once, when the filter changes. An empty or blank
/// filter is no search and opens nothing.
pub fn reopen_matched(chats: &[ChatInfo], view: &mut ListView)
    ensures
        final(view).sort == old(view).sort,
        final(view).grouped == old(view).grouped,
        final(view).filter == old(view).filter,
        final(view).folded@ == if trim(old(view).filter@).len() == 0 {
            old(view).folded@
        } else {
            old(view).folded@.difference(matched_categories(chats@, needle_of(old(view).filter@)))
        },
{
    let cs = chars_of(view.filter.as_str());
    let (lo, hi) = trim_bounds(&cs);
    if lo == hi || view.folded.is_empty() {
        proof {
            if lo != hi {
                assert(old(view).folded@.difference(matched_categories(chats@, needle_of(old(view).filter@))) =~= old(view).folded@);
            }
        }
        return;
    }
    let needle = needle_for(view.filter.as_str());
    let ghost start = view.folded@;
    let ghost found = matched_categories(chats@, needle@);
    let mut i: usize = 0;
    while i < chats.len()
        invariant
            i <= chats@.len(),
            view.sort == old(view).sort,
            view.grouped == old(view).grouped,
            view.filter == old(view).filter,
            start == old(view).folded@,
            needle@ == needle_of(old(view).filter@),
            found == matched_categories(chats@, needle@),
            view.folded@ == start.difference(Set::new(|c: Category| exists|j: int| 0 <= j < i && passes(#[trigger] chats@[j], needle@) && category_of(chats@[j].kind) == c)),
        decreases chats.len() - i,
    {
        let ghost before = view.folded@;
        let title = folded_title(chats[i].title.as_str());
        if passes_filter(&title, &needle) {
            view.folded.remove(&Category::of(chats[i].kind));
        }
        proof {
            let upto = Set::new(|c: Category| exists|j: int| 0 <= j < i + 1 && passes(#[trigger] chats@[j], needle@) && category_of(chats@[j].kind) == c);
            assert(view.folded@ =~= start.difference(upto)) by {
                assert forall|c: Category| view.folded@.contains(c) <==> start.difference(upto).contains(c) by {
                    if upto.contains(c) {
                        let j = choose|j: int| 0 <= j < i + 1 && passes(#[trigger] chats@[j], needle@) && category_of(chats@[j].kind) == c;
                        if j < i {
                            assert(!before.contains(c));
                        }
                    }
                }
            }
        }
        i += 1;
    }
    assert(view.folded@ =~= start.difference(found));
}

proof fn lemma_text_order(a: Seq<char>, b: Seq<char>, c: Seq<char>)
    ensures
        three_way_text(a, b) == -three_way_text(b, a),
        -1 <= three_way_text(a, b) <= 1,
        three_way_text(a, b) == 0 <==> a == b,
        three_way_text(a, b) <= 0 && three_way_text(b, c) <= 0 ==> three_way_text(a, c) <= 0,
        three_way_text(a, b) < 0 && three_way_text(b, c) <= 0 ==> three_way_text(a, c) < 0,
        three_way_text(a, b) <= 0 && three_way_text(b, c) < 0 ==> three_way_text(a, c) < 0,
{
    crate::strings::lemma_lex_irreflexive(a);
    crate::strings::lemma_lex_asymmetric(a, b);
    crate::strings::lemma_lex_total(a, b);
    crate::strings::lemma_lex_total(b, c);
    crate::strings::lemma_lex_total(a, c);
    if lex_lt(a, b) && lex_lt(b, c) {
        crate::strings::lemma_lex_transitive(a, b, c);
    }
    crate::strings::lemma_lex_asymmetric(a, c);
}

proof fn lemma_primary(a: SortKey, b: SortKey, c: SortKey, m: SortMode)
    ensures
        primary(a, b, m) == -primary(b, a, m),
        -1 <= primary(a, b, m) <= 1,
        primary(a, b, m) <= 0 && primary(b, c, m) <= 0 ==> primary(a, c, m) <= 0,
        primary(a, b, m) < 0 && primary(b, c, m) <= 0 ==> primary(a, c, m) < 0,
        primary(a, b, m) <= 0 && primary(b, c, m) < 0 ==> primary(a, c, m) < 0,
{
    match m {
        SortMode::Name | SortMode::NameDesc => {
            lemma_text_order(a.folded, b.folded, c.folded);
            lemma_text_order(c.folded, b.folded, a.folded);
            lemma_text_order(a.folded, c.folded, b.folded);
            lemma_text_order(b.folded, c.folded, a.folded);
        },
        SortMode::Kind => {
            lemma_text_order(a.kind, b.kind, c.kind);
            lemma_text_order(c.kind, b.kind, a.kind);
            lemma_text_order(a.kind, c.kind, b.kind);
            lemma_text_order(b.kind, c.kind, a.kind);
        },
        SortMode::Largest | SortMode::Smallest => {
            match (a.count, b.count, c.count) {
                (Some(x), Some(y), Some(z)) => {},
                _ => {},
            }
        },
        _ => {},
    }
}

/// The order a sort mode puts chats in is a total preorder: flipping the
/// pair flips the answer, and it is transitive.
pub proof fn law_order_is_a_total_preorder(a: SortKey, b: SortKey, c: SortKey, m: SortMode)
    ensures
        order(a, b, m) == -order(b, a, m),
        -1 <= order(a, b, m) <= 1,
        order(a, b, m) <= 0 && order(b, c, m) <= 0 ==> order(a, c, m) <= 0,
{
    lemma_primary(a, b, c, m);
    lemma_primary(c, b, a, m);
    lemma_primary(a, c, b, m);
    lemma_text_order(a.folded, b.folded, c.folded);
    lemma_text_order(c.folded, b.folded, a.folded);
}

/// Every pair of positions is in order.
pub open spec fn in_order(s: Seq<usize>, keys: Seq<SortKey>, m: SortMode) -> bool {
    forall|i: int, j: int| 0 <= i < j < s.len() ==> order(#[trigger] keys[s[i] as int], #[trigger] keys[s[j] as int], m) <= 0
}

proof fn lemma_insert_pos(s: Seq<usize>, x: usize, keys: Seq<SortKey>, m: SortMode)
    ensures
        insert_pos(s, x, keys, m) <= s.len(),
        forall|k: int| 0 <= k < insert_pos(s, x, keys, m) ==> order(#[trigger] keys[s[k] as int], keys[x as int], m) <= 0,
        insert_pos(s, x, keys, m) < s.len() ==> order(keys[s[insert_pos(s, x, keys, m) as int] as int], keys[x as int], m) > 0,
    decreases s.len(),
{
    if s.len() > 0 && order(keys[s[0] as int], keys[x as int], m) <= 0 {
        let t = s.drop_first();
        lemma_insert_pos(t, x, keys, m);
        assert forall|k: int| 0 <= k < insert_pos(s, x, keys, m) implies order(#[trigger] keys[s[k] as int], keys[x as int], m) <= 0 by {
            if k > 0 {
                assert(s[k] == t[k - 1]);
            }
        }
    }
}

/// The stable sort leaves every pair in order.
pub proof fn law_sorted_positions_are_in_order(s: Seq<usize>, keys: Seq<SortKey>, m: SortMode)
    ensures
        in_order(sorted_by(s, keys, m), keys, m),
    decreases s.len(),
{
    if s.len() > 0 {
        let t = sorted_by(s.drop_last(), keys, m);
        law_sorted_positions_are_in_order(s.drop_last(), keys, m);
        let x = s.last();
        let p = insert_pos(t, x, keys, m) as int;
        lemma_insert_pos(t, x, keys, m);
        let r = t.insert(p, x);
        assert forall|i: int, j: int| 0 <= i < j < r.len() implies order(#[trigger] keys[r[i] as int], #[trigger] keys[r[j] as int], m) <= 0 by {
            if j < p {
                assert(r[i] == t[i] && r[j] == t[j]);
            } else if j == p {
                assert(r[i] == t[i] && r[j] == x);
            } else if i == p {
                assert(r[i] == x && r[j] == t[j - 1]);
                assert(order(keys[t[p] as int], keys[x as int], m) > 0);
                law_order_is_a_total_preorder(keys[x as int], keys[t[p] as int], keys[t[j - 1] as int], m);
                if j - 1 > p {
                    assert(order(keys[t[p] as int], keys[t[j - 1] as int], m) <= 0);
                }
            } else if i < p {
                assert(r[i] == t[i] && r[j] == t[j - 1]);
            } else {
                assert(r[i] == t[i - 1] && r[j] == t[j - 1]);
            }
        }
    }
}

/// The stable sort neither loses nor invents a position.
pub proof fn law_sorted_positions_are_a_permutation(s: Seq<usize>, keys: Seq<SortKey>, m: SortMode)
    ensures
        sorted_by(s, keys, m).to_multiset() == s.to_multiset(),
    decreases s.len(),
{
    broadcast use vstd::seq_lib::to_multiset_insert, vstd::seq_lib::to_multiset_build;
    if s.len() > 0 {
        law_sorted_positions_are_a_permutation(s.drop_last(), keys, m);
        let t = sorted_by(s.drop_last(), keys, m);
        lemma_insert_pos(t, s.last(), keys, m);
        assert(s.drop_last().push(s.last()) == s);
    } else {
        assert(s.to_multiset() =~= sorted_by(s, keys, m).to_multiset());
    }
}

/// A bucket's place in the painting order; `-1` for the flat bucket.
pub open spec fn slot(c: Option<Category>) -> int {
    match c {
        Some(k) => category_index(k),
        None => -1,
    }
}

/// The buckets of a grouped list come in the fixed category order, each
/// category at most once, whichever way the sort runs.
pub proof fn law_categories_keep_their_order(chats: Seq<ChatInfo>, needle: Seq<char>, m: SortMode, k: nat)
    requires
        k <= 5,
    ensures
        forall|i: int, j: int| 0 <= i < j < grouped_upto(chats, needle, m, k).len() ==>
            slot(#[trigger] grouped_upto(chats, needle, m, k)[i].0) < slot(#[trigger] grouped_upto(chats, needle, m, k)[j].0),
        forall|i: int| 0 <= i < grouped_upto(chats, needle, m, k).len() ==>
            0 <= slot(#[trigger] grouped_upto(chats, needle, m, k)[i].0) < k
            && grouped_upto(chats, needle, m, k)[i].1.len() > 0,
    decreases k,
{
    if k > 0 {
        law_categories_keep_their_order(chats, needle, m, (k - 1) as nat);
        let before = grouped_upto(chats, needle, m, (k - 1) as nat);
        let g = grouped_upto(chats, needle, m, k);
        let c = CATEGORIES@[k - 1];
        assert(category_index(c) == k - 1);
        let members = sorted_by(kept(chats, needle, Some(c)), chats.map_values(|x: ChatInfo| key_of(x)), m);
        if members.len() > 0 {
            assert(g == before.push((Some(c), members)));
        } else {
            assert(g == before);
        }
        assert forall|i: int| 0 <= i < g.len() implies 0 <= slot(#[trigger] g[i].0) < k && g[i].1.len() > 0 by {
            if i < before.len() {
                assert(g[i] == before[i]);
                assert(0 <= slot(before[i].0) < k - 1);
            } else {
                assert(g[i] == (Some(c), members));
            }
        }
        assert forall|i: int, j: int| 0 <= i < j < g.len() implies slot(#[trigger] g[i].0) < slot(#[trigger] g[j].0) by {
            assert(g[i] == before[i]);
            if j < before.len() {
                assert(g[j] == before[j]);
            }
        }
    }
}

} // verus!
