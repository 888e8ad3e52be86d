//! The streaming writer: `messages.html`, `messages2.html`, …
//!
//! Takes already-serialised messages rather than Telegram objects, so the
//! HTML and the JSON can never drift apart. The writer decides what every
//! page holds and hands each finished page back; whoever owns the output
//! folder writes it there.

use vstd::prelude::*;
use vstd::hash_map::HashMapWithView;
use crate::format::value::{get, int_of, scalar_string, scalar_text, str_of, Json};
use crate::html::escape::{esc, esc_text, message_number, message_number_of};
use crate::html::join::{date_of, joins, key_text, parse_date, unixtime_of, JoinKey, JoinState, Stamp};
use crate::html::page::{
    attr1, attr2, close_page, open_page, page_close, page_name, page_name_text, page_open, PageChrome,
};
use crate::html::reactions::colours_fit;
use crate::html::service::{service_sentence, service_text};
use crate::html::tree::{a, close_step, leaf_step, open_step, pair_views, Tree, TreeState};
use crate::html::userpic::{pres_get, presentation_of, Presentation};
use crate::strings::{dec, int_text, padded, push_all, push_dec, push_int, push_padded, string_of};

pub mod body;

verus! {

/// The month names of the date dividers.
pub const MONTHS: [&'static str; 12] = [
    "January",
    "February",
    "March",
    "April",
    "May",
    "June",
    "July",
    "August",
    "September",
    "October",
    "November",
    "December",
];

/// `DD.MM.YYYY HH:MM:SS`, as Desktop writes a full timestamp.
pub open spec fn stamp_text(d: Stamp) -> Seq<char> {
    padded(d.day as nat, 2) + "."@ + padded(d.month as nat, 2) + "."@ + int_text(d.year as int) + " "@
        + padded(d.hour as nat, 2) + ":"@ + padded(d.minute as nat, 2) + ":"@ + padded(d.second as nat, 2)
}

/// The tooltip of a date: the full timestamp and the zone, or nothing when
/// the value is not a date.
pub open spec fn title_text(d: Option<Stamp>, suffix: Seq<char>) -> Seq<char> {
    match d {
        Some(s) => stamp_text(s) + " "@ + suffix,
        None => Seq::empty(),
    }
}

/// `<a>` to another message, in whichever form fits: a plain cross-file
/// link when it landed on another page, a script call otherwise. A target
/// that is not a whole number gets no link at all.
pub open spec fn link_text(page_of: Map<i64, usize>, page: nat, target: Option<Json>) -> Option<Seq<char>> {
    match target {
        None => None,
        Some(v) => match message_number_of(v) {
            None => Some("this message"@),
            Some(n) => if page_of.contains_key(n) && page_of[n] != page {
                Some("<a href=\""@ + page_name_text(page_of[n] as nat) + "#go_to_message"@ + int_text(n as int)
                    + "\">this message</a>"@)
            } else {
                Some("<a href=\"#go_to_message"@ + int_text(n as int) + "\" onclick=\"return GoToMessage("@
                    + int_text(n as int) + ")\">this message</a>"@)
            },
        },
    }
}

/// The divider's label: `18 December 2025`.
pub open spec fn day_label(d: Stamp) -> Seq<char> {
    dec(d.day as nat) + " "@ + MONTHS@[d.month - 1]@ + " "@ + int_text(d.year as int)
}

/// Everything the writer knows between two messages.
pub struct WriterView {
    pub title: Seq<char>,
    pub back_href: Option<Seq<char>>,
    pub page_size: nat,
    pub suffix: Seq<char>,
    pub tree: Option<TreeState>,
    pub page: nat,
    pub on_page: nat,
    pub last_day: Option<(i32, u32, u32)>,
    pub join_last: Option<((Seq<char>, Seq<char>, Seq<char>), Option<i64>)>,
    pub join_date: Option<Stamp>,
    pub last_group: Option<Seq<char>>,
    pub page_of: Map<i64, usize>,
    pub divider: int,
}

pub struct HtmlWriter {
    chrome: PageChrome,
    page_size: usize,
    utc_suffix: String,
    tree: Option<Tree>,
    page: usize,
    on_page: usize,
    last_day: Option<(i32, u32, u32)>,
    join: JoinState,
    last_group: Option<String>,
    /// Which page each message landed on, so a reply can link across pages.
    /// Replies only ever point backwards, so the target is already recorded
    /// by the time one is rendered.
    page_of: HashMapWithView<i64, usize>,
    divider: i64,
}

impl View for HtmlWriter {
    type V = WriterView;

    closed spec fn view(&self) -> WriterView {
        WriterView {
            title: self.chrome.title@,
            back_href: match self.chrome.back_href {
                Some(h) => Some(h@),
                None => None,
            },
            page_size: self.page_size as nat,
            suffix: self.utc_suffix@,
            tree: match self.tree {
                Some(t) => Some(t@),
                None => None,
            },
            page: self.page as nat,
            on_page: self.on_page as nat,
            last_day: self.last_day,
            join_last: self.join.last(),
            join_date: self.join.last_date(),
            last_group: match self.last_group {
                Some(g) => Some(g@),
                None => None,
            },
            page_of: self.page_of@,
            divider: self.divider as int,
        }
    }
}

/// The depth of a page's history block, where messages are written.
pub open spec fn history_depth() -> nat {
    5
}

/// What holds of the writer between two calls: at least one message per
/// page, an open page sits at the history block's depth and is not past
/// its share, and every message id the map has seen landed on a page that
/// has been opened.
pub open spec fn writer_ok(w: WriterView) -> bool {
    &&& w.page_size >= 1
    &&& w.on_page <= w.page_size
    &&& w.divider >= 0
    &&& w.tree matches Some(t) ==> t.1 == history_depth() && w.page >= 1
}

/// The state after a page has been made ready for one more message: the
/// current one while it has room, else a new page after flushing the full
/// one. The second part is the page that was finished, by number.
pub open spec fn ready_step(w: WriterView) -> (WriterView, Option<(nat, Seq<char>)>) {
    if w.tree is Some && w.on_page < w.page_size {
        (w, None)
    } else {
        let finished = match w.tree {
            Some(t) => Some((w.page, page_close(t, w.page, true).0)),
            None => None,
        };
        let page = w.page + 1;
        let t = page_open((Seq::empty(), 0, false), w.title, w.back_href, page);
        (WriterView {
            tree: Some(t),
            page,
            on_page: 0,
            last_day: None,
            join_last: None,
            join_date: None,
            last_group: None,
            ..w
        }, finished)
    }
}

/// A date divider before the first message of each day.
pub open spec fn divider_step(w: WriterView, dt: Option<Stamp>) -> WriterView {
    match dt {
        Some(d) => if w.last_day == Some((d.year, d.month, d.day)) {
            w
        } else {
            let n = w.divider + 1;
            let t1 = open_step(w.tree->0, "div"@, attr2("class"@, "message service"@, "id"@, "message-"@ + int_text(n)));
            let t2 = leaf_step(t1, "div"@, esc_text(day_label(d)), attr1("class"@, "body details"@));
            WriterView {
                tree: Some(close_step(t2, "div"@)),
                divider: n,
                last_day: Some((d.year, d.month, d.day)),
                join_last: None,
                ..w
            }
        },
        None => w,
    }
}

/// Who a message is from, as the join rule compares it.
pub open spec fn sender_of(m: Json) -> (Seq<char>, Seq<char>, Seq<char>) {
    (key_text(m, "from_id"@), key_text(m, "forwarded_from"@), key_text(m, "forwarded_from_id"@))
}

/// Is this a service message?
pub open spec fn is_service(m: Json) -> bool {
    str_of(get(m, "type"@)) == Some("service"@)
}

/// The message itself: a service line, or an ordinary message joined onto
/// the one before it when the join rule says so.
pub open spec fn message_step(w: WriterView, m: Json, dt: Option<Stamp>) -> WriterView {
    let t = w.tree->0;
    if is_service(m) {
        let link = link_text(w.page_of, w.page, get(m, "message_id"@));
        let id = scalar_text(get(m, "id"@));
        let t1 = open_step(t, "div"@, attr2("class"@, "message service"@, "id"@, "message"@ + id));
        let t2 = leaf_step(t1, "div"@, service_sentence(m, link), attr1("class"@, "body details"@));
        WriterView { tree: Some(close_step(t2, "div"@)), join_last: None, last_group: None, ..w }
    } else {
        let p = presentation_of(m);
        let is_forward = get(m, "forwarded_from"@) is Some;
        let joined = joins(w.join_last, w.join_date, sender_of(m), unixtime_of(m), dt, is_forward);
        let link = link_text(w.page_of, w.page, get(m, "reply_to_message_id"@));
        WriterView {
            tree: Some(body::default_step(t, m, p, dt, joined, w.last_group, w.suffix, link)),
            join_last: Some((sender_of(m), unixtime_of(m))),
            join_date: dt,
            last_group: str_of(pres_get(p, "group"@)),
            ..w
        }
    }
}

/// Where the message landed, and one more on the page.
pub open spec fn record_step(w: WriterView, m: Json) -> WriterView {
    WriterView {
        page_of: match int_of(get(m, "id"@)) {
            Some(id) => w.page_of.insert(id, w.page as usize),
            None => w.page_of,
        },
        on_page: w.on_page + 1,
        ..w
    }
}

/// One message added: the page made ready, the divider, the message, and
/// the bookkeeping. The second part is the page that was finished, if one
/// was.
pub open spec fn add_step(w: WriterView, m: Json) -> (WriterView, Option<(nat, Seq<char>)>) {
    let (r, finished) = ready_step(w);
    let dt = date_of(get(m, "date"@));
    (record_step(message_step(divider_step(r, dt), m, dt), m), finished)
}

/// The last page closed, opening one first for a writer that never had a
/// message. The first part is how many pages there are.
pub open spec fn close_step_of(w: WriterView) -> (nat, Option<(nat, Seq<char>)>, WriterView) {
    let r = if w.tree is None && w.page == 0 { ready_step(w).0 } else { w };
    match r.tree {
        Some(t) => (r.page, Some((r.page, page_close(t, r.page, false).0)), WriterView { tree: None, ..r }),
        None => (r.page, None, r),
    }
}

impl HtmlWriter {
    pub open spec fn wf(&self) -> bool {
        writer_ok(self@)
    }

    /// A writer for one chat, `page_size` messages to a page (at least
    /// one), with the zone suffix every date tooltip ends with.
    pub fn new(title: &str, page_size: usize, utc_suffix: &str) -> (w: Self)
        ensures
            w.wf(),
            w@ == (WriterView {
                title: title@,
                back_href: None,
                page_size: if page_size >= 1 { page_size as nat } else { 1 },
                suffix: utc_suffix@,
                tree: None,
                page: 0,
                on_page: 0,
                last_day: None,
                join_last: None,
                join_date: None,
                last_group: None,
                page_of: Map::empty(),
                divider: 0,
            }),
    {
        broadcast use vstd::std_specs::hash::group_hash_axioms;
        let page_size = if page_size >= 1 { page_size } else { 1 };
        HtmlWriter {
            chrome: PageChrome { title: crate::strings::owned(title), back_href: None },
            page_size,
            utc_suffix: crate::strings::owned(utc_suffix),
            tree: None,
            page: 0,
            on_page: 0,
            last_day: None,
            join: JoinState::new(),
            last_group: None,
            page_of: HashMapWithView::new(),
            divider: 0,
        }
    }

    /// Pages begun so far.
    pub fn pages(&self) -> (n: usize)
        ensures
            n == self@.page,
    {
        self.page
    }

    /// Date dividers written so far.
    pub fn dividers(&self) -> (n: i64)
        ensures
            n == self@.divider,
    {
        self.divider
    }

    /// The header title links back to a forum's index page.
    pub fn with_back_href(self, href: Option<String>) -> (w: Self)
        ensures
            w@ == (WriterView {
                back_href: match href {
                    Some(h) => Some(h@),
                    None => None,
                },
                ..self@
            }),
            w.wf() == self.wf(),
    {
        let mut w = self;
        w.chrome.back_href = href;
        w
    }

    /// An `<a>` pointing at another message, in whichever form fits.
    fn message_link(&self, target: Option<&Json>) -> (r: Option<String>)
        ensures
            match r {
                Some(s) => link_text(self@.page_of, self@.page, match target { Some(x) => Some(*x), None => None }) == Some(s@),
                None => link_text(self@.page_of, self@.page, match target { Some(x) => Some(*x), None => None }) is None,
            },
    {
        let target = match target {
            Some(t) => t,
            None => return None,
        };
        let number = match message_number(target) {
            Some(n) => n,
            None => return Some(crate::strings::owned("this message")),
        };
        let mut v: Vec<char> = Vec::new();
        let other = match self.page_of.get(&number) {
            Some(page) => if *page != self.page { Some(*page) } else { None },
            None => None,
        };
        match other {
            Some(page) => {
                push_all(&mut v, "<a href=\"");
                push_all(&mut v, page_name(page).as_str());
                push_all(&mut v, "#go_to_message");
                push_int(&mut v, number);
                push_all(&mut v, "\">this message</a>");
            },
            None => {
                push_all(&mut v, "<a href=\"#go_to_message");
                push_int(&mut v, number);
                push_all(&mut v, "\" onclick=\"return GoToMessage(");
                push_int(&mut v, number);
                push_all(&mut v, ")\">this message</a>");
            },
        }
        Some(string_of(&v))
    }
}

/// An empty chat still produces a page: closing a writer that never had a
/// message gives exactly one page, the first.
pub proof fn law_an_empty_chat_still_has_one_page(w: WriterView)
    requires
        writer_ok(w),
        w.tree is None,
        w.page == 0,
    ensures
        close_step_of(w).0 == 1,
        close_step_of(w).1 matches Some((n, _)) && n == 1,
{
}

/// A page break starts a fresh block: whenever a message opens a new page,
/// nothing before it can be joined onto and its date is stated again.
pub proof fn law_a_new_page_forgets_the_block(w: WriterView)
    requires
        writer_ok(w),
        !(w.tree is Some && w.on_page < w.page_size),
    ensures
        ready_step(w).0.join_last is None,
        ready_step(w).0.join_date is None,
        ready_step(w).0.last_day is None,
        ready_step(w).0.last_group is None,
        ready_step(w).0.on_page == 0,
        ready_step(w).0.page == w.page + 1,
{
}

/// A finished page as its number and its text.
pub open spec fn page_out(f: Option<(usize, String)>) -> Option<(nat, Seq<char>)> {
    match f {
        Some((n, s)) => Some((n as nat, s@)),
        None => None,
    }
}

impl HtmlWriter {
    /// Close the open page, if there is one, and hand it back.
    fn flush(&mut self, has_next: bool) -> (finished: Option<(usize, String)>)
        requires
            old(self).wf(),
            old(self)@.page < usize::MAX,
        ensures
            final(self)@ == (WriterView { tree: None, ..old(self)@ }),
            page_out(finished) == match old(self)@.tree {
                Some(t) => Some((old(self)@.page, page_close(t, old(self)@.page, has_next).0)),
                None => None,
            },
    {
        match self.tree.take() {
            Some(t) => {
                let mut t = t;
                close_page(&mut t, self.page, has_next);
                Some((self.page, t.into_string()))
            },
            None => None,
        }
    }

    /// Make room for one more message: the open page while it has room,
    /// else a new page after finishing the full one, which is handed back.
    fn ensure_page(&mut self) -> (finished: Option<(usize, String)>)
        requires
            old(self).wf(),
            old(self)@.page + 1 < usize::MAX,
        ensures
            final(self).wf(),
            final(self)@ == ready_step(old(self)@).0,
            page_out(finished) == ready_step(old(self)@).1,
            final(self)@.tree is Some,
            final(self)@.on_page < final(self)@.page_size,
    {
        if self.tree.is_some() && self.on_page < self.page_size {
            return None;
        }
        let finished = self.flush(true);
        self.page = self.page + 1;
        self.on_page = 0;
        // A page break always starts a fresh block and re-states its date.
        self.join.reset();
        self.last_group = None;
        self.last_day = None;
        let mut t = Tree::new();
        open_page(&mut t, &self.chrome, self.page);
        self.tree = Some(t);
        proof {
            let w = old(self)@;
            assert(self@ == ready_step(w).0);
        }
        finished
    }

    /// Finish, writing at least one page even for an empty chat: the number
    /// of pages, and the last one.
    pub fn close(&mut self) -> (r: (usize, Option<(usize, String)>))
        requires
            old(self).wf(),
            old(self)@.page + 1 < usize::MAX,
        ensures
            final(self).wf(),
            r.0 as nat == close_step_of(old(self)@).0,
            page_out(r.1) == close_step_of(old(self)@).1,
            final(self)@ == close_step_of(old(self)@).2,
    {
        if self.tree.is_none() && self.page == 0 {
            let first = self.ensure_page();
            assert(first is None);
        }
        let last = self.flush(false);
        (self.page, last)
    }

    /// Render one ordinary message with this writer's album, zone and reply
    /// links.
    fn render_default(&self, t: &mut Tree, m: &Json, p: &Presentation, dt: Option<Stamp>, joined: bool)
        requires
            old(t)@.1 + 12 < usize::MAX,
            colours_fit(p.map()),
        ensures
            final(t)@ == body::default_step(old(t)@, *m, p.map(), dt, joined, self@.last_group, self@.suffix,
                link_text(self@.page_of, self@.page, get(*m, "reply_to_message_id"@))),
            final(t)@.1 == old(t)@.1,
    {
        let link = self.message_link(m.get("reply_to_message_id"));
        let group = match &self.last_group {
            Some(g) => Some(g.as_str()),
            None => None,
        };
        let link_str = match &link {
            Some(l) => Some(l.as_str()),
            None => None,
        };
        body::render_default(t, m, p, dt, joined, group, self.utc_suffix.as_str(), link_str);
    }

    /// Write the date divider when `dt` opens a new day.
    fn divider(&mut self, t: &mut Tree, dt: Option<Stamp>)
        requires
            old(t)@.1 + 2 < usize::MAX,
            old(self)@.divider < i64::MAX,
            dt matches Some(d) ==> 1 <= d.month <= 12,
        ensures
            ({
                let w = divider_step(WriterView { tree: Some(old(t)@), ..old(self)@ }, dt);
                &&& final(self)@ == (WriterView { tree: old(self)@.tree, ..w })
                &&& final(t)@ == w.tree->0
            }),
            final(t)@.1 == old(t)@.1,
    {
        let d = match dt {
            Some(d) => d,
            None => return,
        };
        let same_day = match self.last_day {
            Some((y, mo, da)) => y == d.year && mo == d.month && da == d.day,
            None => false,
        };
        if same_day {
            return;
        }
        self.divider = self.divider + 1;
        let mut label: Vec<char> = Vec::new();
        push_dec(&mut label, d.day as u64);
        push_all(&mut label, " ");
        push_all(&mut label, MONTHS[(d.month - 1) as usize]);
        push_all(&mut label, " ");
        push_int(&mut label, d.year as i64);
        let label = string_of(&label);
        assert(label@ == day_label(d));
        let mut id: Vec<char> = Vec::new();
        push_all(&mut id, "message-");
        push_int(&mut id, self.divider);
        let id = string_of(&id);
        let at = [a("class", "message service"), a("id", id.as_str())];
        assert(pair_views(at@) =~= attr2("class"@, "message service"@, "id"@, "message-"@ + int_text(self.divider as int)));
        t.open("div", &at);
        let at = [a("class", "body details")];
        assert(pair_views(at@) =~= attr1("class"@, "body details"@));
        t.leaf("div", esc(label.as_str()).as_str(), &at);
        t.close("div");
        self.last_day = Some((d.year, d.month, d.day));
        self.join.broke();
    }

    /// Add one message: a new page when the open one is full (the finished
    /// page is handed back), a date divider when the day changes, then the
    /// message itself.
    pub fn add(&mut self, m: &Json) -> (finished: Option<(usize, String)>)
        requires
            old(self).wf(),
            old(self)@.page + 1 < usize::MAX,
            old(self)@.divider < i64::MAX,
            colours_fit(presentation_of(*m)),
        ensures
            final(self).wf(),
            final(self)@ == add_step(old(self)@, *m).0,
            page_out(finished) == add_step(old(self)@, *m).1,
    {
        broadcast use vstd::std_specs::hash::group_hash_axioms;
        let finished = self.ensure_page();
        let ghost w1 = self@;
        let p = Presentation::of(m);
        let dt = parse_date(m.get("date"));
        let mut t = match self.tree.take() {
            Some(t) => t,
            None => {
                assert(false);
                return finished;
            },
        };
        self.divider(&mut t, dt);
        let ghost w2 = WriterView { tree: Some(t@), ..self@ };
        assert(w2 == divider_step(w1, dt));
        let service = match m.get("type") {
            Some(v) => match v.as_str() {
                Some(k) => crate::strings::same_chars(&crate::strings::chars_of(k), &crate::strings::chars_of("service")),
                None => false,
            },
            None => false,
        };
        assert(service == is_service(*m));
        if service {
            let link = self.message_link(m.get("message_id"));
            let body = service_text(m, match &link {
                Some(l) => Some(l.as_str()),
                None => None,
            });
            let id = scalar_string(m.get("id"));
            let mut idv: Vec<char> = Vec::new();
            push_all(&mut idv, "message");
            push_all(&mut idv, id.as_str());
            let idv = string_of(&idv);
            // Not escaped here: the tree escapes every attribute value it
            // writes, so doing it twice would double an `&`.
            let at = [a("class", "message service"), a("id", idv.as_str())];
            assert(pair_views(at@) =~= attr2("class"@, "message service"@, "id"@, "message"@ + id@));
            t.open("div", &at);
            let at = [a("class", "body details")];
            assert(pair_views(at@) =~= attr1("class"@, "body details"@));
            t.leaf("div", body.as_str(), &at);
            t.close("div");
            self.join.broke();
            self.last_group = None;
        } else {
            let key = JoinKey::of(m);
            let is_forward = m.contains_key("forwarded_from");
            let joined = self.join.joined(&key, dt, is_forward);
            self.render_default(&mut t, m, &p, dt, joined);
            self.join.advance(key, dt);
            self.last_group = match p.str("group") {
                Some(g) => Some(crate::strings::owned(g)),
                None => None,
            };
        }
        let ghost w3 = WriterView { tree: Some(t@), ..self@ };
        assert(w3 == message_step(w2, *m, dt));
        match m.get("id") {
            Some(v) => match v.as_i64() {
                Some(id) => self.page_of.insert(id, self.page),
                None => {},
            },
            None => {},
        }
        self.on_page = self.on_page + 1;
        self.tree = Some(t);
        finished
    }
}

/// `DD.MM.YYYY HH:MM:SS`, appended.
pub fn push_stamp(v: &mut Vec<char>, d: &Stamp)
    ensures
        final(v)@ == old(v)@ + stamp_text(*d),
{
    push_padded(v, d.day as u64, 2);
    push_all(v, ".");
    push_padded(v, d.month as u64, 2);
    push_all(v, ".");
    push_int(v, d.year as i64);
    push_all(v, " ");
    push_padded(v, d.hour as u64, 2);
    push_all(v, ":");
    push_padded(v, d.minute as u64, 2);
    push_all(v, ":");
    push_padded(v, d.second as u64, 2);
}

} // verus!
