//! `export_results.html`: the front door of a forum export, one page listing
//! every topic and the target of the back link every topic page carries.
//!
//! Built only from classes Desktop's own stylesheet defines. Every string
//! arrives raw and is escaped here; every target goes through `safe_href`,
//! and a refused one becomes `#`.

use vstd::prelude::*;
use crate::html::escape::{cleaned, collapsed, esc, esc_text, href_ok, safe_href};
use crate::html::page::{attr1, attr2, opt_view};
use crate::html::tree::{a, close_step, leaf_step, open_step, pair_views, text_step, void_step, Tree, TreeState};
use crate::strings::{dec, int_text, lowercase, owned, push_all, push_dec, push_int, string_of};

verus! {

/// One row of the index. Nothing is pre-escaped.
#[derive(Debug, Clone)]
pub struct IndexEntry {
    /// Relative target, e.g. `0001 - ćaskanje/messages.html`.
    pub href: String,
    pub title: String,
    /// The one or two letters painted in the userpic.
    pub initials: String,
    /// Picks `userpic1`..`userpic8`, written verbatim.
    pub colour: i64,
    /// State markers, already joined: `pinned`, `pinned, closed`.
    pub detail: Option<String>,
    /// `opened by UA KOLAB, 14.12.2025`.
    pub subname: Option<String>,
    pub messages: usize,
}

/// `1 message`, `0 messages`, `3811 messages`.
pub open spec fn plural_text(n: nat, word: Seq<char>) -> Seq<char> {
    dec(n) + seq![' '] + word + if n == 1 { Seq::<char>::empty() } else { seq!['s'] }
}

pub fn plural(n: usize, word: &str) -> (s: String)
    ensures
        s@ == plural_text(n as nat, word@),
{
    let mut v: Vec<char> = Vec::new();
    push_dec(&mut v, n as u64);
    v.push(' ');
    push_all(&mut v, word);
    if n != 1 {
        v.push('s');
    }
    assert(v@ == plural_text(n as nat, word@));
    string_of(&v)
}

/// Where a link goes: the cleaned target when `safe_href` takes it, else `#`.
pub open spec fn target(url: Seq<char>) -> Seq<char> {
    if href_ok(url, lowercase(collapsed(url))) { cleaned(url) } else { "#"@ }
}

fn target_of(url: &str) -> (s: String)
    ensures
        s@ == target(url@),
{
    match safe_href(url) {
        Some(s) => s,
        None => owned("#"),
    }
}

/// A line shown only when it has something in it.
pub open spec fn optional_leaf(t: TreeState, text: Option<Seq<char>>, class: Seq<char>) -> TreeState {
    match text {
        Some(d) => if d.len() > 0 { leaf_step(t, "div"@, esc_text(d), attr1("class"@, class)) } else { t },
        None => t,
    }
}

/// One row: userpic, title, state markers, who opened it, how many messages.
pub open spec fn entry_step(t: TreeState, e: IndexEntry) -> TreeState {
    let t1 = open_step(t, "a"@, attr2("class"@, "entry block_link clearfix"@, "href"@, target(e.href@)));
    let t2 = open_step(t1, "div"@, attr1("class"@, "pull_left userpic_wrap"@));
    let t3 = open_step(t2, "div"@, attr2("class"@, "userpic userpic"@ + int_text(e.colour as int), "style"@, "width: 50px; height: 50px"@));
    let t4 = leaf_step(t3, "div"@, esc_text(e.initials@), attr2("class"@, "initials"@, "style"@, "line-height: 50px"@));
    let t5 = close_step(close_step(t4, "div"@), "div"@);
    let t6 = open_step(t5, "div"@, attr1("class"@, "body"@));
    let t7 = leaf_step(t6, "div"@, esc_text(e.title@), attr1("class"@, "name bold"@));
    let t8 = optional_leaf(t7, opt_view(e.detail), "details_entry details"@);
    let t9 = optional_leaf(t8, opt_view(e.subname), "subname details"@);
    let t10 = leaf_step(t9, "div"@, esc_text(plural_text(e.messages as nat, "message"@)), attr1("class"@, "info details"@));
    close_step(close_step(t10, "div"@), "a"@)
}

pub open spec fn entries_step(t: TreeState, es: Seq<IndexEntry>) -> TreeState
    decreases es.len(),
{
    if es.len() == 0 { t } else { entry_step(entries_step(t, es.drop_last()), es.last()) }
}

/// One link in the `sections` block.
pub open spec fn section_step(t: TreeState, x: (Seq<char>, Seq<char>)) -> TreeState {
    let t1 = open_step(t, "a"@, attr2("class"@, "section block_link other"@, "href"@, target(x.0)));
    let t2 = leaf_step(t1, "div"@, esc_text(x.1), attr1("class"@, "label bold"@));
    close_step(t2, "a"@)
}

pub open spec fn sections_step(t: TreeState, xs: Seq<(Seq<char>, Seq<char>)>) -> TreeState
    decreases xs.len(),
{
    if xs.len() == 0 { t } else { section_step(sections_step(t, xs.drop_last()), xs.last()) }
}

/// Doctype through `</head>`: the chat's own title in the tab, Desktop's
/// stylesheet, and no script.
pub open spec fn index_head(t: TreeState, title: Seq<char>) -> TreeState {
    let t1 = text_step(t, "<!DOCTYPE html>"@);
    let t2 = open_step(t1, "html"@, Seq::empty());
    let t3 = open_step(t2, "head"@, Seq::empty());
    let t4 = void_step(t3, "meta"@, attr1("charset"@, "utf-8"@));
    let t5 = text_step(t4, "<title>"@ + esc_text(title) + "</title>"@);
    let t6 = void_step(t5, "meta"@, attr2("content"@, "width=device-width, initial-scale=1.0"@, "name"@, "viewport"@));
    let t7 = void_step(t6, "link"@, attr2("href"@, "css/style.css"@, "rel"@, "stylesheet"@));
    close_step(t7, "head"@)
}

/// The body down to the opening of the entry list: the header with the
/// chat's title, the summary line and the optional second line.
pub open spec fn index_top(t: TreeState, title: Seq<char>, summary: Seq<char>, about: Option<Seq<char>>) -> TreeState {
    let b1 = open_step(t, "body"@, Seq::empty());
    let b2 = open_step(b1, "div"@, attr1("class"@, "page_wrap"@));
    let b3 = open_step(b2, "div"@, attr1("class"@, "page_header"@));
    let b4 = open_step(b3, "div"@, attr1("class"@, "content"@));
    let b5 = leaf_step(b4, "div"@, esc_text(title), attr1("class"@, "text bold"@));
    let b6 = close_step(close_step(b5, "div"@), "div"@);
    let b7 = open_step(b6, "div"@, attr1("class"@, "page_body list_page"@));
    let b8 = leaf_step(b7, "div"@, esc_text(summary), attr1("class"@, "page_about details"@));
    let b9 = optional_leaf(b8, about, "page_about details"@);
    open_step(b9, "div"@, attr1("class"@, "entry_list"@))
}

/// The whole page.
pub open spec fn index_page(title: Seq<char>, summary: Seq<char>, about: Option<Seq<char>>, entries: Seq<IndexEntry>, extras: Seq<(Seq<char>, Seq<char>)>) -> Seq<char> {
    let start = (Seq::<char>::empty(), 0nat, false);
    let top = index_top(index_head(start, title), title, summary, about);
    let listed = close_step(entries_step(top, entries), "div"@);
    let sect = if extras.len() == 0 {
        listed
    } else {
        close_step(sections_step(open_step(listed, "div"@, attr1("class"@, "sections"@)), extras), "div"@)
    };
    close_step(close_step(close_step(close_step(sect, "div"@), "div"@), "body"@), "html"@).0
}

/// One optional line.
fn write_optional(t: &mut Tree, text: Option<&str>, class: &str)
    requires
        old(t)@.1 < usize::MAX,
    ensures
        final(t)@ == optional_leaf(old(t)@, match text { Some(s) => Some(s@), None => None }, class@),
        final(t)@.1 == old(t)@.1,
{
    match text {
        Some(d) => {
            if d.unicode_len() > 0 {
                let at = [a("class", class)];
                assert(pair_views(at@) =~= attr1("class"@, class@));
                t.leaf("div", esc(d).as_str(), &at);
            }
        },
        None => {},
    }
}

fn opt_str(o: &Option<String>) -> (r: Option<&str>)
    ensures
        match r { Some(s) => Some(s@), None => None } == opt_view(*o),
{
    match o {
        Some(s) => Some(s.as_str()),
        None => None,
    }
}

/// One row: userpic, title, state markers, who opened it, how many messages.
/// A refused target becomes `#`, so the row renders but links nowhere.
fn write_entry(t: &mut Tree, entry: &IndexEntry)
    requires
        old(t)@.1 + 4 < usize::MAX,
    ensures
        final(t)@ == entry_step(old(t)@, *entry),
        final(t)@.1 == old(t)@.1,
{
    let href = target_of(entry.href.as_str());
    let at = [a("class", "entry block_link clearfix"), a("href", href.as_str())];
    assert(pair_views(at@) =~= attr2("class"@, "entry block_link clearfix"@, "href"@, target(entry.href@)));
    t.open("a", &at);
    let at = [a("class", "pull_left userpic_wrap")];
    assert(pair_views(at@) =~= attr1("class"@, "pull_left userpic_wrap"@));
    t.open("div", &at);
    let mut class: Vec<char> = Vec::new();
    push_all(&mut class, "userpic userpic");
    push_int(&mut class, entry.colour);
    let class = string_of(&class);
    let at = [a("class", class.as_str()), a("style", "width: 50px; height: 50px")];
    assert(pair_views(at@) =~= attr2("class"@, "userpic userpic"@ + int_text(entry.colour as int), "style"@, "width: 50px; height: 50px"@));
    t.open("div", &at);
    let at = [a("class", "initials"), a("style", "line-height: 50px")];
    assert(pair_views(at@) =~= attr2("class"@, "initials"@, "style"@, "line-height: 50px"@));
    t.leaf("div", esc(entry.initials.as_str()).as_str(), &at);
    t.close("div");
    t.close("div");
    let at = [a("class", "body")];
    assert(pair_views(at@) =~= attr1("class"@, "body"@));
    t.open("div", &at);
    let at = [a("class", "name bold")];
    assert(pair_views(at@) =~= attr1("class"@, "name bold"@));
    t.leaf("div", esc(entry.title.as_str()).as_str(), &at);
    write_optional(t, opt_str(&entry.detail), "details_entry details");
    write_optional(t, opt_str(&entry.subname), "subname details");
    let count = plural(entry.messages, "message");
    let at = [a("class", "info details")];
    assert(pair_views(at@) =~= attr1("class"@, "info details"@));
    t.leaf("div", esc(count.as_str()).as_str(), &at);
    t.close("div");
    t.close("a");
}

/// Doctype through `</head>`.
fn write_index_head(t: &mut Tree, chat_title: &str)
    requires
        old(t)@.1 + 4 < usize::MAX,
    ensures
        final(t)@ == index_head(old(t)@, chat_title@),
        final(t)@.1 == old(t)@.1 + 1,
{
    let none: [(&str, String); 0] = [];
    assert(pair_views(none@) =~= Seq::<(Seq<char>, Seq<char>)>::empty());
    t.text("<!DOCTYPE html>");
    t.open("html", &none);
    t.open("head", &none);
    let at = [a("charset", "utf-8")];
    assert(pair_views(at@) =~= attr1("charset"@, "utf-8"@));
    t.void("meta", &at);
    let mut line: Vec<char> = Vec::new();
    push_all(&mut line, "<title>");
    push_all(&mut line, esc(chat_title).as_str());
    push_all(&mut line, "</title>");
    let line = string_of(&line);
    t.text(line.as_str());
    let at = [a("content", "width=device-width, initial-scale=1.0"), a("name", "viewport")];
    assert(pair_views(at@) =~= attr2("content"@, "width=device-width, initial-scale=1.0"@, "name"@, "viewport"@));
    t.void("meta", &at);
    let at = [a("href", "css/style.css"), a("rel", "stylesheet")];
    assert(pair_views(at@) =~= attr2("href"@, "css/style.css"@, "rel"@, "stylesheet"@));
    t.void("link", &at);
    t.close("head");
}

/// The body down to the opening of the entry list.
fn write_index_top(t: &mut Tree, chat_title: &str, summary: &str, about: Option<&str>)
    requires
        old(t)@.1 + 8 < usize::MAX,
    ensures
        final(t)@ == index_top(old(t)@, chat_title@, summary@, match about { Some(s) => Some(s@), None => None }),
        final(t)@.1 == old(t)@.1 + 4,
{
    let none: [(&str, String); 0] = [];
    assert(pair_views(none@) =~= Seq::<(Seq<char>, Seq<char>)>::empty());
    t.open("body", &none);
    let at = [a("class", "page_wrap")];
    assert(pair_views(at@) =~= attr1("class"@, "page_wrap"@));
    t.open("div", &at);
    let at = [a("class", "page_header")];
    assert(pair_views(at@) =~= attr1("class"@, "page_header"@));
    t.open("div", &at);
    let at = [a("class", "content")];
    assert(pair_views(at@) =~= attr1("class"@, "content"@));
    t.open("div", &at);
    let at = [a("class", "text bold")];
    assert(pair_views(at@) =~= attr1("class"@, "text bold"@));
    t.leaf("div", esc(chat_title).as_str(), &at);
    t.close("div");
    t.close("div");
    let at = [a("class", "page_body list_page")];
    assert(pair_views(at@) =~= attr1("class"@, "page_body list_page"@));
    t.open("div", &at);
    let at = [a("class", "page_about details")];
    assert(pair_views(at@) =~= attr1("class"@, "page_about details"@));
    t.leaf("div", esc(summary).as_str(), &at);
    write_optional(t, about, "page_about details");
    let at = [a("class", "entry_list")];
    assert(pair_views(at@) =~= attr1("class"@, "entry_list"@));
    t.open("div", &at);
}

/// The views of the sections block's `(file, label)` pairs.
pub open spec fn extra_views(x: Seq<(&str, &str)>) -> Seq<(Seq<char>, Seq<char>)> {
    x.map_values(|p: (&str, &str)| (p.0@, p.1@))
}

/// The page itself, as a string.
pub fn render(chat_title: &str, summary: &str, about: Option<&str>, entries: &[IndexEntry], extras: &[(&str, &str)]) -> (s: String)
    ensures
        s@ == index_page(chat_title@, summary@, match about { Some(x) => Some(x@), None => None }, entries@, extra_views(extras@)),
{
    let mut t = Tree::new();
    write_index_head(&mut t, chat_title);
    write_index_top(&mut t, chat_title, summary, about);
    let ghost top = t@;
    let mut i: usize = 0;
    while i < entries.len()
        invariant
            i <= entries@.len(),
            t@.1 == 5,
            t@ == entries_step(top, entries@.take(i as int)),
        decreases entries.len() - i,
    {
        write_entry(&mut t, &entries[i]);
        assert(entries@.take(i + 1).drop_last() == entries@.take(i as int));
        i += 1;
    }
    assert(entries@.take(entries@.len() as int) == entries@);
    t.close("div");
    if extras.len() > 0 {
        let at = [a("class", "sections")];
        assert(pair_views(at@) =~= attr1("class"@, "sections"@));
        t.open("div", &at);
        let ghost opened = t@;
        let ghost xs = extra_views(extras@);
        let mut k: usize = 0;
        while k < extras.len()
            invariant
                k <= extras@.len(),
                xs == extra_views(extras@),
                t@.1 == 5,
                t@ == sections_step(opened, xs.take(k as int)),
            decreases extras.len() - k,
        {
            let (name, label) = extras[k];
            let href = target_of(name);
            let at = [a("class", "section block_link other"), a("href", href.as_str())];
            assert(pair_views(at@) =~= attr2("class"@, "section block_link other"@, "href"@, target(name@)));
            t.open("a", &at);
            let at = [a("class", "label bold")];
            assert(pair_views(at@) =~= attr1("class"@, "label bold"@));
            t.leaf("div", esc(label).as_str(), &at);
            t.close("a");
            assert(xs.take(k + 1).drop_last() == xs.take(k as int));
            assert(xs.take(k + 1).last() == (name@, label@));
            k += 1;
        }
        assert(xs.take(extras@.len() as int) == xs);
        t.close("div");
    }
    t.close("div");
    t.close("div");
    t.close("body");
    t.close("html");
    t.into_string()
}

} // verus!
