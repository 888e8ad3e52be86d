//! Page lifecycle: the chrome around the message stream, and pagination.
//!
//! Desktop paginates into `messages.html`, `messages2.html`, … and writes
//! the same head on every page.

use vstd::prelude::*;
use crate::html::escape::{esc, esc_text};
use crate::html::tree::{
    a, close_step, leaf_step, open_step, pair_views, text_step, void_step, Tree, TreeState,
};
use crate::strings::{chars_of, dec, padded, push_all, push_dec, push_padded, push_seq, string_of};
use chrono::{Datelike, TimeZone};

verus! {

/// `messages.html`, then `messages2.html`, `messages3.html`, …
pub open spec fn page_name_text(index: nat) -> Seq<char> {
    if index <= 1 {
        "messages.html"@
    } else {
        "messages"@ + dec(index) + ".html"@
    }
}

pub fn page_name(index: usize) -> (s: String)
    ensures
        s@ == page_name_text(index as nat),
{
    let mut v: Vec<char> = Vec::new();
    if index <= 1 {
        push_all(&mut v, "messages.html");
    } else {
        push_all(&mut v, "messages");
        push_dec(&mut v, index as u64);
        push_all(&mut v, ".html");
    }
    assert(v@ == page_name_text(index as nat));
    string_of(&v)
}

/// `UTC+hh:mm` for an offset in seconds east of UTC, whole minutes
/// truncated toward zero; less than a minute west of UTC is `+`.
pub open spec fn zone_text(seconds: int) -> Seq<char> {
    let minutes = if seconds >= 0 { seconds / 60 } else { -((-seconds) / 60) };
    let sign = if minutes >= 0 { '+' } else { '-' };
    let abs = if minutes >= 0 { minutes } else { -minutes };
    "UTC"@ + seq![sign] + padded((abs / 60) as nat, 2) + ":"@ + padded((abs % 60) as nat, 2)
}

/// The smaller of the January and July offsets, which is standard time in
/// both hemispheres; a month the zone cannot place counts as UTC.
pub open spec fn standard_offset(january: Option<i32>, july: Option<i32>) -> int {
    let j = match january { Some(s) => s as int, None => 0 };
    let l = match july { Some(s) => s as int, None => 0 };
    if j <= l { j } else { l }
}

/// The year it is now on the local clock, from `chrono::Local::now().year()`.
/// Trusted: nothing is claimed of it, since it depends on the clock.
#[verifier::external_body]
fn current_year() -> (y: i32) {
    chrono::Local::now().year()
}

/// The local zone's offset from UTC, in seconds east, at noon on the 15th
/// of `month` in `year`: `chrono::Local.with_ymd_and_hms(..).single()` and
/// the offset's `local_minus_utc()`, `None` when the local time is missing
/// or ambiguous. Trusted: the answer depends on the machine's zone; what is
/// claimed is only what `chrono`'s `FixedOffset` guarantees of any offset,
/// that it lies strictly within a day either way.
#[verifier::external_body]
fn local_offset_on(year: i32, month: u32) -> (r: Option<i32>)
    ensures
        r matches Some(s) ==> -86_400 < s < 86_400,
{
    chrono::Local.with_ymd_and_hms(year, month, 15, 12, 0, 0).single().map(|d| d.offset().local_minus_utc())
}

/// The zone suffix for the offsets measured in January and July.
pub fn suffix_for(january: Option<i32>, july: Option<i32>) -> (s: String)
    requires
        january matches Some(j) ==> -86_400 < j < 86_400,
        july matches Some(l) ==> -86_400 < l < 86_400,
    ensures
        s@ == zone_text(standard_offset(january, july)),
{
    let j: i32 = match january { Some(s) => s, None => 0 };
    let l: i32 = match july { Some(s) => s, None => 0 };
    let seconds: i32 = if j <= l { j } else { l };
    // Whole minutes, truncated toward zero as integer division does.
    let minutes: i32 = if seconds >= 0 { seconds / 60 } else { -((-seconds) / 60) };
    let mut v: Vec<char> = Vec::new();
    push_all(&mut v, "UTC");
    v.push(if minutes >= 0 { '+' } else { '-' });
    let abs: i32 = if minutes >= 0 { minutes } else { -minutes };
    push_padded(&mut v, (abs / 60) as u64, 2);
    push_all(&mut v, ":");
    push_padded(&mut v, (abs % 60) as u64, 2);
    string_of(&v)
}

/// The local zone's standard UTC offset, formatted as Desktop writes it:
/// every tooltip carries this one, the same all year.
pub fn utc_suffix() -> (s: String)
    ensures
        exists|january: Option<i32>, july: Option<i32>|
            s@ == zone_text(#[trigger] standard_offset(january, july))
            && (january matches Some(j) ==> -86_400 < j < 86_400)
            && (july matches Some(l) ==> -86_400 < l < 86_400),
{
    let year = current_year();
    let january = local_offset_on(year, 1);
    let july = local_offset_on(year, 7);
    suffix_for(january, july)
}

/// Everything a page needs to render its header.
pub struct PageChrome {
    pub title: String,
    /// When set, the header title is a link back to a forum's index page.
    pub back_href: Option<String>,
}

/// The character view of an optional string.
pub open spec fn opt_view(o: Option<String>) -> Option<Seq<char>> {
    match o {
        Some(s) => Some(s@),
        None => None,
    }
}

/// One attribute.
pub open spec fn attr1(k: Seq<char>, v: Seq<char>) -> Seq<(Seq<char>, Seq<char>)> {
    seq![(k, v)]
}

/// Two attributes, in the order given.
pub open spec fn attr2(k1: Seq<char>, v1: Seq<char>, k2: Seq<char>, v2: Seq<char>) -> Seq<(Seq<char>, Seq<char>)> {
    seq![(k1, v1), (k2, v2)]
}

/// Doctype through the closing `</head>`, as Desktop writes it.
pub open spec fn page_head(t: TreeState) -> TreeState {
    let t1 = text_step(t, "<!DOCTYPE html>"@);
    let t2 = open_step(t1, "html"@, Seq::empty());
    let t3 = open_step(t2, "head"@, Seq::empty());
    let t4 = void_step(t3, "meta"@, attr1("charset"@, "utf-8"@));
    let t5 = text_step(t4, "<title>Exported Data</title>"@);
    let t6 = void_step(t5, "meta"@, attr2("content"@, "width=device-width, initial-scale=1.0"@, "name"@, "viewport"@));
    let t7 = void_step(t6, "link"@, attr2("href"@, "css/style.css"@, "rel"@, "stylesheet"@));
    let t8 = open_step(t7, "script"@, attr2("src"@, "js/script.js"@, "type"@, "text/javascript"@));
    let t9 = close_step(t8, "script"@);
    close_step(t9, "head"@)
}

/// The header title: a link back to the index when there is one. The
/// trailing space is Desktop's.
pub open spec fn header_title(t: TreeState, title: Seq<char>, back_href: Option<Seq<char>>) -> TreeState {
    match back_href {
        Some(h) => leaf_step(t, "a"@, "&lsaquo; "@ + esc_text(title) + seq![' '], attr2("class"@, "text bold"@, "href"@, h)),
        None => leaf_step(t, "div"@, esc_text(title) + seq![' '], attr1("class"@, "text bold"@)),
    }
}

/// The opening chrome: doctype through `<div class="history">`, and the link
/// back to the previous page on every page after the first.
pub open spec fn page_open(t: TreeState, title: Seq<char>, back_href: Option<Seq<char>>, page: nat) -> TreeState {
    let h = page_head(t);
    let b1 = open_step(h, "body"@, attr1("onload"@, "CheckLocation();"@));
    let b2 = open_step(b1, "div"@, attr1("class"@, "page_wrap"@));
    let b3 = open_step(b2, "div"@, attr1("class"@, "page_header"@));
    let b4 = open_step(b3, "div"@, attr1("class"@, "content"@));
    let b5 = header_title(b4, title, back_href);
    let b6 = close_step(close_step(b5, "div"@), "div"@);
    let b7 = open_step(b6, "div"@, attr1("class"@, "page_body chat_page"@));
    let b8 = open_step(b7, "div"@, attr1("class"@, "history"@));
    if page > 1 {
        leaf_step(b8, "a"@, "Previous messages"@, attr2("class"@, "pagination block_link"@, "href"@, page_name_text((page - 1) as nat)))
    } else {
        b8
    }
}

/// The closing chrome, with the link to the next page when there is one.
pub open spec fn page_close(t: TreeState, page: nat, has_next: bool) -> TreeState {
    let n = if has_next {
        leaf_step(t, "a"@, "Next messages"@, attr2("class"@, "pagination block_link"@, "href"@, page_name_text(page + 1)))
    } else {
        t
    };
    close_step(close_step(close_step(close_step(close_step(n, "div"@), "div"@), "div"@), "body"@), "html"@)
}

/// Doctype through `</head>`.
fn write_head(t: &mut Tree)
    requires
        old(t)@.1 + 16 < usize::MAX,
    ensures
        final(t)@ == page_head(old(t)@),
        final(t)@.1 == old(t)@.1 + 1,
{
    let none: [(&str, String); 0] = [];
    assert(pair_views(none@) =~= Seq::<(Seq<char>, Seq<char>)>::empty());
    t.text("<!DOCTYPE html>");
    t.open("html", &none);
    t.open("head", &none);
    let at = [a("charset", "utf-8")];
    assert(pair_views(at@) =~= attr1("charset"@, "utf-8"@));
    t.void("meta", &at);
    t.text("<title>Exported Data</title>");
    let at = [a("content", "width=device-width, initial-scale=1.0"), a("name", "viewport")];
    assert(pair_views(at@) =~= attr2("content"@, "width=device-width, initial-scale=1.0"@, "name"@, "viewport"@));
    t.void("meta", &at);
    let at = [a("href", "css/style.css"), a("rel", "stylesheet")];
    assert(pair_views(at@) =~= attr2("href"@, "css/style.css"@, "rel"@, "stylesheet"@));
    t.void("link", &at);
    let at = [a("src", "js/script.js"), a("type", "text/javascript")];
    assert(pair_views(at@) =~= attr2("src"@, "js/script.js"@, "type"@, "text/javascript"@));
    t.open("script", &at);
    t.close("script");
    t.close("head");
}

/// Write the opening chrome: doctype through `<div class="history">`.
#[verifier::rlimit(40)]
pub fn open_page(t: &mut Tree, chrome: &PageChrome, page: usize)
    requires
        old(t)@.1 + 16 < usize::MAX,
    ensures
        final(t)@ == page_open(old(t)@, chrome.title@, opt_view(chrome.back_href), page as nat),
        final(t)@.1 == old(t)@.1 + 5,
{
    write_head(t);
    let at = [a("onload", "CheckLocation();")];
    assert(pair_views(at@) =~= attr1("onload"@, "CheckLocation();"@));
    t.open("body", &at);
    let at = [a("class", "page_wrap")];
    assert(pair_views(at@) =~= attr1("class"@, "page_wrap"@));
    t.open("div", &at);
    let at = [a("class", "page_header")];
    assert(pair_views(at@) =~= attr1("class"@, "page_header"@));
    t.open("div", &at);
    let at = [a("class", "content")];
    assert(pair_views(at@) =~= attr1("class"@, "content"@));
    t.open("div", &at);
    let ghost t4 = t@;
    let title = chars_of(esc(chrome.title.as_str()).as_str());
    match &chrome.back_href {
        Some(href) => {
            let mut c: Vec<char> = Vec::new();
            push_all(&mut c, "&lsaquo; ");
            push_seq(&mut c, &title);
            c.push(' ');
            let content = string_of(&c);
            assert(content@ == "&lsaquo; "@ + esc_text(chrome.title@) + seq![' ']);
            let at = [a("class", "text bold"), a("href", href.as_str())];
            assert(pair_views(at@) =~= attr2("class"@, "text bold"@, "href"@, href@));
            t.leaf("a", content.as_str(), &at);
        },
        None => {
            let mut c: Vec<char> = Vec::new();
            push_seq(&mut c, &title);
            c.push(' ');
            let content = string_of(&c);
            assert(content@ == esc_text(chrome.title@) + seq![' ']);
            let at = [a("class", "text bold")];
            assert(pair_views(at@) =~= attr1("class"@, "text bold"@));
            t.leaf("div", content.as_str(), &at);
        },
    }
    assert(t@ == header_title(t4, chrome.title@, opt_view(chrome.back_href)));
    t.close("div");
    t.close("div");
    let at = [a("class", "page_body chat_page")];
    assert(pair_views(at@) =~= attr1("class"@, "page_body chat_page"@));
    t.open("div", &at);
    let at = [a("class", "history")];
    assert(pair_views(at@) =~= attr1("class"@, "history"@));
    t.open("div", &at);
    if page > 1 {
        let prev = page_name(page - 1);
        let at = [a("class", "pagination block_link"), a("href", prev.as_str())];
        assert(pair_views(at@) =~= attr2("class"@, "pagination block_link"@, "href"@, page_name_text((page - 1) as nat)));
        t.leaf("a", "Previous messages", &at);
    }
}

/// Write the closing chrome.
pub fn close_page(t: &mut Tree, page: usize, has_next: bool)
    requires
        old(t)@.1 + 1 < usize::MAX,
        page < usize::MAX,
    ensures
        final(t)@ == page_close(old(t)@, page as nat, has_next),
        old(t)@.1 >= 5 ==> final(t)@.1 == old(t)@.1 - 5,
{
    if has_next {
        let next = page_name(page + 1);
        let at = [a("class", "pagination block_link"), a("href", next.as_str())];
        assert(pair_views(at@) =~= attr2("class"@, "pagination block_link"@, "href"@, page_name_text((page + 1) as nat)));
        t.leaf("a", "Next messages", &at);
    }
    t.close("div");
    t.close("div");
    t.close("div");
    t.close("body");
    t.close("html");
}

} // verus!
