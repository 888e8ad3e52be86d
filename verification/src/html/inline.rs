//! Inline text rendering: Desktop's `text_entities` list as HTML.
//!
//! Every branch interpolates attacker-controlled text into markup. Text is
//! escaped on every path; the three handlers that take a JavaScript
//! argument get it through `js_str`; both link forms go through `safe_href`.

use vstd::prelude::*;
use crate::format::value::{get, shown, shown_string, str_of, Json};
use crate::html::escape::{
    cleaned, collapsed, esc, esc_text, has_safe_scheme, has_scheme_prefix, href_ok, js_body,
    js_str, safe_href,
};
use crate::html::media::vetted;
use crate::strings::{chars_of, lowercase, owned, push_all, push_seq, same_chars, string_of};

verus! {

/// A newline as a line break.
pub open spec fn br_text(s: Seq<char>) -> Seq<char>
    decreases s.len(),
{
    if s.len() == 0 {
        Seq::empty()
    } else {
        br_text(s.drop_last()) + if s.last() == '\n' { "<br>"@ } else { seq![s.last()] }
    }
}

/// Raw text as markup: escaped, newlines as breaks.
pub open spec fn text_markup(raw: Seq<char>) -> Seq<char> {
    br_text(esc_text(raw))
}

pub fn text_html(raw: &str) -> (s: String)
    ensures
        s@ == text_markup(raw@),
{
    let e = chars_of(esc(raw).as_str());
    let mut v: Vec<char> = Vec::new();
    let mut i: usize = 0;
    while i < e.len()
        invariant
            i <= e@.len(),
            e@ == esc_text(raw@),
            v@ == br_text(e@.take(i as int)),
        decreases e.len() - i,
    {
        assert(e@.take(i + 1).drop_last() == e@.take(i as int));
        if e[i] == '\n' {
            push_all(&mut v, "<br>");
        } else {
            v.push(e[i]);
        }
        i += 1;
    }
    assert(e@.take(e@.len() as int) == e@);
    string_of(&v)
}

/// `s` with every leading `c` removed.
pub open spec fn strip_leading(s: Seq<char>, c: char) -> Seq<char>
    decreases s.len(),
{
    if s.len() > 0 && s[0] == c { strip_leading(s.drop_first(), c) } else { s }
}

fn strip_leading_str(s: &str, c: char) -> (r: String)
    ensures
        r@ == strip_leading(s@, c),
{
    let cs = chars_of(s);
    let mut i: usize = 0;
    assert(cs@.skip(0) == cs@);
    while i < cs.len() && cs[i] == c
        invariant
            i <= cs@.len(),
            strip_leading(cs@, c) == strip_leading(cs@.skip(i as int), c),
        decreases cs.len() - i,
    {
        assert(cs@.skip(i as int).drop_first() == cs@.skip(i + 1));
        i += 1;
    }
    if i < cs.len() {
        assert(cs@.skip(i as int)[0] == cs@[i as int]);
    }
    let r = crate::strings::string_of_range(&cs, i, cs.len());
    assert(cs@.subrange(i as int, cs@.len() as int) == cs@.skip(i as int));
    r
}

/// A custom emoji's link: its saved file when the id is a path, else the
/// toast for one that was not loaded.
pub open spec fn emoji_link(doc: Seq<char>, text: Seq<char>) -> Seq<char> {
    let href = if doc.len() > 0 && (doc.contains('/') || doc.contains('.')) { vetted(Some(doc)) } else { None };
    match href {
        Some(h) => "<a href = \""@ + esc_text(h) + "\">"@ + text + "</a>"@,
        None => "<a href=\"\" onclick=\"return ShowNotLoadedEmoji()\">"@ + text + "</a>"@,
    }
}

/// A handler link: `<a href="" onclick="return Show…(arg)">text</a>`.
pub open spec fn handler_link(handler: Seq<char>, arg: Seq<char>, text: Seq<char>) -> Seq<char> {
    "<a href=\"\" onclick=\"return "@ + handler + "("@ + esc_text(seq!['\''] + js_body(arg) + seq!['\'']) + ")\">"@ + text + "</a>"@
}

/// One segment as markup, by its `type`; an unknown type is its text.
pub open spec fn segment_markup(seg: Json) -> Seq<char> {
    match seg {
        Json::Str(s) => text_markup(s@),
        Json::Object(_) => {
            let kind = match str_of(get(seg, "type"@)) { Some(k) => k, None => "plain"@ };
            let raw = match str_of(get(seg, "text"@)) { Some(t) => t, None => Seq::empty() };
            let text = text_markup(raw);
            let href = match str_of(get(seg, "href"@)) { Some(h) => h, None => Seq::empty() };
            if kind == "plain"@ { text }
            else if kind == "bold"@ { "<strong>"@ + text + "</strong>"@ }
            else if kind == "italic"@ { "<em>"@ + text + "</em>"@ }
            else if kind == "underline"@ { "<u>"@ + text + "</u>"@ }
            else if kind == "strikethrough"@ { "<s>"@ + text + "</s>"@ }
            else if kind == "spoiler"@ { "<span class=\"spoiler hidden\" onclick=\"ShowSpoiler(this)\">"@ + text + "</span>"@ }
            else if kind == "code"@ { "<code>"@ + text + "</code>"@ }
            else if kind == "pre"@ { "<pre>"@ + text + "</pre>"@ }
            else if kind == "blockquote"@ { "<blockquote>"@ + text + "</blockquote>"@ }
            else if kind == "text_link"@ {
                match vetted(Some(href)) {
                    Some(h) => "<a href=\""@ + esc_text(h) + "\">"@ + text + "</a>"@,
                    None => text + " <span class=\"details\">["@ + esc_text(href) + "]</span>"@,
                }
            }
            else if kind == "link"@ {
                match vetted(Some(raw)) {
                    Some(h) => {
                        let full = if has_scheme_prefix(lowercase(h)) { h } else { "https://"@ + h };
                        "<a href=\""@ + esc_text(full) + "\">"@ + text + "</a>"@
                    },
                    None => text,
                }
            }
            else if kind == "email"@ { "<a href=\"mailto:"@ + text + "\">"@ + text + "</a>"@ }
            else if kind == "phone"@ { "<a href=\"tel:"@ + text + "\">"@ + text + "</a>"@ }
            else if kind == "mention"@ { "<a href=\"https://t.me/"@ + esc_text(strip_leading(raw, '@')) + "\">"@ + text + "</a>"@ }
            else if kind == "mention_name"@ { "<a href=\"\" onclick=\"return ShowMentionName()\">"@ + text + "</a>"@ }
            else if kind == "hashtag"@ { handler_link("ShowHashtag"@, strip_leading(raw, '#'), text) }
            else if kind == "cashtag"@ { handler_link("ShowCashtag"@, strip_leading(raw, '$'), text) }
            else if kind == "bot_command"@ { handler_link("ShowBotCommand"@, strip_leading(raw, '/'), text) }
            else if kind == "custom_emoji"@ {
                let doc = match get(seg, "document_id"@) { Some(v) => shown(v), None => Seq::empty() };
                emoji_link(doc, text)
            }
            else { text }
        },
        _ => Seq::empty(),
    }
}

fn contains_char(v: &Vec<char>, c: char) -> (b: bool)
    ensures
        b == v@.contains(c),
{
    let mut i: usize = 0;
    while i < v.len()
        invariant
            i <= v@.len(),
            forall|k: int| 0 <= k < i ==> v@[k] != c,
        decreases v.len() - i,
    {
        if v[i] == c {
            return true;
        }
        i += 1;
    }
    false
}

fn wrap(open: &str, text: &str, close: &str) -> (s: String)
    ensures
        s@ == open@ + text@ + close@,
{
    let mut v: Vec<char> = Vec::new();
    push_all(&mut v, open);
    push_all(&mut v, text);
    push_all(&mut v, close);
    string_of(&v)
}

fn handler(name: &str, arg: &str, text: &str) -> (s: String)
    ensures
        s@ == handler_link(name@, arg@, text@),
{
    let mut v: Vec<char> = Vec::new();
    push_all(&mut v, "<a href=\"\" onclick=\"return ");
    push_all(&mut v, name);
    push_all(&mut v, "(");
    push_all(&mut v, esc(js_str(arg).as_str()).as_str());
    push_all(&mut v, ")\">");
    push_all(&mut v, text);
    push_all(&mut v, "</a>");
    string_of(&v)
}

fn link_to(href: &str, text: &str) -> (s: String)
    ensures
        s@ == "<a href=\""@ + esc_text(href@) + "\">"@ + text@ + "</a>"@,
{
    let mut v: Vec<char> = Vec::new();
    push_all(&mut v, "<a href=\"");
    push_all(&mut v, esc(href).as_str());
    push_all(&mut v, "\">");
    push_all(&mut v, text);
    push_all(&mut v, "</a>");
    string_of(&v)
}

fn is_kind(k: &Vec<char>, lit: &str) -> (b: bool)
    ensures
        b == (k@ == lit@),
{
    same_chars(k, &chars_of(lit))
}

pub fn render_segment(seg: &Json) -> (s: String)
    ensures
        s@ == segment_markup(*seg),
{
    if let Json::Str(s) = seg {
        return text_html(s.as_str());
    }
    if let Json::Object(_) = seg {
    } else {
        return String::new();
    }
    let kind = match seg.get("type") {
        Some(v) => match v.as_str() { Some(k) => owned(k), None => owned("plain") },
        None => owned("plain"),
    };
    let raw = match seg.get("text") {
        Some(v) => match v.as_str() { Some(t) => owned(t), None => String::new() },
        None => String::new(),
    };
    let href = match seg.get("href") {
        Some(v) => match v.as_str() { Some(h) => owned(h), None => String::new() },
        None => String::new(),
    };
    let text = text_html(raw.as_str());
    let t = text.as_str();
    let k = chars_of(kind.as_str());
    if is_kind(&k, "plain") { text }
    else if is_kind(&k, "bold") { wrap("<strong>", t, "</strong>") }
    else if is_kind(&k, "italic") { wrap("<em>", t, "</em>") }
    else if is_kind(&k, "underline") { wrap("<u>", t, "</u>") }
    else if is_kind(&k, "strikethrough") { wrap("<s>", t, "</s>") }
    else if is_kind(&k, "spoiler") { wrap("<span class=\"spoiler hidden\" onclick=\"ShowSpoiler(this)\">", t, "</span>") }
    else if is_kind(&k, "code") { wrap("<code>", t, "</code>") }
    else if is_kind(&k, "pre") { wrap("<pre>", t, "</pre>") }
    else if is_kind(&k, "blockquote") { wrap("<blockquote>", t, "</blockquote>") }
    else if is_kind(&k, "text_link") {
        match safe_href(href.as_str()) {
            Some(h) => link_to(h.as_str(), t),
            None => {
                let mut v: Vec<char> = Vec::new();
                push_all(&mut v, t);
                push_all(&mut v, " <span class=\"details\">[");
                push_all(&mut v, esc(href.as_str()).as_str());
                push_all(&mut v, "]</span>");
                string_of(&v)
            },
        }
    }
    else if is_kind(&k, "link") {
        match safe_href(raw.as_str()) {
            Some(h) => {
                if has_safe_scheme(h.as_str()) {
                    link_to(h.as_str(), t)
                } else {
                    let mut v: Vec<char> = Vec::new();
                    push_all(&mut v, "https://");
                    push_all(&mut v, h.as_str());
                    let full = string_of(&v);
                    link_to(full.as_str(), t)
                }
            },
            None => text,
        }
    }
    else if is_kind(&k, "email") { wrap(wrap("<a href=\"mailto:", t, "\">").as_str(), t, "</a>") }
    else if is_kind(&k, "phone") { wrap(wrap("<a href=\"tel:", t, "\">").as_str(), t, "</a>") }
    else if is_kind(&k, "mention") {
        wrap(wrap("<a href=\"https://t.me/", esc(strip_leading_str(raw.as_str(), '@').as_str()).as_str(), "\">").as_str(), t, "</a>")
    }
    else if is_kind(&k, "mention_name") { wrap("<a href=\"\" onclick=\"return ShowMentionName()\">", t, "</a>") }
    else if is_kind(&k, "hashtag") { handler("ShowHashtag", strip_leading_str(raw.as_str(), '#').as_str(), t) }
    else if is_kind(&k, "cashtag") { handler("ShowCashtag", strip_leading_str(raw.as_str(), '$').as_str(), t) }
    else if is_kind(&k, "bot_command") { handler("ShowBotCommand", strip_leading_str(raw.as_str(), '/').as_str(), t) }
    else if is_kind(&k, "custom_emoji") {
        let doc = match seg.get("document_id") {
            Some(v) => shown_string(v),
            None => String::new(),
        };
        let dc = chars_of(doc.as_str());
        let href = if dc.len() > 0 && (contains_char(&dc, '/') || contains_char(&dc, '.')) {
            safe_href(doc.as_str())
        } else {
            None
        };
        match href {
            Some(h) => {
                let mut v: Vec<char> = Vec::new();
                push_all(&mut v, "<a href = \"");
                push_all(&mut v, esc(h.as_str()).as_str());
                push_all(&mut v, "\">");
                push_all(&mut v, t);
                push_all(&mut v, "</a>");
                string_of(&v)
            },
            None => wrap("<a href=\"\" onclick=\"return ShowNotLoadedEmoji()\">", t, "</a>"),
        }
    }
    else { text }
}

/// Desktop's `text` as markup: a bare string, or the segments one after
/// another; anything else is nothing.
pub open spec fn entities_markup(v: Option<Json>) -> Seq<char> {
    match v {
        Some(Json::Str(s)) => text_markup(s@),
        Some(Json::Array(items)) => segments_markup(items@),
        _ => Seq::empty(),
    }
}

pub open spec fn segments_markup(items: Seq<Json>) -> Seq<char>
    decreases items.len(),
{
    if items.len() == 0 { Seq::empty() } else { segments_markup(items.drop_last()) + segment_markup(items.last()) }
}

/// Render Desktop's `text_entities` list, or the bare-string `text`, as
/// inline HTML.
pub fn render_entities(segments: Option<&Json>) -> (s: String)
    ensures
        s@ == entities_markup(match segments { Some(x) => Some(*x), None => None }),
{
    match segments {
        Some(Json::Str(s)) => text_html(s.as_str()),
        Some(Json::Array(items)) => {
            let mut v: Vec<char> = Vec::new();
            let mut i: usize = 0;
            while i < items.len()
                invariant
                    i <= items@.len(),
                    v@ == segments_markup(items@.take(i as int)),
                decreases items.len() - i,
            {
                assert(items@.take(i + 1).drop_last() == items@.take(i as int));
                push_all(&mut v, render_segment(&items[i]).as_str());
                i += 1;
            }
            assert(items@.take(items@.len() as int) == items@);
            string_of(&v)
        },
        _ => String::new(),
    }
}

} // verus!
