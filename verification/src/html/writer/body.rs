//! Rendering one ordinary message into the tree: the header, the reply
//! quote, the media block and the text. The page lifecycle lives in the
//! writer; this turns a single serialised message into markup.

use vstd::prelude::*;
use crate::format::size::{duration_text, human_duration};
use crate::format::value::{
    bool_of, get, lenient_int, lenient_int_field, scalar_string, scalar_text, str_of,
    str_or_empty, Json,
};
use crate::html::escape::{esc, esc_text, safe_href};
use crate::html::inline::{entities_markup, render_entities};
use crate::html::media::{
    file_row, file_row_step, is_placeholder, media_row, placeholder_value, row_fields, row_text,
    vetted,
};
use crate::html::page::{attr1, attr2};
use crate::html::poll::poll_step;
use crate::html::preview::MIN_INLINE_PHOTO;
use crate::html::tree::{
    a, close_step, leaf_step, open_step, pair_views, tag_line_step, text_step, void_step, Tree,
    TreeState,
};
use crate::html::join::{date_of, parse_date, Stamp};
use crate::html::reactions::{colours_fit, reactions_step};
use crate::html::userpic::{pres_get, userpic, userpic_step, Presentation};
use crate::html::writer::{push_stamp, stamp_text, title_text};
use crate::strings::{
    chars_of, contains_text, int_text, occurs_at, padded, push_all, push_int, push_padded, push_seq,
    same_chars, string_of,
};

verus! {

/// The left rule Desktop does not draw and this export does, beside a
/// quoted fragment of the message being answered.
pub const QUOTE_STYLE: &'static str = "border-left: 2px solid #3892db; padding-left: 6px; margin-left: 2px";

/// The reply line, and the quoted fragment when there is one.
pub open spec fn reply_step(t: TreeState, m: Json, link: Option<Seq<char>>) -> TreeState {
    if get(m, "reply_to_message_id"@) is None {
        t
    } else if get(m, "reply_to_peer_id"@) is Some {
        leaf_step(t, "div"@, "In reply to a message in another chat"@, attr1("class"@, "reply_to details"@))
    } else {
        let l = match link {
            Some(l) => l,
            None => "this message"@,
        };
        let t1 = leaf_step(t, "div"@, "In reply to "@ + l, attr1("class"@, "reply_to details"@));
        let quote = match get(m, "reply_to_quote_entities"@) {
            Some(q) => Some(q),
            None => get(m, "reply_to_quote"@),
        };
        let qh = entities_markup(quote);
        if qh.len() == 0 {
            t1
        } else {
            leaf_step(t1, "div"@, qh, attr2("class"@, "reply_to details"@, "style"@, QUOTE_STYLE@))
        }
    }
}

pub fn render_reply(t: &mut Tree, m: &Json, link: Option<&str>)
    requires
        old(t)@.1 + 1 < usize::MAX,
    ensures
        final(t)@ == reply_step(old(t)@, *m, match link { Some(l) => Some(l@), None => None }),
        final(t)@.1 == old(t)@.1,
{
    if m.get("reply_to_message_id").is_none() {
        return;
    }
    let at = [a("class", "reply_to details")];
    assert(pair_views(at@) =~= attr1("class"@, "reply_to details"@));
    if m.contains_key("reply_to_peer_id") {
        t.leaf("div", "In reply to a message in another chat", &at);
        return;
    }
    let mut line: Vec<char> = Vec::new();
    push_all(&mut line, "In reply to ");
    match link {
        Some(l) => push_all(&mut line, l),
        None => push_all(&mut line, "this message"),
    }
    let line = string_of(&line);
    t.leaf("div", line.as_str(), &at);
    let quote = match m.get("reply_to_quote_entities") {
        Some(q) => Some(q),
        None => m.get("reply_to_quote"),
    };
    let quote_html = render_entities(quote);
    if quote_html.unicode_len() > 0 {
        let at = [a("class", "reply_to details"), a("style", QUOTE_STYLE)];
        assert(pair_views(at@) =~= attr2("class"@, "reply_to details"@, "style"@, QUOTE_STYLE@));
        t.leaf("div", quote_html.as_str(), &at);
    }
}

/// The preview dictionary the export planned for a message's media.
pub open spec fn preview_map(p: Option<Json>) -> Option<Json> {
    match pres_get(p, "preview"@) {
        Some(Json::Object(f)) => Some(Json::Object(f)),
        _ => None,
    }
}

fn preview_of<'a>(p: &Presentation<'a>) -> (r: Option<&'a Json>)
    ensures
        match r {
            Some(v) => preview_map(p.map()) == Some(*v),
            None => preview_map(p.map()) is None,
        },
{
    match p.get("preview") {
        Some(v) => match v {
            Json::Object(_) => Some(v),
            _ => None,
        },
        None => None,
    }
}

/// `width: Wpx; height: Hpx` for a preview, nothing without one.
pub open spec fn preview_style(preview: Option<Json>) -> Seq<char> {
    match preview {
        Some(pv) => "width: "@ + int_text(lenient_int(get(pv, "width"@))) + "px; height: "@
            + int_text(lenient_int(get(pv, "height"@))) + "px"@,
        None => Seq::empty(),
    }
}

/// A preview's `src`, when it passes the link allowlist; nothing otherwise.
pub open spec fn preview_src(preview: Option<Json>) -> Seq<char> {
    match preview {
        Some(pv) => match vetted(str_of(get(pv, "src"@))) {
            Some(h) => h,
            None => Seq::empty(),
        },
        None => Seq::empty(),
    }
}

/// The target of a saved file, when it passes the link allowlist.
pub open spec fn file_href(v: Json) -> Seq<char> {
    match vetted(str_of(Some(v))) {
        Some(h) => h,
        None => Seq::empty(),
    }
}

/// An image inside a link inside the media block: a photo or a sticker.
pub open spec fn linked_image_step(t: TreeState, wrap: Seq<char>, href: Seq<char>, img: Seq<char>, src: Seq<char>, style: Seq<char>) -> TreeState {
    let t1 = open_step(t, "div"@, attr1("class"@, "media_wrap clearfix"@));
    let t2 = open_step(t1, "a"@, attr2("class"@, wrap, "href"@, href));
    let t3 = void_step(t2, "img"@, seq![("class"@, img), ("src"@, src), ("style"@, style)]);
    close_step(close_step(t3, "a"@), "div"@)
}

/// An animation: the GIF badge over its first frame.
pub open spec fn animation_step(t: TreeState, href: Seq<char>, src: Seq<char>, style: Seq<char>) -> TreeState {
    let t1 = open_step(t, "div"@, attr1("class"@, "media_wrap clearfix"@));
    let t2 = open_step(t1, "a"@, attr2("class"@, "animated_wrap clearfix pull_left"@, "href"@, href));
    let t3 = open_step(t2, "div"@, attr1("class"@, "video_play_bg"@));
    let t4 = close_step(leaf_step(t3, "div"@, "GIF"@, attr1("class"@, "gif_play"@)), "div"@);
    let t5 = void_step(t4, "img"@, seq![("class"@, "animated"@), ("src"@, src), ("style"@, style)]);
    close_step(close_step(t5, "a"@), "div"@)
}

/// A video: the play button, the running time when there is one, and the
/// first frame.
pub open spec fn video_step(t: TreeState, href: Seq<char>, duration: Seq<char>, src: Seq<char>, style: Seq<char>) -> TreeState {
    let t1 = open_step(t, "div"@, attr1("class"@, "media_wrap clearfix"@));
    let t2 = open_step(t1, "a"@, attr2("class"@, "video_file_wrap clearfix pull_left"@, "href"@, href));
    let t3 = open_step(t2, "div"@, attr1("class"@, "video_play_bg"@));
    let t4 = close_step(close_step(open_step(t3, "div"@, attr1("class"@, "video_play"@)), "div"@), "div"@);
    let t5 = if duration.len() == 0 {
        t4
    } else {
        leaf_step(t4, "div"@, esc_text(duration), attr1("class"@, "video_duration"@))
    };
    let t6 = void_step(t5, "img"@, seq![("class"@, "video_file"@), ("src"@, src), ("style"@, style)]);
    close_step(close_step(t6, "a"@), "div"@)
}

/// The blur preview of a file that was not saved.
pub open spec fn stripped_step(t: TreeState, src: Seq<char>, style: Seq<char>) -> TreeState {
    let t1 = open_step(t, "div"@, attr1("class"@, "media_wrap clearfix"@));
    let t2 = open_step(t1, "div"@, attr1("class"@, "photo_wrap clearfix pull_left"@));
    let t3 = void_step(t2, "img"@, seq![("class"@, "photo"@), ("src"@, src), ("style"@, style)]);
    close_step(close_step(t3, "div"@), "div"@)
}

/// The generic row, when the message has media to describe.
pub open spec fn row_step(t: TreeState, m: Json) -> TreeState {
    match media_row(m) {
        Some(r) => file_row_step(t, r),
        None => t,
    }
}

/// The inline form of a saved file with a preview, if its type has one.
pub open spec fn inline_file_step(t: TreeState, m: Json, href: Seq<char>, src: Seq<char>, style: Seq<char>) -> Option<TreeState> {
    let media_type = str_or_empty(get(m, "media_type"@));
    if media_type == "sticker"@ {
        Some(linked_image_step(t, "sticker_wrap clearfix pull_left"@, href, "sticker"@, src, style))
    } else if media_type == "animation"@ {
        Some(animation_step(t, href, src, style))
    } else if media_type == "video_file"@ || media_type == "video_message"@ {
        Some(video_step(t, href, duration_text(lenient_int(get(m, "duration_seconds"@))), src, style))
    } else {
        None
    }
}

/// The media block: the blur preview of an unsaved file with its row; an
/// inline photo big enough to show; a sticker, animation or video drawn
/// inline; a poll; or the generic row.
pub open spec fn media_step(t: TreeState, m: Json, p: Option<Json>) -> TreeState {
    let preview = preview_map(p);
    let style = preview_style(preview);
    let src = preview_src(preview);
    let w = lenient_int(get(m, "width"@));
    let h = lenient_int(get(m, "height"@));
    let big_enough = (if w <= h { w } else { h }) >= MIN_INLINE_PHOTO;
    if preview is Some && bool_of(get(preview->0, "stripped"@)) == Some(true) {
        row_step(stripped_step(t, src, style), m)
    } else if preview is Some && get(m, "photo"@) is Some && !placeholder_value(get(m, "photo"@)) && big_enough {
        linked_image_step(t, "photo_wrap clearfix pull_left"@, file_href(get(m, "photo"@)->0), "photo"@, src, style)
    } else if preview is Some && get(m, "file"@) is Some && !placeholder_value(get(m, "file"@))
        && inline_file_step(t, m, file_href(get(m, "file"@)->0), src, style) is Some {
        inline_file_step(t, m, file_href(get(m, "file"@)->0), src, style)->0
    } else {
        match get(m, "poll"@) {
            Some(Json::Object(f)) => poll_step(t, Json::Object(f)),
            _ => row_step(t, m),
        }
    }
}

fn same_as(s: &str, lit: &str) -> (b: bool)
    ensures
        b == (s@ == lit@),
{
    same_chars(&chars_of(s), &chars_of(lit))
}

fn href_of(v: &Json) -> (s: String)
    ensures
        s@ == file_href(*v),
{
    match v.as_str() {
        Some(s) => match safe_href(s) {
            Some(h) => h,
            None => String::new(),
        },
        None => String::new(),
    }
}

fn image(t: &mut Tree, class: &str, src: &str, style: &str)
    ensures
        final(t)@ == void_step(old(t)@, "img"@, seq![("class"@, class@), ("src"@, src@), ("style"@, style@)]),
        final(t)@.1 == old(t)@.1,
{
    let at = [a("class", class), a("src", src), a("style", style)];
    assert(pair_views(at@) =~= seq![("class"@, class@), ("src"@, src@), ("style"@, style@)]);
    t.void("img", &at);
}

fn open_class(t: &mut Tree, tag: &str, class: &str)
    requires
        old(t)@.1 < usize::MAX,
    ensures
        final(t)@ == open_step(old(t)@, tag@, attr1("class"@, class@)),
        final(t)@.1 == old(t)@.1 + 1,
{
    let at = [a("class", class)];
    assert(pair_views(at@) =~= attr1("class"@, class@));
    t.open(tag, &at);
}

fn open_link(t: &mut Tree, class: &str, href: &str)
    requires
        old(t)@.1 < usize::MAX,
    ensures
        final(t)@ == open_step(old(t)@, "a"@, attr2("class"@, class@, "href"@, href@)),
        final(t)@.1 == old(t)@.1 + 1,
{
    let at = [a("class", class), a("href", href)];
    assert(pair_views(at@) =~= attr2("class"@, class@, "href"@, href@));
    t.open("a", &at);
}

fn leaf_class(t: &mut Tree, tag: &str, content: &str, class: &str)
    requires
        old(t)@.1 < usize::MAX,
    ensures
        final(t)@ == leaf_step(old(t)@, tag@, content@, attr1("class"@, class@)),
        final(t)@.1 == old(t)@.1,
{
    let at = [a("class", class)];
    assert(pair_views(at@) =~= attr1("class"@, class@));
    t.leaf(tag, content, &at);
}

fn linked_image(t: &mut Tree, wrap: &str, href: &str, img: &str, src: &str, style: &str)
    requires
        old(t)@.1 + 2 < usize::MAX,
    ensures
        final(t)@ == linked_image_step(old(t)@, wrap@, href@, img@, src@, style@),
        final(t)@.1 == old(t)@.1,
{
    open_class(t, "div", "media_wrap clearfix");
    open_link(t, wrap, href);
    image(t, img, src, style);
    t.close("a");
    t.close("div");
}

fn animation(t: &mut Tree, href: &str, src: &str, style: &str)
    requires
        old(t)@.1 + 4 < usize::MAX,
    ensures
        final(t)@ == animation_step(old(t)@, href@, src@, style@),
        final(t)@.1 == old(t)@.1,
{
    open_class(t, "div", "media_wrap clearfix");
    open_link(t, "animated_wrap clearfix pull_left", href);
    open_class(t, "div", "video_play_bg");
    leaf_class(t, "div", "GIF", "gif_play");
    t.close("div");
    image(t, "animated", src, style);
    t.close("a");
    t.close("div");
}

fn video(t: &mut Tree, href: &str, duration: &str, src: &str, style: &str)
    requires
        old(t)@.1 + 4 < usize::MAX,
    ensures
        final(t)@ == video_step(old(t)@, href@, duration@, src@, style@),
        final(t)@.1 == old(t)@.1,
{
    open_class(t, "div", "media_wrap clearfix");
    open_link(t, "video_file_wrap clearfix pull_left", href);
    open_class(t, "div", "video_play_bg");
    open_class(t, "div", "video_play");
    t.close("div");
    t.close("div");
    if duration.unicode_len() > 0 {
        leaf_class(t, "div", esc(duration).as_str(), "video_duration");
    }
    image(t, "video_file", src, style);
    t.close("a");
    t.close("div");
}

fn stripped(t: &mut Tree, src: &str, style: &str)
    requires
        old(t)@.1 + 2 < usize::MAX,
    ensures
        final(t)@ == stripped_step(old(t)@, src@, style@),
        final(t)@.1 == old(t)@.1,
{
    open_class(t, "div", "media_wrap clearfix");
    open_class(t, "div", "photo_wrap clearfix pull_left");
    image(t, "photo", src, style);
    t.close("div");
    t.close("div");
}

fn row(t: &mut Tree, m: &Json)
    requires
        old(t)@.1 + 4 < usize::MAX,
    ensures
        final(t)@ == row_step(old(t)@, *m),
        final(t)@.1 == old(t)@.1,
{
    match row_fields(m) {
        Some(r) => file_row(t, &r),
        None => {},
    }
}

fn inline_file(t: &mut Tree, m: &Json, href: &str, src: &str, style: &str) -> (drawn: bool)
    requires
        old(t)@.1 + 4 < usize::MAX,
    ensures
        drawn == inline_file_step(old(t)@, *m, href@, src@, style@) is Some,
        drawn ==> final(t)@ == inline_file_step(old(t)@, *m, href@, src@, style@)->0,
        !drawn ==> final(t)@ == old(t)@,
        final(t)@.1 == old(t)@.1,
{
    let media_type = match m.get("media_type") {
        Some(v) => match v.as_str() {
            Some(s) => s,
            None => "",
        },
        None => "",
    };
    proof {
        reveal_strlit("");
    }
    assert(media_type@ == str_or_empty(get(*m, "media_type"@)));
    if same_as(media_type, "sticker") {
        linked_image(t, "sticker_wrap clearfix pull_left", href, "sticker", src, style);
        true
    } else if same_as(media_type, "animation") {
        animation(t, href, src, style);
        true
    } else if same_as(media_type, "video_file") || same_as(media_type, "video_message") {
        let duration = human_duration(lenient_int_field(m, "duration_seconds"));
        video(t, href, duration.as_str(), src, style);
        true
    } else {
        false
    }
}

pub fn render_media(t: &mut Tree, m: &Json, p: &Presentation)
    requires
        old(t)@.1 + 4 < usize::MAX,
    ensures
        final(t)@ == media_step(old(t)@, *m, p.map()),
        final(t)@.1 == old(t)@.1,
{
    let preview = preview_of(p);
    let ghost pv = preview_map(p.map());
    let style = match preview {
        Some(pv) => {
            let mut v: Vec<char> = Vec::new();
            push_all(&mut v, "width: ");
            push_int(&mut v, lenient_int_field(pv, "width"));
            push_all(&mut v, "px; height: ");
            push_int(&mut v, lenient_int_field(pv, "height"));
            push_all(&mut v, "px");
            string_of(&v)
        },
        None => String::new(),
    };
    assert(style@ == preview_style(pv));
    let src = match preview {
        Some(pv) => match pv.get("src") {
            Some(s) => href_of(s),
            None => String::new(),
        },
        None => String::new(),
    };
    assert(src@ == preview_src(pv));

    if let Some(pv) = preview {
        let is_stripped = match pv.get("stripped") {
            Some(v) => v.as_bool() == Some(true),
            None => false,
        };
        if is_stripped {
            stripped(t, src.as_str(), style.as_str());
            row(t, m);
            return;
        }
    }
    assert(!(pv is Some && bool_of(get(pv->0, "stripped"@)) == Some(true)));

    let w = lenient_int_field(m, "width");
    let h = lenient_int_field(m, "height");
    let smaller = if w <= h { w } else { h };
    if let (Some(photo), Some(_)) = (m.get("photo"), preview) {
        if !is_placeholder(Some(photo)) && smaller >= MIN_INLINE_PHOTO {
            let href = href_of(photo);
            linked_image(t, "photo_wrap clearfix pull_left", href.as_str(), "photo", src.as_str(), style.as_str());
            return;
        }
    }

    if let (Some(file), Some(_)) = (m.get("file"), preview) {
        if !is_placeholder(Some(file)) {
            let href = href_of(file);
            if inline_file(t, m, href.as_str(), src.as_str(), style.as_str()) {
                return;
            }
        }
    }

    match m.get("poll") {
        Some(poll) => match poll {
            Json::Object(_) => {
                crate::html::poll::render(t, poll);
                return;
            },
            _ => {},
        },
        None => {},
    }
    row(t, m);
}

/// The sender's name: the lifted display name, else `from`.
pub open spec fn name_of(m: Json, p: Option<Json>) -> Seq<char> {
    match str_of(pres_get(p, "from_name"@)) {
        Some(s) => s,
        None => str_or_empty(get(m, "from"@)),
    }
}

/// The forward source's name: the lifted display name, else
/// `forwarded_from`.
pub open spec fn fwd_name_of(m: Json, p: Option<Json>) -> Seq<char> {
    match str_of(pres_get(p, "forwarded_from_name"@)) {
        Some(s) => s,
        None => str_or_empty(get(m, "forwarded_from"@)),
    }
}

/// ` via @bot` after the name, when an inline bot sent the message.
pub open spec fn via_text(m: Json) -> Seq<char> {
    let via = str_or_empty(get(m, "via_bot"@));
    if via.len() == 0 {
        Seq::empty()
    } else {
        " <span class=\"details\">via "@ + esc_text(via) + "</span>"@
    }
}

/// The peer a forward's userpic is coloured by: the source, or for a source
/// that hides its account, the message itself.
pub open spec fn fwd_peer_of(m: Json) -> Seq<char> {
    let s = scalar_text(get(m, "forwarded_from_id"@));
    if s.len() == 0 {
        scalar_text(get(m, "id"@))
    } else {
        s
    }
}

/// The original date beside a forward source, when it is a date.
pub open spec fn fwd_span(p: Option<Json>, suffix: Seq<char>) -> Seq<char> {
    match date_of(pres_get(p, "forwarded_date"@)) {
        Some(d) => "<span class=\"date details\" title=\""@ + esc_text(title_text(Some(d), suffix)) + "\"> "@
            + esc_text(stamp_text(d)) + "</span>"@,
        None => Seq::empty(),
    }
}

/// A joined forward repeats the `forwarded from` header unless it belongs
/// to the same album as the message above it.
pub open spec fn show_header_of(m: Json, p: Option<Json>, joined: bool, last_group: Option<Seq<char>>) -> bool {
    let group = str_of(pres_get(p, "group"@));
    let same_album = group is Some && group == last_group;
    get(m, "forwarded_from"@) is Some && (!joined || !same_album)
}

/// The message box, the userpic unless joined, the time, and the name
/// unless joined.
pub open spec fn head_step(t: TreeState, m: Json, p: Option<Json>, dt: Option<Stamp>, joined: bool, suffix: Seq<char>) -> TreeState {
    let name = name_of(m, p);
    let id = scalar_text(get(m, "id"@));
    let class = "message default clearfix"@ + if joined { " joined"@ } else { Seq::empty() };
    let t1 = open_step(t, "div"@, attr2("class"@, class, "id"@, "message"@ + id));
    let t2 = if joined { t1 } else { userpic_step(t1, p, name, scalar_text(get(m, "from_id"@)), 42, Seq::empty()) };
    let t3 = open_step(t2, "div"@, attr1("class"@, "body"@));
    let t4 = match dt {
        Some(d) => leaf_step(t3, "div"@, esc_text(padded(d.hour as nat, 2) + ":"@ + padded(d.minute as nat, 2)),
            attr2("class"@, "pull_right date details"@, "title"@, title_text(date_of(get(m, "date"@)), suffix))),
        None => t3,
    };
    if !joined && name.len() > 0 {
        leaf_step(t4, "div"@, esc_text(name) + via_text(m), attr1("class"@, "from_name"@))
    } else {
        t4
    }
}

/// A leaf writes its content whole, right after its opening tag.
proof fn lemma_a_leaf_holds_its_content(t: TreeState, tag: Seq<char>, c: Seq<char>, attrs: Seq<(Seq<char>, Seq<char>)>)
    ensures
        contains_text(leaf_step(t, tag, c, attrs).0, c),
{
    reveal(leaf_step);
    reveal(close_step);
    reveal(text_step);
    reveal(tag_line_step);
    let o = open_step(t, tag, attrs);
    let i = o.0.len() as int;
    let s = leaf_step(t, tag, c, attrs).0;
    assert(s.subrange(i, i + c.len()) =~= c);
    assert(occurs_at(s, c, i));
}

/// A message an inline bot sent names the bot beside the sender: whenever
/// the name line is drawn and `via_bot` is not empty, the page holds the
/// escaped sender's name followed by `via` and the escaped bot name. Without
/// `via_bot` nothing is added after the name.
pub proof fn law_an_inline_bot_is_named_beside_the_sender(t: TreeState, m: Json, p: Option<Json>, dt: Option<Stamp>, suffix: Seq<char>)
    ensures
        name_of(m, p).len() > 0 && str_or_empty(get(m, "via_bot"@)).len() > 0 ==> contains_text(
            head_step(t, m, p, dt, false, suffix).0,
            esc_text(name_of(m, p)) + " <span class=\"details\">via "@ + esc_text(str_or_empty(get(m, "via_bot"@))) + "</span>"@,
        ),
        str_or_empty(get(m, "via_bot"@)).len() == 0 ==> via_text(m).len() == 0,
{
    let via = str_or_empty(get(m, "via_bot"@));
    let name = esc_text(name_of(m, p));
    let line = name + " <span class=\"details\">via "@ + esc_text(via) + "</span>"@;
    if name_of(m, p).len() > 0 && via.len() > 0 {
        assert(name + via_text(m) =~= line);
        assert forall|u: TreeState, at: Seq<(Seq<char>, Seq<char>)>|
            #![trigger leaf_step(u, "div"@, line, at)]
            contains_text(leaf_step(u, "div"@, line, at).0, line) by {
            lemma_a_leaf_holds_its_content(u, "div"@, line, at);
        }
    }
}

/// The forward's own userpic and header, and the opening of its body.
pub open spec fn forward_step(t: TreeState, m: Json, p: Option<Json>, show_header: bool, suffix: Seq<char>) -> TreeState {
    let fwd_name = fwd_name_of(m, p);
    let t1 = if show_header { userpic_step(t, p, fwd_name, fwd_peer_of(m), 42, "forwarded"@) } else { t };
    if get(m, "forwarded_from"@) is Some {
        let t2 = open_step(t1, "div"@, attr1("class"@, "forwarded body"@));
        if show_header {
            leaf_step(t2, "div"@, esc_text(fwd_name) + fwd_span(p, suffix), attr1("class"@, "from_name"@))
        } else {
            t2
        }
    } else {
        t1
    }
}

/// The text of a message: its entities, else its plain text.
pub open spec fn text_of_message(m: Json) -> Seq<char> {
    entities_markup(match get(m, "text_entities"@) {
        Some(v) => Some(v),
        None => get(m, "text"@),
    })
}

/// One ordinary message: header, reply, media, text and reactions.
pub open spec fn default_step(t: TreeState, m: Json, p: Option<Json>, dt: Option<Stamp>, joined: bool, last_group: Option<Seq<char>>, suffix: Seq<char>, link: Option<Seq<char>>) -> TreeState {
    let show = show_header_of(m, p, joined, last_group);
    let t1 = forward_step(head_step(t, m, p, dt, joined, suffix), m, p, show, suffix);
    let t2 = media_step(reply_step(t1, m, link), m, p);
    let text = text_of_message(m);
    let t3 = if text.len() > 0 { leaf_step(t2, "div"@, text, attr1("class"@, "text"@)) } else { t2 };
    let t4 = if get(m, "forwarded_from"@) is Some { close_step(t3, "div"@) } else { t3 };
    close_step(close_step(reactions_step(t4, m, p), "div"@), "div"@)
}

fn str_member<'a>(m: &'a Json, k: &str) -> (r: Option<&'a str>)
    ensures
        match r {
            Some(s) => str_of(get(*m, k@)) == Some(s@),
            None => str_of(get(*m, k@)) is None,
        },
{
    match m.get(k) {
        Some(v) => v.as_str(),
        None => None,
    }
}

fn name_or(lifted: Option<&str>, m: &Json, k: &str) -> (s: String)
    ensures
        s@ == match lifted { Some(l) => l@, None => str_or_empty(get(*m, k@)) },
{
    proof {
        reveal_strlit("");
    }
    match lifted {
        Some(l) => crate::strings::owned(l),
        None => match str_member(m, k) {
            Some(s) => crate::strings::owned(s),
            None => String::new(),
        },
    }
}

fn head(t: &mut Tree, m: &Json, p: &Presentation, dt: Option<Stamp>, joined: bool, suffix: &str)
    requires
        old(t)@.1 + 8 < usize::MAX,
        colours_fit(p.map()),
    ensures
        final(t)@ == head_step(old(t)@, *m, p.map(), dt, joined, suffix@),
        final(t)@.1 == old(t)@.1 + 2,
{
    let name = name_or(p.str("from_name"), m, "from");
    assert(name@ == name_of(*m, p.map()));
    let from_id = scalar_string(m.get("from_id"));
    let id = scalar_string(m.get("id"));
    let ghost t0 = t@;
    let mut class: Vec<char> = Vec::new();
    push_all(&mut class, "message default clearfix");
    if joined {
        push_all(&mut class, " joined");
    }
    let class = string_of(&class);
    let mut idv: Vec<char> = Vec::new();
    push_all(&mut idv, "message");
    push_all(&mut idv, id.as_str());
    let idv = string_of(&idv);
    proof {
        reveal_strlit("");
    }
    let at = [a("class", class.as_str()), a("id", idv.as_str())];
    assert(pair_views(at@) =~= attr2("class"@, "message default clearfix"@ + if joined { " joined"@ } else { Seq::empty() }, "id"@, "message"@ + id@));
    t.open("div", &at);
    let ghost t1 = t@;
    if !joined {
        userpic(t, p, name.as_str(), from_id.as_str(), 42, "");
    }
    let ghost t2 = t@;
    assert(t2 == if joined { t1 } else { userpic_step(t1, p.map(), name_of(*m, p.map()), scalar_text(get(*m, "from_id"@)), 42, Seq::empty()) });
    let at = [a("class", "body")];
    assert(pair_views(at@) =~= attr1("class"@, "body"@));
    t.open("div", &at);
    let ghost t3 = t@;
    match dt {
        Some(d) => {
            let mut hm: Vec<char> = Vec::new();
            push_padded(&mut hm, d.hour as u64, 2);
            push_all(&mut hm, ":");
            push_padded(&mut hm, d.minute as u64, 2);
            let hm = string_of(&hm);
            let title = match parse_date(m.get("date")) {
                Some(dd) => {
                    let mut v: Vec<char> = Vec::new();
                    push_stamp(&mut v, &dd);
                    push_all(&mut v, " ");
                    push_all(&mut v, suffix);
                    string_of(&v)
                },
                None => String::new(),
            };
            let at = [a("class", "pull_right date details"), a("title", title.as_str())];
            assert(pair_views(at@) =~= attr2("class"@, "pull_right date details"@, "title"@, title_text(date_of(get(*m, "date"@)), suffix@)));
            t.leaf("div", esc(hm.as_str()).as_str(), &at);
        },
        None => {},
    }
    let ghost t4 = t@;
    if !joined && name.unicode_len() > 0 {
        let mut content: Vec<char> = Vec::new();
        push_all(&mut content, esc(name.as_str()).as_str());
        let via = match str_member(m, "via_bot") {
            Some(s) => s,
            None => "",
        };
        assert(via@ == str_or_empty(get(*m, "via_bot"@)));
        if via.unicode_len() > 0 {
            push_all(&mut content, " <span class=\"details\">via ");
            push_all(&mut content, esc(via).as_str());
            push_all(&mut content, "</span>");
        }
        let content = string_of(&content);
        assert(content@ == esc_text(name@) + via_text(*m));
        let at = [a("class", "from_name")];
        assert(pair_views(at@) =~= attr1("class"@, "from_name"@));
        t.leaf("div", content.as_str(), &at);
    }
}

fn forward(t: &mut Tree, m: &Json, p: &Presentation, show_header: bool, suffix: &str)
    requires
        old(t)@.1 + 8 < usize::MAX,
        colours_fit(p.map()),
    ensures
        final(t)@ == forward_step(old(t)@, *m, p.map(), show_header, suffix@),
        final(t)@.1 == old(t)@.1 + if get(*m, "forwarded_from"@) is Some { 1nat } else { 0nat },
{
    let fwd_name = name_or(p.str("forwarded_from_name"), m, "forwarded_from");
    assert(fwd_name@ == fwd_name_of(*m, p.map()));
    if show_header {
        let s = scalar_string(m.get("forwarded_from_id"));
        let peer = if s.unicode_len() == 0 { scalar_string(m.get("id")) } else { s };
        assert(peer@ == fwd_peer_of(*m));
        userpic(t, p, fwd_name.as_str(), peer.as_str(), 42, "forwarded");
    }
    let ghost t1 = t@;
    if m.contains_key("forwarded_from") {
        let at = [a("class", "forwarded body")];
        assert(pair_views(at@) =~= attr1("class"@, "forwarded body"@));
        t.open("div", &at);
        if show_header {
            let mut content: Vec<char> = Vec::new();
            push_all(&mut content, esc(fwd_name.as_str()).as_str());
            match parse_date(p.get("forwarded_date")) {
                Some(d) => {
                    let mut title: Vec<char> = Vec::new();
                    push_stamp(&mut title, &d);
                    push_all(&mut title, " ");
                    push_all(&mut title, suffix);
                    let title = string_of(&title);
                    let mut shown: Vec<char> = Vec::new();
                    push_stamp(&mut shown, &d);
                    let shown = string_of(&shown);
                    push_all(&mut content, "<span class=\"date details\" title=\"");
                    push_all(&mut content, esc(title.as_str()).as_str());
                    push_all(&mut content, "\"> ");
                    push_all(&mut content, esc(shown.as_str()).as_str());
                    push_all(&mut content, "</span>");
                },
                None => {},
            }
            let content = string_of(&content);
            assert(content@ == esc_text(fwd_name@) + fwd_span(p.map(), suffix@));
            let at = [a("class", "from_name")];
            assert(pair_views(at@) =~= attr1("class"@, "from_name"@));
            t.leaf("div", content.as_str(), &at);
        }
    }
}

/// Render one ordinary message. `last_group` is the album of the message
/// above, `suffix` the zone every tooltip ends with, and `link` the reply
/// link the writer worked out for it.
pub fn render_default(t: &mut Tree, m: &Json, p: &Presentation, dt: Option<Stamp>, joined: bool, last_group: Option<&str>, suffix: &str, link: Option<&str>)
    requires
        old(t)@.1 + 12 < usize::MAX,
        colours_fit(p.map()),
    ensures
        final(t)@ == default_step(old(t)@, *m, p.map(), dt, joined, match last_group { Some(g) => Some(g@), None => None }, suffix@, match link { Some(l) => Some(l@), None => None }),
        final(t)@.1 == old(t)@.1,
{
    let group = p.str("group");
    let same_album = match (group, last_group) {
        (Some(g), Some(l)) => same_chars(&chars_of(g), &chars_of(l)),
        _ => false,
    };
    let forwarded = m.contains_key("forwarded_from");
    let show_header = forwarded && (!joined || !same_album);
    assert(show_header == show_header_of(*m, p.map(), joined, match last_group { Some(g) => Some(g@), None => None }));
    let ghost t0 = t@;
    head(t, m, p, dt, joined, suffix);
    forward(t, m, p, show_header, suffix);
    render_reply(t, m, link);
    render_media(t, m, p);
    let text_html = render_entities(match m.get("text_entities") {
        Some(v) => Some(v),
        None => m.get("text"),
    });
    if text_html.unicode_len() > 0 {
        let at = [a("class", "text")];
        assert(pair_views(at@) =~= attr1("class"@, "text"@));
        t.leaf("div", text_html.as_str(), &at);
    }
    if forwarded {
        t.close("div");
    }
    crate::html::reactions::render(t, m, p);
    t.close("div");
    t.close("div");
}

} // verus!
