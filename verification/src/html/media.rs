//! Media rows: the coloured block Desktop draws for anything it does not
//! inline.

use vstd::prelude::*;
use crate::format::size::{duration_text, human_duration, human_size, size_text};
use crate::format::value::{
    get, lenient_int, lenient_int_field, scalar_string, scalar_text, str_field, str_of,
    str_or_empty, Json,
};
use crate::html::escape::{cleaned, collapsed, esc, esc_text, href_ok, safe_href};
use crate::html::page::{attr1, attr2};
use crate::html::tree::{a, close_step, leaf_step, open_step, pair_views, Tree, TreeState};
use crate::strings::{
    chars_of, contains_chars, contains_text, has_prefix, int_text, lowercase, owned, push_all,
    push_int, push_seq, starts, string_of, to_lower, trim, trim_bounds, string_of_range,
};

verus! {

/// Desktop's HTML wording for a file it did not save.
pub const TOO_LARGE_HTML: &'static str = "Exceeds maximum size, change data exporting settings to download.";
pub const NOT_INCLUDED_HTML: &'static str = "Not included, change data exporting settings to download.";
pub const UNAVAILABLE_HTML: &'static str = "Unavailable, please try again later.";

/// Every placeholder Desktop writes into `file` / `photo` starts with this.
pub const PLACEHOLDER_PREFIX: &'static str = "(File";

/// Which sentence a placeholder gets, given its lowercase text.
pub open spec fn placeholder_for(lowered: Seq<char>) -> Seq<char> {
    if contains_text(lowered, "exceeds maximum size"@) {
        TOO_LARGE_HTML@
    } else if contains_text(lowered, "not included"@) {
        NOT_INCLUDED_HTML@
    } else {
        UNAVAILABLE_HTML@
    }
}

/// The sentence for a placeholder whose text is already lowercase.
pub fn placeholder_for_lowered(lowered: &str) -> (s: &'static str)
    ensures
        s@ == placeholder_for(lowered@),
{
    let l = chars_of(lowered);
    if contains_chars(&l, &chars_of("exceeds maximum size")) {
        TOO_LARGE_HTML
    } else if contains_chars(&l, &chars_of("not included")) {
        NOT_INCLUDED_HTML
    } else {
        UNAVAILABLE_HTML
    }
}

/// Desktop's shorter in-row sentence for a placeholder, chosen by what the
/// JSON's longer wording says, in any case.
pub fn placeholder_text(value: &str) -> (s: &'static str)
    ensures
        s@ == placeholder_for(lowercase(value@)),
{
    let lowered = to_lower(value);
    placeholder_for_lowered(lowered.as_str())
}

/// Media Desktop shows as a coloured row: `media_type -> (row css class,
/// fixed title)`. No fixed title means the row titles itself from the file.
pub open spec fn style_of(media_type: Seq<char>) -> (Seq<char>, Option<Seq<char>>) {
    if media_type == "video_file"@ {
        ("media_video"@, Some("Video file"@))
    } else if media_type == "video_message"@ {
        ("media_video"@, Some("Video message"@))
    } else if media_type == "animation"@ {
        ("media_video"@, Some("Animation"@))
    } else if media_type == "voice_message"@ {
        ("media_voice_message"@, Some("Voice message"@))
    } else if media_type == "audio_file"@ {
        ("media_audio_file"@, None)
    } else if media_type == "sticker"@ {
        ("media_photo"@, Some("Sticker"@))
    } else if media_type == "dice"@ {
        ("media_file"@, Some("Dice"@))
    } else {
        ("media_file"@, None)
    }
}

/// A media type read aloud: each underscore becomes a space and a leading
/// lower-case ASCII letter becomes a capital.
pub open spec fn spoken(t: Seq<char>) -> Seq<char> {
    Seq::new(t.len(), |i: int|
        if t[i] == '_' {
            ' '
        } else if i == 0 && 'a' <= t[i] && t[i] <= 'z' {
            ((t[i] as int) - 32) as char
        } else {
            t[i]
        })
}

/// A row with a fixed title is titled by its own media type read aloud: a
/// `video_message` row says "Video message", never another type's title.
pub proof fn law_a_fixed_title_names_its_media_type(media_type: Seq<char>)
    ensures
        style_of(media_type).1 matches Some(title) ==> title == spoken(media_type),
{
    reveal_strlit("video_file");
    reveal_strlit("Video file");
    reveal_strlit("video_message");
    reveal_strlit("Video message");
    reveal_strlit("animation");
    reveal_strlit("Animation");
    reveal_strlit("voice_message");
    reveal_strlit("Voice message");
    reveal_strlit("audio_file");
    reveal_strlit("sticker");
    reveal_strlit("Sticker");
    reveal_strlit("dice");
    reveal_strlit("Dice");
    if media_type == "video_file"@ {
        assert(spoken(media_type) =~= "Video file"@);
    } else if media_type == "video_message"@ {
        assert(media_type.len() == 13 && media_type != "video_file"@);
        assert(spoken(media_type) =~= "Video message"@);
    } else if media_type == "animation"@ {
        assert(spoken(media_type) =~= "Animation"@);
    } else if media_type == "voice_message"@ {
        assert(spoken(media_type) =~= "Voice message"@);
    } else if media_type == "audio_file"@ {
    } else if media_type == "sticker"@ {
        assert(spoken(media_type) =~= "Sticker"@);
    } else if media_type == "dice"@ {
        assert(spoken(media_type) =~= "Dice"@);
    }
}

/// A row is coloured by what it plays: every kind of video shares the video
/// colour, a voice message and an audio file have their own, a sticker is
/// coloured as a photo and anything else as a file. Only an audio file and
/// an unknown type title themselves from the file.
pub proof fn law_a_row_is_coloured_by_what_it_plays(media_type: Seq<char>)
    ensures
        media_type == "video_file"@ || media_type == "video_message"@ || media_type == "animation"@
            ==> style_of(media_type).0 == "media_video"@,
        media_type == "voice_message"@ ==> style_of(media_type).0 == "media_voice_message"@,
        media_type == "audio_file"@ ==> style_of(media_type).0 == "media_audio_file"@,
        media_type == "sticker"@ ==> style_of(media_type).0 == "media_photo"@,
        media_type == "dice"@ ==> style_of(media_type).0 == "media_file"@,
        style_of(media_type).1 is None <==> media_type == "audio_file"@ || !(media_type == "video_file"@
            || media_type == "video_message"@ || media_type == "animation"@ || media_type == "voice_message"@
            || media_type == "sticker"@ || media_type == "dice"@),
{
    reveal_strlit("video_file");
    reveal_strlit("video_message");
    reveal_strlit("animation");
    reveal_strlit("voice_message");
    reveal_strlit("audio_file");
    reveal_strlit("sticker");
    reveal_strlit("dice");
    assert("video_file"@.len() == 10 && "video_message"@.len() == 13 && "animation"@.len() == 9);
    assert("voice_message"@.len() == 13 && "audio_file"@.len() == 10 && "sticker"@.len() == 7);
    assert("dice"@.len() == 4 && "video_message"@[1] != "voice_message"@[1]);
    assert("video_file"@[0] != "audio_file"@[0]);
}

/// A document row whose media type has a fixed title carries that type's
/// name read aloud, whatever the file is called.
pub proof fn law_a_file_row_is_titled_by_its_media_type(m: Json)
    requires
        get(m, "photo"@) is None,
        get(m, "file"@) is Some,
        style_of(str_or_empty(get(m, "media_type"@))).1 is Some,
    ensures
        (media_row(m) matches Some(r) && r.title == spoken(str_or_empty(get(m, "media_type"@)))),
{
    law_a_fixed_title_names_its_media_type(str_or_empty(get(m, "media_type"@)));
}

fn same_as(s: &Vec<char>, lit: &str) -> (b: bool)
    ensures
        b == (s@ == lit@),
{
    crate::strings::same_chars(s, &chars_of(lit))
}

fn row_style(media_type: &str) -> (r: (&'static str, Option<&'static str>))
    ensures
        r.0@ == style_of(media_type@).0,
        match r.1 {
            Some(t) => style_of(media_type@).1 == Some(t@),
            None => style_of(media_type@).1 is None,
        },
{
    let m = chars_of(media_type);
    if same_as(&m, "video_file") {
        ("media_video", Some("Video file"))
    } else if same_as(&m, "video_message") {
        ("media_video", Some("Video message"))
    } else if same_as(&m, "animation") {
        ("media_video", Some("Animation"))
    } else if same_as(&m, "voice_message") {
        ("media_voice_message", Some("Voice message"))
    } else if same_as(&m, "audio_file") {
        ("media_audio_file", None)
    } else if same_as(&m, "sticker") {
        ("media_photo", Some("Sticker"))
    } else if same_as(&m, "dice") {
        ("media_file", Some("Dice"))
    } else {
        ("media_file", None)
    }
}

/// Is this value one of Desktop's `(File …)` placeholders?
pub open spec fn placeholder_value(v: Option<Json>) -> bool {
    match str_of(v) {
        Some(s) => starts(s, PLACEHOLDER_PREFIX@),
        None => false,
    }
}

pub fn is_placeholder(value: Option<&Json>) -> (b: bool)
    ensures
        b == placeholder_value(match value { Some(x) => Some(*x), None => None }),
{
    match value {
        Some(v) => match v.as_str() {
            Some(s) => has_prefix(&chars_of(s), &chars_of(PLACEHOLDER_PREFIX)),
            None => false,
        },
        None => false,
    }
}

/// One media row's content.
#[derive(Debug, Clone, PartialEq)]
pub struct Row {
    pub css: String,
    pub title: String,
    pub description: String,
    pub status: String,
    pub href: Option<String>,
}

/// A row as text.
pub struct RowText {
    pub css: Seq<char>,
    pub title: Seq<char>,
    pub description: Seq<char>,
    pub status: Seq<char>,
    pub href: Option<Seq<char>>,
}

pub open spec fn row_text(r: Row) -> RowText {
    RowText {
        css: r.css@,
        title: r.title@,
        description: r.description@,
        status: r.status@,
        href: match r.href { Some(h) => Some(h@), None => None },
    }
}

/// The non-empty parts, joined by `sep`.
pub open spec fn joined_nonempty(parts: Seq<Seq<char>>, sep: Seq<char>) -> Seq<char>
    decreases parts.len(),
{
    if parts.len() == 0 {
        Seq::empty()
    } else {
        let before = joined_nonempty(parts.drop_last(), sep);
        let p = parts.last();
        if p.len() == 0 { before } else if before.len() == 0 { p } else { before + sep + p }
    }
}

fn join_with(parts: &[String], sep: &str) -> (s: String)
    ensures
        s@ == joined_nonempty(parts@.map_values(|p: String| p@), sep@),
{
    let ghost pv = parts@.map_values(|p: String| p@);
    let mut v: Vec<char> = Vec::new();
    let mut i: usize = 0;
    while i < parts.len()
        invariant
            i <= parts@.len(),
            pv == parts@.map_values(|p: String| p@),
            v@ == joined_nonempty(pv.take(i as int), sep@),
        decreases parts.len() - i,
    {
        assert(pv.take(i + 1).drop_last() == pv.take(i as int));
        assert(pv.take(i + 1).last() == parts@[i as int]@);
        let p = parts[i].as_str();
        if p.unicode_len() > 0 {
            if v.len() > 0 {
                push_all(&mut v, sep);
            }
            push_all(&mut v, p);
        }
        i += 1;
    }
    assert(pv.take(parts@.len() as int) == pv);
    string_of(&v)
}

/// The non-empty parts, comma-joined.
pub fn join_nonempty(parts: &[String]) -> (s: String)
    ensures
        s@ == joined_nonempty(parts@.map_values(|p: String| p@), ", "@),
{
    join_with(parts, ", ")
}

/// The non-empty parts, space-joined.
pub fn join_space(parts: &[String]) -> (s: String)
    ensures
        s@ == joined_nonempty(parts@.map_values(|p: String| p@), " "@),
{
    join_with(parts, " ")
}

/// What a media row says about the message, or `None` when it carries
/// nothing that gets one: a photo, a document, a contact, a location, a
/// game or an invoice, tried in that order.
pub open spec fn media_row(m: Json) -> Option<RowText> {
    let media_type = str_or_empty(get(m, "media_type"@));
    match get(m, "photo"@) {
        Some(photo) => {
            let placeholder = placeholder_value(Some(photo));
            let w = lenient_int(get(m, "width"@));
            let h = lenient_int(get(m, "height"@));
            let dims = if w > 0 && h > 0 { int_text(w) + "\u{d7}"@ + int_text(h) } else { Seq::empty() };
            let size = if placeholder { size_text(lenient_int(get(m, "photo_file_size"@))) } else { Seq::empty() };
            let path = str_or_empty(Some(photo));
            Some(RowText {
                css: "media_photo"@,
                title: "Photo"@,
                description: if placeholder { placeholder_for(lowercase(path)) } else { Seq::empty() },
                status: joined_nonempty(seq![dims, size], ", "@),
                href: if placeholder { None } else { Some(path) },
            })
        },
        None => match get(m, "file"@) {
            Some(file) => {
                let placeholder = placeholder_value(Some(file));
                let (css, fixed) = style_of(media_type);
                let named = str_or_empty(get(m, "title"@));
                let file_name = str_or_empty(get(m, "file_name"@));
                let base = if named.len() > 0 { named } else if file_name.len() > 0 { file_name } else { "File"@ };
                let performer = str_or_empty(get(m, "performer"@));
                let title = match fixed {
                    Some(t) => t,
                    None => if performer.len() == 0 { base } else { performer + " - "@ + base },
                };
                let timed = media_type == "video_file"@ || media_type == "video_message"@
                    || media_type == "voice_message"@ || media_type == "audio_file"@;
                let sized = media_type != "voice_message"@;
                let status = if media_type == "sticker"@ {
                    str_or_empty(get(m, "sticker_emoji"@))
                } else {
                    joined_nonempty(seq![
                        if timed { duration_text(lenient_int(get(m, "duration_seconds"@))) } else { Seq::empty() },
                        if sized { size_text(lenient_int(get(m, "file_size"@))) } else { Seq::empty() },
                    ], ", "@)
                };
                let path = str_or_empty(Some(file));
                Some(RowText {
                    css,
                    title,
                    description: if placeholder { placeholder_for(lowercase(path)) } else { Seq::empty() },
                    status,
                    href: if placeholder { None } else { Some(path) },
                })
            },
            None => other_row(m),
        },
    }
}

/// The rows after photo and document: contact, location, game, invoice.
pub open spec fn other_row(m: Json) -> Option<RowText> {
    match get(m, "contact_information"@) {
        Some(Json::Object(_)) => {
            let c = get(m, "contact_information"@)->0;
            let name = joined_nonempty(seq![str_or_empty(get(c, "first_name"@)), str_or_empty(get(c, "last_name"@))], " "@);
            Some(RowText {
                css: "media_contact"@,
                title: if name.len() == 0 { "Contact"@ } else { name },
                description: Seq::empty(),
                status: str_or_empty(get(c, "phone_number"@)),
                href: None,
            })
        },
        _ => match get(m, "location_information"@) {
            Some(Json::Object(_)) => {
                let loc = get(m, "location_information"@)->0;
                let lat = scalar_text(get(loc, "latitude"@));
                let lon = scalar_text(get(loc, "longitude"@));
                let live = get(m, "live_location_period_seconds"@) is Some;
                let place = str_or_empty(get(m, "place_name"@));
                Some(RowText {
                    css: if live { "media_live_location"@ } else { "media_location"@ },
                    title: if place.len() > 0 { place } else if live { "Live location"@ } else { "Location"@ },
                    description: str_or_empty(get(m, "address"@)),
                    status: lat + ", "@ + lon,
                    href: Some("https://maps.google.com/maps?q="@ + lat + ","@ + lon + "&ll="@ + lat + ","@ + lon + "&z=16"@),
                })
            },
            _ => if str_or_empty(get(m, "game_title"@)).len() > 0 {
                Some(RowText {
                    css: "media_game"@,
                    title: str_or_empty(get(m, "game_title"@)),
                    description: str_or_empty(get(m, "game_description"@)),
                    status: Seq::empty(),
                    href: str_of(get(m, "game_link"@)),
                })
            } else {
                match get(m, "invoice_information"@) {
                    Some(Json::Object(_)) => {
                        let inv = get(m, "invoice_information"@)->0;
                        let title = str_or_empty(get(inv, "title"@));
                        Some(RowText {
                            css: "media_invoice"@,
                            title: if title.len() == 0 { "Invoice"@ } else { title },
                            description: str_or_empty(get(inv, "description"@)),
                            status: trim(str_or_empty(get(inv, "amount"@)) + " "@ + str_or_empty(get(inv, "currency"@))),
                            href: None,
                        })
                    },
                    _ => None,
                }
            }
        },
    }
}

fn cat(parts: &[&str]) -> (s: String)
    ensures
        s@ == concat_all(parts@.map_values(|p: &str| p@)),
{
    let ghost pv = parts@.map_values(|p: &str| p@);
    let mut v: Vec<char> = Vec::new();
    let mut i: usize = 0;
    while i < parts.len()
        invariant
            i <= parts@.len(),
            pv == parts@.map_values(|p: &str| p@),
            v@ == concat_all(pv.take(i as int)),
        decreases parts.len() - i,
    {
        assert(pv.take(i + 1).drop_last() == pv.take(i as int));
        push_all(&mut v, parts[i]);
        i += 1;
    }
    assert(pv.take(parts@.len() as int) == pv);
    string_of(&v)
}

/// The pieces, one after another.
pub open spec fn concat_all(parts: Seq<Seq<char>>) -> Seq<char>
    decreases parts.len(),
{
    if parts.len() == 0 { Seq::empty() } else { concat_all(parts.drop_last()) + parts.last() }
}

fn int_string(n: i64) -> (s: String)
    ensures
        s@ == int_text(n as int),
{
    let mut v: Vec<char> = Vec::new();
    push_int(&mut v, n);
    assert(Seq::<char>::empty() + int_text(n as int) == int_text(n as int));
    string_of(&v)
}

fn photo_row(m: &Json, photo: &Json) -> (r: Row)
    requires
        get(*m, "photo"@) == Some(*photo),
    ensures
        media_row(*m) == Some(row_text(r)),
{
    let placeholder = is_placeholder(Some(photo));
    let w = lenient_int_field(m, "width");
    let h = lenient_int_field(m, "height");
    let dims = if w > 0 && h > 0 {
        let mut d: Vec<char> = Vec::new();
        push_int(&mut d, w);
        push_all(&mut d, "\u{d7}");
        push_int(&mut d, h);
        assert(d@ == int_text(w as int) + "\u{d7}"@ + int_text(h as int));
        string_of(&d)
    } else {
        String::new()
    };
    let size = if placeholder { human_size(lenient_int_field(m, "photo_file_size")) } else { String::new() };
    let path = match photo.as_str() {
        Some(s) => owned(s),
        None => String::new(),
    };
    let parts = [dims, size];
    let status = join_nonempty(&parts);
    proof {
        let pv = parts@.map_values(|p: String| p@);
        assert(pv =~= seq![parts@[0]@, parts@[1]@]);
    }
    Row {
        css: owned("media_photo"),
        title: owned("Photo"),
        description: if placeholder { owned(placeholder_text(path.as_str())) } else { String::new() },
        status,
        href: if placeholder { None } else { Some(path) },
    }
}

fn document_row(m: &Json, file: &Json) -> (r: Row)
    requires
        get(*m, "photo"@) is None,
        get(*m, "file"@) == Some(*file),
    ensures
        media_row(*m) == Some(row_text(r)),
{
    let media_type = str_field(m, "media_type");
    let placeholder = is_placeholder(Some(file));
    let (css, fixed) = row_style(media_type.as_str());
    let title = match fixed {
        Some(t) => owned(t),
        None => {
            let named = str_field(m, "title");
            let file_name = str_field(m, "file_name");
            let base = if named.unicode_len() > 0 {
                named
            } else if file_name.unicode_len() > 0 {
                file_name
            } else {
                owned("File")
            };
            let performer = str_field(m, "performer");
            if performer.unicode_len() == 0 {
                base
            } else {
                let mut v: Vec<char> = Vec::new();
                push_all(&mut v, performer.as_str());
                push_all(&mut v, " - ");
                push_all(&mut v, base.as_str());
                string_of(&v)
            }
        },
    };
    let mt = chars_of(media_type.as_str());
    let status = if same_as(&mt, "sticker") {
        str_field(m, "sticker_emoji")
    } else {
        let timed = same_as(&mt, "video_file") || same_as(&mt, "video_message") || same_as(&mt, "voice_message") || same_as(&mt, "audio_file");
        let sized = !same_as(&mt, "voice_message");
        let parts = [
            if timed { human_duration(lenient_int_field(m, "duration_seconds")) } else { String::new() },
            if sized { human_size(lenient_int_field(m, "file_size")) } else { String::new() },
        ];
        let st = join_nonempty(&parts);
        proof {
            let pv = parts@.map_values(|p: String| p@);
            assert(pv =~= seq![parts@[0]@, parts@[1]@]);
        }
        st
    };
    let path = match file.as_str() {
        Some(s) => owned(s),
        None => String::new(),
    };
    Row {
        css: owned(css),
        title,
        description: if placeholder { owned(placeholder_text(path.as_str())) } else { String::new() },
        status,
        href: if placeholder { None } else { Some(path) },
    }
}

fn contact_row(m: &Json, c: &Json) -> (r: Row)
    requires
        get(*m, "photo"@) is None,
        get(*m, "file"@) is None,
        get(*m, "contact_information"@) == Some(*c),
        c is Object,
    ensures
        media_row(*m) == Some(row_text(r)),
{
    let parts = [str_field(c, "first_name"), str_field(c, "last_name")];
    let name = join_space(&parts);
    proof {
        let pv = parts@.map_values(|p: String| p@);
        assert(pv =~= seq![parts@[0]@, parts@[1]@]);
    }
    Row {
        css: owned("media_contact"),
        title: if name.unicode_len() == 0 { owned("Contact") } else { name },
        description: String::new(),
        status: str_field(c, "phone_number"),
        href: None,
    }
}

fn location_row(m: &Json, loc: &Json) -> (r: Row)
    requires
        get(*m, "photo"@) is None,
        get(*m, "file"@) is None,
        !(get(*m, "contact_information"@) matches Some(Json::Object(_))),
        get(*m, "location_information"@) == Some(*loc),
        loc is Object,
    ensures
        media_row(*m) == Some(row_text(r)),
{
    let lat = scalar_string(loc.get("latitude"));
    let lon = scalar_string(loc.get("longitude"));
    let live = m.contains_key("live_location_period_seconds");
    let place = str_field(m, "place_name");
    let title = if place.unicode_len() > 0 {
        place
    } else if live {
        owned("Live location")
    } else {
        owned("Location")
    };
    let mut st: Vec<char> = Vec::new();
    push_all(&mut st, lat.as_str());
    push_all(&mut st, ", ");
    push_all(&mut st, lon.as_str());
    let mut h: Vec<char> = Vec::new();
    push_all(&mut h, "https://maps.google.com/maps?q=");
    push_all(&mut h, lat.as_str());
    push_all(&mut h, ",");
    push_all(&mut h, lon.as_str());
    push_all(&mut h, "&ll=");
    push_all(&mut h, lat.as_str());
    push_all(&mut h, ",");
    push_all(&mut h, lon.as_str());
    push_all(&mut h, "&z=16");
    Row {
        css: owned(if live { "media_live_location" } else { "media_location" }),
        title,
        description: str_field(m, "address"),
        status: string_of(&st),
        href: Some(string_of(&h)),
    }
}

fn invoice_row(m: &Json, inv: &Json) -> (r: Row)
    requires
        get(*m, "photo"@) is None,
        get(*m, "file"@) is None,
        !(get(*m, "contact_information"@) matches Some(Json::Object(_))),
        !(get(*m, "location_information"@) matches Some(Json::Object(_))),
        str_or_empty(get(*m, "game_title"@)).len() == 0,
        get(*m, "invoice_information"@) == Some(*inv),
        inv is Object,
    ensures
        media_row(*m) == Some(row_text(r)),
{
    let title = str_field(inv, "title");
    let mut st: Vec<char> = Vec::new();
    push_all(&mut st, str_field(inv, "amount").as_str());
    push_all(&mut st, " ");
    push_all(&mut st, str_field(inv, "currency").as_str());
    let (lo, hi) = trim_bounds(&st);
    Row {
        css: owned("media_invoice"),
        title: if title.unicode_len() == 0 { owned("Invoice") } else { title },
        description: str_field(inv, "description"),
        status: string_of_range(&st, lo, hi),
        href: None,
    }
}

/// The media row for a message, or `None` when it carries nothing that
/// gets one.
pub fn row_fields(m: &Json) -> (r: Option<Row>)
    ensures
        match r {
            Some(row) => media_row(*m) == Some(row_text(row)),
            None => media_row(*m) is None,
        },
{
    if let Some(photo) = m.get("photo") {
        return Some(photo_row(m, photo));
    }
    if let Some(file) = m.get("file") {
        return Some(document_row(m, file));
    }
    if let Some(c) = m.get("contact_information") {
        if let Json::Object(_) = c {
            return Some(contact_row(m, c));
        }
    }
    if let Some(loc) = m.get("location_information") {
        if let Json::Object(_) = loc {
            return Some(location_row(m, loc));
        }
    }
    let game = str_field(m, "game_title");
    if game.unicode_len() > 0 {
        let link = match m.get("game_link") {
            Some(v) => match v.as_str() {
                Some(s) => Some(owned(s)),
                None => None,
            },
            None => None,
        };
        return Some(Row {
            css: owned("media_game"),
            title: game,
            description: str_field(m, "game_description"),
            status: String::new(),
            href: link,
        });
    }
    if let Some(inv) = m.get("invoice_information") {
        if let Json::Object(_) = inv {
            return Some(invoice_row(m, inv));
        }
    }
    None
}

/// A target as `safe_href` leaves it: cleaned when taken, else nothing.
pub open spec fn vetted(h: Option<Seq<char>>) -> Option<Seq<char>> {
    match h {
        Some(u) => if href_ok(u, lowercase(collapsed(u))) { Some(cleaned(u)) } else { None },
        None => None,
    }
}

/// One media row: a link to the file when its target is safe, else the
/// unlinked form Desktop uses for a file it did not save.
pub open spec fn file_row_step(t: TreeState, r: RowText) -> TreeState {
    let href = vetted(r.href);
    let t1 = open_step(t, "div"@, attr1("class"@, "media_wrap clearfix"@));
    let t2 = match href {
        Some(h) => open_step(t1, "a"@, attr2("class"@, "media clearfix pull_left block_link "@ + r.css, "href"@, h)),
        None => open_step(t1, "div"@, attr1("class"@, "media clearfix pull_left "@ + r.css)),
    };
    let t3 = close_step(open_step(t2, "div"@, attr1("class"@, "fill pull_left"@)), "div"@);
    let t4 = open_step(t3, "div"@, attr1("class"@, "body"@));
    let t5 = leaf_step(t4, "div"@, esc_text(r.title), attr1("class"@, "title bold"@));
    let t6 = if r.description.len() > 0 { leaf_step(t5, "div"@, esc_text(r.description), attr1("class"@, "description"@)) } else { t5 };
    let t7 = leaf_step(t6, "div"@, esc_text(r.status), attr1("class"@, "status details"@));
    let t8 = close_step(t7, "div"@);
    let t9 = close_step(t8, if href is Some { "a"@ } else { "div"@ });
    close_step(t9, "div"@)
}

/// Emit one media row. The href is vetted here rather than trusted.
pub fn file_row(t: &mut Tree, row: &Row)
    requires
        old(t)@.1 + 4 < usize::MAX,
    ensures
        final(t)@ == file_row_step(old(t)@, row_text(*row)),
        final(t)@.1 == old(t)@.1,
{
    let href = match &row.href {
        Some(h) => safe_href(h.as_str()),
        None => None,
    };
    let at = [a("class", "media_wrap clearfix")];
    assert(pair_views(at@) =~= attr1("class"@, "media_wrap clearfix"@));
    t.open("div", &at);
    match &href {
        Some(h) => {
            let mut c: Vec<char> = Vec::new();
            push_all(&mut c, "media clearfix pull_left block_link ");
            push_all(&mut c, row.css.as_str());
            let c = string_of(&c);
            let at = [a("class", c.as_str()), a("href", h.as_str())];
            assert(pair_views(at@) =~= attr2("class"@, "media clearfix pull_left block_link "@ + row.css@, "href"@, h@));
            t.open("a", &at);
        },
        None => {
            let mut c: Vec<char> = Vec::new();
            push_all(&mut c, "media clearfix pull_left ");
            push_all(&mut c, row.css.as_str());
            let c = string_of(&c);
            let at = [a("class", c.as_str())];
            assert(pair_views(at@) =~= attr1("class"@, "media clearfix pull_left "@ + row.css@));
            t.open("div", &at);
        },
    }
    let at = [a("class", "fill pull_left")];
    assert(pair_views(at@) =~= attr1("class"@, "fill pull_left"@));
    t.open("div", &at);
    t.close("div");
    let at = [a("class", "body")];
    assert(pair_views(at@) =~= attr1("class"@, "body"@));
    t.open("div", &at);
    let at = [a("class", "title bold")];
    assert(pair_views(at@) =~= attr1("class"@, "title bold"@));
    t.leaf("div", esc(row.title.as_str()).as_str(), &at);
    if row.description.unicode_len() > 0 {
        let at = [a("class", "description")];
        assert(pair_views(at@) =~= attr1("class"@, "description"@));
        t.leaf("div", esc(row.description.as_str()).as_str(), &at);
    }
    let at = [a("class", "status details")];
    assert(pair_views(at@) =~= attr1("class"@, "status details"@));
    t.leaf("div", esc(row.status.as_str()).as_str(), &at);
    t.close("div");
    t.close(if href.is_some() { "a" } else { "div" });
    t.close("div");
}

} // verus!
