//! Escaping, and the allowlist that decides what may become a link.
//!
//! An exported archive opens as a local file, so anything that survives into
//! it executes with that file's origin. Everything interpolated into markup
//! goes through [`esc`]; every href goes through [`safe_href`]; and an id or
//! a string reaching a JavaScript handler is code, not text.

use vstd::prelude::*;
use crate::format::value::{int_of, Json};
use crate::strings::{
    chars_of, is_ws, is_ws_char, lowercase, parse_i64, parse_int, push_all, push_seq, starts,
    string_of, to_lower, trim, trim_bounds,
};

verus! {

/// What one character becomes under Desktop's escaping.
pub open spec fn esc_char(c: char) -> Seq<char> {
    if c == '&' {
        "&amp;"@
    } else if c == '<' {
        "&lt;"@
    } else if c == '>' {
        "&gt;"@
    } else if c == '"' {
        "&quot;"@
    } else if c == '\'' {
        "&apos;"@
    } else {
        seq![c]
    }
}

/// Desktop's HTML escaping of a whole string, character by character.
pub open spec fn esc_text(s: Seq<char>) -> Seq<char>
    decreases s.len(),
{
    if s.len() == 0 {
        Seq::empty()
    } else {
        esc_text(s.drop_last()) + esc_char(s.last())
    }
}

/// What one character becomes inside an attribute, after escaping.
pub open spec fn ctrl_char(c: char) -> Seq<char> {
    if c == '\t' {
        "&#x09;"@
    } else if c == '\n' {
        "&#x0a;"@
    } else if c == '\r' {
        "&#x0d;"@
    } else {
        seq![c]
    }
}

pub open spec fn ctrl_text(s: Seq<char>) -> Seq<char>
    decreases s.len(),
{
    if s.len() == 0 {
        Seq::empty()
    } else {
        ctrl_text(s.drop_last()) + ctrl_char(s.last())
    }
}

/// An attribute value: escaped, then tab, newline and carriage return
/// written as character references.
pub open spec fn attr_text(s: Seq<char>) -> Seq<char> {
    ctrl_text(esc_text(s))
}

/// Append what `c` becomes under [`esc_char`].
fn push_esc_char(v: &mut Vec<char>, c: char)
    ensures
        final(v)@ == old(v)@ + esc_char(c),
{
    if c == '&' {
        push_all(v, "&amp;");
    } else if c == '<' {
        push_all(v, "&lt;");
    } else if c == '>' {
        push_all(v, "&gt;");
    } else if c == '"' {
        push_all(v, "&quot;");
    } else if c == '\'' {
        push_all(v, "&apos;");
    } else {
        v.push(c);
    }
}

/// The escaped characters of `s`, appended to `v`.
pub fn push_escaped(v: &mut Vec<char>, s: &Vec<char>)
    ensures
        final(v)@ == old(v)@ + esc_text(s@),
{
    let ghost start = v@;
    let mut i: usize = 0;
    while i < s.len()
        invariant
            i <= s.len(),
            v@ == start + esc_text(s@.take(i as int)),
        decreases s.len() - i,
    {
        assert(s@.take(i + 1).drop_last() == s@.take(i as int));
        push_esc_char(v, s[i]);
        assert(start + esc_text(s@.take(i as int)) + esc_char(s@[i as int]) == start + esc_text(s@.take(i + 1)));
        i += 1;
    }
    assert(s@.take(s.len() as int) == s@);
}

/// Escape for HTML the way Desktop does: `&apos;` for an apostrophe.
pub fn esc(text: &str) -> (s: String)
    ensures
        s@ == esc_text(text@),
{
    let cs = chars_of(text);
    let mut v: Vec<char> = Vec::new();
    push_escaped(&mut v, &cs);
    assert(v@ == esc_text(text@));
    string_of(&v)
}

/// The attribute form of `s`, appended to `v`.
pub fn push_attr(v: &mut Vec<char>, s: &Vec<char>)
    ensures
        final(v)@ == old(v)@ + attr_text(s@),
{
    let mut e: Vec<char> = Vec::new();
    push_escaped(&mut e, s);
    assert(e@ == esc_text(s@));
    let ghost start = v@;
    let mut i: usize = 0;
    while i < e.len()
        invariant
            i <= e.len(),
            v@ == start + ctrl_text(e@.take(i as int)),
        decreases e.len() - i,
    {
        assert(e@.take(i + 1).drop_last() == e@.take(i as int));
        let c = e[i];
        if c == '\t' {
            push_all(v, "&#x09;");
        } else if c == '\n' {
            push_all(v, "&#x0a;");
        } else if c == '\r' {
            push_all(v, "&#x0d;");
        } else {
            v.push(c);
        }
        assert(start + ctrl_text(e@.take(i as int)) + ctrl_char(c) == start + ctrl_text(e@.take(i + 1)));
        i += 1;
    }
    assert(e@.take(e.len() as int) == e@);
}

/// Escape an attribute the way Desktop does, control characters included.
pub fn attr_value(text: &str) -> (s: String)
    ensures
        s@ == attr_text(text@),
{
    let cs = chars_of(text);
    let mut v: Vec<char> = Vec::new();
    push_attr(&mut v, &cs);
    assert(v@ == attr_text(text@));
    string_of(&v)
}

/// Schemes allowed to survive into an href. Declared once.
pub const SAFE_SCHEMES: [&'static str; 6] = [
    "http://", "https://", "mailto:", "tel:", "ftp://", "ftps://",
];

/// Does `lowered` start with one of the safe schemes?
pub open spec fn has_scheme_prefix(lowered: Seq<char>) -> bool {
    exists|i: int| 0 <= i < 6 && starts(lowered, #[trigger] SAFE_SCHEMES@[i]@)
}

/// Does an already-lowercased URL start with a safe scheme?
pub fn starts_with_safe_scheme(lowered: &str) -> (b: bool)
    ensures
        b == has_scheme_prefix(lowered@),
{
    let l = chars_of(lowered);
    let mut i: usize = 0;
    while i < 6
        invariant
            i <= 6,
            l@ == lowered@,
            forall|k: int| 0 <= k < i ==> !starts(lowered@, #[trigger] SAFE_SCHEMES@[k]@),
        decreases 6 - i,
    {
        let p = chars_of(SAFE_SCHEMES[i]);
        if crate::strings::has_prefix(&l, &p) {
            return true;
        }
        i += 1;
    }
    false
}

/// Does this URL already carry a safe scheme, in any case? For deciding
/// whether a URL is absolute; it is not a safety test.
pub fn has_safe_scheme(url: &str) -> (b: bool)
    ensures
        b == has_scheme_prefix(lowercase(url@)),
{
    let lowered = to_lower(url);
    starts_with_safe_scheme(lowered.as_str())
}

/// `url` with every control character (below U+0020, and U+007F) removed.
pub open spec fn drop_controls(s: Seq<char>) -> Seq<char>
    decreases s.len(),
{
    if s.len() == 0 {
        Seq::empty()
    } else {
        let c = s.last();
        drop_controls(s.drop_last()) + if (c as u32) >= 0x20 && c != '\u{7f}' { seq![c] } else { Seq::empty() }
    }
}

/// `s` with every whitespace character removed, which is what joining the
/// pieces of `split_whitespace` gives.
pub open spec fn drop_ws(s: Seq<char>) -> Seq<char>
    decreases s.len(),
{
    if s.len() == 0 {
        Seq::empty()
    } else {
        let c = s.last();
        drop_ws(s.drop_last()) + if is_ws(c) { Seq::empty() } else { seq![c] }
    }
}

/// The URL as it is kept: control characters out, then trimmed.
pub open spec fn cleaned(url: Seq<char>) -> Seq<char> {
    trim(drop_controls(url))
}

/// The URL as it is judged: the kept form with all whitespace squeezed out.
pub open spec fn collapsed(url: Seq<char>) -> Seq<char> {
    drop_ws(cleaned(url))
}

/// Is `c` a forward or backward slash?
pub open spec fn is_slash(c: char) -> bool {
    c == '/' || c == '\\'
}

/// The part before the first `:`, if the collapsed URL has one.
pub open spec fn scheme_part(s: Seq<char>) -> Option<Seq<char>> {
    match crate::strings::find(s, ':') {
        Some(i) => Some(s.take(i)),
        None => None,
    }
}

/// Whether a URL may be an href, given the lowercase form of its collapsed
/// text: never when blank or host-relative (`//`, `\\`, `/\`, `\/`); yes for
/// a safe scheme; yes with no scheme at all; otherwise only when what sits
/// before the first `:` holds `/`, `?` or `#` and so is no scheme.
pub open spec fn href_ok(url: Seq<char>, lowered: Seq<char>) -> bool {
    let k = cleaned(url);
    let c = collapsed(url);
    if url.len() == 0 || k.len() == 0 {
        false
    } else if c.len() >= 2 && is_slash(c[0]) && is_slash(c[1]) {
        false
    } else if has_scheme_prefix(lowered) {
        true
    } else {
        match scheme_part(c) {
            None => true,
            Some(p) => p.contains('/') || p.contains('?') || p.contains('#'),
        }
    }
}

fn filter_controls(s: &Vec<char>) -> (r: Vec<char>)
    ensures
        r@ == drop_controls(s@),
{
    let mut r: Vec<char> = Vec::new();
    let mut i: usize = 0;
    while i < s.len()
        invariant
            i <= s.len(),
            r@ == drop_controls(s@.take(i as int)),
        decreases s.len() - i,
    {
        assert(s@.take(i + 1).drop_last() == s@.take(i as int));
        let c = s[i];
        if (c as u32) >= 0x20 && c != '\u{7f}' {
            r.push(c);
        }
        assert(r@ == drop_controls(s@.take(i + 1)));
        i += 1;
    }
    assert(s@.take(s.len() as int) == s@);
    r
}

fn filter_ws(s: &Vec<char>) -> (r: Vec<char>)
    ensures
        r@ == drop_ws(s@),
{
    let mut r: Vec<char> = Vec::new();
    let mut i: usize = 0;
    while i < s.len()
        invariant
            i <= s.len(),
            r@ == drop_ws(s@.take(i as int)),
        decreases s.len() - i,
    {
        assert(s@.take(i + 1).drop_last() == s@.take(i as int));
        let c = s[i];
        if !is_ws_char(c) {
            r.push(c);
        }
        assert(r@ == drop_ws(s@.take(i + 1)));
        i += 1;
    }
    assert(s@.take(s.len() as int) == s@);
    r
}

fn contains_char(s: &Vec<char>, from: usize, to: usize, c: char) -> (b: bool)
    requires
        from <= to <= s.len(),
    ensures
        b == s@.subrange(from as int, to as int).contains(c),
{
    let mut i: usize = from;
    while i < to
        invariant
            from <= i <= to <= s.len(),
            forall|k: int| from <= k < i ==> #[trigger] s@[k] != c,
        decreases to - i,
    {
        if s[i] == c {
            assert(s@.subrange(from as int, to as int)[i - from] == c);
            return true;
        }
        i += 1;
    }
    assert forall|k: int| 0 <= k < to - from implies #[trigger] s@.subrange(from as int, to as int)[k] != c by {
        assert(s@.subrange(from as int, to as int)[k] == s@[k + from]);
    }
    false
}

/// The kept form of a URL, and its collapsed form.
fn clean_and_collapse(url: &str) -> (r: (Vec<char>, Vec<char>))
    ensures
        r.0@ == cleaned(url@),
        r.1@ == collapsed(url@),
{
    let raw = chars_of(url);
    let kept = filter_controls(&raw);
    let (lo, hi) = trim_bounds(&kept);
    let mut k: Vec<char> = Vec::new();
    let mut i: usize = lo;
    while i < hi
        invariant
            lo <= i <= hi <= kept.len(),
            k@ == kept@.subrange(lo as int, i as int),
        decreases hi - i,
    {
        k.push(kept[i]);
        assert(kept@.subrange(lo as int, i + 1) == kept@.subrange(lo as int, i as int).push(kept@[i as int]));
        i += 1;
    }
    let c = filter_ws(&k);
    (k, c)
}

/// Decide an href, given the lowercase form of the URL's collapsed text.
pub fn judge_href(url: &str, lowered: &str) -> (r: Option<String>)
    ensures
        href_ok(url@, lowered@) ==> (r matches Some(s) && s@ == cleaned(url@)),
        !href_ok(url@, lowered@) ==> r is None,
{
    let (k, c) = clean_and_collapse(url);
    let raw = chars_of(url);
    if raw.len() == 0 || k.len() == 0 {
        return None;
    }
    if c.len() >= 2 && (c[0] == '/' || c[0] == '\\') && (c[1] == '/' || c[1] == '\\') {
        return None;
    }
    if starts_with_safe_scheme(lowered) {
        return Some(string_of(&k));
    }
    match crate::strings::find_char(&c, ':') {
        None => Some(string_of(&k)),
        Some(i) => {
            assert(c@.subrange(0, i as int) == c@.take(i as int));
            if contains_char(&c, 0, i, '/') || contains_char(&c, 0, i, '?') || contains_char(&c, 0, i, '#') {
                Some(string_of(&k))
            } else {
                None
            }
        },
    }
}

/// Return `url` if it is safe to put in an href, else `None`. What comes back
/// keeps its spaces; the decision is taken on a copy with whitespace and
/// control characters squeezed out.
pub fn safe_href(url: &str) -> (r: Option<String>)
    ensures
        href_ok(url@, lowercase(collapsed(url@))) ==> (r matches Some(s) && s@ == cleaned(url@)),
        !href_ok(url@, lowercase(collapsed(url@))) ==> r is None,
{
    let (_k, c) = clean_and_collapse(url);
    let collapsed_text = string_of(&c);
    let lowered = to_lower(collapsed_text.as_str());
    judge_href(url, lowered.as_str())
}

/// What one character becomes inside a single-quoted JS string literal:
/// backslash and quote escaped, control characters dropped.
pub open spec fn js_char(c: char) -> Seq<char> {
    if c == '\\' {
        seq!['\\', '\\']
    } else if c == '\'' {
        seq!['\\', '\'']
    } else if (c as u32) < 0x20 {
        Seq::empty()
    } else {
        seq![c]
    }
}

pub open spec fn js_body(s: Seq<char>) -> Seq<char>
    decreases s.len(),
{
    if s.len() == 0 {
        Seq::empty()
    } else {
        js_body(s.drop_last()) + js_char(s.last())
    }
}

/// The whole number a message id stands for: a number that fits `i64`, or
/// a string that parses as one. Anything else has none.
pub open spec fn message_number_of(v: Json) -> Option<i64> {
    match v {
        Json::Number(_) => int_of(Some(v)),
        Json::Str(s) => match parse_int(s@) {
            Some(i) => Some(i as i64),
            None => None,
        },
        _ => None,
    }
}

/// A message id that is safe to interpolate into `GoToMessage(...)`.
///
/// Anything that is not a whole number is rejected and the link is dropped
/// instead: an id reaching an inline handler is code, not text.
pub fn message_number(value: &Json) -> (r: Option<i64>)
    ensures
        r == message_number_of(*value),
{
    match value {
        Json::Number(_) => value.as_i64(),
        Json::Str(s) => {
            let cs = chars_of(s.as_str());
            assert(cs@.subrange(0, cs@.len() as int) == s@);
            parse_i64(&cs, 0, cs.len())
        },
        _ => None,
    }
}

/// A single-quoted JS string literal for an inline handler.
pub fn js_str(value: &str) -> (s: String)
    ensures
        s@ == seq!['\''] + js_body(value@) + seq!['\''],
{
    let cs = chars_of(value);
    let mut v: Vec<char> = vec!['\''];
    let mut i: usize = 0;
    while i < cs.len()
        invariant
            i <= cs.len(),
            v@ == seq!['\''] + js_body(cs@.take(i as int)),
        decreases cs.len() - i,
    {
        assert(cs@.take(i + 1).drop_last() == cs@.take(i as int));
        let c = cs[i];
        if c == '\\' {
            v.push('\\');
            v.push('\\');
        } else if c == '\'' {
            v.push('\\');
            v.push('\'');
        } else if (c as u32) >= 0x20 {
            v.push(c);
        }
        assert(v@ == seq!['\''] + js_body(cs@.take(i + 1)));
        i += 1;
    }
    assert(cs@.take(cs.len() as int) == cs@);
    v.push('\'');
    string_of(&v)
}

} // verus!
