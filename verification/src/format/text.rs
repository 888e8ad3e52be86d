//! Entity offsets, which Telegram counts in UTF-16 code units.
//!
//! Indexing the text by anything else corrupts formatting in every message
//! containing an emoji, and a segment holding half a surrogate pair cannot be
//! written at all.

use vstd::prelude::*;
use crate::format::value::{compact, compact_string, get, Json};
use crate::strings::{chars_of, owned, push_char, push_str, same_chars};

verus! {

/// The UTF-16 encoding of one character.
pub open spec fn utf16_of(c: char) -> Seq<u16> {
    let u = c as u32;
    if u < 0x10000 {
        seq![u as u16]
    } else {
        seq![(0xD800 + (u - 0x10000) / 1024) as u16, (0xDC00 + (u - 0x10000) % 1024) as u16]
    }
}

/// The UTF-16 code units of a string, as `str::encode_utf16` yields them.
pub open spec fn utf16(s: Seq<char>) -> Seq<u16>
    decreases s.len(),
{
    if s.len() == 0 {
        Seq::empty()
    } else {
        utf16(s.drop_last()) + utf16_of(s.last())
    }
}

pub open spec fn is_high(u: u16) -> bool {
    0xD800 <= u && u <= 0xDBFF
}

pub open spec fn is_low(u: u16) -> bool {
    0xDC00 <= u && u <= 0xDFFF
}

/// The character a surrogate pair stands for.
pub open spec fn pair_value(hi: u16, lo: u16) -> u32 {
    (0x10000 + (hi - 0xD800) * 1024 + (lo - 0xDC00)) as u32
}

/// `String::from_utf16_lossy`: pairs decode to one character, and any
/// unpaired surrogate becomes U+FFFD, consuming only itself.
pub open spec fn decode(u: Seq<u16>) -> Seq<char>
    decreases u.len(),
{
    if u.len() == 0 {
        Seq::empty()
    } else if !is_high(u[0]) && !is_low(u[0]) {
        seq![(u[0] as u32) as char] + decode(u.drop_first())
    } else if is_high(u[0]) && u.len() >= 2 && is_low(u[1]) {
        seq![pair_value(u[0], u[1]) as char] + decode(u.skip(2))
    } else {
        seq!['\u{FFFD}'] + decode(u.drop_first())
    }
}

/// `char::from_u32`: the character with this scalar value, if there is one.
#[verifier::external_body]
fn char_from_u32(x: u32) -> (r: Option<char>)
    ensures
        (x <= 0x10FFFF && !(0xD800 <= x && x <= 0xDFFF)) ==> r == Some(x as char),
        !(x <= 0x10FFFF && !(0xD800 <= x && x <= 0xDFFF)) ==> r is None,
{
    char::from_u32(x)
}

/// The UTF-16 code units of `text`.
pub fn units(text: &str) -> (v: Vec<u16>)
    ensures
        v@ == utf16(text@),
{
    let cs = chars_of(text);
    let mut v: Vec<u16> = Vec::new();
    let mut i: usize = 0;
    while i < cs.len()
        invariant
            i <= cs.len(),
            cs@ == text@,
            v@ == utf16(cs@.take(i as int)),
        decreases cs.len() - i,
    {
        let u = cs[i] as u32;
        assert(cs@.take(i + 1).drop_last() == cs@.take(i as int));
        if u < 0x10000 {
            v.push(u as u16);
        } else {
            let w = u - 0x10000;
            v.push((0xD800 + w / 1024) as u16);
            v.push((0xDC00 + w % 1024) as u16);
        }
        assert(v@ == utf16(cs@.take(i as int)) + utf16_of(cs@[i as int]));
        i += 1;
    }
    assert(cs@.take(cs.len() as int) == cs@);
    v
}

/// Decode a slice of code units, replacing any unpaired surrogate with U+FFFD.
pub fn decode_lossy(slice: &[u16]) -> (s: String)
    ensures
        s@ == decode(slice@),
{
    let mut out = String::new();
    let mut i: usize = 0;
    assert(slice@.skip(0) == slice@);
    assert(out@ + decode(slice@) == decode(slice@));
    while i < slice.len()
        invariant
            i <= slice.len(),
            out@ + decode(slice@.skip(i as int)) == decode(slice@),
        decreases slice.len() - i,
    {
        let ghost rest = slice@.skip(i as int);
        let a = slice[i];
        assert(rest[0] == a);
        if a < 0xD800 || a > 0xDFFF {
            let c = char_from_u32(a as u32);
            push_char(&mut out, c.unwrap());
            assert(rest.drop_first() == slice@.skip(i + 1));
            i += 1;
        } else if a <= 0xDBFF && i + 1 < slice.len() && slice[i + 1] >= 0xDC00 && slice[i + 1] <= 0xDFFF {
            let b = slice[i + 1];
            assert(rest[1] == b);
            let x: u32 = 0x10000 + (a as u32 - 0xD800) * 1024 + (b as u32 - 0xDC00);
            let c = char_from_u32(x);
            push_char(&mut out, c.unwrap());
            assert(rest.skip(2) == slice@.skip(i + 2));
            i += 2;
        } else {
            push_char(&mut out, '\u{FFFD}');
            assert(rest.drop_first() == slice@.skip(i + 1));
            i += 1;
        }
        assert(out@ + decode(slice@.skip(i as int)) == decode(slice@));
    }
    assert(slice@.skip(i as int).len() == 0);
    assert(out@ + Seq::<char>::empty() == out@);
    out
}

/// Where a cut lands once snapped: a cut between the halves of a surrogate
/// pair (that is, on a low surrogate) moves back one unit, clamped at zero.
pub open spec fn snap(c: usize, u: Seq<u16>) -> usize {
    if c < u.len() && is_low(u[c as int]) {
        if c > 0 { (c - 1) as usize } else { 0 }
    } else {
        c
    }
}

/// Strictly increasing: sorted with no repeats.
pub open spec fn increasing(v: Seq<usize>) -> bool {
    forall|i: int, j: int| 0 <= i < j < v.len() ==> #[trigger] v[i] < #[trigger] v[j]
}

/// Insert `x` into a strictly increasing list, keeping it so.
fn insert_sorted(v: &mut Vec<usize>, x: usize)
    requires
        increasing(old(v)@),
    ensures
        increasing(final(v)@),
        final(v)@.to_set() == old(v)@.to_set().insert(x),
{
    let ghost before = v@;
    let mut i: usize = 0;
    while i < v.len() && v[i] < x
        invariant
            i <= v.len(),
            v@ == before,
            increasing(before),
            forall|k: int| 0 <= k < i ==> #[trigger] before[k] < x,
        decreases v.len() - i,
    {
        i += 1;
    }
    if i < v.len() && v[i] == x {
        assert(before.to_set().insert(x) =~= before.to_set()) by {
            assert(before.contains(x));
        }
        return;
    }
    v.insert(i, x);
    let ghost after = v@;
    assert(after == before.insert(i as int, x));
    assert(increasing(after)) by {
        assert forall|p: int, q: int| 0 <= p < q < after.len() implies #[trigger] after[p] < #[trigger] after[q] by {
            if q < i {
            } else if q == i {
            } else if p < i {
                assert(after[q] == before[q - 1]);
                if q - 1 > i {
                    assert(before[i as int] < before[q - 1]);
                }
            } else if p == i {
                assert(after[q] == before[q - 1]);
                if q - 1 > i {
                    assert(before[i as int] < before[q - 1]);
                }
            } else {
                assert(after[p] == before[p - 1]);
                assert(after[q] == before[q - 1]);
            }
        }
    }
    assert(after.to_set() =~= before.to_set().insert(x)) by {
        assert forall|y: usize| after.to_set().contains(y) <==> before.to_set().insert(x).contains(y) by {
            if after.contains(y) {
                let k = choose|k: int| 0 <= k < after.len() && after[k] == y;
                if k < i {
                    assert(before[k] == y);
                } else if k > i {
                    assert(before[k - 1] == y);
                }
            }
            if before.contains(y) {
                let k = choose|k: int| 0 <= k < before.len() && before[k] == y;
                if k < i {
                    assert(after[k] == y);
                } else {
                    assert(after[k + 1] == y);
                }
            }
            if y == x {
                assert(after[i as int] == y);
            }
        }
    }
}

/// The snapped cuts of a list, as a set.
pub open spec fn snapped_set(cuts: Seq<usize>, u: Seq<u16>) -> Set<usize> {
    cuts.map_values(|c: usize| snap(c, u)).to_set()
}

/// Move any cut that falls between the halves of a surrogate pair back to
/// the start of the pair, then sort and drop repeats.
pub fn snap_cuts(cuts: Vec<usize>, units: &[u16]) -> (out: Vec<usize>)
    ensures
        increasing(out@),
        out@.to_set() == snapped_set(cuts@, units@),
{
    let mut out: Vec<usize> = Vec::new();
    let mut i: usize = 0;
    assert(out@.to_set() =~= snapped_set(cuts@.take(0), units@));
    while i < cuts.len()
        invariant
            i <= cuts.len(),
            increasing(out@),
            out@.to_set() == snapped_set(cuts@.take(i as int), units@),
        decreases cuts.len() - i,
    {
        let c = cuts[i];
        let s = if c < units.len() && units[c] >= 0xDC00 && units[c] <= 0xDFFF {
            if c > 0 { c - 1 } else { 0 }
        } else {
            c
        };
        assert(s == snap(c, units@));
        insert_sorted(&mut out, s);
        proof {
            let pre = cuts@.take(i as int);
            let post = cuts@.take(i + 1);
            assert(post == pre.push(c));
            let ps = pre.map_values(|c: usize| snap(c, units@));
            assert(post.map_values(|c: usize| snap(c, units@)) == ps.push(s));
            ps.lemma_push_to_set_commute(s);
        }
        i += 1;
    }
    assert(cuts@.take(cuts.len() as int) == cuts@);
    out
}

/// One entity as it arrives off the wire, already mapped to Desktop's name
/// for it. `extras` carries the per-type tail (`href`, `user_id`,
/// `language`, `document_id`).
#[derive(Debug)]
pub struct Entity {
    pub offset: i64,
    pub length: i64,
    pub kind: &'static str,
    pub extras: Vec<(&'static str, Json)>,
}

/// One segment of Desktop's flat `text_entities`: its type, its text, and
/// the entity whose type and tail it carries (none for plain text).
#[derive(Debug)]
pub struct Segment {
    pub kind: &'static str,
    pub text: String,
    pub entity: Option<usize>,
}

/// A segment as its type, text and entity.
pub open spec fn seg_view(s: Segment) -> (Seq<char>, Seq<char>, Option<usize>) {
    (s.kind@, s.text@, s.entity)
}

/// An entity's footprint on `n` code units: its offset and its end, each
/// clamped at zero, the end also at `n`, the sum saturating.
pub open spec fn clamp_span(e: Entity, n: int) -> (int, int) {
    let start: int = if e.offset < 0 { 0 } else { e.offset as int };
    let sum: int = e.offset as int + e.length as int;
    let sat: int = if sum > i64::MAX { i64::MAX as int } else if sum < i64::MIN { i64::MIN as int } else { sum };
    let end0: int = if sat < 0 { 0 } else { sat };
    (start, if end0 < n { end0 } else { n })
}

/// The entities that cover something, as `(start, end, entity)`, in order.
pub open spec fn spans_of(es: Seq<Entity>, n: int) -> Seq<(usize, usize, usize)>
    decreases es.len(),
{
    if es.len() == 0 {
        Seq::empty()
    } else {
        let rest = spans_of(es.drop_last(), n);
        let (s, e) = clamp_span(es.last(), n);
        if s < e { rest.push((s as usize, e as usize, (es.len() - 1) as usize)) } else { rest }
    }
}

/// Every boundary: both ends of the text and of every span.
pub open spec fn raw_cuts(sp: Seq<(usize, usize, usize)>, n: usize) -> Seq<usize>
    decreases sp.len(),
{
    if sp.len() == 0 {
        seq![0, n]
    } else {
        raw_cuts(sp.drop_last(), n).push(sp.last().0).push(sp.last().1)
    }
}

/// `x` put into its place in an increasing list, unless it is there.
pub open spec fn inserted(v: Seq<usize>, x: usize) -> Seq<usize>
    decreases v.len(),
{
    if v.len() == 0 {
        seq![x]
    } else if x < v[0] {
        seq![x] + v
    } else if x == v[0] {
        v
    } else {
        seq![v[0]] + inserted(v.drop_first(), x)
    }
}

/// A list's elements in increasing order, each once.
pub open spec fn sorted_list(raw: Seq<usize>) -> Seq<usize>
    decreases raw.len(),
{
    if raw.len() == 0 {
        Seq::empty()
    } else {
        inserted(sorted_list(raw.drop_last()), raw.last())
    }
}

proof fn lemma_inserted(v: Seq<usize>, x: usize)
    requires
        increasing(v),
    ensures
        increasing(inserted(v, x)),
        inserted(v, x).to_set() == v.to_set().insert(x),
        inserted(v, x).len() > 0 && (inserted(v, x)[0] == x || (v.len() > 0 && inserted(v, x)[0] == v[0])),
    decreases v.len(),
{
    let w = inserted(v, x);
    if v.len() == 0 {
        assert(w.to_set() =~= v.to_set().insert(x)) by {
            assert forall|y: usize| w.to_set().contains(y) <==> v.to_set().insert(x).contains(y) by {
                if w.contains(y) {
                    assert(w[0] == y);
                }
                if y == x {
                    assert(w[0] == x);
                }
            }
        }
    } else if x < v[0] {
        assert(increasing(w)) by {
            assert forall|i: int, j: int| 0 <= i < j < w.len() implies #[trigger] w[i] < #[trigger] w[j] by {
                if i == 0 {
                    assert(w[j] == v[j - 1]);
                    if j - 1 > 0 {
                        assert(v[0] < v[j - 1]);
                    }
                } else {
                    assert(w[i] == v[i - 1] && w[j] == v[j - 1]);
                }
            }
        }
        assert(w.to_set() =~= v.to_set().insert(x)) by {
            assert forall|y: usize| w.to_set().contains(y) <==> v.to_set().insert(x).contains(y) by {
                if w.contains(y) {
                    let k = choose|k: int| 0 <= k < w.len() && w[k] == y;
                    if k > 0 {
                        assert(v[k - 1] == y);
                    }
                }
                if v.contains(y) {
                    let k = choose|k: int| 0 <= k < v.len() && v[k] == y;
                    assert(w[k + 1] == y);
                }
                if y == x {
                    assert(w[0] == x);
                }
            }
        }
    } else if x == v[0] {
        assert(w.to_set() =~= v.to_set().insert(x)) by {
            assert(v.contains(x));
        }
    } else {
        let t = v.drop_first();
        assert(increasing(t)) by {
            assert forall|i: int, j: int| 0 <= i < j < t.len() implies #[trigger] t[i] < #[trigger] t[j] by {
                assert(v[i + 1] < v[j + 1]);
            }
        }
        lemma_inserted(t, x);
        let it = inserted(t, x);
        assert(w == seq![v[0]] + it);
        assert(increasing(w)) by {
            assert forall|i: int, j: int| 0 <= i < j < w.len() implies #[trigger] w[i] < #[trigger] w[j] by {
                if i == 0 {
                    assert(w[j] == it[j - 1]);
                    assert(it.to_set().contains(it[j - 1]));
                    assert(t.to_set().insert(x).contains(it[j - 1]));
                    if it[j - 1] != x {
                        let k = choose|k: int| 0 <= k < t.len() && t[k] == it[j - 1];
                        assert(v[0] < v[k + 1]);
                    }
                } else {
                    assert(w[i] == it[i - 1] && w[j] == it[j - 1]);
                }
            }
        }
        assert(w.to_set() =~= v.to_set().insert(x)) by {
            assert forall|y: usize| w.to_set().contains(y) <==> v.to_set().insert(x).contains(y) by {
                if w.contains(y) {
                    let k = choose|k: int| 0 <= k < w.len() && w[k] == y;
                    if k > 0 {
                        assert(it[k - 1] == y);
                        assert(it.to_set().contains(y));
                        if y != x {
                            let q = choose|q: int| 0 <= q < t.len() && t[q] == y;
                            assert(v[q + 1] == y);
                        }
                    } else {
                        assert(v[0] == y);
                    }
                }
                if v.contains(y) {
                    let k = choose|k: int| 0 <= k < v.len() && v[k] == y;
                    if k == 0 {
                        assert(w[0] == y);
                    } else {
                        assert(t[k - 1] == y);
                        assert(t.to_set().contains(y));
                        assert(it.to_set().contains(y));
                        let q = choose|q: int| 0 <= q < it.len() && it[q] == y;
                        assert(w[q + 1] == y);
                    }
                }
                if y == x {
                    assert(it.to_set().contains(x));
                    let q = choose|q: int| 0 <= q < it.len() && it[q] == x;
                    assert(w[q + 1] == x);
                }
            }
        }
    }
}

/// The sorted list is increasing and holds exactly the list's elements.
pub proof fn lemma_sorted_list(raw: Seq<usize>)
    ensures
        increasing(sorted_list(raw)),
        sorted_list(raw).to_set() == raw.to_set(),
    decreases raw.len(),
{
    if raw.len() == 0 {
        assert(sorted_list(raw).to_set() =~= raw.to_set());
    } else {
        lemma_sorted_list(raw.drop_last());
        lemma_inserted(sorted_list(raw.drop_last()), raw.last());
        assert(raw.drop_last().push(raw.last()) == raw);
        raw.drop_last().lemma_push_to_set_commute(raw.last());
    }
}

/// The boundaries, snapped off surrogate pairs, in increasing order.
pub open spec fn cuts_of(sp: Seq<(usize, usize, usize)>, u: Seq<u16>) -> Seq<usize> {
    sorted_list(raw_cuts(sp, u.len() as usize).map_values(|c: usize| snap(c, u)))
}

/// The innermost (shortest) span covering `lo..hi`, the first of equals.
pub open spec fn innermost(sp: Seq<(usize, usize, usize)>, lo: usize, hi: usize) -> Option<int>
    decreases sp.len(),
{
    if sp.len() == 0 {
        None
    } else {
        let b = innermost(sp.drop_last(), lo, hi);
        let (s, e, _i) = sp.last();
        if s <= lo && e >= hi && (b is None || e - s < sp[b->0].1 - sp[b->0].0) {
            Some(sp.len() - 1)
        } else {
            b
        }
    }
}

proof fn lemma_innermost_range(sp: Seq<(usize, usize, usize)>, lo: usize, hi: usize)
    ensures
        innermost(sp, lo, hi) matches Some(b) ==> 0 <= b < sp.len(),
    decreases sp.len(),
{
    if sp.len() > 0 {
        lemma_innermost_range(sp.drop_last(), lo, hi);
    }
}

/// Every span covers something within the text and names an entity.
pub open spec fn spans_ok(sp: Seq<(usize, usize, usize)>, n: usize, m: nat) -> bool {
    forall|q: int| 0 <= q < sp.len() ==> #[trigger] sp[q].0 < sp[q].1 && sp[q].1 <= n && sp[q].2 < m
}

/// The segment for the units between two cuts: their text, typed by the
/// innermost covering entity or plain; none when the text is empty.
pub open spec fn piece(u: Seq<u16>, es: Seq<Entity>, sp: Seq<(usize, usize, usize)>, lo: usize, hi: usize) -> Option<(Seq<char>, Seq<char>, Option<usize>)> {
    let chunk = decode(u.subrange(lo as int, hi as int));
    if chunk.len() == 0 {
        None
    } else {
        match innermost(sp, lo, hi) {
            Some(j) => Some((es[sp[j].2 as int].kind@, chunk, Some(sp[j].2))),
            None => Some(("plain"@, chunk, None)),
        }
    }
}

/// Add a segment, merging it into a plain segment it touches.
pub open spec fn merged(acc: Seq<(Seq<char>, Seq<char>, Option<usize>)>, seg: (Seq<char>, Seq<char>, Option<usize>)) -> Seq<(Seq<char>, Seq<char>, Option<usize>)> {
    if seg.0 == "plain"@ && acc.len() > 0 && acc.last().0 == "plain"@ {
        let last = acc.last();
        acc.update(acc.len() - 1, (last.0, last.1 + seg.1, last.2))
    } else {
        acc.push(seg)
    }
}

/// The segments of the first `k` windows between consecutive cuts.
pub open spec fn pieces(u: Seq<u16>, es: Seq<Entity>, sp: Seq<(usize, usize, usize)>, cuts: Seq<usize>, k: int) -> Seq<(Seq<char>, Seq<char>, Option<usize>)>
    decreases k,
{
    if k <= 0 {
        Seq::empty()
    } else {
        let acc = pieces(u, es, sp, cuts, k - 1);
        let lo = cuts[k - 1];
        let hi = cuts[k];
        if lo >= hi {
            acc
        } else {
            match piece(u, es, sp, lo, hi) {
                Some(seg) => merged(acc, seg),
                None => acc,
            }
        }
    }
}

/// How many bytes a character takes in UTF-8.
pub open spec fn utf8_width(c: char) -> nat {
    let x = c as u32;
    if x < 0x80 { 1 } else if x < 0x800 { 2 } else if x < 0x10000 { 3 } else { 4 }
}

/// How many bytes a string takes in UTF-8.
pub open spec fn utf8_len(s: Seq<char>) -> nat
    decreases s.len(),
{
    if s.len() == 0 { 0 } else { utf8_len(s.drop_last()) + utf8_width(s.last()) }
}

/// Desktop's flat, gap-free segmentation of a text.
///
/// The text is cut at every entity boundary, and the innermost covering
/// entity types each piece; touching plain runs merge. When the last piece
/// is an entity and the text is longer in UTF-8 bytes than in UTF-16 units
/// (it is not pure ASCII), Desktop adds an empty plain tail.
pub open spec fn segments_of(text: Seq<char>, es: Seq<Entity>) -> Seq<(Seq<char>, Seq<char>, Option<usize>)> {
    let u = utf16(text);
    let sp = spans_of(es, u.len() as int);
    if text.len() == 0 {
        Seq::empty()
    } else if es.len() == 0 || sp.len() == 0 {
        seq![("plain"@, text, None)]
    } else {
        let cuts = cuts_of(sp, u);
        let out = pieces(u, es, sp, cuts, cuts.len() - 1);
        if out.len() > 0 && out.last().0 != "plain"@ && utf8_len(text) > u.len() {
            out.push(("plain"@, Seq::empty(), None))
        } else {
            out
        }
    }
}

/// Two increasing lists with the same elements are the same list.
pub proof fn lemma_increasing_unique(a: Seq<usize>, b: Seq<usize>)
    requires
        increasing(a),
        increasing(b),
        a.to_set() == b.to_set(),
    ensures
        a == b,
    decreases a.len(),
{
    if a.len() == 0 {
        if b.len() > 0 {
            assert(b.to_set().contains(b[0]));
            assert(a.to_set().contains(b[0]));
        }
        assert(a =~= b);
    } else if b.len() == 0 {
        assert(a.to_set().contains(a[0]));
        assert(b.to_set().contains(a[0]));
    } else {
        assert(b.to_set().contains(a[0]));
        assert(a.to_set().contains(b[0]));
        let i = choose|i: int| 0 <= i < a.len() && a[i] == b[0];
        let j = choose|j: int| 0 <= j < b.len() && b[j] == a[0];
        if i > 0 {
            assert(a[0] < a[i]);
        }
        if j > 0 {
            assert(b[0] < b[j]);
        }
        assert(a[0] == b[0]);
        let a1 = a.drop_first();
        let b1 = b.drop_first();
        assert(increasing(a1)) by {
            assert forall|p: int, q: int| 0 <= p < q < a1.len() implies #[trigger] a1[p] < #[trigger] a1[q] by {
                assert(a[p + 1] < a[q + 1]);
            }
        }
        assert(increasing(b1)) by {
            assert forall|p: int, q: int| 0 <= p < q < b1.len() implies #[trigger] b1[p] < #[trigger] b1[q] by {
                assert(b[p + 1] < b[q + 1]);
            }
        }
        assert(a1.to_set() =~= b1.to_set()) by {
            assert forall|x: usize| a1.to_set().contains(x) <==> b1.to_set().contains(x) by {
                if a1.contains(x) {
                    let p = choose|p: int| 0 <= p < a1.len() && a1[p] == x;
                    assert(a[p + 1] == x);
                    assert(a[0] < a[p + 1]);
                    assert(a.to_set().contains(x));
                    assert(b.contains(x));
                    let q = choose|q: int| 0 <= q < b.len() && b[q] == x;
                    assert(q != 0);
                    assert(b1[q - 1] == x);
                }
                if b1.contains(x) {
                    let p = choose|p: int| 0 <= p < b1.len() && b1[p] == x;
                    assert(b[p + 1] == x);
                    assert(b[0] < b[p + 1]);
                    assert(b.to_set().contains(x));
                    assert(a.contains(x));
                    let q = choose|q: int| 0 <= q < a.len() && a[q] == x;
                    assert(q != 0);
                    assert(a1[q - 1] == x);
                }
            }
        }
        lemma_increasing_unique(a1, b1);
        assert(a =~= b) by {
            assert forall|k: int| 0 <= k < a.len() implies a[k] == b[k] by {
                if k > 0 {
                    assert(a[k] == a1[k - 1]);
                    assert(b[k] == b1[k - 1]);
                }
            }
        }
    }
}

proof fn lemma_width(c: char)
    ensures
        utf8_width(c) >= utf16_of(c).len(),
        (utf8_width(c) > utf16_of(c).len()) <==> !('\0' <= c <= '\u{7f}'),
{
    let x = c as u32;
    assert(('\0' <= c <= '\u{7f}') <==> x < 0x80);
    if x < 0x10000 {
        assert(utf16_of(c).len() == 1);
    } else {
        assert(utf16_of(c).len() == 2);
    }
}

/// A text's UTF-8 byte count exceeds its UTF-16 unit count exactly when it
/// holds a character outside ASCII.
pub proof fn lemma_bytes_exceed_units_iff_not_ascii(s: Seq<char>)
    ensures
        utf8_len(s) >= utf16(s).len(),
        (utf8_len(s) > utf16(s).len()) <==> !vstd::utf8::is_ascii_chars(s),
    decreases s.len(),
{
    if s.len() > 0 {
        let r = s.drop_last();
        lemma_bytes_exceed_units_iff_not_ascii(r);
        let c = s.last();
        lemma_width(c);
        assert(utf8_len(s) == utf8_len(r) + utf8_width(c));
        assert(utf16(s).len() == utf16(r).len() + utf16_of(c).len());
        if vstd::utf8::is_ascii_chars(s) {
            assert forall|i: int| 0 <= i < r.len() implies '\0' <= #[trigger] r[i] <= '\u{7f}' by {
                assert(r[i] == s[i]);
            }
            assert(s[s.len() - 1] == c);
        }
        if !vstd::utf8::is_ascii_chars(s) {
            let i = choose|i: int| 0 <= i < s.len() && !('\0' <= #[trigger] s[i] <= '\u{7f}');
            if i < r.len() {
                assert(r[i] == s[i]);
            } else {
                assert(s[i] == c);
            }
        }
        if !vstd::utf8::is_ascii_chars(r) {
            let i = choose|i: int| 0 <= i < r.len() && !('\0' <= #[trigger] r[i] <= '\u{7f}');
            assert(s[i] == r[i]);
        }
    }
}

fn plain_segment(text: &str) -> (s: Segment)
    ensures
        seg_view(s) == ("plain"@, text@, None::<usize>),
{
    Segment { kind: "plain", text: owned(text), entity: None }
}

/// The span of one entity over `n` units, when it covers anything.
fn span_for(e: &Entity, n: usize) -> (r: Option<(usize, usize)>)
    ensures
        ({
            let (s, t) = clamp_span(*e, n as int);
            &&& s < t ==> r == Some((s as usize, t as usize))
            &&& !(s < t) ==> r is None
        }),
{
    let start: i128 = if e.offset < 0 { 0 } else { e.offset as i128 };
    // The sum saturates at the ends of `i64`.
    let sum: i128 = e.offset as i128 + e.length as i128;
    let sat: i128 = if sum > i64::MAX as i128 { i64::MAX as i128 } else if sum < i64::MIN as i128 { i64::MIN as i128 } else { sum };
    let end0: i128 = if sat < 0 { 0 } else { sat };
    let end: i128 = if end0 < n as i128 { end0 } else { n as i128 };
    if start < end {
        Some((start as usize, end as usize))
    } else {
        None
    }
}

/// Flat, gap-free segmentation of `text`, Desktop's `text_entities`.
///
/// Telegram allows nested entities but Desktop's JSON is flat, so the
/// string is cut at every boundary and the innermost (shortest) covering
/// entity wins each piece. Touching plain runs are merged.
#[verifier::rlimit(40)]
pub fn build_text_entities(text: &str, entities: &[Entity]) -> (out: Vec<Segment>)
    ensures
        out@.map_values(|s: Segment| seg_view(s)) == segments_of(text@, entities@),
{
    proof {
        reveal_strlit("plain");
    }
    if text.unicode_len() == 0 {
        let out: Vec<Segment> = Vec::new();
        assert(out@.map_values(|s: Segment| seg_view(s)) =~= Seq::empty());
        return out;
    }
    let units = units(text);
    let n = units.len();
    let ghost u = units@;
    let mut spans: Vec<(usize, usize, usize)> = Vec::new();
    let mut i: usize = 0;
    while i < entities.len()
        invariant
            i <= entities@.len(),
            n == u.len(),
            spans@ == spans_of(entities@.take(i as int), n as int),
            spans_ok(spans@, n, entities@.len()),
        decreases entities.len() - i,
    {
        assert(entities@.take(i + 1).drop_last() == entities@.take(i as int));
        assert(entities@.take(i + 1).last() == entities@[i as int]);
        let ghost before = spans@;
        match span_for(&entities[i], n) {
            Some((s, e)) => {
                spans.push((s, e, i));
            },
            None => {},
        }
        assert(spans_ok(spans@, n, entities@.len())) by {
            assert forall|k: int| 0 <= k < spans@.len() implies #[trigger] spans@[k].0 < spans@[k].1 && spans@[k].1 <= n && spans@[k].2 < entities@.len() by {
                if k < before.len() {
                    assert(spans@[k] == before[k]);
                    assert(before[k].0 < before[k].1 && before[k].1 <= n && before[k].2 < entities@.len());
                }
            }
        }
        i += 1;
    }
    assert(entities@.take(entities@.len() as int) == entities@);
    if entities.len() == 0 || spans.len() == 0 {
        let out = vec![plain_segment(text)];
        assert(out@.map_values(|s: Segment| seg_view(s)) =~= seq![("plain"@, text@, None::<usize>)]);
        return out;
    }
    let mut raw: Vec<usize> = vec![0, n];
    let mut k: usize = 0;
    assert(spans@.take(0) =~= Seq::<(usize, usize, usize)>::empty());
    while k < spans.len()
        invariant
            k <= spans@.len(),
            raw@ == raw_cuts(spans@.take(k as int), n),
        decreases spans.len() - k,
    {
        assert(spans@.take(k + 1).drop_last() == spans@.take(k as int));
        assert(spans@.take(k + 1).last() == spans@[k as int]);
        raw.push(spans[k].0);
        raw.push(spans[k].1);
        k += 1;
    }
    assert(spans@.take(spans@.len() as int) == spans@);
    let cuts = snap_cuts(raw, units.as_slice());
    proof {
        let mapped = raw_cuts(spans@, u.len() as usize).map_values(|c: usize| snap(c, u));
        lemma_sorted_list(mapped);
        lemma_increasing_unique(cuts@, cuts_of(spans@, u));
    }
    assert(cuts@.len() >= 1) by {
        assert(raw_cuts(spans@, n).len() >= 2) by {
            lemma_raw_cuts_len(spans@, n);
        }
        let s0 = snap(raw_cuts(spans@, n)[0], u);
        assert(raw_cuts(spans@, n).map_values(|c: usize| snap(c, u))[0] == s0);
        assert(cuts@.to_set().contains(s0));
    }
    let mut out: Vec<Segment> = Vec::new();
    let mut w: usize = 0;
    assert(out@.map_values(|s: Segment| seg_view(s)) =~= pieces(u, entities@, spans@, cuts@, 0));
    while w < cuts.len() - 1
        invariant
            cuts@.len() >= 1,
            w + 1 <= cuts@.len(),
            increasing(cuts@),
            u == units@,
            spans_ok(spans@, n, entities@.len()),
            n == u.len(),
            cuts@.to_set() == snapped_set(raw_cuts(spans@, n), u),
            out@.map_values(|s: Segment| seg_view(s)) == pieces(u, entities@, spans@, cuts@, w as int),
        decreases cuts.len() - w,
    {
        let lo = cuts[w];
        let hi = cuts[w + 1];
        assert(lo < hi);
        proof {
            lemma_cut_in_range(spans@, n, entities@.len(), u, hi);
        }
        let chunk = decode_lossy(&units.as_slice()[lo..hi]);
        let ghost acc = out@.map_values(|s: Segment| seg_view(s));
        if chunk.unicode_len() > 0 {
            let mut best: Option<usize> = None;
            let mut q: usize = 0;
            while q < spans.len()
                invariant
                    q <= spans@.len(),
                    best == match innermost(spans@.take(q as int), lo, hi) { Some(b) => Some(b as usize), None => None::<usize> },
                    forall|b: usize| best == Some(b) ==> b < q,
                    spans_ok(spans@, n, entities@.len()),
                decreases spans.len() - q,
            {
                let (s, e, _) = spans[q];
                proof {
                    lemma_innermost_range(spans@.take(q as int), lo, hi);
                    lemma_innermost_range(spans@.take(q + 1), lo, hi);
                }
                assert(spans@.take(q + 1).drop_last() == spans@.take(q as int));
                assert(spans@.take(q + 1).last() == spans@[q as int]);
                let better = s <= lo && e >= hi && match best {
                    None => true,
                    Some(b) => {
                        assert(spans@.take(q + 1)[b as int] == spans@[b as int]);
                        e - s < spans[b].1 - spans[b].0
                    },
                };
                if better {
                    best = Some(q);
                }
                q += 1;
            }
            assert(spans@.take(spans@.len() as int) == spans@);
            proof {
                lemma_innermost_range(spans@, lo, hi);
            }
            let seg = match best {
                Some(b) => Segment { kind: entities[spans[b].2].kind, text: chunk, entity: Some(spans[b].2) },
                None => Segment { kind: "plain", text: chunk, entity: None },
            };
            let ghost sv = seg_view(seg);
            assert(piece(u, entities@, spans@, lo, hi) == Some(sv));
            let is_plain = same_chars(&chars_of(seg.kind), &chars_of("plain"));
            let n_out = out.len();
            if is_plain && n_out > 0 && same_chars(&chars_of(out[n_out - 1].kind), &chars_of("plain")) {
                let last = out.pop().unwrap();
                let mut joined = last.text;
                push_str(&mut joined, seg.text.as_str());
                out.push(Segment { kind: last.kind, text: joined, entity: last.entity });
                assert(out@.map_values(|s: Segment| seg_view(s)) =~= merged(acc, sv));
            } else {
                out.push(seg);
                assert(out@.map_values(|s: Segment| seg_view(s)) =~= merged(acc, sv));
            }
        } else {
            assert(piece(u, entities@, spans@, lo, hi) is None);
        }
        w += 1;
    }
    let ghost pre = out@.map_values(|s: Segment| seg_view(s));
    // Desktop's empty tail: when the last part is an entity, Desktop asks
    // whether anything follows it by comparing a UTF-16 offset with a UTF-8
    // byte count, which above U+007F is the larger, and writes out the empty
    // remainder.
    let n_out = out.len();
    if n_out > 0 && !same_chars(&chars_of(out[n_out - 1].kind), &chars_of("plain")) && !text.is_ascii() {
        proof {
            lemma_bytes_exceed_units_iff_not_ascii(text@);
        }
        out.push(Segment { kind: "plain", text: String::new(), entity: None });
        proof {
            reveal_strlit("");
        }
        assert(out@.map_values(|s: Segment| seg_view(s)) =~= pre.push(("plain"@, Seq::<char>::empty(), None::<usize>)));
    } else {
        proof {
            lemma_bytes_exceed_units_iff_not_ascii(text@);
        }
    }
    out
}

proof fn lemma_raw_cuts_len(sp: Seq<(usize, usize, usize)>, n: usize)
    ensures
        raw_cuts(sp, n).len() >= 2,
        raw_cuts(sp, n)[0] == 0,
        raw_cuts(sp, n)[1] == n,
    decreases sp.len(),
{
    if sp.len() > 0 {
        lemma_raw_cuts_len(sp.drop_last(), n);
    }
}

/// Every raw cut lies within the text.
proof fn lemma_raw_cuts_bounded(sp: Seq<(usize, usize, usize)>, n: usize, m: nat)
    requires
        spans_ok(sp, n, m),
    ensures
        forall|x: int| 0 <= x < raw_cuts(sp, n).len() ==> #[trigger] raw_cuts(sp, n)[x] <= n,
    decreases sp.len(),
{
    if sp.len() > 0 {
        let r = sp.drop_last();
        assert forall|q: int| 0 <= q < r.len() implies #[trigger] r[q].0 < r[q].1 && r[q].1 <= n && r[q].2 < m by {
            assert(r[q] == sp[q]);
        }
        lemma_raw_cuts_bounded(r, n, m);
        assert(sp.last() == sp[sp.len() - 1]);
        let prev = raw_cuts(r, n);
        let rc = raw_cuts(sp, n);
        assert(rc == prev.push(sp.last().0).push(sp.last().1));
        assert forall|x: int| 0 <= x < rc.len() implies #[trigger] rc[x] <= n by {
            if x < prev.len() {
                assert(rc[x] == prev[x]);
            }
        }
    }
}

/// Every snapped cut lies within the text.
proof fn lemma_cut_in_range(sp: Seq<(usize, usize, usize)>, n: usize, m: nat, u: Seq<u16>, c: usize)
    requires
        n == u.len(),
        spans_ok(sp, n, m),
        snapped_set(raw_cuts(sp, n), u).contains(c),
    ensures
        c <= n,
{
    lemma_raw_cuts_bounded(sp, n, m);
    let raw = raw_cuts(sp, n);
    let m = raw.map_values(|x: usize| snap(x, u));
    let k = choose|k: int| 0 <= k < m.len() && m[k] == c;
    assert(m[k] == snap(raw[k], u));
    assert(raw[k] <= n);
}

/// One element of Desktop's `text` list: a plain run as a bare string, or
/// a formatted segment, by its position among the segments, written whole.
#[derive(Debug, PartialEq, Eq)]
pub enum FieldPart {
    Text(String),
    Whole(usize),
}

/// Desktop's `text`: a bare string when nothing is formatted, otherwise a
/// list of strings and segments.
#[derive(Debug, PartialEq, Eq)]
pub enum TextField {
    Bare(String),
    Parts(Vec<FieldPart>),
}

/// A part as its text, or the position of the segment written whole.
pub open spec fn part_view(p: FieldPart) -> Result<Seq<char>, usize> {
    match p {
        FieldPart::Text(t) => Ok(t@),
        FieldPart::Whole(k) => Err(k),
    }
}

/// Every segment is plain.
pub open spec fn all_plain(segs: Seq<(Seq<char>, Seq<char>, Option<usize>)>) -> bool {
    forall|k: int| 0 <= k < segs.len() ==> (#[trigger] segs[k]).0 == "plain"@
}

/// The segments' texts, one after another.
pub open spec fn joined_texts(segs: Seq<(Seq<char>, Seq<char>, Option<usize>)>) -> Seq<char>
    decreases segs.len(),
{
    if segs.len() == 0 { Seq::empty() } else { joined_texts(segs.drop_last()) + segs.last().1 }
}

/// The list form: a plain segment as its text, any other by position.
pub open spec fn field_parts(segs: Seq<(Seq<char>, Seq<char>, Option<usize>)>) -> Seq<Result<Seq<char>, usize>> {
    Seq::new(segs.len(), |k: int| if segs[k].0 == "plain"@ { Ok(segs[k].1) } else { Err(k as usize) })
}

pub fn build_text_field(segments: &[Segment]) -> (f: TextField)
    ensures
        ({
            let segs = segments@.map_values(|s: Segment| seg_view(s));
            match f {
                TextField::Bare(t) => all_plain(segs) && t@ == joined_texts(segs),
                TextField::Parts(ps) => !all_plain(segs) && ps@.map_values(|p: FieldPart| part_view(p)) == field_parts(segs),
            }
        }),
{
    let ghost segs = segments@.map_values(|s: Segment| seg_view(s));
    proof {
        reveal_strlit("plain");
    }
    let mut plain = true;
    let mut joined = String::new();
    let mut i: usize = 0;
    while i < segments.len()
        invariant
            i <= segments@.len(),
            segs == segments@.map_values(|s: Segment| seg_view(s)),
            plain == all_plain(segs.take(i as int)),
            plain ==> joined@ == joined_texts(segs.take(i as int)),
        decreases segments.len() - i,
    {
        assert(segs.take(i + 1).drop_last() == segs.take(i as int));
        assert(segs.take(i + 1).last() == segs[i as int]);
        if !same_chars(&chars_of(segments[i].kind), &chars_of("plain")) {
            plain = false;
            assert(segs.take(i + 1)[i as int] == segs[i as int]);
        } else {
            push_str(&mut joined, segments[i].text.as_str());
        }
        proof {
            if plain {
                assert forall|k: int| 0 <= k < i + 1 implies (#[trigger] segs.take(i + 1)[k]).0 == "plain"@ by {
                    if k < i {
                        assert(segs.take(i + 1)[k] == segs.take(i as int)[k]);
                    }
                }
            }
        }
        i += 1;
    }
    assert(segs.take(segments@.len() as int) == segs);
    if plain {
        return TextField::Bare(joined);
    }
    let mut parts: Vec<FieldPart> = Vec::new();
    let mut k: usize = 0;
    while k < segments.len()
        invariant
            k <= segments@.len(),
            segs == segments@.map_values(|s: Segment| seg_view(s)),
            parts@.map_values(|p: FieldPart| part_view(p)) == field_parts(segs).take(k as int),
        decreases segments.len() - k,
    {
        let part = if same_chars(&chars_of(segments[k].kind), &chars_of("plain")) {
            FieldPart::Text(segments[k].text.clone())
        } else {
            FieldPart::Whole(k)
        };
        assert(segs[k as int] == seg_view(segments@[k as int]));
        assert(part_view(part) == field_parts(segs)[k as int]);
        let ghost before = parts@;
        parts.push(part);
        assert(parts@.map_values(|p: FieldPart| part_view(p)) =~= before.map_values(|p: FieldPart| part_view(p)).push(part_view(part)));
        assert(field_parts(segs).take(k + 1) =~= field_parts(segs).take(k as int).push(field_parts(segs)[k as int]));
        k += 1;
    }
    assert(field_parts(segs).take(segments@.len() as int) == field_parts(segs));
    TextField::Parts(parts)
}

/// Unwrap a `TextWithEntities` chain until a string appears, at most `hops`
/// deep: an object yields its `text`, null and a missing `text` yield
/// nothing, anything else its JSON text.
pub open spec fn unwrapped(v: Json, hops: nat) -> Seq<char>
    decreases hops,
{
    if hops == 0 {
        Seq::empty()
    } else {
        match v {
            Json::Str(s) => s@,
            Json::Object(_) => match get(v, "text"@) {
                Some(next) => unwrapped(next, (hops - 1) as nat),
                None => Seq::empty(),
            },
            Json::Null => Seq::empty(),
            _ => compact(v),
        }
    }
}

/// Unwrap a `TextWithEntities` chain until a string appears. Some fields
/// nest a whole object whose `text` is itself one, so every one of them
/// goes through here; eight hops is the most followed.
pub fn plain_text(value: &Json) -> (s: String)
    ensures
        s@ == unwrapped(*value, 8),
{
    let mut cur = value;
    let mut hops: usize = 8;
    while hops > 0
        invariant
            hops <= 8,
            unwrapped(*value, 8) == unwrapped(*cur, hops as nat),
        decreases hops,
    {
        match cur {
            Json::Str(s) => return owned(s.as_str()),
            Json::Object(_) => match cur.get("text") {
                Some(next) => {
                    cur = next;
                },
                None => return String::new(),
            },
            Json::Null => return String::new(),
            _ => return compact_string(cur),
        }
        hops -= 1;
    }
    String::new()
}

/// Decoding splits where the second part does not open on a low
/// surrogate: no pair straddles the join.
proof fn lemma_decode_concat(x: Seq<u16>, y: Seq<u16>)
    requires
        y.len() == 0 || !is_low(y[0]),
    ensures
        decode(x + y) == decode(x) + decode(y),
    decreases x.len(),
{
    let xy = x + y;
    if x.len() == 0 {
        assert(xy =~= y);
    } else if !is_high(x[0]) && !is_low(x[0]) {
        assert(xy[0] == x[0]);
        assert(xy.drop_first() =~= x.drop_first() + y);
        lemma_decode_concat(x.drop_first(), y);
    } else if is_high(x[0]) && x.len() >= 2 && is_low(x[1]) {
        assert(xy[0] == x[0] && xy[1] == x[1]);
        assert(xy.skip(2) =~= x.skip(2) + y);
        lemma_decode_concat(x.skip(2), y);
    } else {
        assert(xy[0] == x[0]);
        if x.len() == 1 {
            if y.len() > 0 {
                assert(xy[1] == y[0]);
            }
        } else {
            assert(xy[1] == x[1]);
        }
        assert(xy.drop_first() =~= x.drop_first() + y);
        lemma_decode_concat(x.drop_first(), y);
    }
}

/// One character's units decode back to it.
proof fn lemma_decode_char(c: char)
    ensures
        decode(utf16_of(c)) == seq![c],
        !is_low(utf16_of(c)[0]),
        c as u32 <= 0x10FFFF,
{
    let x = c as u32;
    if x < 0x10000 {
        let u = x as u16;
        assert(u as u32 == x);
        assert(!(0xD800 <= x && x <= 0xDFFF));
        assert(utf16_of(c) == seq![u]);
        assert(decode(seq![u]) == seq![(u as u32) as char] + decode(seq![u].drop_first()));
        assert(seq![u].drop_first() =~= Seq::<u16>::empty());
        assert((u as u32) as char == c);
        assert(seq![c] + Seq::<char>::empty() =~= seq![c]);
    } else {
        let w = x - 0x10000;
        assert(w < 0x100000);
        let q = w / 1024;
        let r = w % 1024;
        assert(q < 0x400 && r < 0x400) by (nonlinear_arith)
            requires w < 0x100000, q == w / 1024, r == w % 1024;
        assert(w == q * 1024 + r) by (nonlinear_arith)
            requires q == w / 1024, r == w % 1024;
        let hi = (0xD800 + q) as u16;
        let lo = (0xDC00 + r) as u16;
        assert(hi as int == 0xD800 + q);
        assert(lo as int == 0xDC00 + r);
        let us = utf16_of(c);
        assert(us == seq![hi, lo]);
        assert(is_high(hi) && is_low(lo));
        assert(pair_value(hi, lo) == x);
        assert(us.skip(2) =~= Seq::<u16>::empty());
        assert(decode(us) == seq![pair_value(us[0], us[1]) as char] + decode(us.skip(2)));
        assert(pair_value(hi, lo) as char == c);
        assert(seq![c] + Seq::<char>::empty() =~= seq![c]);
    }
}

/// A string's UTF-16 units decode back to the string.
pub proof fn lemma_decode_utf16(s: Seq<char>)
    ensures
        decode(utf16(s)) == s,
    decreases s.len(),
{
    if s.len() == 0 {
        assert(utf16(s) =~= Seq::<u16>::empty());
    } else {
        let r = s.drop_last();
        lemma_decode_utf16(r);
        lemma_decode_char(s.last());
        lemma_decode_concat(utf16(r), utf16_of(s.last()));
        assert(r + seq![s.last()] =~= s);
    }
}

/// In the units of a string every low surrogate follows a high one.
pub open spec fn pairs_whole(u: Seq<u16>) -> bool {
    forall|i: int| 0 <= i < u.len() && is_low(#[trigger] u[i]) ==> i >= 1 && is_high(u[i - 1])
}

proof fn lemma_utf16_pairs_whole(s: Seq<char>)
    ensures
        pairs_whole(utf16(s)),
    decreases s.len(),
{
    if s.len() > 0 {
        let r = s.drop_last();
        lemma_utf16_pairs_whole(r);
        lemma_decode_char(s.last());
        let a = utf16(r);
        let b = utf16_of(s.last());
        let u = utf16(s);
        assert(u == a + b);
        let x = s.last() as u32;
        assert forall|i: int| 0 <= i < u.len() && is_low(#[trigger] u[i]) implies i >= 1 && is_high(u[i - 1]) by {
            if i < a.len() {
                assert(u[i] == a[i]);
                assert(u[i - 1] == a[i - 1]);
            } else {
                let j = i - a.len();
                assert(u[i] == b[j]);
                assert(j != 0);
                assert(x >= 0x10000);
                let w = x - 0x10000;
                assert(w < 0x100000);
                assert(w / 1024 < 0x400) by (nonlinear_arith)
                    requires w < 0x100000;
                assert(u[i - 1] == b[0]);
            }
        }
    }
}

/// A snapped cut never lands between the halves of a pair.
pub open spec fn clean_cut(u: Seq<u16>, c: usize) -> bool {
    c <= u.len() && (c == u.len() || !is_low(u[c as int]))
}

proof fn lemma_snapped_clean(sp: Seq<(usize, usize, usize)>, n: usize, m: nat, u: Seq<u16>, c: usize)
    requires
        n == u.len(),
        pairs_whole(u),
        spans_ok(sp, n, m),
        snapped_set(raw_cuts(sp, n), u).contains(c),
    ensures
        clean_cut(u, c),
{
    lemma_raw_cuts_bounded(sp, n, m);
    let raw = raw_cuts(sp, n);
    let mv = raw.map_values(|x: usize| snap(x, u));
    let k = choose|k: int| 0 <= k < mv.len() && mv[k] == c;
    assert(mv[k] == snap(raw[k], u));
    let r = raw[k];
    assert(r <= n);
    if r < n && is_low(u[r as int]) {
        assert(r >= 1 && is_high(u[r - 1]));
    }
}

/// The text of a merged list is the text before and the new segment's.
proof fn lemma_merged_text(acc: Seq<(Seq<char>, Seq<char>, Option<usize>)>, seg: (Seq<char>, Seq<char>, Option<usize>))
    ensures
        joined_texts(merged(acc, seg)) == joined_texts(acc) + seg.1,
{
    let out = merged(acc, seg);
    if seg.0 == "plain"@ && acc.len() > 0 && acc.last().0 == "plain"@ {
        let last = acc.last();
        assert(out.drop_last() =~= acc.drop_last());
        assert(out.last() == (last.0, last.1 + seg.1, last.2));
        assert(joined_texts(acc) == joined_texts(acc.drop_last()) + last.1);
        assert(joined_texts(out) == joined_texts(acc.drop_last()) + (last.1 + seg.1));
    } else {
        assert(out.drop_last() =~= acc);
    }
}

/// The first `k` windows spell the units between the first and `k`-th cut.
proof fn lemma_pieces_text(u: Seq<u16>, es: Seq<Entity>, sp: Seq<(usize, usize, usize)>, cuts: Seq<usize>, k: int)
    requires
        0 <= k < cuts.len(),
        increasing(cuts),
        forall|x: int| 0 <= x < cuts.len() ==> clean_cut(u, #[trigger] cuts[x]),
    ensures
        joined_texts(pieces(u, es, sp, cuts, k)) == decode(u.subrange(cuts[0] as int, cuts[k] as int)),
    decreases k,
{
    if k == 0 {
        assert(u.subrange(cuts[0] as int, cuts[0] as int) =~= Seq::<u16>::empty());
    } else {
        lemma_pieces_text(u, es, sp, cuts, k - 1);
        let lo = cuts[k - 1];
        let hi = cuts[k];
        assert(lo < hi);
        assert(clean_cut(u, lo) && clean_cut(u, hi));
        assert(cuts[0] <= lo) by {
            if k - 1 > 0 {
                assert(cuts[0] < cuts[k - 1]);
            }
        }
        let x = u.subrange(cuts[0] as int, lo as int);
        let y = u.subrange(lo as int, hi as int);
        assert(u.subrange(cuts[0] as int, hi as int) =~= x + y);
        assert(y[0] == u[lo as int]);
        lemma_decode_concat(x, y);
        let acc = pieces(u, es, sp, cuts, k - 1);
        match piece(u, es, sp, lo, hi) {
            Some(seg) => {
                lemma_merged_text(acc, seg);
                assert(seg.1 == decode(y));
            },
            None => {
                assert(decode(y).len() == 0);
                assert(decode(y) =~= Seq::<char>::empty());
            },
        }
    }
}

/// Nothing is lost: Desktop's segments, read one after another, spell the
/// text exactly, however the entities overlap, run off the end, or cut a
/// surrogate pair in half.
pub proof fn law_segments_spell_the_text(text: Seq<char>, es: Seq<Entity>)
    requires
        utf16(text).len() <= usize::MAX,
    ensures
        joined_texts(segments_of(text, es)) == text,
{
    let u = utf16(text);
    let n = u.len();
    let sp = spans_of(es, n as int);
    if text.len() == 0 {
        assert(text =~= Seq::<char>::empty());
    } else if es.len() == 0 || sp.len() == 0 {
        let one = seq![("plain"@, text, None::<usize>)];
        assert(one.drop_last() =~= Seq::<(Seq<char>, Seq<char>, Option<usize>)>::empty());
        assert(segments_of(text, es) == one);
        assert(joined_texts(one) == joined_texts(one.drop_last()) + text);
        assert(Seq::<char>::empty() + text =~= text);
    } else {
        let nu = n as usize;
        lemma_utf16_pairs_whole(text);
        lemma_spans_ok(es, nu);
        let raw = raw_cuts(sp, nu);
        let mapped = raw.map_values(|c: usize| snap(c, u));
        let cuts = cuts_of(sp, u);
        assert(cuts == sorted_list(mapped));
        lemma_sorted_list(mapped);
        assert(cuts.to_set() == snapped_set(raw, u));
        assert forall|x: int| 0 <= x < cuts.len() implies clean_cut(u, #[trigger] cuts[x]) by {
            assert(cuts.to_set().contains(cuts[x]));
            lemma_snapped_clean(sp, nu, es.len(), u, cuts[x]);
        }
        lemma_raw_cuts_len(sp, nu);
        assert(u.len() > 0) by {
            assert(utf16(text) == utf16(text.drop_last()) + utf16_of(text.last()));
        }
        assert(!is_low(u[0])) by {
            if is_low(u[0]) {
                assert(0 >= 1);
            }
        }
        assert(mapped[0] == snap(raw[0], u) && snap(0, u) == 0);
        assert(mapped[1] == snap(raw[1], u) && snap(nu, u) == nu);
        assert(mapped.to_set().contains(0usize));
        assert(mapped.to_set().contains(nu));
        let j0 = choose|j: int| 0 <= j < cuts.len() && cuts[j] == 0usize;
        let jn = choose|j: int| 0 <= j < cuts.len() && cuts[j] == nu;
        assert(cuts[0] == 0) by {
            if j0 > 0 {
                assert(cuts[0] < cuts[j0]);
            }
        }
        let last = cuts.len() - 1;
        assert(cuts[last] == nu) by {
            assert(clean_cut(u, cuts[last]));
            if jn < last {
                assert(cuts[jn] < cuts[last]);
            }
        }
        lemma_pieces_text(u, es, sp, cuts, last);
        assert(u.subrange(0, n as int) =~= u);
        lemma_decode_utf16(text);
        let out = pieces(u, es, sp, cuts, last);
        assert(joined_texts(out) == text);
        if out.len() > 0 && out.last().0 != "plain"@ && utf8_len(text) > u.len() {
            let tail = out.push(("plain"@, Seq::<char>::empty(), None::<usize>));
            assert(segments_of(text, es) == tail);
            assert(tail.drop_last() =~= out);
            assert(joined_texts(tail) == joined_texts(out) + Seq::<char>::empty());
            assert(joined_texts(out) + Seq::<char>::empty() =~= joined_texts(out));
        } else {
            assert(segments_of(text, es) == out);
        }
    }
}

proof fn lemma_spans_ok(es: Seq<Entity>, n: usize)
    ensures
        spans_ok(spans_of(es, n as int), n, es.len()),
    decreases es.len(),
{
    if es.len() > 0 {
        let r = es.drop_last();
        lemma_spans_ok(r, n);
        let rest = spans_of(r, n as int);
        let sp = spans_of(es, n as int);
        let c = clamp_span(es.last(), n as int);
        assert(0 <= c.0 && c.1 <= n);
        assert forall|q: int| 0 <= q < sp.len() implies #[trigger] sp[q].0 < sp[q].1 && sp[q].1 <= n && sp[q].2 < es.len() by {
            if q < rest.len() {
                assert(sp[q] == rest[q]);
                assert(rest[q].0 < rest[q].1 && rest[q].1 <= n && rest[q].2 < r.len());
            } else {
                assert(c.0 < c.1);
                assert(sp[q] == (c.0 as usize, c.1 as usize, (es.len() - 1) as usize));
            }
        }
    }
}


/// A text's UTF-16 units decode back to the text: the lossy decoding loses
/// nothing of what came from a string.
pub proof fn law_units_decode_back(s: Seq<char>)
    ensures
        decode(utf16(s)) == s,
{
    lemma_decode_utf16(s);
}

} // verus!
