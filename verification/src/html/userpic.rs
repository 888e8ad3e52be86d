//! Userpics: the coloured circle with two letters in it.
//!
//! The colour is the bare id modulo seven through a permuted palette, and a
//! self-chosen colour is written out verbatim.

use vstd::prelude::*;
use crate::format::peer::{colour_of, initials_from_name, initials_of_name, userpic_colour};
use crate::format::value::{get, int_of, str_of, Json};
use crate::html::escape::{esc, esc_text};
use crate::html::page::{attr1, attr2};
use crate::html::tree::{a, close_step, leaf_step, open_step, pair_views, Tree, TreeState};
use crate::strings::{chars_of, dec, int_text, owned, push_all, push_dec, push_int, push_seq, string_of};

verus! {

pub open spec fn is_digit(c: char) -> bool {
    '0' <= c && c <= '9'
}

/// The residue modulo seven of the number the digits of `s` spell, reading
/// every ASCII digit in order and skipping everything else.
pub open spec fn digit_residue(s: Seq<char>) -> int
    decreases s.len(),
{
    if s.len() == 0 {
        0
    } else if is_digit(s.last()) {
        (digit_residue(s.drop_last()) * 10 + (s.last() as int - 48)) % 7
    } else {
        digit_residue(s.drop_last())
    }
}

/// The position of the first ASCII digit, if any.
pub open spec fn first_digit(s: Seq<char>) -> Option<int>
    decreases s.len(),
{
    if s.len() == 0 {
        None
    } else if is_digit(s[0]) {
        Some(0)
    } else {
        match first_digit(s.drop_first()) {
            Some(i) => Some(i + 1),
            None => None,
        }
    }
}

/// CSS index for a peer's userpic colour: a self-chosen colour plus one, or
/// the palette entry for the digits of `from_id`, negated when a `-`
/// directly precedes them, or the first palette entry when there are none.
pub open spec fn userpic_class_of(from_id: Seq<char>, override_colour: Option<i64>) -> int {
    match override_colour {
        Some(c) => c + 1,
        None => match first_digit(from_id) {
            None => colour_of(0) as int,
            Some(f) => {
                let r = digit_residue(from_id);
                colour_of(if f > 0 && from_id[f - 1] == '-' { -r } else { r }) as int
            },
        },
    }
}

proof fn lemma_first_digit(s: Seq<char>, i: int)
    requires
        0 <= i <= s.len(),
        forall|k: int| 0 <= k < i ==> !is_digit(#[trigger] s[k]),
    ensures
        i < s.len() && is_digit(s[i]) ==> first_digit(s) == Some(i),
        i == s.len() ==> first_digit(s) == None::<int>,
    decreases i,
{
    if i > 0 {
        let t = s.drop_first();
        assert forall|k: int| 0 <= k < i - 1 implies !is_digit(#[trigger] t[k]) by {
            assert(t[k] == s[k + 1]);
        }
        if i < s.len() {
            assert(t[i - 1] == s[i]);
        }
        lemma_first_digit(t, i - 1);
    }
}

pub fn userpic_class(from_id: &str, override_colour: Option<i64>) -> (c: i64)
    requires
        override_colour != Some(i64::MAX),
    ensures
        c as int == userpic_class_of(from_id@, override_colour),
{
    if let Some(c) = override_colour {
        return c + 1;
    }
    let s = chars_of(from_id);
    let mut first: usize = 0;
    while first < s.len() && !(s[first] >= '0' && s[first] <= '9')
        invariant
            first <= s.len(),
            forall|k: int| 0 <= k < first ==> !is_digit(#[trigger] s@[k]),
        decreases s.len() - first,
    {
        first += 1;
    }
    proof {
        lemma_first_digit(s@, first as int);
    }
    if first == s.len() {
        return userpic_colour(0) as i64;
    }
    let mut rem: i64 = 0;
    let mut i: usize = 0;
    while i < s.len()
        invariant
            i <= s.len(),
            rem == digit_residue(s@.take(i as int)),
            0 <= rem < 7,
        decreases s.len() - i,
    {
        assert(s@.take(i + 1).drop_last() == s@.take(i as int));
        let c = s[i];
        if c >= '0' && c <= '9' {
            rem = (rem * 10 + (c as u32 - 48) as i64) % 7;
        }
        i += 1;
    }
    assert(s@.take(s.len() as int) == s@);
    if first > 0 && s[first - 1] == '-' {
        rem = -rem;
    }
    userpic_colour(rem) as i64
}

/// The presentation dictionary a message may carry under `_p`: what the
/// export lifted for display alone, never part of the JSON.
pub struct Presentation<'a> {
    map: Option<&'a Json>,
}

/// The `_p` object of a message, when it has one.
pub open spec fn presentation_of(m: Json) -> Option<Json> {
    match get(m, "_p"@) {
        Some(Json::Object(f)) => Some(Json::Object(f)),
        _ => None,
    }
}

/// `_p[k]`.
pub open spec fn pres_get(p: Option<Json>, k: Seq<char>) -> Option<Json> {
    match p {
        Some(map) => get(map, k),
        None => None,
    }
}

/// `_p[outer][k]` when `_p[outer]` is an object.
pub open spec fn pres_nested(p: Option<Json>, outer: Seq<char>, k: Seq<char>) -> Option<Json> {
    match pres_get(p, outer) {
        Some(Json::Object(f)) => get(Json::Object(f), k),
        _ => None,
    }
}

impl<'a> Presentation<'a> {
    /// What the dictionary holds, when there is one.
    pub closed spec fn map(&self) -> Option<Json> {
        match self.map {
            Some(m) => Some(*m),
            None => None,
        }
    }

    pub fn of(m: &'a Json) -> (p: Self)
        ensures
            p.map() == presentation_of(*m),
    {
        match m.get("_p") {
            Some(v) => match v {
                Json::Object(_) => Presentation { map: Some(v) },
                _ => Presentation { map: None },
            },
            None => Presentation { map: None },
        }
    }

    pub fn get(&self, key: &str) -> (r: Option<&'a Json>)
        ensures
            match r {
                Some(v) => pres_get(self.map(), key@) == Some(*v),
                None => pres_get(self.map(), key@) is None,
            },
    {
        match self.map {
            Some(m) => m.get(key),
            None => None,
        }
    }

    pub fn str(&self, key: &str) -> (r: Option<&'a str>)
        ensures
            match r {
                Some(s) => str_of(pres_get(self.map(), key@)) == Some(s@),
                None => str_of(pres_get(self.map(), key@)) is None,
            },
    {
        match self.get(key) {
            Some(v) => v.as_str(),
            None => None,
        }
    }

    fn nested(&self, outer: &str, key: &str) -> (r: Option<&'a Json>)
        ensures
            match r {
                Some(v) => pres_nested(self.map(), outer@, key@) == Some(*v),
                None => pres_nested(self.map(), outer@, key@) is None,
            },
    {
        match self.get(outer) {
            Some(o) => match o {
                Json::Object(_) => o.get(key),
                _ => None,
            },
            None => None,
        }
    }

    /// The letters Desktop painted for this peer, if they were lifted.
    pub fn initials(&self, peer: &str) -> (r: Option<&'a str>)
        ensures
            match r {
                Some(s) => str_of(pres_nested(self.map(), "initials"@, peer@)) == Some(s@),
                None => str_of(pres_nested(self.map(), "initials"@, peer@)) is None,
            },
    {
        match self.nested("initials", peer) {
            Some(v) => v.as_str(),
            None => None,
        }
    }

    /// A self-chosen name colour.
    pub fn colour(&self, peer: &str) -> (r: Option<i64>)
        ensures
            r == int_of(pres_nested(self.map(), "colours"@, peer@)),
    {
        match self.nested("colours", peer) {
            Some(v) => v.as_i64(),
            None => None,
        }
    }
}

/// The letters for a peer: lifted if there were any, derived otherwise.
pub open spec fn letters_of(p: Option<Json>, from_id: Seq<char>, name: Seq<char>) -> Seq<char> {
    match str_of(pres_nested(p, "initials"@, from_id)) {
        Some(s) => s,
        None => initials_of_name(name),
    }
}

pub fn letters(p: &Presentation, from_id: &str, name: &str) -> (s: String)
    ensures
        s@ == letters_of(p.map(), from_id@, name@),
{
    match p.initials(from_id) {
        Some(found) => owned(found),
        None => initials_from_name(name),
    }
}

/// The userpic box, with its initials inside and an optional title.
pub open spec fn userpic_box_step(t: TreeState, p: Option<Json>, name: Seq<char>, from_id: Seq<char>, size: u32, title: Option<Seq<char>>) -> TreeState {
    let index = userpic_class_of(from_id, int_of(pres_nested(p, "colours"@, from_id)));
    let px = dec(size as nat) + "px"@;
    let t1 = open_step(t, "div"@, attr2("class"@, "userpic userpic"@ + int_text(index), "style"@, "width: "@ + px + "; height: "@ + px));
    let inner = match title {
        Some(tt) => seq![("class"@, "initials"@), ("style"@, "line-height: "@ + px), ("title"@, tt)],
        None => attr2("class"@, "initials"@, "style"@, "line-height: "@ + px),
    };
    let t2 = leaf_step(t1, "div"@, esc_text(letters_of(p, from_id, name)), inner);
    close_step(t2, "div"@)
}

/// The `<div class="userpic userpicN">` box, with its initials inside.
pub fn userpic_box(t: &mut Tree, p: &Presentation, name: &str, from_id: &str, size: u32, title: Option<&str>)
    requires
        old(t)@.1 + 2 < usize::MAX,
        int_of(pres_nested(p.map(), "colours"@, from_id@)) != Some(i64::MAX),
    ensures
        final(t)@ == userpic_box_step(old(t)@, p.map(), name@, from_id@, size, match title { Some(x) => Some(x@), None => None }),
        final(t)@.1 == old(t)@.1,
{
    let index = userpic_class(from_id, p.colour(from_id));
    let mut px: Vec<char> = Vec::new();
    push_dec(&mut px, size as u64);
    push_all(&mut px, "px");
    let mut class: Vec<char> = Vec::new();
    push_all(&mut class, "userpic userpic");
    push_int(&mut class, index);
    let class = string_of(&class);
    let mut style: Vec<char> = Vec::new();
    push_all(&mut style, "width: ");
    push_seq(&mut style, &px);
    push_all(&mut style, "; height: ");
    push_seq(&mut style, &px);
    let style = string_of(&style);
    let at = [a("class", class.as_str()), a("style", style.as_str())];
    let ghost pxv = dec(size as nat) + "px"@;
    assert(px@ == pxv);
    assert(pair_views(at@) =~= attr2("class"@, "userpic userpic"@ + int_text(index as int), "style"@, "width: "@ + pxv + "; height: "@ + pxv));
    t.open("div", &at);
    let mut lh: Vec<char> = Vec::new();
    push_all(&mut lh, "line-height: ");
    push_seq(&mut lh, &px);
    let lh = string_of(&lh);
    let text = esc(letters(p, from_id, name).as_str());
    match title {
        Some(tt) => {
            let at = [a("class", "initials"), a("style", lh.as_str()), a("title", tt)];
            assert(pair_views(at@) =~= seq![("class"@, "initials"@), ("style"@, "line-height: "@ + pxv), ("title"@, tt@)]);
            t.leaf("div", text.as_str(), &at);
        },
        None => {
            let at = [a("class", "initials"), a("style", lh.as_str())];
            assert(pair_views(at@) =~= attr2("class"@, "initials"@, "style"@, "line-height: "@ + pxv));
            t.leaf("div", text.as_str(), &at);
        },
    }
    t.close("div");
}

/// The wrapped form used beside a message body.
pub open spec fn userpic_step(t: TreeState, p: Option<Json>, name: Seq<char>, from_id: Seq<char>, size: u32, extra_class: Seq<char>) -> TreeState {
    let wrap = if extra_class.len() == 0 { "userpic_wrap"@ } else { extra_class + " userpic_wrap"@ };
    let t1 = open_step(t, "div"@, attr1("class"@, "pull_left "@ + wrap));
    close_step(userpic_box_step(t1, p, name, from_id, size, None), "div"@)
}

pub fn userpic(t: &mut Tree, p: &Presentation, name: &str, from_id: &str, size: u32, extra_class: &str)
    requires
        old(t)@.1 + 3 < usize::MAX,
        int_of(pres_nested(p.map(), "colours"@, from_id@)) != Some(i64::MAX),
    ensures
        final(t)@ == userpic_step(old(t)@, p.map(), name@, from_id@, size, extra_class@),
        final(t)@.1 == old(t)@.1,
{
    let mut class: Vec<char> = Vec::new();
    push_all(&mut class, "pull_left ");
    if extra_class.unicode_len() > 0 {
        push_all(&mut class, extra_class);
        push_all(&mut class, " userpic_wrap");
    } else {
        push_all(&mut class, "userpic_wrap");
    }
    assert(class@ =~= "pull_left "@ + if extra_class@.len() == 0 { "userpic_wrap"@ } else { extra_class@ + " userpic_wrap"@ });
    let class = string_of(&class);
    let at = [a("class", class.as_str())];
    assert(pair_views(at@) =~= attr1("class"@, "pull_left "@ + if extra_class@.len() == 0 { "userpic_wrap"@ } else { extra_class@ + " userpic_wrap"@ }));
    t.open("div", &at);
    userpic_box(t, p, name, from_id, size, None);
    t.close("div");
}

} // verus!
