//! Reactions under a message: one chip per reaction, the named reactors'
//! userpics, and the count only when it exceeds the faces shown.

use vstd::prelude::*;
use crate::format::value::{bool_of, get, int_of, member, shown, shown_string, str_or_empty, Json};
use crate::html::escape::{cleaned, collapsed, esc, esc_text, href_ok, safe_href};
use crate::html::media::vetted;
use crate::html::page::attr1;
use crate::html::tree::{a, close_step, leaf_step, open_step, pair_views, Tree, TreeState};
use crate::html::userpic::{pres_get, pres_nested, presentation_of, userpic_box, userpic_box_step, Presentation};
use crate::strings::{chars_of, contains_chars, dec, int_text, owned, push_all, push_int, same_chars, string_of};

verus! {

/// What Desktop shows for any custom-emoji reaction.
pub const CUSTOM_REACTION_GLYPH: &'static str = "\u{1f44b}";

/// No self-chosen colour is the largest number there is, so every userpic
/// colour can be written out one past it.
pub open spec fn colours_fit(p: Option<Json>) -> bool {
    forall|peer: Seq<char>| #[trigger] int_of(pres_nested(p, "colours"@, peer)) != Some(i64::MAX)
}

/// The contents of one reaction's `<span class="emoji">`: the emoji, or for
/// a custom emoji the waving hand, linked to its saved file when the id is
/// a path, else to the toast Desktop shows for one it did not load.
pub open spec fn glyph_of(r: Json) -> Seq<char> {
    if str_or_empty(get(r, "type"@)) != "custom_emoji"@ {
        esc_text(str_or_empty(get(r, "emoji"@)))
    } else {
        let doc = match get(r, "document_id"@) {
            Some(v) => shown(v),
            None => Seq::empty(),
        };
        let glyph = esc_text(CUSTOM_REACTION_GLYPH@);
        let href = if doc.len() > 0 && (doc.contains('/') || doc.contains('.')) { vetted(Some(doc)) } else { None };
        match href {
            Some(h) => "<a href = \""@ + esc_text(h) + "\">"@ + glyph + "</a>"@,
            None => "<a href=\"\" onclick=\"return ShowNotLoadedEmoji()\">"@ + glyph + "</a>"@,
        }
    }
}

fn contains_char(v: &Vec<char>, c: char) -> (b: bool)
    ensures
        b == v@.contains(c),
{
    let mut i: usize = 0;
    while i < v.len()
        invariant
            i <= v@.len(),
            forall|k: int| 0 <= k < i ==> v@[k] != c,
        decreases v.len() - i,
    {
        if v[i] == c {
            return true;
        }
        i += 1;
    }
    false
}

fn reaction_glyph(r: &Json) -> (s: String)
    ensures
        s@ == glyph_of(*r),
{
    let kind = crate::format::value::str_field(r, "type");
    if !crate::strings::same_chars(&chars_of(kind.as_str()), &chars_of("custom_emoji")) {
        return esc(crate::format::value::str_field(r, "emoji").as_str());
    }
    let doc = match r.get("document_id") {
        Some(v) => shown_string(v),
        None => String::new(),
    };
    let glyph = esc(CUSTOM_REACTION_GLYPH);
    let dc = chars_of(doc.as_str());
    let href = if dc.len() > 0 && (contains_char(&dc, '/') || contains_char(&dc, '.')) {
        safe_href(doc.as_str())
    } else {
        None
    };
    let mut v: Vec<char> = Vec::new();
    match href {
        Some(h) => {
            push_all(&mut v, "<a href = \"");
            push_all(&mut v, esc(h.as_str()).as_str());
            push_all(&mut v, "\">");
            push_all(&mut v, glyph.as_str());
            push_all(&mut v, "</a>");
        },
        None => {
            push_all(&mut v, "<a href=\"\" onclick=\"return ShowNotLoadedEmoji()\">");
            push_all(&mut v, glyph.as_str());
            push_all(&mut v, "</a>");
        },
    }
    string_of(&v)
}

/// Which reactions the exporting account picked, by position.
pub open spec fn chosen_flags(p: Option<Json>) -> Seq<bool> {
    match pres_get(p, "reactions_chosen"@) {
        Some(Json::Array(items)) => items@.map_values(|v: Json| bool_of(Some(v)) == Some(true)),
        _ => Seq::empty(),
    }
}

/// The named reactors' userpics.
pub open spec fn recent_step(t: TreeState, p: Option<Json>, recent: Seq<Json>) -> TreeState
    decreases recent.len(),
{
    if recent.len() == 0 {
        t
    } else {
        let before = recent_step(t, p, recent.drop_last());
        let who = recent.last();
        if who is Object {
            let name = str_or_empty(get(who, "from"@));
            userpic_box_step(before, p, name, str_or_empty(get(who, "from_id"@)), 20, Some(name))
        } else {
            before
        }
    }
}

/// The reactors a reaction names.
pub open spec fn recent_of(r: Json) -> Seq<Json> {
    match get(r, "recent"@) {
        Some(Json::Array(items)) => items@,
        _ => Seq::empty(),
    }
}

/// A reaction's count: a whole number, else zero.
pub open spec fn count_of(r: Json) -> int {
    match get(r, "count"@) {
        Some(Json::Number(n)) => match n.int { Some(i) => i as int, None => 0 },
        _ => 0,
    }
}

/// One reaction chip.
pub open spec fn reaction_step(t: TreeState, p: Option<Json>, r: Json, active: bool) -> TreeState {
    let t1 = open_step(t, "span"@, attr1("class"@, "reaction"@ + if active { " active"@ } else { Seq::empty() }));
    let t2 = leaf_step(t1, "span"@, glyph_of(r), attr1("class"@, "emoji"@));
    let recent = recent_of(r);
    let t3 = if recent.len() > 0 {
        close_step(recent_step(open_step(t2, "span"@, attr1("class"@, "userpics"@)), p, recent), "span"@)
    } else {
        t2
    };
    let t4 = if count_of(r) > recent.len() { leaf_step(t3, "span"@, esc_text(int_text(count_of(r))), attr1("class"@, "count"@)) } else { t3 };
    close_step(t4, "span"@)
}

/// The chips of the reactions that are objects.
pub open spec fn chips_step(t: TreeState, p: Option<Json>, rs: Seq<Json>, chosen: Seq<bool>) -> TreeState
    decreases rs.len(),
{
    if rs.len() == 0 {
        t
    } else {
        let before = chips_step(t, p, rs.drop_last(), chosen);
        let i = rs.len() - 1;
        if rs.last() is Object {
            reaction_step(before, p, rs.last(), i < chosen.len() && chosen[i])
        } else {
            before
        }
    }
}

/// A message's reactions, or nothing when it has none.
pub open spec fn reactions_step(t: TreeState, m: Json, p: Option<Json>) -> TreeState {
    match get(m, "reactions"@) {
        Some(Json::Array(rs)) => if rs@.len() == 0 {
            t
        } else {
            close_step(chips_step(open_step(t, "span"@, attr1("class"@, "reactions"@)), p, rs@, chosen_flags(p)), "span"@)
        },
        _ => t,
    }
}

fn chosen_of(p: &Presentation) -> (c: Vec<bool>)
    ensures
        c@ == chosen_flags(p.map()),
{
    let mut out: Vec<bool> = Vec::new();
    match p.get("reactions_chosen") {
        Some(Json::Array(items)) => {
            let mut i: usize = 0;
            while i < items.len()
                invariant
                    i <= items@.len(),
                    out@ == items@.take(i as int).map_values(|v: Json| bool_of(Some(v)) == Some(true)),
                decreases items.len() - i,
            {
                out.push(items[i].as_bool() == Some(true));
                assert(items@.take(i + 1).map_values(|v: Json| bool_of(Some(v)) == Some(true)) =~= items@.take(i as int).map_values(|v: Json| bool_of(Some(v)) == Some(true)).push(bool_of(Some(items@[i as int])) == Some(true)));
                i += 1;
            }
            assert(items@.take(items@.len() as int) == items@);
        },
        _ => {},
    }
    out
}

fn render_recent(t: &mut Tree, p: &Presentation, recent: &Vec<Json>)
    requires
        old(t)@.1 + 3 < usize::MAX,
        colours_fit(p.map()),
    ensures
        final(t)@ == recent_step(old(t)@, p.map(), recent@),
        final(t)@.1 == old(t)@.1,
{
    let ghost start = t@;
    let mut i: usize = 0;
    while i < recent.len()
        invariant
            i <= recent@.len(),
            t@.1 == start.1,
            start.1 + 3 < usize::MAX,
            colours_fit(p.map()),
            t@ == recent_step(start, p.map(), recent@.take(i as int)),
        decreases recent.len() - i,
    {
        assert(recent@.take(i + 1).drop_last() == recent@.take(i as int));
        let who = &recent[i];
        if let Json::Object(_) = who {
            let name = crate::format::value::str_field(who, "from");
            let from_id = crate::format::value::str_field(who, "from_id");
            assert(int_of(pres_nested(p.map(), "colours"@, from_id@)) != Some(i64::MAX));
            userpic_box(t, p, name.as_str(), from_id.as_str(), 20, Some(name.as_str()));
        }
        i += 1;
    }
    assert(recent@.take(recent@.len() as int) == recent@);
}

fn render_reaction(t: &mut Tree, p: &Presentation, r: &Json, active: bool)
    requires
        old(t)@.1 + 5 < usize::MAX,
        colours_fit(p.map()),
    ensures
        final(t)@ == reaction_step(old(t)@, p.map(), *r, active),
        final(t)@.1 == old(t)@.1,
{
    let mut cv: Vec<char> = Vec::new();
    push_all(&mut cv, "reaction");
    if active {
        push_all(&mut cv, " active");
    }
    assert(cv@ =~= "reaction"@ + if active { " active"@ } else { Seq::<char>::empty() });
    let class = string_of(&cv);
    let at = [a("class", class.as_str())];
    assert(pair_views(at@) =~= attr1("class"@, "reaction"@ + if active { " active"@ } else { Seq::<char>::empty() }));
    t.open("span", &at);
    let at = [a("class", "emoji")];
    assert(pair_views(at@) =~= attr1("class"@, "emoji"@));
    t.leaf("span", reaction_glyph(r).as_str(), &at);
    let empty: Vec<Json> = Vec::new();
    let recent: &Vec<Json> = match r.get("recent") {
        Some(Json::Array(items)) => items,
        _ => &empty,
    };
    assert(recent@ == recent_of(*r));
    if recent.len() > 0 {
        let at = [a("class", "userpics")];
        assert(pair_views(at@) =~= attr1("class"@, "userpics"@));
        t.open("span", &at);
        render_recent(t, p, recent);
        t.close("span");
    }
    let count: i64 = match r.get("count") {
        Some(Json::Number(n)) => match n.int {
            Some(i) => i,
            None => 0,
        },
        _ => 0,
    };
    if count > 0 && (count as u64) > (recent.len() as u64) {
        let mut v: Vec<char> = Vec::new();
        push_int(&mut v, count);
        let text = string_of(&v);
        let at = [a("class", "count")];
        assert(pair_views(at@) =~= attr1("class"@, "count"@));
        t.leaf("span", esc(text.as_str()).as_str(), &at);
    }
    t.close("span");
}

pub fn render(t: &mut Tree, m: &Json, p: &Presentation)
    requires
        old(t)@.1 + 6 < usize::MAX,
        colours_fit(p.map()),
    ensures
        final(t)@ == reactions_step(old(t)@, *m, p.map()),
        final(t)@.1 == old(t)@.1,
{
    let rs = match m.get("reactions") {
        Some(Json::Array(rs)) => rs,
        _ => return,
    };
    if rs.len() == 0 {
        return;
    }
    let chosen = chosen_of(p);
    let at = [a("class", "reactions")];
    assert(pair_views(at@) =~= attr1("class"@, "reactions"@));
    t.open("span", &at);
    let ghost opened = t@;
    let mut i: usize = 0;
    while i < rs.len()
        invariant
            i <= rs@.len(),
            t@.1 == opened.1,
            opened.1 + 5 < usize::MAX,
            colours_fit(p.map()),
            chosen@ == chosen_flags(p.map()),
            t@ == chips_step(opened, p.map(), rs@.take(i as int), chosen@),
        decreases rs.len() - i,
    {
        assert(rs@.take(i + 1).drop_last() == rs@.take(i as int));
        if let Json::Object(_) = &rs[i] {
            let active = i < chosen.len() && chosen[i];
            render_reaction(t, p, &rs[i], active);
        }
        i += 1;
    }
    assert(rs@.take(rs@.len() as int) == rs@);
    t.close("span");
}


/// The first member with a name is the one a lookup finds.
proof fn lemma_member_first(fields: Seq<(String, Json)>, k: Seq<char>, j: int)
    requires
        0 <= j < fields.len(),
        fields[j].0@ == k,
        forall|i: int| 0 <= i < j ==> fields[i].0@ != k,
    ensures
        member(fields, k) == Some(fields[j].1),
    decreases j,
{
    if j > 0 {
        lemma_member_first(fields.drop_first(), k, j - 1);
    }
}

/// A name no member has is not found.
proof fn lemma_member_absent(fields: Seq<(String, Json)>, k: Seq<char>)
    requires
        forall|i: int| 0 <= i < fields.len() ==> fields[i].0@ != k,
    ensures
        member(fields, k) is None,
    decreases fields.len(),
{
    if fields.len() > 0 {
        lemma_member_absent(fields.drop_first(), k);
    }
}

fn named_before(fields: &Vec<(String, Json)>, i: usize) -> (b: bool)
    requires
        i < fields@.len(),
    ensures
        b == exists|j: int| 0 <= j < i && #[trigger] fields@[j].0@ == fields@[i as int].0@,
{
    let name = chars_of(fields[i].0.as_str());
    let mut j: usize = 0;
    while j < i
        invariant
            j <= i < fields@.len(),
            name@ == fields@[i as int].0@,
            forall|k: int| 0 <= k < j ==> #[trigger] fields@[k].0@ != fields@[i as int].0@,
        decreases i - j,
    {
        if same_chars(&chars_of(fields[j].0.as_str()), &name) {
            return true;
        }
        j += 1;
    }
    false
}

/// Does every self-chosen colour in a message's presentation leave room
/// for the one past it? What a writer needs of a message it is given.
pub fn colours_in_range(m: &Json) -> (b: bool)
    ensures
        b == colours_fit(presentation_of(*m)),
{
    let p = Presentation::of(m);
    let fields = match p.get("colours") {
        Some(Json::Object(fields)) => fields,
        _ => {
            assert forall|peer: Seq<char>| #[trigger] int_of(pres_nested(presentation_of(*m), "colours"@, peer)) != Some(i64::MAX) by {}
            return true;
        },
    };
    let mut i: usize = 0;
    while i < fields.len()
        invariant
            i <= fields@.len(),
            pres_get(presentation_of(*m), "colours"@) == Some(Json::Object(*fields)),
            forall|peer: Seq<char>| (exists|j: int| 0 <= j < i && #[trigger] fields@[j].0@ == peer)
                ==> int_of(member(fields@, peer)) != Some(i64::MAX),
        decreases fields.len() - i,
    {
        let v = fields[i].1.as_i64();
        let earlier = named_before(fields, i);
        let ghost name = fields@[i as int].0@;
        if !earlier {
            proof {
                assert forall|k: int| 0 <= k < i implies fields@[k].0@ != name by {
                    if fields@[k].0@ == name {
                        assert(exists|j: int| 0 <= j < i && #[trigger] fields@[j].0@ == fields@[i as int].0@);
                    }
                }
                lemma_member_first(fields@, name, i as int);
            }
            if v == Some(i64::MAX) {
                assert(int_of(pres_nested(presentation_of(*m), "colours"@, name)) == Some(i64::MAX));
                return false;
            }
        }
        proof {
            assert forall|peer: Seq<char>| (exists|j: int| 0 <= j < i + 1 && #[trigger] fields@[j].0@ == peer)
                implies int_of(member(fields@, peer)) != Some(i64::MAX) by {
                let j = choose|j: int| 0 <= j < i + 1 && #[trigger] fields@[j].0@ == peer;
                if j < i {
                    assert(exists|j2: int| 0 <= j2 < i && #[trigger] fields@[j2].0@ == peer);
                } else if earlier {
                    let j2 = choose|j2: int| 0 <= j2 < i && #[trigger] fields@[j2].0@ == fields@[i as int].0@;
                    assert(fields@[j2].0@ == peer);
                }
            }
        }
        i += 1;
    }
    proof {
        assert forall|peer: Seq<char>| #[trigger] int_of(pres_nested(presentation_of(*m), "colours"@, peer)) != Some(i64::MAX) by {
            if !(exists|j: int| 0 <= j < fields@.len() && #[trigger] fields@[j].0@ == peer) {
                assert forall|k: int| 0 <= k < fields@.len() implies fields@[k].0@ != peer by {
                    if fields@[k].0@ == peer {
                        assert(exists|j: int| 0 <= j < fields@.len() && #[trigger] fields@[j].0@ == peer);
                    }
                }
                lemma_member_absent(fields@, peer);
            }
        }
    }
    true
}

} // verus!
