//! Desktop's emission model, reproduced exactly because pages are compared
//! line by line:
//!
//! * One space of indentation per level.
//! * A blank line separates two consecutive tag lines; text sits at column 0
//!   with no blank line on either side of it.
//! * Attributes are written in alphabetical order of their names.

use vstd::prelude::*;
use crate::html::escape::{attr_text, push_attr};
use crate::strings::{
    chars_of, compare_chars, lemma_lex_asymmetric, lemma_lex_irreflexive, lemma_lex_total,
    lemma_lex_transitive, lex_lt, push_all, push_char, push_seq, push_str, string_of,
};

verus! {

/// `n` spaces.
pub open spec fn spaces(n: nat) -> Seq<char> {
    Seq::new(n, |_i: int| ' ')
}

/// A tree's state: the text so far, the current depth, and whether the last
/// thing written was a tag line.
pub type TreeState = (Seq<char>, nat, bool);

/// Write one tag line: a blank line first if the previous line was a tag,
/// then the indent, the line and a newline.
#[verifier::opaque]
pub open spec fn tag_line_step(t: TreeState, line: Seq<char>) -> TreeState {
    (t.0 + (if t.2 { seq!['\n'] } else { Seq::empty() }) + spaces(t.1) + line + seq!['\n'], t.1, true)
}

/// Write already-escaped content at column 0.
#[verifier::opaque]
pub open spec fn text_step(t: TreeState, raw: Seq<char>) -> TreeState {
    (t.0 + raw + seq!['\n'], t.1, false)
}

/// One attribute as written: `name="value"`, the value attribute-escaped.
pub open spec fn pair_text(p: (Seq<char>, Seq<char>)) -> Seq<char> {
    p.0 + seq!['=', '"'] + attr_text(p.1) + seq!['"']
}

/// Insert `x` after every pair whose name does not sort after its own.
pub open spec fn insert_by_name(s: Seq<(Seq<char>, Seq<char>)>, x: (Seq<char>, Seq<char>)) -> Seq<(Seq<char>, Seq<char>)>
    decreases s.len(),
{
    if s.len() == 0 {
        seq![x]
    } else if lex_lt(x.0, s.last().0) {
        insert_by_name(s.drop_last(), x).push(s.last())
    } else {
        s.push(x)
    }
}

/// The attributes in alphabetical order of name; pairs with equal names keep
/// the order they were given in.
pub open spec fn sorted_by_name(s: Seq<(Seq<char>, Seq<char>)>) -> Seq<(Seq<char>, Seq<char>)>
    decreases s.len(),
{
    if s.len() == 0 {
        s
    } else {
        insert_by_name(sorted_by_name(s.drop_last()), s.last())
    }
}

/// The written pairs, separated by single spaces.
pub open spec fn joined_pairs(s: Seq<(Seq<char>, Seq<char>)>) -> Seq<char>
    decreases s.len(),
{
    if s.len() == 0 {
        Seq::empty()
    } else if s.len() == 1 {
        pair_text(s[0])
    } else {
        joined_pairs(s.drop_last()) + seq![' '] + pair_text(s.last())
    }
}

/// The attribute block of a tag: nothing, or a space and the sorted pairs.
pub open spec fn attrs_text(s: Seq<(Seq<char>, Seq<char>)>) -> Seq<char> {
    if s.len() == 0 {
        Seq::empty()
    } else {
        seq![' '] + joined_pairs(sorted_by_name(s))
    }
}

/// The views of an attribute list.
pub open spec fn pair_views(a: Seq<(&str, String)>) -> Seq<(Seq<char>, Seq<char>)> {
    a.map_values(|p: (&str, String)| (p.0@, p.1@))
}

#[verifier::opaque]
pub open spec fn open_step(t: TreeState, tag: Seq<char>, attrs: Seq<(Seq<char>, Seq<char>)>) -> TreeState {
    let u = tag_line_step(t, seq!['<'] + tag + attrs_text(attrs) + seq!['>']);
    (u.0, u.1 + 1, u.2)
}

#[verifier::opaque]
pub open spec fn close_step(t: TreeState, tag: Seq<char>) -> TreeState {
    let d: nat = if t.1 > 0 { (t.1 - 1) as nat } else { 0 };
    tag_line_step((t.0, d, t.2), seq!['<', '/'] + tag + seq!['>'])
}

#[verifier::opaque]
pub open spec fn void_step(t: TreeState, tag: Seq<char>, attrs: Seq<(Seq<char>, Seq<char>)>) -> TreeState {
    tag_line_step(t, seq!['<'] + tag + attrs_text(attrs) + seq!['/', '>'])
}

#[verifier::opaque]
pub open spec fn leaf_step(t: TreeState, tag: Seq<char>, content: Seq<char>, attrs: Seq<(Seq<char>, Seq<char>)>) -> TreeState {
    close_step(text_step(open_step(t, tag, attrs), content), tag)
}

/// Writes Desktop's indented tag/text layout into a string buffer.
pub struct Tree {
    buf: String,
    indent: usize,
    last_was_tag: bool,
}

impl View for Tree {
    type V = TreeState;

    closed spec fn view(&self) -> TreeState {
        (self.buf@, self.indent as nat, self.last_was_tag)
    }
}

/// Insert a pair into a list sorted by name, after every pair whose name
/// does not sort after its own.
fn insert_pair(s: &mut Vec<(Vec<char>, Vec<char>)>, x: (Vec<char>, Vec<char>))
    ensures
        final(s)@.map_values(|p: (Vec<char>, Vec<char>)| (p.0@, p.1@)) == insert_by_name(
            old(s)@.map_values(|p: (Vec<char>, Vec<char>)| (p.0@, p.1@)),
            (x.0@, x.1@),
        ),
    decreases old(s)@.len(),
{
    let ghost sv = s@.map_values(|p: (Vec<char>, Vec<char>)| (p.0@, p.1@));
    let ghost xv = (x.0@, x.1@);
    if s.len() == 0 {
        s.push(x);
        assert(s@.map_values(|p: (Vec<char>, Vec<char>)| (p.0@, p.1@)) =~= seq![xv]);
        return;
    }
    let n = s.len();
    let lt = compare_chars(&x.0, &s[n - 1].0) == -1;
    assert(sv.last() == (s@[n - 1].0@, s@[n - 1].1@));
    if lt {
        let last = s.pop().unwrap();
        assert(s@.map_values(|p: (Vec<char>, Vec<char>)| (p.0@, p.1@)) =~= sv.drop_last());
        insert_pair(s, x);
        s.push(last);
        assert(s@.map_values(|p: (Vec<char>, Vec<char>)| (p.0@, p.1@)) =~= insert_by_name(sv.drop_last(), xv).push(sv.last()));
    } else {
        s.push(x);
        assert(s@.map_values(|p: (Vec<char>, Vec<char>)| (p.0@, p.1@)) =~= sv.push(xv));
    }
}

impl Tree {
    pub fn new() -> (t: Self)
        ensures
            t@ == (Seq::<char>::empty(), 0nat, false),
    {
        Self { buf: String::new(), indent: 0, last_was_tag: false }
    }

    /// Start at a given depth, for a fragment spliced into a page.
    pub fn at(indent: usize) -> (t: Self)
        ensures
            t@ == (Seq::<char>::empty(), indent as nat, false),
    {
        Self { buf: String::new(), indent, last_was_tag: false }
    }

    pub fn indent(&self) -> (n: usize)
        ensures
            n == self@.1,
    {
        self.indent
    }

    pub fn into_string(self) -> (s: String)
        ensures
            s@ == self@.0,
    {
        self.buf
    }

    pub fn as_str(&self) -> (s: &str)
        ensures
            s@ == self@.0,
    {
        self.buf.as_str()
    }

    fn tag_line(&mut self, line: &Vec<char>)
        ensures
            final(self)@ == tag_line_step(old(self)@, line@),
            final(self)@.1 == old(self)@.1,
    {
        reveal(tag_line_step);
        let mut v: Vec<char> = Vec::new();
        if self.last_was_tag {
            v.push('\n');
        }
        let mut k: usize = 0;
        let ghost head = v@;
        while k < self.indent
            invariant
                k <= self.indent,
                v@ == head + spaces(k as nat),
            decreases self.indent - k,
        {
            v.push(' ');
            assert(spaces((k + 1) as nat) == spaces(k as nat).push(' '));
            k += 1;
        }
        push_seq(&mut v, line);
        v.push('\n');
        let s = string_of(&v);
        push_str(&mut self.buf, s.as_str());
        self.last_was_tag = true;
        assert(self.buf@ == old(self)@.0 + (if old(self)@.2 { seq!['\n'] } else { Seq::<char>::empty() }) + spaces(old(self)@.1) + line@ + seq!['\n']);
    }

    /// Write already-escaped content at column 0, as Desktop does.
    pub fn text(&mut self, raw: &str)
        ensures
            final(self)@ == text_step(old(self)@, raw@),
            final(self)@.1 == old(self)@.1,
    {
        reveal(text_step);
        push_str(&mut self.buf, raw);
        push_char(&mut self.buf, '\n');
        self.last_was_tag = false;
    }

    /// The attribute block: nothing, or a space and the pairs sorted by name.
    fn attrs(pairs: &[(&str, String)]) -> (v: Vec<char>)
        ensures
            v@ == attrs_text(pair_views(pairs@)),
    {
        let ghost pv = pair_views(pairs@);
        if pairs.len() == 0 {
            return Vec::new();
        }
        let mut sorted: Vec<(Vec<char>, Vec<char>)> = Vec::new();
        let mut i: usize = 0;
        while i < pairs.len()
            invariant
                i <= pairs.len(),
                pv == pair_views(pairs@),
                sorted@.map_values(|p: (Vec<char>, Vec<char>)| (p.0@, p.1@)) == sorted_by_name(pv.take(i as int)),
            decreases pairs.len() - i,
        {
            let k = chars_of(pairs[i].0);
            let val = chars_of(pairs[i].1.as_str());
            assert(pv.take(i + 1).drop_last() == pv.take(i as int));
            assert(pv.take(i + 1).last() == (k@, val@));
            insert_pair(&mut sorted, (k, val));
            i += 1;
        }
        assert(pv.take(pairs.len() as int) == pv);
        let ghost sv = sorted_by_name(pv);
        let mut out: Vec<char> = vec![' '];
        let mut j: usize = 0;
        while j < sorted.len()
            invariant
                j <= sorted.len(),
                sorted@.map_values(|p: (Vec<char>, Vec<char>)| (p.0@, p.1@)) == sv,
                out@ == seq![' '] + joined_pairs(sv.take(j as int)),
            decreases sorted.len() - j,
        {
            assert(sv.take(j + 1).drop_last() == sv.take(j as int));
            assert(sv[j as int] == (sorted@[j as int].0@, sorted@[j as int].1@));
            if j > 0 {
                out.push(' ');
            }
            push_seq(&mut out, &sorted[j].0);
            out.push('=');
            out.push('"');
            push_attr(&mut out, &sorted[j].1);
            out.push('"');
            assert(sv.take(j + 1).last() == sv[j as int]);
            if j == 0 {
                assert(sv.take(1) == seq![sv[0]]);
            }
            j += 1;
        }
        assert(sv.take(sorted.len() as int) == sv);
        out
    }

    pub fn open(&mut self, tag: &str, attrs: &[(&str, String)])
        requires
            old(self)@.1 < usize::MAX,
        ensures
            final(self)@ == open_step(old(self)@, tag@, pair_views(attrs@)),
            final(self)@.1 == old(self)@.1 + 1,
    {
        reveal(open_step);
        let mut line: Vec<char> = vec!['<'];
        push_all(&mut line, tag);
        let a = Self::attrs(attrs);
        push_seq(&mut line, &a);
        line.push('>');
        assert(line@ == seq!['<'] + tag@ + attrs_text(pair_views(attrs@)) + seq!['>']);
        self.tag_line(&line);
        self.indent = self.indent + 1;
    }

    pub fn close(&mut self, tag: &str)
        ensures
            final(self)@ == close_step(old(self)@, tag@),
            final(self)@.1 == if old(self)@.1 > 0 { old(self)@.1 - 1 } else { 0 },
    {
        reveal(close_step);
        self.indent = if self.indent > 0 { self.indent - 1 } else { 0 };
        let mut line: Vec<char> = vec!['<', '/'];
        push_all(&mut line, tag);
        line.push('>');
        assert(line@ == seq!['<', '/'] + tag@ + seq!['>']);
        self.tag_line(&line);
    }

    pub fn void(&mut self, tag: &str, attrs: &[(&str, String)])
        ensures
            final(self)@ == void_step(old(self)@, tag@, pair_views(attrs@)),
            final(self)@.1 == old(self)@.1,
    {
        reveal(void_step);
        let mut line: Vec<char> = vec!['<'];
        push_all(&mut line, tag);
        let a = Self::attrs(attrs);
        push_seq(&mut line, &a);
        line.push('/');
        line.push('>');
        assert(line@ == seq!['<'] + tag@ + attrs_text(pair_views(attrs@)) + seq!['/', '>']);
        self.tag_line(&line);
    }

    /// A tag wrapping one line of already-escaped content.
    pub fn leaf(&mut self, tag: &str, content: &str, attrs: &[(&str, String)])
        requires
            old(self)@.1 < usize::MAX,
        ensures
            final(self)@ == leaf_step(old(self)@, tag@, content@, pair_views(attrs@)),
            final(self)@.1 == old(self)@.1,
    {
        reveal(leaf_step);
        self.open(tag, attrs);
        self.text(content);
        self.close(tag);
    }

    /// A raw line emitted verbatim at the current indent, treated as a tag
    /// for blank-line purposes.
    pub fn raw_tag(&mut self, line: &str)
        ensures
            final(self)@ == tag_line_step(old(self)@, line@),
            final(self)@.1 == old(self)@.1,
    {
        let v = chars_of(line);
        self.tag_line(&v);
    }
}

impl Default for Tree {
    fn default() -> (t: Self)
        ensures
            t@ == (Seq::<char>::empty(), 0nat, false),
    {
        Self::new()
    }
}

/// Convenience for the very common single-attribute case.
pub fn a<'k>(key: &'k str, value: &str) -> (p: (&'k str, String))
    ensures
        p.0 == key,
        p.1@ == value@,
{
    (key, crate::strings::owned(value))
}


/// Every name sorts strictly before the next.
pub open spec fn names_sorted(r: Seq<(Seq<char>, Seq<char>)>) -> bool {
    forall|i: int, j: int| 0 <= i < j < r.len() ==> lex_lt(#[trigger] r[i].0, #[trigger] r[j].0)
}

/// No two attributes share a name.
pub open spec fn names_distinct(s: Seq<(Seq<char>, Seq<char>)>) -> bool {
    forall|i: int, j: int| 0 <= i < j < s.len() ==> #[trigger] s[i].0 != #[trigger] s[j].0
}

proof fn lemma_insert_by_name(r: Seq<(Seq<char>, Seq<char>)>, x: (Seq<char>, Seq<char>))
    requires
        names_sorted(r),
        forall|i: int| 0 <= i < r.len() ==> #[trigger] r[i].0 != x.0,
    ensures
        names_sorted(insert_by_name(r, x)),
        insert_by_name(r, x).to_multiset() == r.to_multiset().insert(x),
    decreases r.len(),
{
    broadcast use vstd::seq_lib::group_to_multiset_ensures;
    if r.len() == 0 {
        assert(seq![x] =~= Seq::<(Seq<char>, Seq<char>)>::empty().push(x));
        assert(r =~= Seq::<(Seq<char>, Seq<char>)>::empty());
    } else if lex_lt(x.0, r.last().0) {
        let d = r.drop_last();
        assert(r =~= d.push(r.last()));
        lemma_insert_by_name(d, x);
        let m = insert_by_name(d, x);
        let res = m.push(r.last());
        assert forall|i: int, j: int| 0 <= i < j < res.len() implies lex_lt(#[trigger] res[i].0, #[trigger] res[j].0) by {
            if j < res.len() - 1 {
                assert(res[i] == m[i] && res[j] == m[j]);
            } else {
                assert(res[i] == m[i]);
                assert(m.contains(m[i]));
                assert(m.to_multiset().count(m[i]) > 0);
                if m[i] != x {
                    assert(d.to_multiset().count(m[i]) > 0);
                    assert(d.contains(m[i]));
                    let k = choose|k: int| 0 <= k < d.len() && d[k] == m[i];
                    assert(r[k] == d[k]);
                    assert(lex_lt(r[k].0, r[r.len() - 1].0));
                }
            }
        }
    } else {
        lemma_lex_total(x.0, r.last().0);
        assert(r.last().0 != x.0);
        let res = r.push(x);
        assert forall|i: int, j: int| 0 <= i < j < res.len() implies lex_lt(#[trigger] res[i].0, #[trigger] res[j].0) by {
            if j < r.len() {
                assert(res[i] == r[i] && res[j] == r[j]);
            } else if i < r.len() - 1 {
                assert(res[i] == r[i]);
                assert(lex_lt(r[i].0, r[r.len() - 1].0));
                lemma_lex_transitive(r[i].0, r.last().0, x.0);
            } else {
                assert(res[i] == r.last());
            }
        }
    }
}

proof fn lemma_sorted_by_name(s: Seq<(Seq<char>, Seq<char>)>)
    requires
        names_distinct(s),
    ensures
        names_sorted(sorted_by_name(s)),
        sorted_by_name(s).to_multiset() == s.to_multiset(),
    decreases s.len(),
{
    broadcast use vstd::seq_lib::group_to_multiset_ensures;
    if s.len() > 0 {
        let d = s.drop_last();
        assert forall|i: int, j: int| 0 <= i < j < d.len() implies #[trigger] d[i].0 != #[trigger] d[j].0 by {
            assert(d[i] == s[i] && d[j] == s[j]);
        }
        lemma_sorted_by_name(d);
        let r = sorted_by_name(d);
        assert forall|i: int| 0 <= i < r.len() implies #[trigger] r[i].0 != s.last().0 by {
            assert(r.contains(r[i]));
            assert(r.to_multiset().count(r[i]) > 0);
            assert(d.contains(r[i]));
            let k = choose|k: int| 0 <= k < d.len() && d[k] == r[i];
            assert(s[k] == d[k]);
        }
        lemma_insert_by_name(r, s.last());
        assert(s =~= d.push(s.last()));
    } else {
        assert(s =~= Seq::<(Seq<char>, Seq<char>)>::empty());
    }
}


proof fn lemma_sorted_names_unique(a: Seq<(Seq<char>, Seq<char>)>, b: Seq<(Seq<char>, Seq<char>)>)
    requires
        names_sorted(a),
        names_sorted(b),
        a.to_multiset() == b.to_multiset(),
    ensures
        a == b,
    decreases a.len(),
{
    broadcast use vstd::seq_lib::group_to_multiset_ensures;
    a.to_multiset_ensures();
    b.to_multiset_ensures();
    assert(a.len() == b.len());
    if a.len() == 0 {
        assert(a =~= b);
    } else {
        let n = a.len() - 1;
        let la = a[n];
        let lb = b[n];
        assert(a.contains(la));
        assert(b.to_multiset().count(la) > 0);
        assert(b.contains(la));
        let k = choose|k: int| 0 <= k < b.len() && b[k] == la;
        assert(b.contains(lb));
        assert(a.to_multiset().count(lb) > 0);
        assert(a.contains(lb));
        let q = choose|q: int| 0 <= q < a.len() && a[q] == lb;
        if k < n {
            assert(lex_lt(b[k].0, b[n].0));
            if q < n {
                assert(lex_lt(a[q].0, a[n].0));
                lemma_lex_asymmetric(la.0, lb.0);
            } else {
                lemma_lex_irreflexive(la.0);
            }
        }
        assert(la == lb);
        let da = a.drop_last();
        let db = b.drop_last();
        assert(a.remove(n) =~= da);
        assert(b.remove(n) =~= db);
        assert(da.to_multiset() =~= db.to_multiset());
        assert forall|i: int, j: int| 0 <= i < j < da.len() implies lex_lt(#[trigger] da[i].0, #[trigger] da[j].0) by {
            assert(da[i] == a[i] && da[j] == a[j]);
        }
        assert forall|i: int, j: int| 0 <= i < j < db.len() implies lex_lt(#[trigger] db[i].0, #[trigger] db[j].0) by {
            assert(db[i] == b[i] && db[j] == b[j]);
        }
        lemma_sorted_names_unique(da, db);
        assert(a =~= da.push(la));
        assert(b =~= db.push(lb));
    }
}

/// Attributes come out in alphabetical order of name, so the order they are
/// handed over in does not matter: two lists holding the same attributes,
/// no name twice, write the same attribute text, and so the same tag line.
pub proof fn law_attribute_order_is_irrelevant(s1: Seq<(Seq<char>, Seq<char>)>, s2: Seq<(Seq<char>, Seq<char>)>)
    requires
        s1.to_multiset() == s2.to_multiset(),
        names_distinct(s1),
        names_distinct(s2),
    ensures
        sorted_by_name(s1) == sorted_by_name(s2),
        attrs_text(s1) == attrs_text(s2),
        forall|t: TreeState, tag: Seq<char>| #[trigger] open_step(t, tag, s1) == open_step(t, tag, s2),
{
    broadcast use vstd::seq_lib::group_to_multiset_ensures;
    lemma_sorted_by_name(s1);
    lemma_sorted_by_name(s2);
    lemma_sorted_names_unique(sorted_by_name(s1), sorted_by_name(s2));
    s1.to_multiset_ensures();
    s2.to_multiset_ensures();
    assert(s1.len() == s2.len());
    assert forall|t: TreeState, tag: Seq<char>| #[trigger] open_step(t, tag, s1) == open_step(t, tag, s2) by {
        reveal(open_step);
    }
}

} // verus!
