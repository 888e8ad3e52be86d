//! The pure parts of the JSON emitter: the `reactions` over-indent, the
//! streamed file's footer, and the record of values that could not be mapped.
//!
//! Desktop indents with one space, and indents the `reactions` array one
//! level too deep; both are part of the format because the file is compared
//! line by line.

use vstd::prelude::*;
use crate::strings::{
    chars_of, compare_chars, ends, find, has_prefix, is_ws, lemma_find, lemma_lex_asymmetric,
    lemma_lex_transitive, lemma_lex_total, lex_lt, owned, push_seq, starts, string_of,
    string_of_range, trim_bounds, trim_start,
};

verus! {

/// Desktop indents with a single space.
pub const INDENT: usize = 1;

/// The character views of a list of lines.
pub open spec fn line_views(v: Seq<String>) -> Seq<Seq<char>> {
    v.map_values(|l: String| l@)
}

/// How many `' '` a line starts with (spaces only, as `trim_start_matches(' ')`).
pub open spec fn lead_spaces(l: Seq<char>) -> nat
    decreases l.len(),
{
    if l.len() > 0 && l[0] == ' ' {
        1 + lead_spaces(l.drop_first())
    } else {
        0
    }
}

/// The line that opens a non-empty `reactions` array.
pub open spec fn opens_reactions(l: Seq<char>) -> bool {
    starts(trim_start(l), "\"reactions\": ["@)
}

/// A line that closes an array opened at indent `depth`.
pub open spec fn closes_at(l: Seq<char>, depth: nat) -> bool {
    starts(trim_start(l), seq![']']) && lead_spaces(l) == depth
}

/// The first line at or after `i` that opens `reactions`.
pub open spec fn find_open(lines: Seq<Seq<char>>, i: int) -> Option<int>
    decreases lines.len() - i,
{
    if i >= lines.len() || i < 0 {
        None
    } else if opens_reactions(lines[i]) {
        Some(i)
    } else {
        find_open(lines, i + 1)
    }
}

/// The first line at or after `i` that closes an array opened at `depth`.
pub open spec fn find_close(lines: Seq<Seq<char>>, i: int, depth: nat) -> Option<int>
    decreases lines.len() - i,
{
    if i >= lines.len() || i < 0 {
        None
    } else if closes_at(lines[i], depth) {
        Some(i)
    } else {
        find_close(lines, i + 1, depth)
    }
}

/// Desktop's one quirk: every line after the `reactions` opening, up to and
/// including the array's own closing bracket, moves one space right.
pub open spec fn reaction_indented(lines: Seq<Seq<char>>) -> Seq<Seq<char>> {
    if lines.len() < 2 {
        lines
    } else {
        match find_open(lines, 0) {
            None => lines,
            Some(at) => match find_close(lines, at + 1, lead_spaces(lines[at])) {
                None => lines,
                Some(close) => Seq::new(
                    lines.len(),
                    |i: int| if at < i <= close { seq![' '] + lines[i] } else { lines[i] },
                ),
            },
        }
    }
}

proof fn lemma_find_open(lines: Seq<Seq<char>>, i: int, j: int)
    requires
        0 <= i <= j <= lines.len(),
        forall|k: int| i <= k < j ==> !opens_reactions(#[trigger] lines[k]),
    ensures
        j < lines.len() && opens_reactions(lines[j]) ==> find_open(lines, i) == Some(j),
        j == lines.len() ==> find_open(lines, i) == None::<int>,
    decreases j - i,
{
    if i < j {
        lemma_find_open(lines, i + 1, j);
    }
}

proof fn lemma_find_close(lines: Seq<Seq<char>>, i: int, j: int, depth: nat)
    requires
        0 <= i <= j <= lines.len(),
        forall|k: int| i <= k < j ==> !closes_at(#[trigger] lines[k], depth),
    ensures
        j < lines.len() && closes_at(lines[j], depth) ==> find_close(lines, i, depth) == Some(j),
        j == lines.len() ==> find_close(lines, i, depth) == None::<int>,
    decreases j - i,
{
    if i < j {
        lemma_find_close(lines, i + 1, j, depth);
    }
}

proof fn lemma_lead_spaces(l: Seq<char>, n: int)
    requires
        0 <= n <= l.len(),
        forall|k: int| 0 <= k < n ==> #[trigger] l[k] == ' ',
        n == l.len() || l[n] != ' ',
    ensures
        lead_spaces(l) == n,
    decreases n,
{
    if n > 0 {
        let t = l.drop_first();
        assert forall|k: int| 0 <= k < n - 1 implies #[trigger] t[k] == ' ' by {
            assert(t[k] == l[k + 1]);
        }
        if n < l.len() {
            assert(t[n - 1] == l[n]);
        }
        lemma_lead_spaces(t, n - 1);
    }
}

fn count_lead_spaces(l: &Vec<char>) -> (n: usize)
    ensures
        n == lead_spaces(l@),
{
    let mut n: usize = 0;
    while n < l.len() && l[n] == ' '
        invariant
            n <= l.len(),
            forall|k: int| 0 <= k < n ==> #[trigger] l@[k] == ' ',
        decreases l.len() - n,
    {
        n += 1;
    }
    proof {
        lemma_lead_spaces(l@, n as int);
    }
    n
}

/// Does the line, once its leading whitespace is gone, start with `p`?
fn trimmed_starts(l: &Vec<char>, p: &Vec<char>) -> (b: bool)
    ensures
        b == starts(trim_start(l@), p@),
{
    let (lo, _hi) = trim_bounds(l);
    let mut rest: Vec<char> = Vec::new();
    let mut k: usize = lo;
    while k < l.len()
        invariant
            lo <= k <= l.len(),
            rest@ == l@.subrange(lo as int, k as int),
        decreases l.len() - k,
    {
        rest.push(l[k]);
        assert(l@.subrange(lo as int, k + 1) == l@.subrange(lo as int, k as int).push(l@[k as int]));
        k += 1;
    }
    assert(rest@ == l@.skip(lo as int));
    has_prefix(&rest, p)
}

/// Reproduce the one place Desktop indents an array a level too deep.
pub fn desktop_reaction_indent(lines: Vec<String>) -> (out: Vec<String>)
    ensures
        line_views(out@) == reaction_indented(line_views(lines@)),
{
    let ghost ls = line_views(lines@);
    if lines.len() < 2 {
        return lines;
    }
    let mut cs: Vec<Vec<char>> = Vec::new();
    let mut i: usize = 0;
    while i < lines.len()
        invariant
            i <= lines.len(),
            ls == line_views(lines@),
            cs@.len() == i,
            forall|k: int| 0 <= k < i ==> #[trigger] cs@[k]@ == ls[k],
        decreases lines.len() - i,
    {
        cs.push(chars_of(lines[i].as_str()));
        i += 1;
    }
    let opener = chars_of("\"reactions\": [");
    let mut at: usize = 0;
    while at < cs.len() && !trimmed_starts(&cs[at as usize], &opener)
        invariant
            at <= cs.len(),
            cs@.len() == ls.len(),
            forall|k: int| 0 <= k < ls.len() ==> #[trigger] cs@[k]@ == ls[k],
            opener@ == "\"reactions\": ["@,
            forall|k: int| 0 <= k < at ==> !opens_reactions(#[trigger] ls[k]),
        decreases cs.len() - at,
    {
        at += 1;
    }
    proof {
        lemma_find_open(ls, 0, at as int);
    }
    if at == cs.len() {
        return lines;
    }
    let depth = count_lead_spaces(&cs[at]);
    let closer = vec![']'];
    let mut close: usize = at + 1;
    while close < cs.len() && !(trimmed_starts(&cs[close], &closer) && count_lead_spaces(&cs[close]) == depth)
        invariant
            at < close <= cs.len(),
            cs@.len() == ls.len(),
            forall|k: int| 0 <= k < ls.len() ==> #[trigger] cs@[k]@ == ls[k],
            closer@ == seq![']'],
            depth == lead_spaces(ls[at as int]),
            forall|k: int| at < k < close ==> !closes_at(#[trigger] ls[k], depth as nat),
        decreases cs.len() - close,
    {
        close += 1;
    }
    proof {
        lemma_find_close(ls, at + 1, close as int, depth as nat);
    }
    if close == cs.len() {
        return lines;
    }
    let ghost want = reaction_indented(ls);
    let mut out: Vec<String> = Vec::new();
    let mut j: usize = 0;
    while j < cs.len()
        invariant
            j <= cs.len(),
            at < close < cs.len(),
            cs@.len() == ls.len(),
            forall|k: int| 0 <= k < ls.len() ==> #[trigger] cs@[k]@ == ls[k],
            want == Seq::new(ls.len(), |i: int| if at < i <= close { seq![' '] + ls[i] } else { ls[i] }),
            out@.len() == j,
            forall|k: int| 0 <= k < j ==> #[trigger] out@[k]@ == want[k],
        decreases cs.len() - j,
    {
        if at < j && j <= close {
            let mut w: Vec<char> = vec![' '];
            crate::strings::push_seq(&mut w, &cs[j]);
            out.push(string_of(&w));
        } else {
            out.push(string_of(&cs[j]));
        }
        j += 1;
    }
    assert(line_views(out@) == want);
    out
}

/// A line as `str::lines` yields it: a `\r` before the newline goes with
/// the newline.
pub open spec fn without_cr(l: Seq<char>) -> Seq<char> {
    if l.len() > 0 && l.last() == '\r' { l.drop_last() } else { l }
}

/// The lines of a text as `str::lines` yields them: split at each `\n`, a
/// `\r\n` ending counting as one, and the final line ending optional.
pub open spec fn lines_of(s: Seq<char>) -> Seq<Seq<char>>
    decreases s.len(),
{
    if s.len() == 0 {
        Seq::empty()
    } else {
        match find(s, '\n') {
            Some(i) => if 0 <= i < s.len() {
                seq![without_cr(s.take(i))] + lines_of(s.skip(i + 1))
            } else {
                Seq::empty()
            },
            None => seq![s],
        }
    }
}

/// Lines joined with `\n` between them.
pub open spec fn joined_lines(ls: Seq<Seq<char>>) -> Seq<char>
    decreases ls.len(),
{
    if ls.len() == 0 {
        Seq::empty()
    } else if ls.len() == 1 {
        ls[0]
    } else {
        joined_lines(ls.drop_last()) + seq!['\n'] + ls.last()
    }
}

proof fn lemma_find_range(s: Seq<char>, c: char)
    ensures
        find(s, c) matches Some(i) ==> 0 <= i < s.len() && s[i] == c,
    decreases s.len(),
{
    if s.len() > 0 {
        lemma_find_range(s.drop_first(), c);
    }
}

/// The next `\n` at or after `from`.
fn newline_from(s: &Vec<char>, from: usize) -> (r: Option<usize>)
    requires
        from <= s.len(),
    ensures
        find(s@.skip(from as int), '\n') == match r { Some(i) => Some(i - from), None => None::<int> },
        r matches Some(i) ==> from <= i < s.len(),
{
    let ghost t = s@.skip(from as int);
    let mut i: usize = from;
    while i < s.len() && s[i] != '\n'
        invariant
            from <= i <= s.len(),
            forall|k: int| from <= k < i ==> #[trigger] s@[k] != '\n',
        decreases s.len() - i,
    {
        i += 1;
    }
    proof {
        assert forall|k: int| 0 <= k < i - from implies #[trigger] t[k] != '\n' by {
            assert(t[k] == s@[from + k]);
        }
        lemma_find(t, '\n', i - from);
        if i < s.len() {
            assert(t[i - from] == s@[i as int]);
        }
    }
    if i < s.len() { Some(i) } else { None }
}

/// `str::lines`, each line prefixed by `pad`.
fn padded_lines(text: &str, pad: &str) -> (out: Vec<String>)
    ensures
        line_views(out@) == lines_of(text@).map_values(|l: Seq<char>| pad@ + l),
{
    let s = chars_of(text);
    let padv = chars_of(pad);
    let mut out: Vec<String> = Vec::new();
    let mut pos: usize = 0;
    assert(s@.skip(0) == s@);
    while pos < s.len()
        invariant
            pos <= s.len(),
            s@ == text@,
            padv@ == pad@,
            lines_of(text@).map_values(|l: Seq<char>| pad@ + l)
                == line_views(out@) + lines_of(s@.skip(pos as int)).map_values(|l: Seq<char>| pad@ + l),
        decreases s.len() - pos,
    {
        let ghost rest = s@.skip(pos as int);
        let ghost before = line_views(out@);
        let end = match newline_from(&s, pos) {
            Some(i) => i,
            None => s.len(),
        };
        let mut stop = end;
        if stop > pos && s[stop - 1] == '\r' && end < s.len() {
            stop = stop - 1;
        }
        let mut line: Vec<char> = Vec::new();
        push_seq(&mut line, &padv);
        let body = string_of_range(&s, pos, stop);
        crate::strings::push_all(&mut line, body.as_str());
        out.push(string_of(&line));
        proof {
            lemma_find_range(rest, '\n');
            let f = |l: Seq<char>| pad@ + l;
            if end < s.len() {
                let i = (end - pos) as int;
                assert(find(rest, '\n') == Some(i));
                assert(rest.take(i) == s@.subrange(pos as int, end as int));
                assert(rest.skip(i + 1) == s@.skip(end + 1));
                assert(without_cr(rest.take(i)) == s@.subrange(pos as int, stop as int));
                assert(lines_of(rest) == seq![without_cr(rest.take(i))] + lines_of(rest.skip(i + 1)));
                assert(lines_of(rest).map_values(f) == seq![f(without_cr(rest.take(i)))] + lines_of(rest.skip(i + 1)).map_values(f));
            } else {
                assert(rest == s@.subrange(pos as int, stop as int));
                assert(lines_of(rest) == seq![rest]);
                assert(s@.skip(s@.len() as int) == Seq::<char>::empty());
                assert(lines_of(rest).map_values(f) == seq![f(rest)]);
            }
            assert(line_views(out@) == before.push(pad@ + s@.subrange(pos as int, stop as int)));
        }
        pos = if end < s.len() { end + 1 } else { s.len() };
    }
    assert(s@.skip(pos as int) == Seq::<char>::empty());
    assert(lines_of(Seq::<char>::empty()).map_values(|l: Seq<char>| pad@ + l) =~= Seq::<Seq<char>>::empty());
    assert(line_views(out@) + Seq::<Seq<char>>::empty() == line_views(out@));
    out
}

fn join_lines(lines: &Vec<String>) -> (s: String)
    ensures
        s@ == joined_lines(line_views(lines@)),
{
    let mut v: Vec<char> = Vec::new();
    let mut i: usize = 0;
    while i < lines.len()
        invariant
            i <= lines.len(),
            v@ == joined_lines(line_views(lines@).take(i as int)),
        decreases lines.len() - i,
    {
        let ghost t = line_views(lines@).take(i + 1);
        assert(t.drop_last() == line_views(lines@).take(i as int));
        assert(t.last() == lines@[i as int]@);
        if i > 0 {
            v.push('\n');
        } else {
            assert(t == seq![lines@[0]@]);
        }
        crate::strings::push_all(&mut v, lines[i].as_str());
        i += 1;
    }
    assert(line_views(lines@).take(lines@.len() as int) == line_views(lines@));
    string_of(&v)
}

/// One message as it appears inside the streamed `messages` array, from the
/// message serialised on its own: every line prefixed by two indents, then
/// the reaction quirk, which is the order Desktop's own writer produces.
pub fn message_block(serialized: &str) -> (s: String)
    ensures
        s@ == joined_lines(reaction_indented(lines_of(serialized@).map_values(|l: Seq<char>| "  "@ + l))),
{
    let lines = padded_lines(serialized, "  ");
    let moved = desktop_reaction_indent(lines);
    join_lines(&moved)
}

/// The header object, from the header serialised on its own, spliced so the
/// `messages` array can be streamed into it: everything up to and including
/// `"messages": [` and a newline. The header's own keys stay first and keep
/// their order. An empty header (`{}`) still opens a valid object.
pub open spec fn prelude_of(serialized: Seq<char>) -> Seq<char> {
    if serialized == "{}"@ {
        "{\n \"messages\": [\n"@
    } else {
        let trimmed = if ends(serialized, "\n}"@) { serialized.take(serialized.len() - 2) } else { serialized };
        trimmed + ",\n \"messages\": [\n"@
    }
}

pub fn header_prelude(serialized: &str) -> (s: String)
    ensures
        s@ == prelude_of(serialized@),
{
    let cs = chars_of(serialized);
    proof {
        reveal_strlit("{}");
        reveal_strlit("\n}");
    }
    if cs.len() == 2 && cs[0] == '{' && cs[1] == '}' {
        assert(cs@ =~= "{}"@);
        return owned("{\n \"messages\": [\n");
    }
    assert(cs@ != "{}"@);
    let n = cs.len();
    let trimmed_end = if n >= 2 && cs[n - 2] == '\n' && cs[n - 1] == '}' { n - 2 } else { n };
    proof {
        if n >= 2 && cs@[n - 2] == '\n' && cs@[n - 1] == '}' {
            assert(cs@.subrange(n - 2, n as int) =~= "\n}"@);
            assert(ends(cs@, "\n}"@));
        } else {
            if ends(cs@, "\n}"@) {
                assert("\n}"@[0] == '\n' && "\n}"@[1] == '}');
                assert(cs@.skip(n - 2)[0] == cs@[n - 2]);
                assert(cs@.skip(n - 2)[1] == cs@[n - 1]);
            }
        }
    }
    let mut v: Vec<char> = Vec::new();
    let head = string_of_range(&cs, 0, trimmed_end);
    crate::strings::push_all(&mut v, head.as_str());
    crate::strings::push_all(&mut v, ",\n \"messages\": [\n");
    assert(cs@.subrange(0, trimmed_end as int) == if ends(cs@, "\n}"@) { cs@.take(n - 2) } else { cs@ });
    string_of(&v)
}

/// The closing bracket and brace for a streamed file. There is no trailing
/// newline: a real Desktop `result.json` ends on the final `}`.
pub fn footer() -> (s: String)
    ensures
        s@ == seq!['\n', ' ', ']', '\n', '}'],
{
    let v = vec!['\n', ' ', ']', '\n', '}'];
    string_of(&v)
}

/// Strictly increasing under the character order: sorted, no duplicates.
pub open spec fn strictly_sorted(names: Seq<Seq<char>>) -> bool {
    forall|i: int, j: int| 0 <= i < j < names.len() ==> lex_lt(#[trigger] names[i], #[trigger] names[j])
}

/// Record of values the encoder could not map: a set of type names, kept in
/// order so they are reported the same way every time.
#[derive(Debug)]
pub struct Degraded {
    names: Vec<String>,
}

impl View for Degraded {
    type V = Seq<Seq<char>>;

    closed spec fn view(&self) -> Seq<Seq<char>> {
        line_views(self.names@)
    }
}

impl Degraded {
    #[verifier::type_invariant]
    spec fn inv(self) -> bool {
        strictly_sorted(line_views(self.names@))
    }

    pub fn new() -> (d: Self)
        ensures
            d@ == Seq::<Seq<char>>::empty(),
    {
        let d = Degraded { names: Vec::new() };
        assert(line_views(d.names@) =~= Seq::<Seq<char>>::empty());
        d
    }

    /// Record a type name. Recording one already held changes nothing.
    pub fn note(&mut self, kind_name: &str)
        ensures
            strictly_sorted(final(self)@),
            final(self)@.to_set() == old(self)@.to_set().insert(kind_name@),
    {
        proof { use_type_invariant(&*self); }
        let key = chars_of(kind_name);
        let ghost before = line_views(self.names@);
        let mut i: usize = 0;
        while i < self.names.len()
            invariant
                i <= self.names.len(),
                before == line_views(self.names@),
                strictly_sorted(before),
                key@ == kind_name@,
                forall|k: int| 0 <= k < i ==> lex_lt(#[trigger] before[k], key@),
            ensures
                i <= self.names.len(),
                before == line_views(self.names@),
                forall|k: int| 0 <= k < i ==> lex_lt(#[trigger] before[k], key@),
                i < self.names.len() ==> lex_lt(key@, before[i as int]),
            decreases self.names.len() - i,
        {
            let c = compare_chars(&chars_of(self.names[i].as_str()), &key);
            if c == 0 {
                assert(before[i as int] == kind_name@);
                assert(before.to_set().insert(kind_name@) =~= before.to_set()) by {
                    assert(before.contains(kind_name@));
                }
                return;
            }
            if c == 1 {
                break;
            }
            i += 1;
        }
        let ghost at = i as int;
        proof {
            if at < before.len() {
                lemma_lex_total(before[at], key@);
            }
        }
        let mut names: Vec<String> = Vec::new();
        std::mem::swap(&mut names, &mut self.names);
        names.insert(i, string_of(&key));
        let ghost after = line_views(names@);
        assert(after =~= before.insert(at, key@));
        proof {
            assert forall|p: int, q: int| 0 <= p < q < after.len() implies lex_lt(#[trigger] after[p], #[trigger] after[q]) by {
                if q < at {
                } else if q == at {
                } else if p < at {
                    if q == at + 1 {
                        assert(after[q] == before[at]);
                    }
                    if p < at && q > at {
                        if at < before.len() {
                            assert(lex_lt(key@, before[at]));
                            if q - 1 > at {
                                assert(lex_lt(before[at], before[q - 1]));
                                lemma_lex_transitive(key@, before[at], before[q - 1]);
                            }
                            lemma_lex_transitive(before[p], key@, after[q]);
                        }
                    }
                } else if p == at {
                    assert(lex_lt(key@, before[at]));
                    if q - 1 > at {
                        assert(lex_lt(before[at], before[q - 1]));
                        lemma_lex_transitive(key@, before[at], before[q - 1]);
                    }
                } else {
                    assert(after[p] == before[p - 1]);
                    assert(after[q] == before[q - 1]);
                }
            }
            assert(after.to_set() =~= before.to_set().insert(key@)) by {
                assert forall|x: Seq<char>| after.to_set().contains(x) <==> before.to_set().insert(key@).contains(x) by {
                    if after.contains(x) {
                        let k = choose|k: int| 0 <= k < after.len() && after[k] == x;
                        if k < at {
                            assert(before[k] == x);
                        } else if k > at {
                            assert(before[k - 1] == x);
                        }
                    }
                    if before.contains(x) {
                        let k = choose|k: int| 0 <= k < before.len() && before[k] == x;
                        if k < at {
                            assert(after[k] == x);
                        } else {
                            assert(after[k + 1] == x);
                        }
                    }
                    if x == key@ {
                        assert(after[at] == x);
                    }
                }
            }
        }
        self.names = names;
    }

    pub fn is_empty(&self) -> (b: bool)
        ensures
            b == (self@.len() == 0),
    {
        self.names.len() == 0
    }

    /// The recorded names, in order.
    pub fn names(&self) -> (v: Vec<String>)
        ensures
            line_views(v@) == self@,
            strictly_sorted(self@),
    {
        proof { use_type_invariant(self); }
        let mut v: Vec<String> = Vec::new();
        let mut i: usize = 0;
        while i < self.names.len()
            invariant
                i <= self.names.len(),
                v@.len() == i,
                forall|k: int| 0 <= k < i ==> #[trigger] v@[k]@ == self.names@[k]@,
            decreases self.names.len() - i,
        {
            v.push(owned(self.names[i].as_str()));
            i += 1;
        }
        assert(line_views(v@) =~= line_views(self.names@));
        v
    }
}

impl Default for Degraded {
    fn default() -> (d: Self)
        ensures
            d@ == Seq::<Seq<char>>::empty(),
    {
        Degraded::new()
    }
}

} // verus!
