//! Character-level building blocks shared by every module that writes text.
//!
//! Strings are reasoned about through their `Seq<char>` view. The handful of
//! std string operations vstd gives no contract for are wrapped here, one std
//! function per wrapper; everything else is written as verified loops.

use vstd::prelude::*;

verus! {

/// Unicode's `White_Space` property, which is what `char::is_whitespace`,
/// `str::trim` and `str::split_whitespace` test.
pub open spec fn is_ws(c: char) -> bool {
    let u = c as u32;
    ||| (0x09 <= u && u <= 0x0D)
    ||| u == 0x20
    ||| u == 0x85
    ||| u == 0xA0
    ||| u == 0x1680
    ||| (0x2000 <= u && u <= 0x200A)
    ||| u == 0x2028
    ||| u == 0x2029
    ||| u == 0x202F
    ||| u == 0x205F
    ||| u == 0x3000
}

pub fn is_ws_char(c: char) -> (b: bool)
    ensures
        b == is_ws(c),
{
    let u = c as u32;
    (0x09 <= u && u <= 0x0D) || u == 0x20 || u == 0x85 || u == 0xA0 || u == 0x1680 || (0x2000
        <= u && u <= 0x200A) || u == 0x2028 || u == 0x2029 || u == 0x202F || u == 0x205F || u
        == 0x3000
}

/// The decimal digit `d` as a character.
pub open spec fn digit(d: int) -> char {
    ((48 + d) as u8) as char
}

/// The decimal form of a natural number, no leading zeros.
pub open spec fn dec(n: nat) -> Seq<char>
    decreases n,
{
    if n < 10 {
        seq![digit(n as int)]
    } else {
        dec(n / 10).push(digit((n % 10) as int))
    }
}

/// The decimal form of an integer, with a leading `-` when negative.
pub open spec fn int_text(i: int) -> Seq<char> {
    if i < 0 {
        seq!['-'] + dec((-i) as nat)
    } else {
        dec(i as nat)
    }
}

/// Zero-padded to at least `width` digits, as `{:0width}` writes a
/// non-negative number.
pub open spec fn padded(n: nat, width: nat) -> Seq<char> {
    let d = dec(n);
    if d.len() >= width {
        d
    } else {
        Seq::new((width - d.len()) as nat, |_i: int| '0') + d
    }
}

/// Does `s` begin with `p`?
pub open spec fn starts(s: Seq<char>, p: Seq<char>) -> bool {
    p.len() <= s.len() && s.take(p.len() as int) == p
}

/// Does `s` end with `p`?
pub open spec fn ends(s: Seq<char>, p: Seq<char>) -> bool {
    p.len() <= s.len() && s.skip(s.len() - p.len()) == p
}

/// The characters of a string slice, in order.
pub fn chars_of(s: &str) -> (v: Vec<char>)
    ensures
        v@ == s@,
{
    let mut v: Vec<char> = Vec::new();
    for c in it: s.chars()
        invariant
            v@ == it.seq().take(it.index() as int),
    {
        v.push(c);
    }
    v
}

/// `String::push`.
#[verifier::external_body]
pub(crate) fn push_char(s: &mut String, c: char)
    ensures
        final(s)@ == old(s)@.push(c),
{
    s.push(c);
}

/// `String::push_str`.
#[verifier::external_body]
pub(crate) fn push_str(s: &mut String, t: &str)
    ensures
        final(s)@ == old(s)@ + t@,
{
    s.push_str(t);
}

/// A string holding exactly the characters of `v[from..to]`.
pub fn string_of_range(v: &Vec<char>, from: usize, to: usize) -> (s: String)
    requires
        from <= to <= v.len(),
    ensures
        s@ == v@.subrange(from as int, to as int),
{
    let mut s = String::new();
    let mut i: usize = from;
    while i < to
        invariant
            from <= i <= to <= v.len(),
            s@ == v@.subrange(from as int, i as int),
        decreases to - i,
    {
        push_char(&mut s, v[i]);
        assert(v@.subrange(from as int, i + 1) == v@.subrange(from as int, i as int).push(v@[i as int]));
        i += 1;
    }
    s
}

/// A string holding exactly the characters of `v`.
pub fn string_of(v: &Vec<char>) -> (s: String)
    ensures
        s@ == v@,
{
    let s = string_of_range(v, 0, v.len());
    assert(v@.subrange(0, v@.len() as int) == v@);
    s
}

/// An owned copy of a string slice.
pub fn owned(t: &str) -> (s: String)
    ensures
        s@ == t@,
{
    let mut s = String::new();
    push_str(&mut s, t);
    assert(s@ == Seq::<char>::empty() + t@);
    assert(Seq::<char>::empty() + t@ == t@);
    s
}

/// The characters of `t` appended to `v`.
pub fn push_all(v: &mut Vec<char>, t: &str)
    ensures
        final(v)@ == old(v)@ + t@,
{
    let cs = chars_of(t);
    let mut i: usize = 0;
    let ghost start = v@;
    while i < cs.len()
        invariant
            i <= cs.len(),
            cs@ == t@,
            v@ == start + cs@.take(i as int),
        decreases cs.len() - i,
    {
        v.push(cs[i]);
        assert(cs@.take(i + 1) == cs@.take(i as int).push(cs@[i as int]));
        i += 1;
    }
    assert(cs@.take(cs.len() as int) == cs@);
}

/// The characters of `w` appended to `v`.
pub fn push_seq(v: &mut Vec<char>, w: &Vec<char>)
    ensures
        final(v)@ == old(v)@ + w@,
{
    let mut i: usize = 0;
    let ghost start = v@;
    while i < w.len()
        invariant
            i <= w.len(),
            v@ == start + w@.take(i as int),
        decreases w.len() - i,
    {
        v.push(w[i]);
        assert(w@.take(i + 1) == w@.take(i as int).push(w@[i as int]));
        i += 1;
    }
    assert(w@.take(w.len() as int) == w@);
}

/// The decimal digits of `n`, appended to `v`.
pub fn push_dec(v: &mut Vec<char>, n: u64)
    ensures
        final(v)@ == old(v)@ + dec(n as nat),
    decreases n,
{
    if n < 10 {
        let c = ((48 + n) as u8) as char;
        v.push(c);
        assert(dec(n as nat) == seq![digit(n as int)]);
    } else {
        push_dec(v, n / 10);
        let c = ((48 + n % 10) as u8) as char;
        v.push(c);
        assert(dec(n as nat) == dec((n / 10) as nat).push(digit((n % 10) as int)));
    }
}

/// The decimal form of `i`, sign included, appended to `v`.
pub fn push_int(v: &mut Vec<char>, i: i64)
    ensures
        final(v)@ == old(v)@ + int_text(i as int),
{
    if i < 0 {
        v.push('-');
        let m: u64 = ((-(i + 1)) as u64) + 1;
        push_dec(v, m);
        assert(old(v)@.push('-') + dec(m as nat) == old(v)@ + (seq!['-'] + dec(m as nat)));
    } else {
        push_dec(v, i as u64);
    }
}

/// `n` zero-padded to `width` digits, appended to `v`.
pub fn push_padded(v: &mut Vec<char>, n: u64, width: usize)
    ensures
        final(v)@ == old(v)@ + padded(n as nat, width as nat),
{
    let mut d: Vec<char> = Vec::new();
    push_dec(&mut d, n);
    assert(d@ == dec(n as nat)) by {
        assert(Seq::<char>::empty() + dec(n as nat) == dec(n as nat));
    }
    let ghost start = v@;
    if d.len() < width {
        let pad = width - d.len();
        let mut k: usize = 0;
        while k < pad
            invariant
                k <= pad,
                pad == width - d@.len(),
                v@ == start + Seq::new(k as nat, |_i: int| '0'),
            decreases pad - k,
        {
            v.push('0');
            assert(Seq::new((k + 1) as nat, |_i: int| '0') == Seq::new(k as nat, |_i: int| '0').push('0'));
            k += 1;
        }
        push_seq(v, &d);
        assert(start + Seq::new(pad as nat, |_i: int| '0') + d@ == start + (Seq::new(pad as nat, |_i: int| '0') + d@));
    } else {
        push_seq(v, &d);
    }
}

/// The decimal form of `i` as a string.
pub fn int_string(i: i64) -> (s: String)
    ensures
        s@ == int_text(i as int),
{
    let mut v: Vec<char> = Vec::new();
    push_int(&mut v, i);
    assert(Seq::<char>::empty() + int_text(i as int) == int_text(i as int));
    string_of(&v)
}

/// Is `p` a prefix of `s`? Checked character by character.
pub fn has_prefix(s: &Vec<char>, p: &Vec<char>) -> (b: bool)
    ensures
        b == starts(s@, p@),
{
    if p.len() > s.len() {
        return false;
    }
    let mut i: usize = 0;
    while i < p.len()
        invariant
            p.len() <= s.len(),
            i <= p.len(),
            forall|j: int| 0 <= j < i ==> s@[j] == p@[j],
        decreases p.len() - i,
    {
        if s[i] != p[i] {
            assert(s@.take(p.len() as int)[i as int] != p@[i as int]);
            return false;
        }
        i += 1;
    }
    assert(s@.take(p.len() as int) == p@);
    true
}

/// Are two character sequences equal? Checked character by character.
pub fn same_chars(a: &Vec<char>, b: &Vec<char>) -> (r: bool)
    ensures
        r == (a@ == b@),
{
    if a.len() != b.len() {
        return false;
    }
    let mut i: usize = 0;
    while i < a.len()
        invariant
            a.len() == b.len(),
            i <= a.len(),
            forall|j: int| 0 <= j < i ==> a@[j] == b@[j],
        decreases a.len() - i,
    {
        if a[i] != b[i] {
            return false;
        }
        i += 1;
    }
    assert(a@ == b@);
    true
}


/// `s` with its leading whitespace removed, as `str::trim_start` does.
pub open spec fn trim_start(s: Seq<char>) -> Seq<char>
    decreases s.len(),
{
    if s.len() > 0 && is_ws(s[0]) {
        trim_start(s.drop_first())
    } else {
        s
    }
}

/// `s` with its trailing whitespace removed, as `str::trim_end` does.
pub open spec fn trim_end(s: Seq<char>) -> Seq<char>
    decreases s.len(),
{
    if s.len() > 0 && is_ws(s.last()) {
        trim_end(s.drop_last())
    } else {
        s
    }
}

/// `s` with whitespace removed from both ends, as `str::trim` does.
pub open spec fn trim(s: Seq<char>) -> Seq<char> {
    trim_end(trim_start(s))
}

/// The first character of `s` as a one-character sequence, or nothing.
pub open spec fn first_char(s: Seq<char>) -> Seq<char> {
    if s.len() > 0 {
        seq![s[0]]
    } else {
        Seq::empty()
    }
}

/// The position of the first `c` in `s`, as `str::find` with a char.
pub open spec fn find(s: Seq<char>, c: char) -> Option<int>
    decreases s.len(),
{
    if s.len() == 0 {
        None
    } else if s[0] == c {
        Some(0)
    } else {
        match find(s.drop_first(), c) {
            Some(i) => Some(i + 1),
            None => None,
        }
    }
}

/// The position of the last `c` in `s`, as `str::rfind` with a char.
pub open spec fn rfind(s: Seq<char>, c: char) -> Option<int>
    decreases s.len(),
{
    if s.len() == 0 {
        None
    } else if s.last() == c {
        Some(s.len() - 1)
    } else {
        rfind(s.drop_last(), c)
    }
}

pub proof fn lemma_trim_start(s: Seq<char>, i: int)
    requires
        0 <= i <= s.len(),
        forall|k: int| 0 <= k < i ==> is_ws(#[trigger] s[k]),
        i == s.len() || !is_ws(s[i]),
    ensures
        trim_start(s) == s.skip(i),
    decreases i,
{
    if i == 0 {
        assert(s.skip(0) == s);
    } else {
        assert(is_ws(s[0]));
        let t = s.drop_first();
        assert forall|k: int| 0 <= k < i - 1 implies is_ws(#[trigger] t[k]) by {
            assert(t[k] == s[k + 1]);
        }
        lemma_trim_start(t, i - 1);
        assert(t.skip(i - 1) == s.skip(i));
    }
}

pub proof fn lemma_trim_end(s: Seq<char>, j: int)
    requires
        0 <= j <= s.len(),
        forall|k: int| j <= k < s.len() ==> is_ws(#[trigger] s[k]),
        j == 0 || !is_ws(s[j - 1]),
    ensures
        trim_end(s) == s.take(j),
    decreases s.len() - j,
{
    if j == s.len() {
        assert(s.take(j) == s);
    } else {
        assert(is_ws(s.last()));
        let t = s.drop_last();
        assert forall|k: int| j <= k < t.len() implies is_ws(#[trigger] t[k]) by {
            assert(t[k] == s[k]);
        }
        lemma_trim_end(t, j);
        assert(t.take(j) == s.take(j));
    }
}

pub proof fn lemma_find(s: Seq<char>, c: char, i: int)
    requires
        0 <= i <= s.len(),
        forall|k: int| 0 <= k < i ==> #[trigger] s[k] != c,
    ensures
        i < s.len() && s[i] == c ==> find(s, c) == Some(i),
        i == s.len() ==> find(s, c) == None::<int>,
    decreases i,
{
    if i > 0 {
        let t = s.drop_first();
        assert forall|k: int| 0 <= k < i - 1 implies #[trigger] t[k] != c by {
            assert(t[k] == s[k + 1]);
        }
        lemma_find(t, c, i - 1);
        if i < s.len() {
            assert(t[i - 1] == s[i]);
        }
    }
}

pub proof fn lemma_rfind(s: Seq<char>, c: char, j: int)
    requires
        -1 <= j < s.len(),
        forall|k: int| j < k < s.len() ==> #[trigger] s[k] != c,
    ensures
        j >= 0 && s[j] == c ==> rfind(s, c) == Some(j),
        j == -1 ==> rfind(s, c) == None::<int>,
    decreases s.len() - j,
{
    if j < s.len() - 1 {
        let t = s.drop_last();
        assert forall|k: int| j < k < t.len() implies #[trigger] t[k] != c by {
            assert(t[k] == s[k]);
        }
        lemma_rfind(t, c, j);
        if j >= 0 {
            assert(t[j] == s[j]);
        }
    }
}

/// The bounds `[lo, hi)` of `s` once surrounding whitespace is trimmed.
pub fn trim_bounds(s: &Vec<char>) -> (r: (usize, usize))
    ensures
        r.0 <= r.1 <= s.len(),
        trim_start(s@) == s@.skip(r.0 as int),
        trim(s@) == s@.subrange(r.0 as int, r.1 as int),
        r.0 < r.1 ==> !is_ws(s@[r.0 as int]) && !is_ws(s@[r.1 - 1]),
{
    let mut lo: usize = 0;
    while lo < s.len() && is_ws_char(s[lo])
        invariant
            lo <= s.len(),
            forall|k: int| 0 <= k < lo ==> is_ws(#[trigger] s@[k]),
        decreases s.len() - lo,
    {
        lo += 1;
    }
    proof {
        lemma_trim_start(s@, lo as int);
    }
    let mut hi: usize = s.len();
    while hi > lo && is_ws_char(s[hi - 1])
        invariant
            lo <= hi <= s.len(),
            forall|k: int| hi <= k < s.len() ==> is_ws(#[trigger] s@[k]),
        decreases hi,
    {
        hi -= 1;
    }
    proof {
        let t = s@.skip(lo as int);
        assert forall|k: int| hi - lo <= k < t.len() implies is_ws(#[trigger] t[k]) by {
            assert(t[k] == s@[k + lo]);
        }
        if hi > lo {
            assert(t[hi - lo - 1] == s@[hi - 1]);
        }
        lemma_trim_end(t, hi - lo);
        assert(t.take(hi - lo) == s@.subrange(lo as int, hi as int));
    }
    (lo, hi)
}

/// The position of the first `c` in `s`.
pub fn find_char(s: &Vec<char>, c: char) -> (r: Option<usize>)
    ensures
        r matches Some(i) ==> i < s.len(),
        find(s@, c) == match r {
            Some(i) => Some(i as int),
            None => None::<int>,
        },
{
    let mut i: usize = 0;
    while i < s.len()
        invariant
            i <= s.len(),
            forall|k: int| 0 <= k < i ==> #[trigger] s@[k] != c,
        decreases s.len() - i,
    {
        if s[i] == c {
            proof {
                lemma_find(s@, c, i as int);
            }
            return Some(i);
        }
        i += 1;
    }
    proof {
        lemma_find(s@, c, i as int);
    }
    None
}

/// The position of the last `c` in `s`.
pub fn rfind_char(s: &Vec<char>, c: char) -> (r: Option<usize>)
    ensures
        r matches Some(i) ==> i < s.len(),
        rfind(s@, c) == match r {
            Some(i) => Some(i as int),
            None => None::<int>,
        },
{
    let mut j: usize = s.len();
    while j > 0
        invariant
            j <= s.len(),
            forall|k: int| j <= k < s.len() ==> #[trigger] s@[k] != c,
        decreases j,
    {
        if s[j - 1] == c {
            proof {
                lemma_rfind(s@, c, j - 1);
            }
            return Some(j - 1);
        }
        j -= 1;
    }
    proof {
        lemma_rfind(s@, c, -1);
    }
    None
}

/// Is every character an ASCII digit?
pub open spec fn all_digits(s: Seq<char>) -> bool {
    forall|i: int| 0 <= i < s.len() ==> '0' <= #[trigger] s[i] <= '9'
}

/// The value of a run of ASCII digits.
pub open spec fn digits_value(s: Seq<char>) -> int
    decreases s.len(),
{
    if s.len() == 0 {
        0
    } else {
        digits_value(s.drop_last()) * 10 + (s.last() as int - 48)
    }
}

/// The decimal form of an `i64` reads back as itself.
pub proof fn lemma_int_text_parses(i: i64)
    ensures
        parse_int(int_text(i as int)) == Some(i as int),
{
    let s = int_text(i as int);
    if i >= 0 {
        lemma_dec_reads_back(i as nat);
        assert('0' <= s[0] <= '9');
    } else {
        let n = (-(i as int)) as nat;
        lemma_dec_reads_back(n);
        assert(s.drop_first() =~= dec(n));
        assert(s[0] == '-');
    }
}

/// What `str::parse::<i64>` accepts: an optional `+` or `-`, then at least
/// one ASCII digit and nothing else, within `i64`'s range.
pub open spec fn parse_int(s: Seq<char>) -> Option<int> {
    let neg = s.len() > 0 && s[0] == '-';
    let body = if s.len() > 0 && (s[0] == '-' || s[0] == '+') {
        s.drop_first()
    } else {
        s
    };
    let v = if neg {
        -digits_value(body)
    } else {
        digits_value(body)
    };
    if body.len() == 0 || !all_digits(body) || v < i64::MIN || v > i64::MAX {
        None
    } else {
        Some(v)
    }
}

/// The decimal form of `n` is a run of digits that reads back as `n`.
pub proof fn lemma_dec_reads_back(n: nat)
    ensures
        all_digits(dec(n)),
        digits_value(dec(n)) == n,
        dec(n).len() >= 1,
    decreases n,
{
    if n >= 10 {
        lemma_dec_reads_back(n / 10);
        let d = dec(n);
        assert(d.drop_last() == dec(n / 10));
        assert(d.last() == digit((n % 10) as int));
        assert(digit((n % 10) as int) as int == 48 + n % 10);
        assert((n / 10) * 10 + n % 10 == n);
        assert(digits_value(d) == digits_value(d.drop_last()) * 10 + (d.last() as int - 48));
        assert forall|i: int| 0 <= i < d.len() implies '0' <= #[trigger] d[i] <= '9' by {
            if i < d.len() - 1 {
                assert(d[i] == dec(n / 10)[i]);
            }
        }
    } else {
        let d = dec(n);
        assert(digit(n as int) as int == 48 + n);
        assert(d.drop_last() == Seq::<char>::empty());
        assert(digits_value(d) == digits_value(d.drop_last()) * 10 + (d.last() as int - 48));
    }
}

/// Zeros in front of a run of digits do not change what it reads.
pub proof fn lemma_leading_zeros(k: nat, s: Seq<char>)
    ensures
        digits_value(Seq::new(k, |_i: int| '0') + s) == digits_value(s),
    decreases s.len(), k,
{
    let z = Seq::new(k, |_i: int| '0');
    if s.len() == 0 {
        assert(z + s == z);
        if k > 0 {
            lemma_leading_zeros((k - 1) as nat, s);
            assert(z.drop_last() == Seq::new((k - 1) as nat, |_i: int| '0'));
            assert(z.drop_last() + s == z.drop_last());
        }
    } else {
        lemma_leading_zeros(k, s.drop_last());
        assert((z + s).drop_last() == z + s.drop_last());
    }
}

/// A zero-padded number is a run of digits that reads back as the number.
pub proof fn lemma_padded_reads_back(n: nat, width: nat)
    ensures
        all_digits(padded(n, width)),
        digits_value(padded(n, width)) == n,
        padded(n, width).len() >= 1,
{
    lemma_dec_reads_back(n);
    let d = dec(n);
    if d.len() < width {
        let z = Seq::new((width - d.len()) as nat, |_i: int| '0');
        lemma_leading_zeros((width - d.len()) as nat, d);
        let p = z + d;
        assert forall|i: int| 0 <= i < p.len() implies '0' <= #[trigger] p[i] <= '9' by {
            if i >= z.len() {
                assert(p[i] == d[i - z.len()]);
            }
        }
    }
}

proof fn lemma_digits_value_grows(s: Seq<char>, i: int)
    requires
        0 <= i <= s.len(),
        all_digits(s),
    ensures
        digits_value(s.take(i)) <= digits_value(s),
        0 <= digits_value(s.take(i)),
    decreases s.len() - i,
{
    if i < s.len() {
        lemma_digits_value_grows(s, i + 1);
        let t = s.take(i + 1);
        assert(t.drop_last() == s.take(i));
        assert('0' <= s[i] <= '9');
    } else {
        assert(s.take(i) == s);
        lemma_digits_nonneg(s);
    }
}

proof fn lemma_digits_nonneg(s: Seq<char>)
    requires
        all_digits(s),
    ensures
        0 <= digits_value(s),
    decreases s.len(),
{
    if s.len() > 0 {
        assert(all_digits(s.drop_last()));
        lemma_digits_nonneg(s.drop_last());
        assert('0' <= s[s.len() - 1] <= '9');
    }
}

/// `str::parse::<i64>` on the characters `s[from..to]`, checked digit by digit.
pub fn parse_i64(s: &Vec<char>, from: usize, to: usize) -> (r: Option<i64>)
    requires
        from <= to <= s.len(),
    ensures
        r == match parse_int(s@.subrange(from as int, to as int)) {
            Some(v) => Some(v as i64),
            None => None::<i64>,
        },
{
    let ghost w = s@.subrange(from as int, to as int);
    if from == to {
        return None;
    }
    let neg = s[from] == '-';
    let start: usize = if s[from] == '-' || s[from] == '+' { from + 1 } else { from };
    let ghost body = s@.subrange(start as int, to as int);
    assert(body == if w.len() > 0 && (w[0] == '-' || w[0] == '+') { w.drop_first() } else { w });
    if start == to {
        return None;
    }
    let mut acc: u64 = 0;
    let mut i: usize = start;
    while i < to
        invariant
            start <= i <= to <= s.len(),
            body == s@.subrange(start as int, to as int),
            w == s@.subrange(from as int, to as int),
            w.len() > 0,
            body == if w.len() > 0 && (w[0] == '-' || w[0] == '+') { w.drop_first() } else { w },
            neg == (w[0] == '-'),
            forall|k: int| 0 <= k < i - start ==> '0' <= #[trigger] body[k] <= '9',
            acc == digits_value(body.take(i - start)),
            acc <= 9223372036854775808,
        decreases to - i,
    {
        let c = s[i];
        if c < '0' || c > '9' {
            assert(!all_digits(body)) by {
                assert(body[i - start] == c);
            }
            return None;
        }
        let d = (c as u32 - 48) as u64;
        assert(body.take(i - start + 1).drop_last() == body.take(i - start));
        if acc > 922337203685477580 || acc * 10 + d > 9223372036854775808 {
            proof {
                let t = body.take(i - start + 1);
                assert(t.last() == c);
                assert(digits_value(t) == digits_value(t.drop_last()) * 10 + (c as int - 48));
                assert(digits_value(t) > 9223372036854775808);
                if all_digits(body) {
                    lemma_digits_value_grows(body, i - start + 1);
                    assert(digits_value(body) > 9223372036854775808);
                }
                assert(parse_int(w) is None);
            }
            return None;
        }
        acc = acc * 10 + d;
        i += 1;
    }
    assert(body.take(to - start) == body);
    assert(all_digits(body));
    if neg {
        assert(w[0] == s@[from as int]);
        if acc == 9223372036854775808 {
            Some(i64::MIN)
        } else {
            Some(-(acc as i64))
        }
    } else {
        if acc > 9223372036854775807 {
            assert(w[0] == s@[from as int]);
            return None;
        }
        assert(w[0] == s@[from as int]);
        Some(acc as i64)
    }
}


/// Lexicographic order on characters, which for Rust strings is the same as
/// the byte order of their UTF-8 encoding that `str::cmp` uses.
pub open spec fn lex_lt(a: Seq<char>, b: Seq<char>) -> bool
    decreases a.len(),
{
    if a.len() == 0 {
        b.len() > 0
    } else if b.len() == 0 {
        false
    } else if a[0] < b[0] {
        true
    } else if a[0] > b[0] {
        false
    } else {
        lex_lt(a.drop_first(), b.drop_first())
    }
}

proof fn lemma_lex_common_prefix(a: Seq<char>, b: Seq<char>, i: int)
    requires
        0 <= i <= a.len(),
        i <= b.len(),
        forall|k: int| 0 <= k < i ==> a[k] == b[k],
    ensures
        lex_lt(a, b) == lex_lt(a.skip(i), b.skip(i)),
        lex_lt(b, a) == lex_lt(b.skip(i), a.skip(i)),
    decreases i,
{
    if i == 0 {
        assert(a.skip(0) == a);
        assert(b.skip(0) == b);
    } else {
        assert(a[0] == b[0]);
        lemma_lex_common_prefix(a.drop_first(), b.drop_first(), i - 1);
        assert(a.drop_first().skip(i - 1) == a.skip(i));
        assert(b.drop_first().skip(i - 1) == b.skip(i));
    }
}

pub proof fn lemma_lex_irreflexive(a: Seq<char>)
    ensures
        !lex_lt(a, a),
    decreases a.len(),
{
    if a.len() > 0 {
        lemma_lex_irreflexive(a.drop_first());
    }
}

pub proof fn lemma_lex_asymmetric(a: Seq<char>, b: Seq<char>)
    ensures
        lex_lt(a, b) ==> !lex_lt(b, a),
    decreases a.len(),
{
    if a.len() > 0 && b.len() > 0 {
        lemma_lex_asymmetric(a.drop_first(), b.drop_first());
    }
}

pub proof fn lemma_lex_transitive(a: Seq<char>, b: Seq<char>, c: Seq<char>)
    requires
        lex_lt(a, b),
        lex_lt(b, c),
    ensures
        lex_lt(a, c),
    decreases a.len(),
{
    if a.len() > 0 && b.len() > 0 && c.len() > 0 {
        if a[0] == b[0] && b[0] == c[0] {
            lemma_lex_transitive(a.drop_first(), b.drop_first(), c.drop_first());
        }
    }
}

pub proof fn lemma_lex_total(a: Seq<char>, b: Seq<char>)
    ensures
        lex_lt(a, b) || lex_lt(b, a) || a == b,
    decreases a.len(),
{
    if a.len() > 0 && b.len() > 0 {
        if a[0] == b[0] {
            lemma_lex_total(a.drop_first(), b.drop_first());
            if a.drop_first() == b.drop_first() {
                assert(a == seq![a[0]] + a.drop_first());
                assert(b == seq![b[0]] + b.drop_first());
            }
        }
    } else if a.len() == 0 && b.len() == 0 {
        assert(a == b);
    }
}

/// Three-way comparison of two character sequences: `-1`, `0` or `1`.
pub fn compare_chars(a: &Vec<char>, b: &Vec<char>) -> (r: i8)
    ensures
        r == -1 <==> lex_lt(a@, b@),
        r == 0 <==> a@ == b@,
        r == 1 <==> lex_lt(b@, a@),
        r == -1 || r == 0 || r == 1,
{
    let mut i: usize = 0;
    while i < a.len() && i < b.len() && a[i] == b[i]
        invariant
            i <= a.len(),
            i <= b.len(),
            forall|k: int| 0 <= k < i ==> a@[k] == b@[k],
        decreases a.len() - i,
    {
        i += 1;
    }
    proof {
        lemma_lex_common_prefix(a@, b@, i as int);
        lemma_lex_asymmetric(a@, b@);
        lemma_lex_irreflexive(a@);
    }
    if i == a.len() && i == b.len() {
        assert(a@ == b@);
        0
    } else if i == a.len() {
        assert(a@.skip(i as int).len() == 0);
        assert(a@ != b@);
        -1
    } else if i == b.len() {
        assert(b@.skip(i as int).len() == 0);
        assert(a@ != b@);
        1
    } else if a[i] < b[i] {
        assert(a@.skip(i as int)[0] == a@[i as int]);
        assert(b@.skip(i as int)[0] == b@[i as int]);
        assert(a@[i as int] != b@[i as int]);
        -1
    } else {
        assert(a@.skip(i as int)[0] == a@[i as int]);
        assert(b@.skip(i as int)[0] == b@[i as int]);
        assert(a@[i as int] != b@[i as int]);
        1
    }
}


/// What `str::to_lowercase` returns: Unicode's full lowercase mapping of the
/// string, a function of the characters alone.
pub uninterp spec fn lowercase(s: Seq<char>) -> Seq<char>;

/// What `str::to_uppercase` returns: Unicode's full uppercase mapping of the
/// string, a function of the characters alone.
pub uninterp spec fn uppercase(s: Seq<char>) -> Seq<char>;

/// `str::to_lowercase`. Its result is named, not described: Unicode's case
/// tables (final sigma, one character to several) are left to std.
#[verifier::external_body]
pub(crate) fn to_lower(s: &str) -> (r: String)
    ensures
        r@ == lowercase(s@),
{
    s.to_lowercase()
}

/// `str::to_uppercase`. Its result is named, not described.
#[verifier::external_body]
pub(crate) fn to_upper(s: &str) -> (r: String)
    ensures
        r@ == uppercase(s@),
{
    s.to_uppercase()
}


/// Does `p` occur in `s` starting at position `i`?
pub open spec fn occurs_at(s: Seq<char>, p: Seq<char>, i: int) -> bool {
    0 <= i && i + p.len() <= s.len() && s.subrange(i, i + p.len()) == p
}

/// Does `p` occur anywhere in `s`, as `str::contains` asks?
pub open spec fn contains_text(s: Seq<char>, p: Seq<char>) -> bool {
    exists|i: int| occurs_at(s, p, i)
}

/// Does `p` occur at position `i` of `s`?
fn matches_at(s: &Vec<char>, p: &Vec<char>, i: usize) -> (b: bool)
    requires
        i + p.len() <= s.len(),
    ensures
        b == occurs_at(s@, p@, i as int),
{
    let mut k: usize = 0;
    while k < p.len()
        invariant
            k <= p.len(),
            i + p.len() <= s.len(),
            forall|j: int| 0 <= j < k ==> s@[i + j] == p@[j],
        decreases p.len() - k,
    {
        if s[i + k] != p[k] {
            assert(s@.subrange(i as int, i + p.len())[k as int] != p@[k as int]);
            return false;
        }
        k += 1;
    }
    assert(s@.subrange(i as int, i + p.len()) == p@);
    true
}

/// Does `p` occur anywhere in `s`?
pub fn contains_chars(s: &Vec<char>, p: &Vec<char>) -> (b: bool)
    ensures
        b == contains_text(s@, p@),
{
    if p.len() > s.len() {
        return false;
    }
    let mut i: usize = 0;
    let last = s.len() - p.len();
    loop
        invariant
            p.len() <= s.len(),
            last == s.len() - p.len(),
            i <= last,
            forall|j: int| 0 <= j < i ==> !#[trigger] occurs_at(s@, p@, j),
        ensures
            forall|j: int| 0 <= j <= last ==> !#[trigger] occurs_at(s@, p@, j),
        decreases last - i,
    {
        if matches_at(s, p, i) {
            return true;
        }
        if i == last {
            break;
        }
        i += 1;
    }
    assert forall|j: int| !#[trigger] occurs_at(s@, p@, j) by {
        if j > last {
            assert(j + p@.len() > s@.len());
        }
    }
    false
}

} // verus!
