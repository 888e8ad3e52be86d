//! Desktop's file-size and duration wording.
//!
//! Sizes truncate, they never round: 1,940,744 bytes reads `1.8 MB`.

use vstd::prelude::*;
use crate::strings::{dec, padded, push_dec, push_padded, string_of};

verus! {

pub open spec fn kib() -> int { 1024 }
pub open spec fn mib() -> int { 1048576 }
pub open spec fn gib() -> int { 1073741824 }

/// `whole.tenth unit`: the size in tenths of a unit, `floor(bytes * 10 /
/// step)`, truncated rather than rounded, in exact arithmetic.
pub open spec fn tenths_text(bytes: int, step: int, unit: Seq<char>) -> Seq<char> {
    let t = (bytes * 10) / step;
    dec((t / 10) as nat) + seq!['.'] + dec((t % 10) as nat) + seq![' '] + unit
}

/// Dividing before multiplying gives the same tenths: the whole units, and
/// the tenth taken from the remainder alone.
proof fn lemma_tenths(bytes: int, step: int)
    requires
        bytes > 0,
        step > 0,
    ensures
        (bytes * 10) / step / 10 == bytes / step,
        (bytes * 10) / step % 10 == (bytes % step) * 10 / step,
{
    let w = bytes / step;
    let r = bytes % step;
    let q = r * 10 / step;
    assert(bytes == w * step + r && 0 <= r < step) by (nonlinear_arith)
        requires step > 0, w == bytes / step, r == bytes % step;
    assert(0 <= q < 10 && q * step <= r * 10 < (q + 1) * step) by (nonlinear_arith)
        requires step > 0, 0 <= r < step, q == r * 10 / step;
    assert(0 <= r * 10 - q * step < step) by (nonlinear_arith)
        requires q * step <= r * 10 < (q + 1) * step;
    assert(bytes * 10 == (w * 10 + q) * step + (r * 10 - q * step)) by (nonlinear_arith)
        requires bytes == w * step + r;
    assert((bytes * 10) / step == w * 10 + q) by (nonlinear_arith)
        requires step > 0, bytes * 10 == (w * 10 + q) * step + (r * 10 - q * step),
            0 <= r * 10 - q * step < step;
    assert((w * 10 + q) / 10 == w && (w * 10 + q) % 10 == q) by (nonlinear_arith)
        requires 0 <= q < 10;
}

/// Desktop's file-size wording: 1024 steps, one decimal, truncated.
pub open spec fn size_text(bytes: int) -> Seq<char> {
    if bytes <= 0 {
        Seq::empty()
    } else if bytes >= gib() {
        tenths_text(bytes, gib(), seq!['G', 'B'])
    } else if bytes >= mib() {
        tenths_text(bytes, mib(), seq!['M', 'B'])
    } else if bytes >= kib() {
        tenths_text(bytes, kib(), seq!['K', 'B'])
    } else {
        dec(bytes as nat) + seq![' ', 'B']
    }
}

/// `h:mm:ss`, or `mm:ss` under an hour; nothing at all for no duration.
pub open spec fn duration_text(seconds: int) -> Seq<char> {
    if seconds <= 0 {
        Seq::empty()
    } else {
        let m = seconds / 60;
        let s = seconds % 60;
        let h = m / 60;
        let mm = m % 60;
        if h > 0 {
            dec(h as nat) + seq![':'] + padded(mm as nat, 2) + seq![':'] + padded(s as nat, 2)
        } else {
            padded(mm as nat, 2) + seq![':'] + padded(s as nat, 2)
        }
    }
}

fn push_tenths(v: &mut Vec<char>, bytes: i64, step: i64, u0: char, u1: char)
    requires
        bytes > 0,
        step == kib() || step == mib() || step == gib(),
    ensures
        final(v)@ == old(v)@ + tenths_text(bytes as int, step as int, seq![u0, u1]),
{
    let whole = bytes / step;
    let tenth = (bytes % step) * 10 / step;
    proof { lemma_tenths(bytes as int, step as int); }
    push_dec(v, whole as u64);
    v.push('.');
    push_dec(v, tenth as u64);
    v.push(' ');
    v.push(u0);
    v.push(u1);
    let ghost t_ = (bytes * 10) / (step as int);
    assert(final(v)@ == old(v)@ + tenths_text(bytes as int, step as int, seq![u0, u1])) by {
        assert(tenths_text(bytes as int, step as int, seq![u0, u1]) == dec((t_ / 10) as nat) + seq!['.'] + dec((t_ % 10) as nat) + seq![' '] + seq![u0, u1]);
    }
}

/// Desktop's file-size wording: 1024 steps, one decimal, truncated.
pub fn human_size(bytes: i64) -> (s: String)
    ensures
        s@ == size_text(bytes as int),
{
    let mut v: Vec<char> = Vec::new();
    if bytes <= 0 {
        return String::new();
    }
    if bytes >= 1024 * 1024 * 1024 {
        push_tenths(&mut v, bytes, 1024 * 1024 * 1024, 'G', 'B');
    } else if bytes >= 1024 * 1024 {
        push_tenths(&mut v, bytes, 1024 * 1024, 'M', 'B');
    } else if bytes >= 1024 {
        push_tenths(&mut v, bytes, 1024, 'K', 'B');
    } else {
        push_dec(&mut v, bytes as u64);
        v.push(' ');
        v.push('B');
    }
    assert(v@ == size_text(bytes as int));
    string_of(&v)
}

/// `h:mm:ss`, or `mm:ss` under an hour.
pub fn human_duration(seconds: i64) -> (s: String)
    ensures
        s@ == duration_text(seconds as int),
{
    if seconds <= 0 {
        return String::new();
    }
    let m = seconds / 60;
    let sec = seconds % 60;
    let h = m / 60;
    let mm = m % 60;
    let mut v: Vec<char> = Vec::new();
    if h > 0 {
        push_dec(&mut v, h as u64);
        v.push(':');
    }
    push_padded(&mut v, mm as u64, 2);
    v.push(':');
    push_padded(&mut v, sec as u64, 2);
    assert(v@ == duration_text(seconds as int));
    string_of(&v)
}

} // verus!
