//! The JSON values a Desktop export is made of, held as plain data: what the
//! message renderers read and the text-entity builder writes.

use vstd::prelude::*;
use crate::strings::{chars_of, int_text, owned, parse_i64, parse_int, push_all, same_chars, string_of};

verus! {

/// A JSON number: its value when it is a whole number within `i64`, and
/// the text it is written as.
#[derive(Debug, Clone, PartialEq)]
pub struct Number {
    pub int: Option<i64>,
    pub text: String,
}

/// A JSON value. An object keeps its members in order.
#[derive(Debug)]
pub enum Json {
    Null,
    Bool(bool),
    Number(Number),
    Str(String),
    Array(Vec<Json>),
    Object(Vec<(String, Json)>),
}

/// The member called `k` among `fields`: the first with that name.
pub open spec fn member(fields: Seq<(String, Json)>, k: Seq<char>) -> Option<Json>
    decreases fields.len(),
{
    if fields.len() == 0 {
        None
    } else if fields[0].0@ == k {
        Some(fields[0].1)
    } else {
        member(fields.drop_first(), k)
    }
}

/// `v[k]` when `v` is an object that has it.
pub open spec fn get(v: Json, k: Seq<char>) -> Option<Json> {
    match v {
        Json::Object(fields) => member(fields@, k),
        _ => None,
    }
}

/// The text of a string value.
pub open spec fn str_of(v: Option<Json>) -> Option<Seq<char>> {
    match v {
        Some(Json::Str(s)) => Some(s@),
        _ => None,
    }
}

/// The text of a string value, or nothing.
pub open spec fn str_or_empty(v: Option<Json>) -> Seq<char> {
    match str_of(v) {
        Some(s) => s,
        None => Seq::empty(),
    }
}

/// A whole number within `i64`.
pub open spec fn int_of(v: Option<Json>) -> Option<i64> {
    match v {
        Some(Json::Number(n)) => n.int,
        _ => None,
    }
}

/// A boolean.
pub open spec fn bool_of(v: Option<Json>) -> Option<bool> {
    match v {
        Some(Json::Bool(b)) => Some(b),
        _ => None,
    }
}

/// A number read the lenient way: a whole number, or a string that parses
/// as one; anything else is zero.
pub open spec fn lenient_int(v: Option<Json>) -> int {
    match v {
        Some(Json::Number(n)) => match n.int {
            Some(i) => i as int,
            None => 0,
        },
        Some(Json::Str(t)) => match parse_int(t@) {
            Some(i) => i,
            None => 0,
        },
        _ => 0,
    }
}

/// A string as it is, a number as it is written, anything else nothing.
pub open spec fn scalar_text(v: Option<Json>) -> Seq<char> {
    match v {
        Some(Json::Str(s)) => s@,
        Some(Json::Number(n)) => n.text@,
        _ => Seq::empty(),
    }
}

impl Json {
    /// The member `k` of an object; `None` for anything else.
    pub fn get(&self, k: &str) -> (r: Option<&Json>)
        ensures
            match r {
                Some(x) => get(*self, k@) == Some(*x),
                None => get(*self, k@) is None,
            },
    {
        match self {
            Json::Object(fields) => {
                let key = chars_of(k);
                let mut i: usize = 0;
                assert(fields@.skip(0) == fields@);
                while i < fields.len()
                    invariant
                        i <= fields@.len(),
                        key@ == k@,
                        get(*self, k@) == member(fields@, k@),
                        member(fields@, k@) == member(fields@.skip(i as int), k@),
                    decreases fields.len() - i,
                {
                    proof {
                        assert(fields@.skip(i as int).drop_first() == fields@.skip(i + 1));
                        assert(fields@.skip(i as int)[0] == fields@[i as int]);
                    }
                    if same_chars(&chars_of(fields[i].0.as_str()), &key) {
                        assert(fields@[i as int].0@ == k@);
                        assert(member(fields@.skip(i as int), k@) == Some(fields@[i as int].1));
                        assert(get(*self, k@) == member(fields@, k@));
                        return Some(&fields[i].1);
                    }
                    i += 1;
                }
                None
            },
            _ => None,
        }
    }

    /// Does an object have the member `k`?
    pub fn contains_key(&self, k: &str) -> (b: bool)
        ensures
            b == get(*self, k@) is Some,
    {
        self.get(k).is_some()
    }

    pub fn as_str(&self) -> (r: Option<&str>)
        ensures
            match r {
                Some(s) => str_of(Some(*self)) == Some(s@),
                None => str_of(Some(*self)) is None,
            },
    {
        match self {
            Json::Str(s) => Some(s.as_str()),
            _ => None,
        }
    }

    pub fn as_i64(&self) -> (r: Option<i64>)
        ensures
            r == int_of(Some(*self)),
    {
        match self {
            Json::Number(n) => n.int,
            _ => None,
        }
    }

    pub fn as_bool(&self) -> (r: Option<bool>)
        ensures
            r == bool_of(Some(*self)),
    {
        match self {
            Json::Bool(b) => Some(*b),
            _ => None,
        }
    }
}

/// The text of a string member, or nothing.
pub fn str_field(m: &Json, k: &str) -> (s: String)
    ensures
        s@ == str_or_empty(get(*m, k@)),
{
    match m.get(k) {
        Some(v) => match v.as_str() {
            Some(s) => owned(s),
            None => String::new(),
        },
        None => String::new(),
    }
}

/// A member read as a number the lenient way.
pub fn lenient_int_field(m: &Json, k: &str) -> (n: i64)
    ensures
        n == lenient_int(get(*m, k@)),
{
    match m.get(k) {
        Some(Json::Number(n)) => match n.int {
            Some(i) => i,
            None => 0,
        },
        Some(Json::Str(t)) => {
            let cs = chars_of(t.as_str());
            match parse_i64(&cs, 0, cs.len()) {
                Some(i) => {
                    assert(cs@.subrange(0, cs@.len() as int) == t@);
                    i
                },
                None => {
                    assert(cs@.subrange(0, cs@.len() as int) == t@);
                    0
                },
            }
        },
        _ => 0,
    }
}

/// A value as text: a string as it is, a number as it is written, anything
/// else nothing.
pub fn scalar_string(v: Option<&Json>) -> (s: String)
    ensures
        s@ == scalar_text(match v { Some(x) => Some(*x), None => None }),
{
    match v {
        Some(Json::Str(s)) => owned(s.as_str()),
        Some(Json::Number(n)) => owned(n.text.as_str()),
        _ => String::new(),
    }
}

/// A hexadecimal digit, lower case.
pub open spec fn hex_digit(d: int) -> char {
    if d < 10 { ((48 + d) as u8) as char } else { ((87 + d) as u8) as char }
}

/// One character inside a JSON string: a quote and a backslash escaped,
/// control characters as `\b`, `\t`, `\n`, `\f`, `\r` or `\u00XX`.
pub open spec fn json_char(c: char) -> Seq<char> {
    let u = c as u32;
    if c == '"' {
        seq!['\\', '"']
    } else if c == '\\' {
        seq!['\\', '\\']
    } else if u == 8 {
        seq!['\\', 'b']
    } else if u == 9 {
        seq!['\\', 't']
    } else if u == 10 {
        seq!['\\', 'n']
    } else if u == 12 {
        seq!['\\', 'f']
    } else if u == 13 {
        seq!['\\', 'r']
    } else if u < 0x20 {
        seq!['\\', 'u', '0', '0', hex_digit(u as int / 16), hex_digit(u as int % 16)]
    } else {
        seq![c]
    }
}

/// The characters of a string, each as it is written inside quotes.
pub open spec fn json_chars(s: Seq<char>) -> Seq<char>
    decreases s.len(),
{
    if s.len() == 0 { Seq::empty() } else { json_chars(s.drop_last()) + json_char(s.last()) }
}

/// A JSON string literal.
pub open spec fn quoted(s: Seq<char>) -> Seq<char> {
    seq!['"'] + json_chars(s) + seq!['"']
}

/// A value in compact JSON form, as `serde_json` prints one: no spaces,
/// members in order.
pub open spec fn compact(v: Json) -> Seq<char>
    decreases v, 1int,
{
    match v {
        Json::Null => "null"@,
        Json::Bool(b) => if b { "true"@ } else { "false"@ },
        Json::Number(n) => n.text@,
        Json::Str(s) => quoted(s@),
        Json::Array(items) => seq!['['] + compact_items(items@) + seq![']'],
        Json::Object(fields) => seq!['{'] + compact_members(fields@) + seq!['}'],
    }
}

pub open spec fn compact_items(s: Seq<Json>) -> Seq<char>
    decreases s, 0int,
{
    if s.len() == 0 {
        Seq::empty()
    } else if s.len() == 1 {
        compact(s[0])
    } else {
        compact_items(s.drop_last()) + seq![','] + compact(s.last())
    }
}

pub open spec fn compact_members(s: Seq<(String, Json)>) -> Seq<char>
    decreases s, 0int,
{
    if s.len() == 0 {
        Seq::empty()
    } else if s.len() == 1 {
        quoted(s[0].0@) + seq![':'] + compact(s[0].1)
    } else {
        compact_members(s.drop_last()) + seq![','] + quoted(s.last().0@) + seq![':'] + compact(s.last().1)
    }
}

fn push_json_chars(out: &mut Vec<char>, s: &str)
    ensures
        final(out)@ == old(out)@ + json_chars(s@),
{
    let cs = chars_of(s);
    let ghost start = out@;
    let mut i: usize = 0;
    while i < cs.len()
        invariant
            i <= cs@.len(),
            cs@ == s@,
            out@ == start + json_chars(cs@.take(i as int)),
        decreases cs.len() - i,
    {
        let c = cs[i];
        let u = c as u32;
        if c == '"' {
            out.push('\\');
            out.push('"');
        } else if c == '\\' {
            out.push('\\');
            out.push('\\');
        } else if u == 8 {
            out.push('\\');
            out.push('b');
        } else if u == 9 {
            out.push('\\');
            out.push('t');
        } else if u == 10 {
            out.push('\\');
            out.push('n');
        } else if u == 12 {
            out.push('\\');
            out.push('f');
        } else if u == 13 {
            out.push('\\');
            out.push('r');
        } else if u < 0x20 {
            out.push('\\');
            out.push('u');
            out.push('0');
            out.push('0');
            let hi = (u / 16) as u8;
            let lo = (u % 16) as u8;
            out.push(if hi < 10 { (48 + hi) as char } else { (87 + hi) as char });
            out.push(if lo < 10 { (48 + lo) as char } else { (87 + lo) as char });
        } else {
            out.push(c);
        }
        proof {
            let t = cs@.take(i + 1);
            assert(t.drop_last() == cs@.take(i as int));
            assert(t.last() == c);
        }
        i += 1;
    }
    assert(cs@.take(cs@.len() as int) == cs@);
}

/// Append a value in compact JSON form.
pub fn push_compact(out: &mut Vec<char>, v: &Json)
    ensures
        final(out)@ == old(out)@ + compact(*v),
    decreases v,
{
    let ghost start = out@;
    match v {
        Json::Null => push_all(out, "null"),
        Json::Bool(b) => push_all(out, if *b { "true" } else { "false" }),
        Json::Number(n) => push_all(out, n.text.as_str()),
        Json::Str(s) => {
            out.push('"');
            push_json_chars(out, s.as_str());
            out.push('"');
        },
        Json::Array(items) => {
            out.push('[');
            let ghost head = out@;
            let mut i: usize = 0;
            while i < items.len()
                invariant
                    i <= items@.len(),
                    *v == Json::Array(*items),
                    out@ == head + compact_items(items@.take(i as int)),
                decreases items.len() - i,
            {
                proof {
                    let t = items@.take(i + 1);
                    assert(t.drop_last() == items@.take(i as int));
                    assert(t.last() == items@[i as int]);
                    if i == 0 {
                        assert(t =~= seq![items@[0]]);
                    }
                }
                if i > 0 {
                    out.push(',');
                }
                assert(decreases_to!(*v => items@[i as int])) by {
                    assert(decreases_to!(*v => (*v)->Array_0));
                    assert(decreases_to!(*items => items@));
                    assert(decreases_to!(items@ => items@[i as int]));
                }
                push_compact(out, &items[i]);
                i += 1;
            }
            assert(items@.take(items@.len() as int) == items@);
            out.push(']');
        },
        Json::Object(fields) => {
            out.push('{');
            let ghost head = out@;
            let mut i: usize = 0;
            while i < fields.len()
                invariant
                    i <= fields@.len(),
                    *v == Json::Object(*fields),
                    out@ == head + compact_members(fields@.take(i as int)),
                decreases fields.len() - i,
            {
                proof {
                    let t = fields@.take(i + 1);
                    assert(t.drop_last() == fields@.take(i as int));
                    assert(t.last() == fields@[i as int]);
                    if i == 0 {
                        assert(t =~= seq![fields@[0]]);
                    }
                }
                if i > 0 {
                    out.push(',');
                }
                out.push('"');
                push_json_chars(out, fields[i].0.as_str());
                out.push('"');
                out.push(':');
                assert(decreases_to!(*v => fields@[i as int].1)) by {
                    assert(decreases_to!(*v => (*v)->Object_0));
                    assert(decreases_to!(*fields => fields@));
                    assert(decreases_to!(fields@ => fields@[i as int]));
                    assert(decreases_to!(fields@[i as int] => fields@[i as int].1));
                }
                push_compact(out, &fields[i].1);
                i += 1;
            }
            assert(fields@.take(fields@.len() as int) == fields@);
            out.push('}');
        },
    }
}

/// The JSON text of a value, in compact form.
pub fn compact_string(v: &Json) -> (s: String)
    ensures
        s@ == compact(*v),
{
    let mut out: Vec<char> = Vec::new();
    push_compact(&mut out, v);
    assert(Seq::<char>::empty() + compact(*v) == compact(*v));
    string_of(&out)
}

/// A value as `Display` prints it: a string's own text, anything else its
/// JSON form.
pub open spec fn shown(v: Json) -> Seq<char> {
    match v {
        Json::Str(s) => s@,
        _ => compact(v),
    }
}

pub fn shown_string(v: &Json) -> (s: String)
    ensures
        s@ == shown(*v),
{
    match v {
        Json::Str(s) => owned(s.as_str()),
        _ => compact_string(v),
    }
}

} // verus!
