//! Forum topic naming and message-to-topic routing.
//!
//! The General topic is not a real message thread, so routing is done by
//! reading each message's reply header during one pass over the history.
//! This module holds only that pure part.

use vstd::prelude::*;
use crate::media::names::{
    finish_component, finished, is_illegal, is_illegal_char, is_reserved_name, is_reserved_upper,
    replace_illegal, strip_dots,
};
use crate::strings::{
    all_digits, chars_of, digits_value, lemma_padded_reads_back, is_ws, is_ws_char, padded, push_all, push_padded, string_of, to_upper, trim,
    trim_bounds, uppercase,
};

verus! {

pub const GENERAL_TOPIC_ID: i64 = 1;

pub const GENERAL_TITLE: &'static str = "General";

/// Every run of whitespace squeezed to one space.
pub open spec fn squeeze(t: Seq<char>) -> Seq<char>
    decreases t.len(),
{
    if t.len() == 0 {
        t
    } else {
        let c = t.last();
        let rest = squeeze(t.drop_last());
        if is_ws(c) {
            if t.len() >= 2 && is_ws(t[t.len() - 2]) { rest } else { rest.push(' ') }
        } else {
            rest.push(c)
        }
    }
}

/// A Windows-safe single path component, emoji preserved: illegal characters
/// become `_`, whitespace runs collapse to one space and the ends are
/// trimmed, trailing dots and spaces go; it is cut to 120 characters and
/// trimmed again; then a reserved device name gets a leading `_` (and is
/// cut and trimmed once more). The reserved test is made on the name as it
/// will be written, so a long title the cut shortens to `CON` is escaped
/// too. Anything that comes out empty becomes `fallback`.
pub open spec fn safe_component(name: Seq<char>, fallback: Seq<char>) -> Seq<char> {
    let t = strip_dots(squeeze(trim(replace_illegal(name))));
    let c = finished(t, false, 120, Seq::empty());
    if c.len() == 0 {
        fallback
    } else {
        finished(c, is_reserved_name(uppercase(c)), 120, fallback)
    }
}

/// `name` with illegal characters replaced, whitespace collapsed and the
/// ends trimmed.
fn collapsed_component(name: &str) -> (v: Vec<char>)
    ensures
        v@ == squeeze(trim(replace_illegal(name@))),
{
    let cs = chars_of(name);
    let mut r: Vec<char> = Vec::new();
    let mut i: usize = 0;
    while i < cs.len()
        invariant
            i <= cs.len(),
            cs@ == name@,
            r@ == replace_illegal(cs@.take(i as int)),
        decreases cs.len() - i,
    {
        let c = cs[i];
        r.push(if is_illegal_char(c) { '_' } else { c });
        assert(replace_illegal(cs@.take(i + 1)) == replace_illegal(cs@.take(i as int)).push(
            if is_illegal(c) { '_' } else { c },
        ));
        i += 1;
    }
    assert(cs@.take(cs.len() as int) == cs@);
    let (lo, hi) = trim_bounds(&r);
    let ghost t = r@.subrange(lo as int, hi as int);
    let mut out: Vec<char> = Vec::new();
    let mut k: usize = lo;
    while k < hi
        invariant
            lo <= k <= hi <= r.len(),
            t == r@.subrange(lo as int, hi as int),
            out@ == squeeze(t.take(k - lo)),
        decreases hi - k,
    {
        let c = r[k];
        let ghost u = t.take(k - lo + 1);
        assert(u.drop_last() == t.take(k - lo));
        assert(u.last() == c);
        if is_ws_char(c) {
            if k > lo && is_ws_char(r[k - 1]) {
                assert(u[u.len() - 2] == r@[k - 1]);
            } else {
                if k > lo {
                    assert(u[u.len() - 2] == r@[k - 1]);
                }
                out.push(' ');
            }
        } else {
            out.push(c);
        }
        k += 1;
    }
    assert(t.take(hi - lo) == t);
    out
}

/// Windows-safe single path component, emoji preserved.
pub fn sanitize_component(name: &str, fallback: &str) -> (s: String)
    ensures
        s@ == safe_component(name@, fallback@),
{
    let c = collapsed_component(name);
    let j = strip_dots_prefix(&c);
    if j == 0 {
        return crate::strings::owned(fallback);
    }
    let mut t: Vec<char> = Vec::new();
    let mut k: usize = 0;
    while k < j
        invariant
            k <= j <= c.len(),
            t@ == c@.take(k as int),
        decreases j - k,
    {
        t.push(c[k]);
        assert(c@.take(k + 1) == c@.take(k as int).push(c@[k as int]));
        k += 1;
    }
    let cut = finish_component(string_of(&t).as_str(), false, 120, "");
    proof {
        reveal_strlit("");
    }
    if cut.unicode_len() == 0 {
        return crate::strings::owned(fallback);
    }
    let upper = to_upper(cut.as_str());
    let reserved = is_reserved_upper(upper.as_str());
    finish_component(cut.as_str(), reserved, 120, fallback)
}

/// The length of `v` once trailing dots and spaces are dropped.
fn strip_dots_prefix(v: &Vec<char>) -> (j: usize)
    ensures
        j <= v.len(),
        strip_dots(v@) == v@.take(j as int),
{
    let mut j: usize = v.len();
    assert(v@.take(v.len() as int) == v@);
    while j > 0 && (v[j - 1] == '.' || v[j - 1] == ' ')
        invariant
            j <= v.len(),
            strip_dots(v@) == strip_dots(v@.take(j as int)),
        decreases j,
    {
        proof {
            let w = v@.take(j as int);
            assert(w.drop_last() == v@.take(j - 1));
        }
        j -= 1;
    }
    proof {
        let w = v@.take(j as int);
        if j > 0 {
            assert(w.last() == v@[j - 1]);
        }
    }
    j
}

/// `{:04}` of a signed number: zero-padded to four characters, the sign
/// counted among them.
pub open spec fn padded4(i: int) -> Seq<char> {
    if i < 0 { seq!['-'] + padded((-i) as nat, 3) } else { padded(i as nat, 4) }
}

/// The folder of a topic: `0042 - Backend`.
pub open spec fn dirname_of(topic_id: int, title: Seq<char>) -> Seq<char> {
    padded4(topic_id) + " - "@ + safe_component(title, "topic"@)
}

/// `0042 - Backend`: id-prefixed so retitles and duplicates never collide.
pub fn topic_dirname(topic_id: i64, title: &str) -> (s: String)
    ensures
        s@ == dirname_of(topic_id as int, title@),
{
    let mut v: Vec<char> = Vec::new();
    if topic_id < 0 {
        v.push('-');
        let m: u64 = if topic_id == i64::MIN { 9223372036854775808u64 } else { (-topic_id) as u64 };
        push_padded(&mut v, m, 3);
    } else {
        push_padded(&mut v, topic_id as u64, 4);
    }
    push_all(&mut v, " - ");
    let name = sanitize_component(title, "topic");
    push_all(&mut v, name.as_str());
    string_of(&v)
}

/// No character of a padded id is a space.
proof fn lemma_padded4_has_no_space(i: int)
    ensures
        forall|k: int| 0 <= k < padded4(i).len() ==> #[trigger] padded4(i)[k] != ' ',
        padded4(i).len() >= 1,
        i >= 0 ==> all_digits(padded4(i)) && digits_value(padded4(i)) == i,
        i < 0 ==> padded4(i)[0] == '-' && all_digits(padded4(i).drop_first())
            && digits_value(padded4(i).drop_first()) == -i,
{
    if i < 0 {
        lemma_padded_reads_back((-i) as nat, 3);
        let p = padded4(i);
        assert(p.drop_first() == padded((-i) as nat, 3));
        assert forall|k: int| 0 <= k < p.len() implies #[trigger] p[k] != ' ' by {
            if k > 0 {
                assert(p[k] == p.drop_first()[k - 1]);
            }
        }
    } else {
        lemma_padded_reads_back(i as nat, 4);
    }
}

/// Two topics with different ids never land in one folder, whatever their
/// titles: the folder starts with the id.
pub proof fn law_topic_folders_never_collide(id1: i64, id2: i64, title1: Seq<char>, title2: Seq<char>)
    requires
        id1 != id2,
    ensures
        dirname_of(id1 as int, title1) != dirname_of(id2 as int, title2),
{
    let p1 = padded4(id1 as int);
    let p2 = padded4(id2 as int);
    let s1 = dirname_of(id1 as int, title1);
    let s2 = dirname_of(id2 as int, title2);
    lemma_padded4_has_no_space(id1 as int);
    lemma_padded4_has_no_space(id2 as int);
    reveal_strlit(" - ");
    if s1 == s2 {
        assert(s1[p1.len() as int] == ' ');
        assert(s2[p2.len() as int] == ' ');
        if p1.len() < p2.len() {
            assert(s2[p1.len() as int] == p2[p1.len() as int]);
        } else if p2.len() < p1.len() {
            assert(s1[p2.len() as int] == p1[p2.len() as int]);
        }
        assert(p1 =~= s1.take(p1.len() as int));
        assert(p2 =~= s2.take(p2.len() as int));
        assert(p1 == p2);
        if id1 < 0 && id2 >= 0 {
            assert('0' <= p2[0] <= '9');
        } else if id2 < 0 && id1 >= 0 {
            assert('0' <= p1[0] <= '9');
        }
    }
}

/// The reply header fields routing needs.
#[derive(Debug, Clone, Copy, Default)]
pub struct ReplyHeader {
    pub forum_topic: bool,
    pub reply_to_top_id: Option<i64>,
    pub reply_to_msg_id: Option<i64>,
}

/// Which topic a message belongs to: the message that creates a topic names
/// it; a reply flagged as a forum reply goes to its top id, else the message
/// it answers, else General; anything else, a plain reply included, is
/// General.
pub open spec fn topic_of(msg_id: i64, creates_topic: bool, reply: Option<ReplyHeader>) -> i64 {
    if creates_topic {
        msg_id
    } else {
        match reply {
            None => GENERAL_TOPIC_ID,
            Some(r) => if !r.forum_topic {
                GENERAL_TOPIC_ID
            } else {
                match r.reply_to_top_id {
                    Some(t) => t,
                    None => match r.reply_to_msg_id {
                        Some(m) => m,
                        None => GENERAL_TOPIC_ID,
                    },
                }
            },
        }
    }
}

/// Which topic a message belongs to.
pub fn topic_id_for(msg_id: i64, creates_topic: bool, reply: Option<ReplyHeader>) -> (t: i64)
    ensures
        t == topic_of(msg_id, creates_topic, reply),
{
    if creates_topic {
        return msg_id;
    }
    let reply = match reply {
        Some(r) => r,
        None => return GENERAL_TOPIC_ID,
    };
    if !reply.forum_topic {
        return GENERAL_TOPIC_ID;
    }
    match reply.reply_to_top_id {
        Some(t) => t,
        None => match reply.reply_to_msg_id {
            Some(m) => m,
            None => GENERAL_TOPIC_ID,
        },
    }
}

} // verus!
