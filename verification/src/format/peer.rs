//! Typed peer keys, userpic colours and initials.
//!
//! Name cache keys are typed: Telegram numbers users, chats and channels in
//! separate id spaces, so the same integer can legitimately be a user and a
//! channel. Nothing here ever takes a bare `i64` as an identity.

use vstd::prelude::*;
use crate::strings::{
    chars_of, first_char, find, find_char, has_prefix, int_text, owned, parse_i64, parse_int,
    push_all, push_int, push_seq, rfind, starts, string_of, string_of_range, trim, trim_bounds,
    trim_start, is_ws, is_ws_char, lemma_rfind, lemma_int_text_parses,
};

verus! {

/// Which id space a peer number lives in.
#[derive(Debug, Clone, Copy, PartialEq, Eq, PartialOrd, Ord, Hash, Structural)]
pub enum PeerKind {
    User,
    Chat,
    Channel,
}

/// The word Desktop writes in front of a peer number.
pub open spec fn kind_prefix(k: PeerKind) -> Seq<char> {
    match k {
        PeerKind::User => "user"@,
        PeerKind::Chat => "chat"@,
        PeerKind::Channel => "channel"@,
    }
}

impl PeerKind {
    pub fn prefix(self) -> (p: &'static str)
        ensures
            p@ == kind_prefix(self),
    {
        match self {
            PeerKind::User => "user",
            PeerKind::Chat => "chat",
            PeerKind::Channel => "channel",
        }
    }
}

/// A peer, as Desktop writes it: `user123` / `chat123` / `channel123`.
#[derive(Debug, Clone, Copy, PartialEq, Eq, PartialOrd, Ord, Hash, Structural)]
pub struct PeerKey {
    pub kind: PeerKind,
    pub id: i64,
}

/// The text form of a peer key.
pub open spec fn peer_text(k: PeerKey) -> Seq<char> {
    kind_prefix(k.kind) + int_text(k.id as int)
}

/// What `PeerKey::parse` reads back: the first of `channel`, `chat`, `user`
/// that prefixes `s` and is followed by a whole `i64`.
pub open spec fn parse_peer(s: Seq<char>) -> Option<PeerKey> {
    if starts(s, "channel"@) && parse_int(s.skip(7)) is Some {
        Some(PeerKey { kind: PeerKind::Channel, id: parse_int(s.skip(7))->0 as i64 })
    } else if starts(s, "chat"@) && parse_int(s.skip(4)) is Some {
        Some(PeerKey { kind: PeerKind::Chat, id: parse_int(s.skip(4))->0 as i64 })
    } else if starts(s, "user"@) && parse_int(s.skip(4)) is Some {
        Some(PeerKey { kind: PeerKind::User, id: parse_int(s.skip(4))->0 as i64 })
    } else {
        None
    }
}

impl PeerKey {
    pub fn user(id: i64) -> (k: Self)
        ensures
            k == (PeerKey { kind: PeerKind::User, id }),
    {
        Self { kind: PeerKind::User, id }
    }

    pub fn chat(id: i64) -> (k: Self)
        ensures
            k == (PeerKey { kind: PeerKind::Chat, id }),
    {
        Self { kind: PeerKind::Chat, id }
    }

    pub fn channel(id: i64) -> (k: Self)
        ensures
            k == (PeerKey { kind: PeerKind::Channel, id }),
    {
        Self { kind: PeerKind::Channel, id }
    }

    /// `user123`, `chat123`, `channel123`.
    pub fn to_string(&self) -> (s: String)
        ensures
            s@ == peer_text(*self),
    {
        let mut v = chars_of(self.kind.prefix());
        push_int(&mut v, self.id);
        string_of(&v)
    }

    /// Parse the `user123` form back.
    pub fn parse(s: &str) -> (r: Option<Self>)
        ensures
            r == parse_peer(s@),
    {
        let v = chars_of(s);
        let ghost sv = s@;
        let p = chars_of("channel");
        proof { reveal_strlit("channel"); }
        if has_prefix(&v, &p) {
            let n = parse_i64(&v, 7, v.len());
            assert(v@.subrange(7, v@.len() as int) == sv.skip(7));
            if let Some(id) = n {
                return Some(Self { kind: PeerKind::Channel, id });
            }
        }
        let p = chars_of("chat");
        proof { reveal_strlit("chat"); }
        if has_prefix(&v, &p) {
            let n = parse_i64(&v, 4, v.len());
            assert(v@.subrange(4, v@.len() as int) == sv.skip(4));
            if let Some(id) = n {
                return Some(Self { kind: PeerKind::Chat, id });
            }
        }
        let p = chars_of("user");
        proof { reveal_strlit("user"); }
        if has_prefix(&v, &p) {
            let n = parse_i64(&v, 4, v.len());
            assert(v@.subrange(4, v@.len() as int) == sv.skip(4));
            if let Some(id) = n {
                return Some(Self { kind: PeerKind::User, id });
            }
        }
        None
    }
}

/// Desktop's userpic palette, indexed by `bare_id % 7`.
pub const COLOUR_MAP: [u8; 7] = [1, 8, 5, 2, 7, 4, 6];

/// The palette as a sequence, for contracts.
pub open spec fn palette() -> Seq<u8> {
    seq![1u8, 8, 5, 2, 7, 4, 6]
}

/// The `userpicN` class Desktop paints for a peer: the palette entry at the
/// id's non-negative residue modulo seven.
pub open spec fn colour_of(bare_id: int) -> u8 {
    palette()[bare_id % 7]
}

pub fn userpic_colour(bare_id: i64) -> (c: u8)
    ensures
        c == colour_of(bare_id as int),
{
    let r = ((bare_id % 7) + 7) % 7;
    assert(r == (bare_id as int) % 7);
    let m: [u8; 7] = [1, 8, 5, 2, 7, 4, 6];
    assert(m@ == palette());
    m[r as usize]
}

/// The two letters Desktop paints in an empty userpic, from a user's name
/// fields: the first character of each, once trimmed.
pub open spec fn initials_of_fields(first: Seq<char>, last: Seq<char>) -> Seq<char> {
    first_char(trim(first)) + first_char(trim(last))
}

fn push_first_trimmed(out: &mut Vec<char>, s: &str)
    ensures
        final(out)@ == old(out)@ + first_char(trim(s@)),
{
    let v = chars_of(s);
    let (lo, hi) = trim_bounds(&v);
    if lo < hi {
        out.push(v[lo]);
        assert(trim(s@)[0] == v@[lo as int]);
    } else {
        assert(old(out)@ + first_char(trim(s@)) == old(out)@);
    }
}

pub fn initials_from_fields(first: &str, last: &str) -> (s: String)
    ensures
        s@ == initials_of_fields(first@, last@),
{
    let mut out: Vec<char> = Vec::new();
    push_first_trimmed(&mut out, first);
    push_first_trimmed(&mut out, last);
    assert(out@ == Seq::<char>::empty() + first_char(trim(first@)) + first_char(trim(last@)));
    string_of(&out)
}

/// Initials for a peer known only by a display string: the first character,
/// and the first character after the first space (leading space skipped).
pub open spec fn initials_of_name(name: Seq<char>) -> Seq<char> {
    let t = trim(name);
    if t.len() == 0 {
        Seq::empty()
    } else {
        match find(t, ' ') {
            Some(i) => first_char(t.take(i)) + first_char(trim_start(t.skip(i + 1))),
            None => seq![t[0]],
        }
    }
}

pub fn initials_from_name(name: &str) -> (s: String)
    ensures
        s@ == initials_of_name(name@),
{
    let v = chars_of(name);
    let (lo, hi) = trim_bounds(&v);
    let ghost t = v@.subrange(lo as int, hi as int);
    if lo == hi {
        return String::new();
    }
    let mut out: Vec<char> = Vec::new();
    let t_v = {
        let mut w: Vec<char> = Vec::new();
        let mut k: usize = lo;
        while k < hi
            invariant
                lo <= k <= hi <= v.len(),
                w@ == v@.subrange(lo as int, k as int),
            decreases hi - k,
        {
            w.push(v[k]);
            assert(v@.subrange(lo as int, k + 1) == v@.subrange(lo as int, k as int).push(v@[k as int]));
            k += 1;
        }
        w
    };
    assert(t_v@ == t);
    match find_char(&t_v, ' ') {
        Some(i) => {
            if i > 0 {
                out.push(t_v[0]);
            }
            assert(first_char(t.take(i as int)) == if i > 0 { seq![t[0]] } else { Seq::<char>::empty() });
            let mut j: usize = i + 1;
            while j < t_v.len() && is_ws_char(t_v[j])
                invariant
                    i + 1 <= j <= t_v.len(),
                    forall|k: int| i + 1 <= k < j ==> is_ws(#[trigger] t_v@[k]),
                decreases t_v.len() - j,
            {
                j += 1;
            }
            proof {
                let r = t.skip(i + 1);
                assert forall|k: int| 0 <= k < j - (i + 1) implies is_ws(#[trigger] r[k]) by {
                    assert(r[k] == t[k + i + 1]);
                }
                if j < t_v.len() {
                    assert(r[j - (i + 1)] == t[j as int]);
                }
                crate::strings::lemma_trim_start(r, j - (i + 1));
            }
            let ghost before = out@;
            if j < t_v.len() {
                out.push(t_v[j]);
            }
            assert(out@ == before + first_char(trim_start(t.skip(i + 1))));
        },
        None => {
            out.push(t_v[0]);
        },
    }
    string_of(&out)
}

/// Initials for a chat or channel: one word gives its first letter; more than
/// one give the first letters of the first and the last word. The last word
/// of the trimmed title starts right after its last whitespace character.
pub open spec fn initials_of_title(title: Seq<char>) -> Option<Seq<char>> {
    let t = trim(title);
    if t.len() == 0 {
        None
    } else {
        match last_ws(t) {
            Some(k) => Some(seq![t[0], t[k + 1]]),
            None => Some(seq![t[0]]),
        }
    }
}

/// The position of the last whitespace character in `s`.
pub open spec fn last_ws(s: Seq<char>) -> Option<int>
    decreases s.len(),
{
    if s.len() == 0 {
        None
    } else if is_ws(s.last()) {
        Some(s.len() - 1)
    } else {
        last_ws(s.drop_last())
    }
}

proof fn lemma_last_ws(s: Seq<char>, j: int)
    requires
        -1 <= j < s.len(),
        forall|k: int| j < k < s.len() ==> !is_ws(#[trigger] s[k]),
    ensures
        j >= 0 && is_ws(s[j]) ==> last_ws(s) == Some(j),
        j == -1 ==> last_ws(s) == None::<int>,
    decreases s.len() - j,
{
    if j < s.len() - 1 {
        let t = s.drop_last();
        assert forall|k: int| j < k < t.len() implies !is_ws(#[trigger] t[k]) by {
            assert(t[k] == s[k]);
        }
        lemma_last_ws(t, j);
        if j >= 0 {
            assert(t[j] == s[j]);
        }
    }
}

pub fn initials_from_title(title: &str) -> (r: Option<String>)
    ensures
        r matches Some(s) ==> initials_of_title(title@) == Some(s@),
        r is None <==> initials_of_title(title@) is None,
{
    let v = chars_of(title);
    let (lo, hi) = trim_bounds(&v);
    let ghost t = v@.subrange(lo as int, hi as int);
    if lo == hi {
        return None;
    }
    let mut j: usize = hi;
    while j > lo && !is_ws_char(v[j - 1])
        invariant
            lo <= j <= hi <= v.len(),
            forall|k: int| j <= k < hi ==> !is_ws(#[trigger] v@[k]),
        decreases j,
    {
        j -= 1;
    }
    proof {
        assert forall|k: int| j - lo <= k < t.len() implies !is_ws(#[trigger] t[k]) by {
            assert(t[k] == v@[k + lo]);
        }
        if j > lo {
            assert(t[j - 1 - lo] == v@[j - 1]);
        }
        lemma_last_ws(t, j - 1 - lo);
    }
    let mut out: Vec<char> = Vec::new();
    out.push(v[lo]);
    if j > lo {
        proof {
            // The trimmed title ends on a non-space, so the last space is
            // followed by a character of the last word.
            assert(!is_ws(v@[hi - 1]));
            assert(j < hi);
        }
        out.push(v[j]);
        assert(out@ == seq![t[0], t[j - lo]]);
    }
    Some(string_of(&out))
}

/// The trimmed display name, which is what `result.json` carries: the
/// non-empty name fields joined by a space, else `@username`.
pub open spec fn display_name_of(first: Seq<char>, last: Seq<char>, username: Seq<char>, deleted: bool) -> Option<Seq<char>> {
    if deleted {
        Some("Deleted Account"@)
    } else if first.len() > 0 && last.len() > 0 {
        Some(first + seq![' '] + last)
    } else if first.len() > 0 {
        Some(first)
    } else if last.len() > 0 {
        Some(last)
    } else if username.len() > 0 {
        Some(seq!['@'] + username)
    } else {
        None
    }
}

pub fn display_name(first: &str, last: &str, username: &str, deleted: bool) -> (r: Option<String>)
    ensures
        r matches Some(s) ==> display_name_of(first@, last@, username@, deleted) == Some(s@),
        r is None <==> display_name_of(first@, last@, username@, deleted) is None,
{
    if deleted {
        return Some(owned("Deleted Account"));
    }
    let f = chars_of(first);
    let l = chars_of(last);
    if f.len() > 0 && l.len() > 0 {
        let mut v = f;
        v.push(' ');
        push_seq(&mut v, &l);
        return Some(string_of(&v));
    }
    if f.len() > 0 {
        return Some(owned(first));
    }
    if l.len() > 0 {
        return Some(owned(last));
    }
    let u = chars_of(username);
    if u.len() > 0 {
        let mut v: Vec<char> = Vec::new();
        v.push('@');
        push_seq(&mut v, &u);
        return Some(string_of(&v));
    }
    None
}

/// A live account is named by every name it has: with both names the
/// display name is the first name, one space and the last name, so neither
/// is ever dropped; with one name it is that name; with neither it is the
/// username after `@`; with nothing at all there is no name. A deleted
/// account is `Deleted Account` whatever its names are.
pub proof fn law_a_display_name_keeps_every_name(first: Seq<char>, last: Seq<char>, username: Seq<char>, deleted: bool)
    ensures
        deleted ==> display_name_of(first, last, username, deleted) == Some("Deleted Account"@),
        !deleted && first.len() > 0 && last.len() > 0 ==> (display_name_of(first, last, username, deleted) matches Some(n)
            && n.len() == first.len() + 1 + last.len()
            && n.take(first.len() as int) == first
            && n[first.len() as int] == ' '
            && n.skip(first.len() as int + 1) == last),
        !deleted && first.len() > 0 && last.len() == 0 ==> display_name_of(first, last, username, deleted) == Some(first),
        !deleted && first.len() == 0 && last.len() > 0 ==> display_name_of(first, last, username, deleted) == Some(last),
        !deleted && first.len() == 0 && last.len() == 0 && username.len() > 0 ==> (display_name_of(first, last, username, deleted) matches Some(n)
            && n.len() == username.len() + 1
            && n[0] == '@'
            && n.skip(1) == username),
        display_name_of(first, last, username, deleted) is None <==>
            !deleted && first.len() == 0 && last.len() == 0 && username.len() == 0,
{
    if !deleted && first.len() > 0 && last.len() > 0 {
        let n = first + seq![' '] + last;
        assert(n.take(first.len() as int) =~= first);
        assert(n.skip(first.len() as int + 1) =~= last);
    }
    if !deleted && first.len() == 0 && last.len() == 0 && username.len() > 0 {
        let n = seq!['@'] + username;
        assert(n.skip(1) =~= username);
    }
}

/// Desktop's HTML name: `first + " " + last`, not trimmed.
pub open spec fn html_name_of(first: Seq<char>, last: Seq<char>, username: Seq<char>, deleted: bool) -> Option<Seq<char>> {
    if deleted {
        Some("Deleted Account"@)
    } else if first.len() > 0 {
        Some(first + seq![' '] + last)
    } else if last.len() > 0 {
        Some(last)
    } else if username.len() > 0 {
        Some(seq!['@'] + username)
    } else {
        None
    }
}

pub fn html_name(first: &str, last: &str, username: &str, deleted: bool) -> (r: Option<String>)
    ensures
        r matches Some(s) ==> html_name_of(first@, last@, username@, deleted) == Some(s@),
        r is None <==> html_name_of(first@, last@, username@, deleted) is None,
{
    if deleted {
        return Some(owned("Deleted Account"));
    }
    let f = chars_of(first);
    if f.len() > 0 {
        let mut v = f;
        v.push(' ');
        push_all(&mut v, last);
        return Some(string_of(&v));
    }
    let l = chars_of(last);
    if l.len() > 0 {
        return Some(owned(last));
    }
    let u = chars_of(username);
    if u.len() > 0 {
        let mut v: Vec<char> = Vec::new();
        v.push('@');
        push_seq(&mut v, &u);
        return Some(string_of(&v));
    }
    None
}


/// A peer key written out reads back as itself.
pub proof fn law_peer_keys_round_trip(k: PeerKey)
    ensures
        parse_peer(peer_text(k)) == Some(k),
{
    reveal_strlit("user");
    reveal_strlit("chat");
    reveal_strlit("channel");
    let p = kind_prefix(k.kind);
    let s = peer_text(k);
    lemma_int_text_parses(k.id);
    assert(s.take(p.len() as int) =~= p);
    assert(s.skip(p.len() as int) =~= int_text(k.id as int));
    match k.kind {
        PeerKind::Channel => {},
        PeerKind::Chat => {
            assert(s[3] == 't');
            if starts(s, "channel"@) {
                assert(s.take(7)[3] == s[3]);
            }
        },
        PeerKind::User => {
            assert(s[0] == 'u');
            if starts(s, "channel"@) {
                assert(s.take(7)[0] == s[0]);
            }
            if starts(s, "chat"@) {
                assert(s.take(4)[0] == s[0]);
            }
        },
    }
}

} // verus!
