//! When Desktop keeps two messages in one sender block: the same sender
//! within 900 seconds, and consecutive forwards only within 3. Both windows
//! are durations, so they are measured on `date_unixtime` when both messages
//! carry one, and on the naive local `date` only as a fallback.

use vstd::prelude::*;
use chrono::{Datelike, Timelike};
use crate::format::value::{get, int_of, shown, shown_string, Json};
use crate::strings::{chars_of, parse_i64, parse_int, same_chars};

verus! {

/// Desktop starts a new sender block once this many seconds have passed.
pub const JOIN_WITHIN_SECONDS: i64 = 900;

/// The much tighter window for consecutive forwards.
pub const FORWARD_JOIN_WITHIN_SECONDS: i64 = 3;

/// A naive local date and time, as Desktop writes `date`, with the seconds
/// since the epoch it stands for when read as UTC.
#[derive(Debug, Clone, Copy, PartialEq, Eq, Structural, PartialOrd)]
pub struct Stamp {
    pub year: i32,
    pub month: u32,
    pub day: u32,
    pub hour: u32,
    pub minute: u32,
    pub second: u32,
    pub epoch: i64,
}

/// What `chrono` reads out of a `date` in the form `%Y-%m-%dT%H:%M:%S`.
pub uninterp spec fn parsed_stamp(s: Seq<char>) -> Option<Stamp>;

/// Read Desktop's naive local `date` with `chrono`'s
/// `NaiveDateTime::parse_from_str(s, "%Y-%m-%dT%H:%M:%S")`. Trusted: the
/// result is whatever `chrono` makes of the text, named `parsed_stamp`, and
/// its fields lie in the ranges `chrono` documents for them (month 1 to 12,
/// day 1 to 31, hour 0 to 23, minute and second 0 to 59). The epoch is the
/// datetime's `and_utc().timestamp()`.
#[verifier::external_body]
fn parse_stamp(s: &str) -> (r: Option<Stamp>)
    ensures
        r == parsed_stamp(s@),
        r matches Some(st) ==> 1 <= st.month <= 12 && 1 <= st.day <= 31 && st.hour <= 23 && st.minute <= 59 && st.second <= 59,
{
    chrono::NaiveDateTime::parse_from_str(s, "%Y-%m-%dT%H:%M:%S").ok().map(|dt| Stamp {
        year: dt.year(),
        month: dt.month(),
        day: dt.day(),
        hour: dt.hour(),
        minute: dt.minute(),
        second: dt.second(),
        epoch: dt.and_utc().timestamp(),
    })
}

/// A `date` value read as a stamp: only a string parses.
pub open spec fn date_of(v: Option<Json>) -> Option<Stamp> {
    match v {
        Some(Json::Str(s)) => parsed_stamp(s@),
        _ => None,
    }
}

/// Parse Desktop's naive local `date` field.
pub fn parse_date(value: Option<&Json>) -> (r: Option<Stamp>)
    ensures
        r == date_of(match value { Some(x) => Some(*x), None => None }),
        r matches Some(st) ==> 1 <= st.month <= 12 && 1 <= st.day <= 31 && st.hour <= 23 && st.minute <= 59 && st.second <= 59,
{
    match value {
        Some(Json::Str(s)) => parse_stamp(s.as_str()),
        _ => None,
    }
}

/// What has to stay the same for Desktop to keep one sender block, and the
/// message's `date_unixtime`, which is not part of that identity.
#[derive(Debug, Clone)]
pub struct JoinKey {
    from_id: String,
    forwarded_from: String,
    forwarded_from_id: String,
    /// Desktop writes this as a decimal string, not a number.
    unixtime: Option<i64>,
}

/// A member as text: a string as it is, anything else as JSON, nothing when
/// absent.
pub open spec fn key_text(m: Json, k: Seq<char>) -> Seq<char> {
    match get(m, k) {
        Some(v) => shown(v),
        None => Seq::empty(),
    }
}

/// `date_unixtime`: a string that parses, or a whole number.
pub open spec fn unixtime_of(m: Json) -> Option<i64> {
    match get(m, "date_unixtime"@) {
        Some(Json::Str(s)) => match parse_int(s@) {
            Some(i) => Some(i as i64),
            None => None,
        },
        Some(v) => int_of(Some(v)),
        None => None,
    }
}

impl JoinKey {
    pub closed spec fn sender(&self) -> (Seq<char>, Seq<char>, Seq<char>) {
        (self.from_id@, self.forwarded_from@, self.forwarded_from_id@)
    }

    pub closed spec fn stamp(&self) -> Option<i64> {
        self.unixtime
    }

    pub fn of(m: &Json) -> (k: Self)
        ensures
            k.sender() == (key_text(*m, "from_id"@), key_text(*m, "forwarded_from"@), key_text(*m, "forwarded_from_id"@)),
            k.stamp() == unixtime_of(*m),
    {
        let text = |k: &str| -> (s: String)
            ensures
                s@ == key_text(*m, k@),
            {
                match m.get(k) {
                    Some(v) => shown_string(v),
                    None => String::new(),
                }
            };
        let unixtime = match m.get("date_unixtime") {
            Some(Json::Str(s)) => {
                let cs = chars_of(s.as_str());
                assert(cs@.subrange(0, cs@.len() as int) == s@);
                parse_i64(&cs, 0, cs.len())
            },
            Some(v) => v.as_i64(),
            None => None,
        };
        JoinKey {
            from_id: text("from_id"),
            forwarded_from: text("forwarded_from"),
            forwarded_from_id: text("forwarded_from_id"),
            unixtime,
        }
    }

    /// Same sender and forward source; the timestamp plays no part.
    pub fn same_sender(&self, other: &Self) -> (b: bool)
        ensures
            b == (self.sender() == other.sender()),
    {
        same_chars(&chars_of(self.from_id.as_str()), &chars_of(other.from_id.as_str()))
            && same_chars(&chars_of(self.forwarded_from.as_str()), &chars_of(other.forwarded_from.as_str()))
            && same_chars(&chars_of(self.forwarded_from_id.as_str()), &chars_of(other.forwarded_from_id.as_str()))
    }
}

/// Identity only, never the timestamp.
impl PartialEq for JoinKey {
    fn eq(&self, other: &Self) -> (b: bool) {
        self.same_sender(other)
    }
}

impl vstd::std_specs::cmp::PartialEqSpecImpl for JoinKey {
    open spec fn obeys_eq_spec() -> bool {
        true
    }

    open spec fn eq_spec(&self, other: &Self) -> bool {
        self.sender() == other.sender()
    }
}

/// The running block state across a page.
#[derive(Debug)]
pub struct JoinState {
    last_key: Option<JoinKey>,
    last_dt: Option<Stamp>,
}

/// Would a message be drawn joined onto the one before it? Only with a
/// previous message, both dates, and the same sender, and only when the gap
/// lies within the window, taken off `date_unixtime` when both carry one.
pub open spec fn joins(last: Option<((Seq<char>, Seq<char>, Seq<char>), Option<i64>)>, last_dt: Option<Stamp>, sender: (Seq<char>, Seq<char>, Seq<char>), stamp: Option<i64>, dt: Option<Stamp>, is_forward: bool) -> bool {
    let window: int = if is_forward { FORWARD_JOIN_WITHIN_SECONDS as int } else { JOIN_WITHIN_SECONDS as int };
    match (last, last_dt, dt) {
        (Some((last_sender, last_stamp)), Some(ld), Some(d)) => {
            let gap: int = match (last_stamp, stamp) {
                (Some(before), Some(after)) => after - before,
                _ => d.epoch - ld.epoch,
            };
            last_sender == sender && 0 <= gap <= window
        },
        _ => false,
    }
}

impl JoinState {
    pub closed spec fn last(&self) -> Option<((Seq<char>, Seq<char>, Seq<char>), Option<i64>)> {
        match self.last_key {
            Some(k) => Some((k.sender(), k.stamp())),
            None => None,
        }
    }

    pub closed spec fn last_date(&self) -> Option<Stamp> {
        self.last_dt
    }

    pub fn new() -> (s: Self)
        ensures
            s.last() is None,
            s.last_date() is None,
    {
        JoinState { last_key: None, last_dt: None }
    }

    /// A page break always starts a fresh block.
    pub fn reset(&mut self)
        ensures
            final(self).last() is None,
            final(self).last_date() is None,
    {
        self.last_key = None;
        self.last_dt = None;
    }

    /// A service message breaks the block on both sides.
    pub fn broke(&mut self)
        ensures
            final(self).last() is None,
            final(self).last_date() == old(self).last_date(),
    {
        self.last_key = None;
    }

    /// Would this message be drawn `joined` onto the one before it?
    pub fn joined(&self, key: &JoinKey, dt: Option<Stamp>, is_forward: bool) -> (b: bool)
        ensures
            b == joins(self.last(), self.last_date(), key.sender(), key.stamp(), dt, is_forward),
    {
        let window: i64 = if is_forward { FORWARD_JOIN_WITHIN_SECONDS } else { JOIN_WITHIN_SECONDS };
        let (last_key, last_dt, dt) = match (&self.last_key, self.last_dt, dt) {
            (Some(k), Some(l), Some(d)) => (k, l, d),
            _ => return false,
        };
        if !last_key.same_sender(key) {
            return false;
        }
        let gap: i128 = match (last_key.unixtime, key.unixtime) {
            (Some(before), Some(after)) => (after as i128) - (before as i128),
            _ => (dt.epoch as i128) - (last_dt.epoch as i128),
        };
        0 <= gap && gap <= window as i128
    }

    pub fn advance(&mut self, key: JoinKey, dt: Option<Stamp>)
        ensures
            final(self).last() == Some((key.sender(), key.stamp())),
            final(self).last_date() == dt,
    {
        self.last_key = Some(key);
        self.last_dt = dt;
    }
}

impl Default for JoinState {
    fn default() -> (s: Self)
        ensures
            s.last() is None,
            s.last_date() is None,
    {
        JoinState::new()
    }
}

} // verus!
