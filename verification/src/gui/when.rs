//! A chat's last activity, as Telegram itself words it: today is a clock
//! time, yesterday is a word, this week is a weekday, this year drops the
//! year.
//!
//! A relative timestamp is what makes the default sort legible: "Recent
//! activity" orders on a Unix second nobody can see.

use vstd::prelude::*;
use chrono::{Datelike, TimeZone, Timelike};
use crate::format::{days_from_civil, placeable};
use crate::gui::list::{kind_label, ChatInfo};
use crate::strings::{owned, padded, push_all, string_of};

verus! {

/// A moment on the local clock: its calendar date and time of day, and the
/// date's day number counted from the common era, so two dates subtract to
/// whole days.
#[derive(Debug, Clone, Copy, PartialEq, Eq, Structural)]
pub struct LocalTime {
    pub year: i32,
    pub month: u32,
    pub day: u32,
    pub hour: u32,
    pub minute: u32,
    pub day_number: i32,
}

/// The minute of local wall-clock time `t` stands for, in seconds from
/// 1970-01-01T00:00 on the same clock: day 719163 from the common era is
/// 1970-01-01.
pub open spec fn local_minute(t: LocalTime) -> int {
    (t.day_number - 719_163) * 86_400 + t.hour * 3_600 + t.minute * 60
}

/// `t` is the local wall clock of Unix second `ts` under some zone offset,
/// which is less than a day either way.
pub open spec fn shows_moment(t: LocalTime, ts: int) -> bool {
    exists|off: int| -86_400 < off < 86_400 && local_minute(t) <= #[trigger] (ts + off) < local_minute(t) + 60
}

/// The local wall clock at a Unix second: `chrono::Local.timestamp_opt(ts,
/// 0).single()` read into its fields. Trusted. `timestamp_opt` answers
/// `Single` for every second `DateTime::from_timestamp` accepts, which
/// takes every placeable one; the local datetime is the UTC one plus the
/// zone's `FixedOffset`, which is under a day either way, so its day
/// number, hour and minute place the second up to that offset, and each
/// field lies in the range `chrono` gives it; for a placeable second the
/// local date is a real date of years 1 to 9999. Which offset it is depends on
/// the machine's zone, and is not claimed.
#[verifier::external_body]
fn local_time(ts: i64) -> (r: Option<LocalTime>)
    ensures
        r is Some || !placeable(ts as int),
        r matches Some(t) ==> 1 <= t.month <= 12 && 1 <= t.day <= 31 && t.hour <= 23 && t.minute <= 59
            && shows_moment(t, ts as int) && (placeable(ts as int) ==> ordinary(t)),
{
    chrono::Local.timestamp_opt(ts, 0).single().map(|d| LocalTime {
        year: d.year(),
        month: d.month(),
        day: d.day(),
        hour: d.hour(),
        minute: d.minute(),
        day_number: d.num_days_from_ce(),
    })
}

/// What `chrono` writes for a local date and time under a format pattern.
pub uninterp spec fn formatted(year: i32, month: u32, day: u32, hour: u32, minute: u32, pattern: Seq<char>) -> Seq<char>;

/// Is `y` a leap year of the Gregorian calendar?
pub open spec fn leap_year(y: int) -> bool {
    y % 4 == 0 && (y % 100 != 0 || y % 400 == 0)
}

/// How many days month `m` of year `y` has.
pub open spec fn month_days(y: int, m: int) -> int {
    if m == 2 {
        if leap_year(y) { 29 } else { 28 }
    } else if m == 4 || m == 6 || m == 9 || m == 11 {
        30
    } else {
        31
    }
}

/// A moment `chrono` can hold and `%Y` writes as four digits: a real date of
/// years 1 to 9999 and a time of day.
pub open spec fn ordinary(t: LocalTime) -> bool {
    &&& 1 <= t.year <= 9999
    &&& 1 <= t.month <= 12
    &&& 1 <= t.day <= month_days(t.year as int, t.month as int)
    &&& t.hour <= 23
    &&& t.minute <= 59
}

/// English month abbreviations, as `%b` writes them.
pub open spec fn month_abbrev(m: int) -> Seq<char> {
    if m == 1 { "Jan"@ } else if m == 2 { "Feb"@ } else if m == 3 { "Mar"@ } else if m == 4 { "Apr"@ }
    else if m == 5 { "May"@ } else if m == 6 { "Jun"@ } else if m == 7 { "Jul"@ } else if m == 8 { "Aug"@ }
    else if m == 9 { "Sep"@ } else if m == 10 { "Oct"@ } else if m == 11 { "Nov"@ } else { "Dec"@ }
}

/// English weekday names, as `%A` writes them, counted from Sunday.
pub open spec fn weekday_name(k: int) -> Seq<char> {
    if k == 0 { "Sunday"@ } else if k == 1 { "Monday"@ } else if k == 2 { "Tuesday"@ }
    else if k == 3 { "Wednesday"@ } else if k == 4 { "Thursday"@ } else if k == 5 { "Friday"@ }
    else { "Saturday"@ }
}

/// The day of the week of a date, counted from Sunday: 1970-01-01 was a
/// Thursday.
pub open spec fn weekday_of(y: int, m: int, d: int) -> int {
    (days_from_civil(y, m, d) + 4) % 7
}

/// What the four patterns write for an ordinary moment: `%H:%M` the
/// zero-padded hour and minute, `%A` the weekday, `%d %b` the zero-padded
/// day and the month, `%d %b %Y` those and the four-digit year.
pub open spec fn pattern_text(t: LocalTime, p: Seq<char>) -> Seq<char> {
    let day_month = padded(t.day as nat, 2) + " "@ + month_abbrev(t.month as int);
    if p == "%H:%M"@ {
        padded(t.hour as nat, 2) + ":"@ + padded(t.minute as nat, 2)
    } else if p == "%A"@ {
        weekday_name(weekday_of(t.year as int, t.month as int, t.day as int))
    } else if p == "%d %b"@ {
        day_month
    } else {
        day_month + " "@ + padded(t.year as nat, 4)
    }
}

/// The four patterns a moment is worded with. Every specifier in them is one
/// `chrono` knows; an unknown one makes `to_string` panic.
pub open spec fn known_pattern(p: Seq<char>) -> bool {
    p == "%H:%M"@ || p == "%A"@ || p == "%d %b"@ || p == "%d %b %Y"@
}

/// A local moment written under a `chrono` format pattern, as
/// `NaiveDate::from_ymd_opt(..).and_hms_opt(.., 0)` and `format(pattern)`
/// write it; nothing for a date that does not exist. Trusted: the text is
/// `chrono`'s (its English weekday and month names among it), named
/// `formatted`, a function of the fields and the pattern alone. For an
/// ordinary moment the text is stated: `%H`, `%M` and `%d` are zero-padded
/// to two digits, `%Y` writes years up to 9999 as four, and `%b` and `%A`
/// take `chrono`'s default English month and weekday names. Only the
/// four known patterns are admitted, since `chrono` answers an unknown
/// specifier with a formatting error that `to_string` turns into a panic.
#[verifier::external_body]
fn format_local(t: &LocalTime, pattern: &str) -> (s: String)
    requires
        known_pattern(pattern@),
    ensures
        s@ == formatted(t.year, t.month, t.day, t.hour, t.minute, pattern@),
        ordinary(*t) ==> s@ == pattern_text(*t, pattern@),
{
    match chrono::NaiveDate::from_ymd_opt(t.year, t.month, t.day).and_then(|d| d.and_hms_opt(t.hour, t.minute, 0)) {
        Some(dt) => dt.format(pattern).to_string(),
        None => String::new(),
    }
}

/// The local clock at a Unix second, for the window's "now".
pub fn local_time_of(ts: i64) -> (r: Option<LocalTime>)
    ensures
        r is Some || !placeable(ts as int),
        r matches Some(t) ==> 1 <= t.month <= 12 && 1 <= t.day <= 31 && t.hour <= 23 && t.minute <= 59
            && shows_moment(t, ts as int) && (placeable(ts as int) ==> ordinary(t)),
{
    local_time(ts)
}

/// How a moment is worded against "now": whole days between calendar dates
/// decide, not the hours between the instants.
pub open spec fn when_text(when: LocalTime, now: LocalTime) -> Seq<char> {
    let days = now.day_number - when.day_number;
    let f = |p: Seq<char>| formatted(when.year, when.month, when.day, when.hour, when.minute, p);
    if days == 0 {
        f("%H:%M"@)
    } else if days == 1 {
        "Yesterday"@
    } else if 2 <= days <= 6 {
        f("%A"@)
    } else if when.year == now.year {
        f("%d %b"@)
    } else {
        f("%d %b %Y"@)
    }
}

/// [`when_text`] for an ordinary moment, with the patterns' text spelled
/// out.
pub open spec fn plain_when_text(when: LocalTime, now: LocalTime) -> Seq<char> {
    let days = now.day_number - when.day_number;
    if days == 0 {
        pattern_text(when, "%H:%M"@)
    } else if days == 1 {
        "Yesterday"@
    } else if 2 <= days <= 6 {
        pattern_text(when, "%A"@)
    } else if when.year == now.year {
        pattern_text(when, "%d %b"@)
    } else {
        pattern_text(when, "%d %b %Y"@)
    }
}

/// Word a local moment against "now".
pub fn describe_when(when: &LocalTime, now: &LocalTime) -> (s: String)
    ensures
        s@ == when_text(*when, *now),
        ordinary(*when) ==> s@ == plain_when_text(*when, *now),
{
    let days: i64 = now.day_number as i64 - when.day_number as i64;
    proof {
        reveal_strlit("Yesterday");
    }
    if days == 0 {
        format_local(when, "%H:%M")
    } else if days == 1 {
        owned("Yesterday")
    } else if 2 <= days && days <= 6 {
        format_local(when, "%A")
    } else if when.year == now.year {
        format_local(when, "%d %b")
    } else {
        format_local(when, "%d %b %Y")
    }
}

/// What a chat's last activity at Unix second `ts` may read as, worded
/// against `now`: nothing for a stamp of zero or less; otherwise the
/// wording of a local moment that shows that second, or nothing when the
/// zone cannot place it.
pub open spec fn wording_of(ts: int, now: LocalTime, w: Seq<char>) -> bool {
    if ts <= 0 {
        w == Seq::<char>::empty()
    } else if placeable(ts) {
        exists|when: LocalTime| shows_moment(when, ts) && ordinary(when) && #[trigger] plain_when_text(when, now) == w
    } else {
        (exists|when: LocalTime| shows_moment(when, ts) && #[trigger] when_text(when, now) == w)
            || w == Seq::<char>::empty()
    }
}

/// A chat's last activity as Telegram words it: its moment on the local
/// clock, worded against `now`. Nothing for a chat with no last message (a
/// stamp of zero or less), or for a second the zone cannot place.
pub fn human_when(timestamp: i64, now: &LocalTime) -> (s: String)
    ensures
        wording_of(timestamp as int, *now, s@),
{
    if timestamp <= 0 {
        return String::new();
    }
    match local_time(timestamp) {
        Some(when) => describe_when(&when, now),
        None => String::new(),
    }
}

/// The caption under a chat's title: its kind, and when it last moved. A
/// chat with no date reads as its kind alone, with no dangling separator.
pub open spec fn caption_text(kind: Seq<char>, when: Seq<char>) -> Seq<char> {
    if when.len() == 0 { kind } else { kind + "  "@ + when }
}

pub fn caption_with(chat: &ChatInfo, when: &str) -> (s: String)
    ensures
        s@ == caption_text(kind_label(chat.kind), when@),
{
    let mut v: Vec<char> = Vec::new();
    push_all(&mut v, chat.kind.label());
    if when.unicode_len() > 0 {
        push_all(&mut v, "  ");
        push_all(&mut v, when);
    }
    string_of(&v)
}

/// The caption under a chat's title: its kind, then two spaces and its last
/// activity as [`human_when`] words it against `now`.
pub fn caption(chat: &ChatInfo, now: &LocalTime) -> (s: String)
    ensures
        exists|w: Seq<char>| wording_of(chat.last_activity as int, *now, w)
            && s@ == #[trigger] caption_text(kind_label(chat.kind), w),
        chat.last_activity <= 0 ==> s@ == kind_label(chat.kind),
{
    let when = human_when(chat.last_activity, now);
    caption_with(chat, when.as_str())
}

} // verus!
