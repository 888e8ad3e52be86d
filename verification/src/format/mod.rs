//! Telegram Desktop's export JSON schema: the pure parts of the format.

pub mod json;
pub mod order;
pub mod peer;
pub mod size;
pub mod text;
pub mod value;

use vstd::prelude::*;
use chrono::TimeZone;
use crate::strings::int_string;
use crate::strings::int_text;
use crate::strings::digits_value;

verus! {

/// A Unix second whose local date, in any zone, falls within years 1 to
/// 9999: at least a day after 0001-01-01T00:00Z and a day before
/// 10000-01-01T00:00Z, since no zone is a day or more from UTC.
pub open spec fn placeable(ts: int) -> bool {
    -62_135_510_400 <= ts < 253_402_214_400
}

/// Text of the form `YYYY-MM-DDTHH:MM:SS`: nineteen characters, digits but
/// for the separators.
pub open spec fn wall_clock_shape(s: Seq<char>) -> bool {
    &&& s.len() == 19
    &&& s[4] == '-' && s[7] == '-' && s[10] == 'T' && s[13] == ':' && s[16] == ':'
    &&& forall|i: int| 0 <= i < 19 && i != 4 && i != 7 && i != 10 && i != 13 && i != 16
        ==> '0' <= #[trigger] s[i] <= '9'
}

/// Days from 1970-01-01 to a date of the proleptic Gregorian calendar, for
/// years from 1 on (where the shifted year below is never negative).
pub open spec fn days_from_civil(y: int, m: int, d: int) -> int {
    let yy = if m <= 2 { y - 1 } else { y };
    let era = yy / 400;
    let yoe = yy - era * 400;
    let mp = (m + 9) % 12;
    let doy = (153 * mp + 2) / 5 + d - 1;
    let doe = yoe * 365 + yoe / 4 - yoe / 100 + doy;
    era * 146_097 + doe - 719_468
}

/// The number written in `s[a..b]`.
pub open spec fn field_at(s: Seq<char>, a: int, b: int) -> int {
    digits_value(s.subrange(a, b))
}

/// The second a `YYYY-MM-DDTHH:MM:SS` text names, counted on its own clock
/// from 1970-01-01T00:00:00.
pub open spec fn wall_seconds(s: Seq<char>) -> int {
    days_from_civil(field_at(s, 0, 4), field_at(s, 5, 7), field_at(s, 8, 10)) * 86_400
        + field_at(s, 11, 13) * 3_600 + field_at(s, 14, 16) * 60 + field_at(s, 17, 19)
}

/// `s` is the wall clock of Unix second `ts` under some zone offset, which
/// is less than a day either way.
pub open spec fn shows_second(s: Seq<char>, ts: int) -> bool {
    exists|off: int| -86_400 < off < 86_400 && wall_seconds(s) == #[trigger] (ts + off)
}

/// The local wall clock at a Unix second, as `chrono` writes it with
/// `Local.timestamp_opt(ts, 0).single()` and `%Y-%m-%dT%H:%M:%S`. Trusted.
/// `timestamp_opt` answers `Single` for every second `DateTime::from_timestamp`
/// accepts, which takes every placeable one, and `%Y` writes a year from 0
/// to 9999 as four digits, the other fields as two. The local datetime is
/// the UTC one plus the zone's `FixedOffset`, which is under a day either
/// way, so the fields written name the second up to that offset. Which
/// offset it is depends on the machine's zone, and is not claimed.
#[verifier::external_body]
fn local_wall_clock(ts: i64) -> (r: Option<String>)
    ensures
        r is Some || !placeable(ts as int),
        r matches Some(s) ==> (placeable(ts as int) ==> wall_clock_shape(s@) && shows_second(s@, ts as int)),
{
    chrono::Local.timestamp_opt(ts, 0).single().map(|d| d.format("%Y-%m-%dT%H:%M:%S").to_string())
}

/// Desktop's `date` (naive local wall clock) and `date_unixtime` (UTC epoch
/// seconds) pair. Anything with a calendar or a clock face on it reads
/// `date`; anything measuring a duration reads `date_unixtime`, which stays
/// monotonic across a DST change where `date` does not. Every placeable
/// second has a pair.
pub fn date_pair(ts: i64) -> (r: Option<(String, String)>)
    ensures
        r matches Some(p) ==> p.1@ == int_text(ts as int),
        placeable(ts as int) ==> (r matches Some(p) && wall_clock_shape(p.0@) && shows_second(p.0@, ts as int)),
{
    match local_wall_clock(ts) {
        Some(date) => Some((date, int_string(ts))),
        None => None,
    }
}

} // verus!
