//! The current UTC time as a checkpoint timestamp.

use vstd::prelude::*;
use crate::types::opt_string_view;

verus! {

/// Whether `c` is an ASCII decimal digit.
pub open spec fn is_ascii_digit(c: char) -> bool {
    '0' <= c && c <= '9'
}

/// The shape of a UTC timestamp `YYYY-MM-DDTHH:MM:SSZ`.
pub open spec fn utc_stamp_shaped(ts: Seq<char>) -> bool {
    &&& ts.len() == 20
    &&& forall|i: int|
        0 <= i < 20 ==> if i == 4 || i == 7 {
            #[trigger] ts[i] == '-'
        } else if i == 10 {
            ts[i] == 'T'
        } else if i == 13 || i == 16 {
            ts[i] == ':'
        } else if i == 19 {
            ts[i] == 'Z'
        } else {
            is_ascii_digit(ts[i])
        }
}

/// The seconds since the Unix epoch of instants in the years 0 through
/// 9999, whose year takes exactly four digits.
pub open spec fn four_digit_year(secs: int) -> bool {
    -62167219200 <= secs <= 253402300799
}

/// Names the text that chrono formats, with `%Y-%m-%dT%H:%M:%SZ`, for the
/// UTC instant `secs` seconds after the Unix epoch; `None` when chrono
/// cannot represent that instant.
pub uninterp spec fn utc_stamp_of(secs: int) -> Option<Seq<char>>;

/// The whole seconds since the Unix epoch of a clock reading that lies
/// `secs` seconds and `nanos` nanoseconds after (`after`) or before the
/// epoch, rounded down.
pub open spec fn floor_seconds(after: bool, secs: nat, nanos: nat) -> int {
    if after {
        secs as int
    } else if nanos == 0 {
        -(secs as int)
    } else {
        -(secs as int) - 1
    }
}

/// Calls `chrono::DateTime::from_timestamp` for `secs` whole seconds and
/// formats the instant with `%Y-%m-%dT%H:%M:%SZ`. The result is named. As
/// chrono documents it, `from_timestamp` fails only for seconds out of its
/// range, which is far wider than the years 0 through 9999; for those years
/// `%Y` writes the year in four zero-padded digits, `%m`, `%d`, `%H`, `%M`
/// and `%S` write two zero-padded digits each, and every other character of
/// the format is copied as it is.
#[verifier::external_body]
fn format_utc(secs: i64) -> (r: Option<String>)
    ensures
        opt_string_view(r) == utc_stamp_of(secs as int),
        r is None ==> !four_digit_year(secs as int),
        r matches Some(s) ==> (four_digit_year(secs as int) ==> utc_stamp_shaped(s@)),
{
    match chrono::DateTime::from_timestamp(secs, 0) {
        Some(t) => Some(t.format("%Y-%m-%dT%H:%M:%SZ").to_string()),
        None => None,
    }
}

/// Calls `std::time::SystemTime::now` and measures the reading against the
/// Unix epoch: whether it lies after it, and how many whole seconds and
/// nanoseconds away. It depends on the clock, so nothing is stated of it.
#[verifier::external_body]
fn read_clock() -> (bool, u64, u32) {
    match std::time::SystemTime::now().duration_since(std::time::UNIX_EPOCH) {
        Ok(d) => (true, d.as_secs(), d.subsec_nanos()),
        Err(e) => (false, e.duration().as_secs(), e.duration().subsec_nanos()),
    }
}

/// The whole seconds since the Unix epoch of a clock reading, rounded
/// down; `None` when they do not fit in an `i64`.
pub fn epoch_seconds(after: bool, secs: u64, nanos: u32) -> (r: Option<i64>)
    ensures
        match r {
            Some(v) => v == floor_seconds(after, secs as nat, nanos as nat),
            None => floor_seconds(after, secs as nat, nanos as nat) < i64::MIN
                || floor_seconds(after, secs as nat, nanos as nat) > i64::MAX,
        },
{
    let wide: i128 = if after {
        secs as i128
    } else if nanos == 0 {
        -(secs as i128)
    } else {
        -(secs as i128) - 1
    };
    if i64::MIN as i128 <= wide && wide <= i64::MAX as i128 {
        Some(wide as i64)
    } else {
        None
    }
}

/// The instant a checkpoint is stamped with, in whole seconds since the
/// epoch, for a clock reading: the reading rounded down, unless its year
/// does not take four digits, in which case the epoch itself.
pub open spec fn stamp_seconds(after: bool, secs: nat, nanos: nat) -> int {
    let f = floor_seconds(after, secs, nanos);
    if four_digit_year(f) {
        f
    } else {
        0
    }
}

/// The instant to stamp a checkpoint with for a clock reading that lies
/// `secs` seconds and `nanos` nanoseconds after (`after`) or before the
/// Unix epoch.
pub fn stamp_instant(after: bool, secs: u64, nanos: u32) -> (s: i64)
    ensures
        s == stamp_seconds(after, secs as nat, nanos as nat),
        four_digit_year(s as int),
{
    match epoch_seconds(after, secs, nanos) {
        Some(v) => if -62167219200i64 <= v && v <= 253402300799i64 {
            v
        } else {
            0
        },
        None => 0,
    }
}

/// The current UTC time, formatted as `YYYY-MM-DDTHH:MM:SSZ`: the text
/// chrono formats for `stamp_instant` of a reading of the system clock.
pub fn utc_timestamp_now() -> (ts: String)
    ensures
        utc_stamp_shaped(ts@),
        exists|after: bool, secs: u64, nanos: u32|
            utc_stamp_of(stamp_seconds(after, secs as nat, nanos as nat)) == Some(ts@),
{
    let (after, secs, nanos) = read_clock();
    let instant = stamp_instant(after, secs, nanos);
    match format_utc(instant) {
        Some(t) => t,
        None => {
            proof {
                assert(four_digit_year(instant as int));
            }
            String::new()
        },
    }
}

} // verus!
