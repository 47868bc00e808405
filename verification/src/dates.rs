//! Calendar handling for the `created` timestamp of a replay: parsing it
//! (RFC 3339 first, raw Unix seconds as a fallback), converting it to the
//! playback engine's 100-nanosecond tick count since year 1, and rendering
//! the date label used in derived file names.
//!
//! The calendar arithmetic itself is chrono's; the library only sees the
//! resulting plain fields.

use vstd::prelude::*;
use vstd::string::*;

use chrono::{Datelike, Timelike};

use crate::text::{dec_padded, format_u64_padded, parse_i64, parse_i64_spec};

verus! {

/// A parsed `created` timestamp: the non-leap milliseconds since the Unix
/// epoch, and the clock fields in the timestamp's own offset, as the date
/// label renders them.
#[derive(Debug, Clone, Copy, PartialEq, Eq, Structural)]
pub struct CreatedTime {
    pub millis: i64,
    pub year: i32,
    pub month: u8,
    pub day: u8,
    pub hour: u8,
    pub minute: u8,
    pub second: u8,
}

/// What chrono reads out of an RFC 3339 timestamp: the millisecond count
/// and the clock fields, or nothing when the text does not parse. The
/// result depends on the text alone.
pub uninterp spec fn rfc3339_fields(s: Seq<char>) -> Option<(i64, i32, u8, u8, u8, u8, u8)>;

/// What chrono makes of a raw Unix-seconds value: the UTC clock fields, or
/// nothing when the value lies outside chrono's representable range. The
/// result depends on the seconds value alone.
pub uninterp spec fn epoch_fields(secs: i64) -> Option<(i32, u8, u8, u8, u8, u8)>;

/// Relies on chrono's `DateTime::parse_from_rfc3339`, together with the
/// `Datelike`/`Timelike` accessors and `timestamp_millis` of the parsed
/// value: all of them are pure functions of the text.
#[verifier::external_body]
fn parse_rfc3339(s: &str) -> (r: Option<(i64, i32, u8, u8, u8, u8, u8)>)
    ensures
        r == rfc3339_fields(s@),
{
    match chrono::DateTime::parse_from_rfc3339(s) {
        Ok(dt) => Some((
            dt.timestamp_millis(),
            dt.year(),
            dt.month() as u8,
            dt.day() as u8,
            dt.hour() as u8,
            dt.minute() as u8,
            dt.second() as u8,
        )),
        Err(_) => None,
    }
}

/// Relies on chrono's `DateTime::<Utc>::from_timestamp`, documented to
/// return nothing exactly when the seconds value is out of chrono's range,
/// together with the `Datelike`/`Timelike` accessors of the result: pure
/// functions of the seconds value.
#[verifier::external_body]
fn epoch_to_fields(secs: i64) -> (r: Option<(i32, u8, u8, u8, u8, u8)>)
    ensures
        r == epoch_fields(secs),
{
    match chrono::DateTime::from_timestamp(secs, 0) {
        Some(dt) => Some((
            dt.year(),
            dt.month() as u8,
            dt.day() as u8,
            dt.hour() as u8,
            dt.minute() as u8,
            dt.second() as u8,
        )),
        None => None,
    }
}

/// How a `created` string is read: as RFC 3339 when possible, otherwise as
/// a raw integer of Unix seconds (some metadata sources send epoch seconds
/// instead of a timestamp). The fallback fails when the seconds value does
/// not fit chrono's range or its millisecond count overflows 64 bits.
pub open spec fn created_time_spec(s: Seq<char>) -> Option<CreatedTime> {
    match rfc3339_fields(s) {
        Some((ms, y, mo, d, h, mi, se)) => Some(
            CreatedTime { millis: ms, year: y, month: mo, day: d, hour: h, minute: mi, second: se },
        ),
        None => match parse_i64_spec(s) {
            Some(secs) => match epoch_fields(secs) {
                Some((y, mo, d, h, mi, se)) => if i64::MIN <= secs * 1000 <= i64::MAX {
                    Some(
                        CreatedTime {
                            millis: (secs * 1000) as i64,
                            year: y,
                            month: mo,
                            day: d,
                            hour: h,
                            minute: mi,
                            second: se,
                        },
                    )
                } else {
                    None
                },
                None => None,
            },
            None => None,
        },
    }
}

/// Parses a `created` string: RFC 3339 first, raw Unix seconds second.
pub fn parse_created(s: &str) -> (r: Option<CreatedTime>)
    ensures
        r == created_time_spec(s@),
{
    match parse_rfc3339(s) {
        Some((ms, y, mo, d, h, mi, se)) => Some(
            CreatedTime { millis: ms, year: y, month: mo, day: d, hour: h, minute: mi, second: se },
        ),
        None => match parse_i64(s) {
            Some(secs) => match epoch_to_fields(secs) {
                Some((y, mo, d, h, mi, se)) => match secs.checked_mul(1000) {
                    Some(ms) => Some(
                        CreatedTime {
                            millis: ms,
                            year: y,
                            month: mo,
                            day: d,
                            hour: h,
                            minute: mi,
                            second: se,
                        },
                    ),
                    None => None,
                },
                None => None,
            },
            None => None,
        },
    }
}

/// The tick count of a millisecond timestamp: 100-nanosecond units since
/// year 1 of the proleptic Gregorian calendar, the epoch that the playback
/// engine's date type counts from.
pub open spec fn ticks_of_millis(millis: i64) -> int {
    millis * 10000 + 621355968000000000
}

/// Converts non-leap Unix milliseconds to the tick count, refusing the
/// values whose tick count does not fit a signed 64-bit field.
pub fn ticks_from_millis(millis: i64) -> (r: Option<i64>)
    ensures
        r matches Some(t) ==> t == ticks_of_millis(millis),
        r is Some <==> i64::MIN <= ticks_of_millis(millis) <= i64::MAX,
{
    if millis >= -984472800485477i64 && millis <= 860201606885477i64 {
        proof {
            assert(millis * 10000 <= 8602016068854770000) by (nonlinear_arith)
                requires
                    millis <= 860201606885477i64,
            ;
            assert(millis * 10000 >= -9844728004854770000) by (nonlinear_arith)
                requires
                    millis >= -984472800485477i64,
            ;
        }
        let wide: i128 = (millis as i128) * 10000 + 621355968000000000i128;
        Some(wide as i64)
    } else {
        None
    }
}

/// The date label of a derived file name: `YYYY.MM.DD-HH.MM.SS`, each field
/// zero-padded, the year to four digits (with a leading minus sign for
/// years before year 0).
pub open spec fn date_label_spec(t: CreatedTime) -> Seq<char> {
    let year_part = if t.year < 0 {
        seq!['-'] + dec_padded((-(t.year as int)) as nat, 4)
    } else {
        dec_padded(t.year as nat, 4)
    };
    year_part + seq!['.'] + dec_padded(t.month as nat, 2) + seq!['.'] + dec_padded(t.day as nat, 2)
        + seq!['-'] + dec_padded(t.hour as nat, 2) + seq!['.'] + dec_padded(t.minute as nat, 2)
        + seq!['.'] + dec_padded(t.second as nat, 2)
}

/// Renders the date label of a parsed `created` timestamp.
pub fn format_date_label(t: &CreatedTime) -> (r: String)
    ensures
        r@ == date_label_spec(*t),
{
    let mut out = String::new();
    if t.year < 0 {
        out.append("-");
        proof {
            reveal_strlit("-");
            assert(out@ =~= seq!['-']);
        }
        let mag: i64 = -(t.year as i64);
        let y = format_u64_padded(mag as u64, 4);
        out.append(y.as_str());
    } else {
        let y = format_u64_padded(t.year as u64, 4);
        out.append(y.as_str());
    }
    out.append(".");
    let mo = format_u64_padded(t.month as u64, 2);
    out.append(mo.as_str());
    out.append(".");
    let d = format_u64_padded(t.day as u64, 2);
    out.append(d.as_str());
    out.append("-");
    let h = format_u64_padded(t.hour as u64, 2);
    out.append(h.as_str());
    out.append(".");
    let mi = format_u64_padded(t.minute as u64, 2);
    out.append(mi.as_str());
    out.append(".");
    let se = format_u64_padded(t.second as u64, 2);
    out.append(se.as_str());
    proof {
        reveal_strlit("-");
        reveal_strlit(".");
        assert("-"@ =~= seq!['-']);
        assert("."@ =~= seq!['.']);
        assert(out@ =~= date_label_spec(*t));
    }
    out
}

} // verus!
