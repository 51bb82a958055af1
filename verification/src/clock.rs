//! Local-time readings and the text formats built from them.
//!
//! The clock itself is outside the library: wrappers hand readings
//! in as plain calendar fields, promising only the ranges the time
//! library documents. Every format written from a reading — the log
//! filter timestamp and the screenshot file name — is verified.

use vstd::prelude::*;
use vstd::string::*;
use chrono::{Datelike, Timelike};
use crate::num::{dec_str, pad_zeros_spec, u64_to_dec_pad};

verus! {

/// One local-time reading, as plain calendar fields.
pub struct ClockParts {
    pub year: i32,
    pub month: u32,
    pub day: u32,
    pub hour: u32,
    pub minute: u32,
    pub second: u32,
}

/// The field ranges every reading satisfies.
pub open spec fn clock_in_range(p: ClockParts) -> bool {
    &&& 1 <= p.month <= 12
    &&& 1 <= p.day <= 31
    &&& p.hour <= 23
    &&& p.minute <= 59
    &&& p.second <= 59
}

/// Relies on chrono::Local::now and its Datelike/Timelike accessors:
/// month runs 1 to 12, day of month 1 to 31, hour 0 to 23, minute
/// and second 0 to 59 (leap seconds are carried in the
/// sub-second field, not here).
#[verifier::external_body]
pub fn local_now_parts() -> (r: ClockParts)
    ensures
        clock_in_range(r),
{
    let now = chrono::Local::now();
    ClockParts {
        year: now.year(),
        month: now.month(),
        day: now.day(),
        hour: now.hour(),
        minute: now.minute(),
        second: now.second(),
    }
}

/// The largest relative offset a caller may ask of the clock,
/// comfortably inside the time library's duration bounds.
pub const MAX_RECENT_MINUTES: u64 = 1000000000;

/// Relies on chrono::Local::now and chrono::Duration::minutes: the
/// reading of the moment `minutes` minutes ago. The bound keeps the
/// subtraction inside the documented range of both.
#[verifier::external_body]
pub fn local_now_minus_minutes(minutes: u64) -> (r: ClockParts)
    requires
        minutes <= MAX_RECENT_MINUTES,
    ensures
        clock_in_range(r),
{
    let since = chrono::Local::now() - chrono::Duration::minutes(minutes as i64);
    ClockParts {
        year: since.year(),
        month: since.month(),
        day: since.day(),
        hour: since.hour(),
        minute: since.minute(),
        second: since.second(),
    }
}

/// Relies on chrono::DateTime::parse_from_rfc3339 and the conversion
/// to the machine's local zone: the reading of the given instant in
/// local time, or nothing when the text is not a valid RFC 3339
/// timestamp. The local fields depend on the machine's time zone.
#[verifier::external_body]
pub fn parse_rfc3339_local(s: &str) -> (r: Option<ClockParts>)
    ensures
        r matches Some(p) ==> clock_in_range(p),
{
    let dt = chrono::DateTime::parse_from_rfc3339(s).ok()?;
    let local = dt.with_timezone(&chrono::Local);
    Some(
        ClockParts {
            year: local.year(),
            month: local.month(),
            day: local.day(),
            hour: local.hour(),
            minute: local.minute(),
            second: local.second(),
        },
    )
}

/// A calendar field zero-padded to two digits.
pub open spec fn pad2(n: nat) -> Seq<char> {
    pad_zeros_spec(dec_str(n), 2)
}

/// A year zero-padded to four digits, with a leading sign for a
/// year before the common era.
pub open spec fn year4(y: int) -> Seq<char> {
    if y < 0 {
        seq!['-'] + pad_zeros_spec(dec_str((-y) as nat), 4)
    } else {
        pad_zeros_spec(dec_str(y as nat), 4)
    }
}

fn format_pad2(n: u32) -> (r: String)
    ensures
        r@ == pad2(n as nat),
{
    u64_to_dec_pad(n as u64, 2)
}

fn format_year4(y: i32) -> (r: String)
    ensures
        r@ == year4(y as int),
{
    if y < 0 {
        proof {
            reveal_strlit("-");
        }
        let mut s = "-".to_owned();
        let m: u64 = (-(y as i64)) as u64;
        s.append(u64_to_dec_pad(m, 4).as_str());
        proof {
            assert(s@ =~= seq!['-'] + pad_zeros_spec(dec_str(m as nat), 4));
        }
        s
    } else {
        u64_to_dec_pad(y as u64, 4)
    }
}

/// The timestamp text the log filter takes: month-day, then
/// hour:minute:second with a fixed zero millisecond field.
pub open spec fn logcat_time_spec(p: ClockParts) -> Seq<char> {
    pad2(p.month as nat) + "-"@ + pad2(p.day as nat) + " "@ + pad2(p.hour as nat) + ":"@ + pad2(
        p.minute as nat,
    ) + ":"@ + pad2(p.second as nat) + ".000"@
}

/// Formats a reading for the log filter argument.
pub fn format_logcat_time(p: &ClockParts) -> (r: String)
    ensures
        r@ == logcat_time_spec(*p),
{
    let mut s = format_pad2(p.month);
    s.append("-");
    s.append(format_pad2(p.day).as_str());
    s.append(" ");
    s.append(format_pad2(p.hour).as_str());
    s.append(":");
    s.append(format_pad2(p.minute).as_str());
    s.append(":");
    s.append(format_pad2(p.second).as_str());
    s.append(".000");
    s
}

/// The screenshot file name for one device and one reading:
/// `screenshot_<id>_<year><month><day>_<hour><minute><second>.png`.
pub open spec fn screenshot_name_spec(id: Seq<char>, p: ClockParts) -> Seq<char> {
    "screenshot_"@ + id + "_"@ + year4(p.year as int) + pad2(p.month as nat) + pad2(p.day as nat)
        + "_"@ + pad2(p.hour as nat) + pad2(p.minute as nat) + pad2(p.second as nat) + ".png"@
}

/// Builds the screenshot file name for one device and one reading.
pub fn screenshot_file_name(id: &str, p: &ClockParts) -> (r: String)
    ensures
        r@ == screenshot_name_spec(id@, *p),
{
    let mut s = "screenshot_".to_owned();
    s.append(id);
    s.append("_");
    s.append(format_year4(p.year).as_str());
    s.append(format_pad2(p.month).as_str());
    s.append(format_pad2(p.day).as_str());
    s.append("_");
    s.append(format_pad2(p.hour).as_str());
    s.append(format_pad2(p.minute).as_str());
    s.append(format_pad2(p.second).as_str());
    s.append(".png");
    s
}

} // verus!
