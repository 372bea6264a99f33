//! Calendar keys: UTC timestamps read through chrono, and the
//! `MM/DD/YYYY HH:00` keys that join prices with metering points.
use vstd::prelude::*;
use vstd::string::StringExecFns;
use chrono::{Datelike, TimeZone, Timelike};
use crate::text::{int_text, padded_text, push_int_text, push_padded};

verus! {

broadcast use vstd::string::group_string_axioms;

/// A UTC instant, to the minute.
pub struct UtcMinute {
    pub year: i32,
    pub month: u32,
    pub day: u32,
    pub hour: u32,
    pub minute: u32,
}

impl UtcMinute {
    pub open spec fn fields(&self) -> (int, int, int, int, int) {
        (self.year as int, self.month as int, self.day as int, self.hour as int, self.minute as int)
    }

    /// Month, day, hour and minute lie in their calendar ranges.
    pub open spec fn in_range(&self) -> bool {
        1 <= self.month <= 12 && 1 <= self.day <= 31 && self.hour < 24 && self.minute < 60
    }
}

/// The UTC year, month, day, hour and minute of an RFC 3339 timestamp, as
/// chrono reads it, or `None` where chrono rejects the text.
pub uninterp spec fn rfc3339_as_utc(s: Seq<char>) -> Option<(int, int, int, int, int)>;

/// The year, month, day, hour and minute of a `%Y-%m-%dT%H:%M:%S` UTC
/// timestamp, as chrono reads it, or `None` where chrono rejects the text.
pub uninterp spec fn hour_text_as_utc(s: Seq<char>) -> Option<(int, int, int, int, int)>;

/// Relies on chrono's `FromStr` for `DateTime<Utc>`: it reads an RFC 3339
/// timestamp, converts it to UTC, and its `Datelike` / `Timelike` accessors
/// return months from 1, days from 1, hours below 24 and minutes below 60.
#[verifier::external_body]
fn parse_rfc3339_utc(s: &str) -> (r: Option<UtcMinute>)
    ensures
        r matches Some(m) ==> rfc3339_as_utc(s@) == Some(m.fields()) && m.in_range(),
        r is None ==> rfc3339_as_utc(s@) is None,
{
    match s.parse::<chrono::DateTime<chrono::Utc>>() {
        Ok(d) => Some(UtcMinute { year: d.year(), month: d.month(), day: d.day(), hour: d.hour(), minute: d.minute() }),
        Err(_) => None,
    }
}

/// Relies on chrono's `Utc.datetime_from_str` with the format
/// `%Y-%m-%dT%H:%M:%S`, and on the ranges of its accessors as above.
#[verifier::external_body]
#[allow(deprecated)]
pub(crate) fn parse_hour_text_utc(s: &str) -> (r: Option<UtcMinute>)
    ensures
        r matches Some(m) ==> hour_text_as_utc(s@) == Some(m.fields()) && m.in_range(),
        r is None ==> hour_text_as_utc(s@) is None,
{
    match chrono::Utc.datetime_from_str(s, "%Y-%m-%dT%H:%M:%S") {
        Ok(d) => Some(UtcMinute { year: d.year(), month: d.month(), day: d.day(), hour: d.hour(), minute: d.minute() }),
        Err(_) => None,
    }
}

/// Relies on chrono's `Utc::now().timestamp()`: the seconds since the Unix
/// epoch at the moment of the call. Nothing is known of the value.
#[verifier::external_body]
pub(crate) fn now_timestamp() -> (r: i64) {
    chrono::Utc::now().timestamp()
}

/// A year as `%Y` writes it: four digits within 0..=9999, otherwise a sign
/// and at least four digits.
pub open spec fn year_text(y: int) -> Seq<char> {
    if 0 <= y <= 9999 {
        padded_text(y as nat, 4)
    } else if y > 9999 {
        seq!['+'] + padded_text(y as nat, 4)
    } else {
        seq!['-'] + padded_text((-y) as nat, 4)
    }
}

/// The date key `MM/DD/YYYY`.
pub open spec fn date_text(y: int, m: nat, d: nat) -> Seq<char> {
    padded_text(m, 2) + seq!['/'] + padded_text(d, 2) + seq!['/'] + year_text(y)
}

/// The hour part of a key: the hour itself where it is at least ten,
/// otherwise a `0` before it (so `-1` gives `0-1`), then `:00`.
pub open spec fn hour_text(h: int) -> Seq<char> {
    if h >= 10 {
        int_text(h) + seq![':', '0', '0']
    } else {
        seq!['0'] + int_text(h) + seq![':', '0', '0']
    }
}

/// The key of an hour within a date: `MM/DD/YYYY HH:00`.
pub open spec fn hour_key_text(date: Seq<char>, h: int) -> Seq<char> {
    date + seq![' '] + hour_text(h)
}

/// The key `MM/DD/YYYY HH:MM` of a minute.
pub open spec fn minute_key_text(f: (int, int, int, int, int)) -> Seq<char> {
    date_text(f.0, f.1 as nat, f.2 as nat) + seq![' '] + padded_text(f.3 as nat, 2) + seq![':']
        + padded_text(f.4 as nat, 2)
}

/// Appends the date `MM/DD/YYYY` of `t` to `out`.
fn push_date(out: &mut String, t: &UtcMinute)
    ensures
        final(out)@ == old(out)@ + date_text(t.year as int, t.month as nat, t.day as nat),
{
    proof { reveal_strlit("/"); reveal_strlit("+"); reveal_strlit("-"); }
    push_padded(out, t.month as u64, 2);
    out.append("/");
    push_padded(out, t.day as u64, 2);
    out.append("/");
    if 0 <= t.year && t.year <= 9999 {
        push_padded(out, t.year as u64, 4);
    } else if t.year > 9999 {
        out.append("+");
        push_padded(out, t.year as u64, 4);
    } else {
        out.append("-");
        push_padded(out, (-(t.year as i64)) as u64, 4);
    }
    assert(final(out)@ =~= old(out)@ + date_text(t.year as int, t.month as nat, t.day as nat));
}

/// The date key `MM/DD/YYYY` of an instant.
pub fn date_text_of(t: &UtcMinute) -> (r: String)
    ensures
        r@ == date_text(t.year as int, t.month as nat, t.day as nat),
{
    let mut out = String::new();
    push_date(&mut out, t);
    out
}

/// The key `MM/DD/YYYY HH:MM` of an instant.
pub fn minute_text_of(t: &UtcMinute) -> (r: String)
    ensures
        r@ == minute_key_text(t.fields()),
{
    proof { reveal_strlit(" "); reveal_strlit(":"); }
    let mut out = String::new();
    push_date(&mut out, t);
    out.append(" ");
    push_padded(&mut out, t.hour as u64, 2);
    out.append(":");
    push_padded(&mut out, t.minute as u64, 2);
    assert(out@ =~= minute_key_text(t.fields()));
    out
}

/// The date key of the UTC day on which the RFC 3339 timestamp `end` falls,
/// or `None` where the timestamp cannot be read.
pub fn date_key(end: &str) -> (r: Option<String>)
    ensures
        r is None <==> rfc3339_as_utc(end@) is None,
        r matches Some(k) ==> rfc3339_as_utc(end@) matches Some(f)
            && k@ == date_text(f.0, f.1 as nat, f.2 as nat),
{
    match parse_rfc3339_utc(end) {
        None => None,
        Some(t) => Some(date_text_of(&t)),
    }
}

/// The key of hour `h` of the day `date`: `date`, a space, then the hour
/// as the key format writes it.
pub fn hour_key(date: &str, h: i64) -> (r: String)
    ensures
        r@ == hour_key_text(date@, h as int),
{
    proof { reveal_strlit(" "); reveal_strlit("0"); reveal_strlit(":00"); }
    let mut out = String::from_str(date);
    out.append(" ");
    if h < 10 {
        out.append("0");
    }
    push_int_text(&mut out, h);
    out.append(":00");
    assert(out@ =~= hour_key_text(date@, h as int));
    out
}

/// The key `MM/DD/YYYY HH:MM` of a `%Y-%m-%dT%H:%M:%S` UTC timestamp, or
/// `None` where the timestamp cannot be read.
pub fn minute_key(s: &str) -> (r: Option<String>)
    ensures
        r is None <==> hour_text_as_utc(s@) is None,
        r matches Some(k) ==> hour_text_as_utc(s@) matches Some(f) && k@ == minute_key_text(f),
{
    match parse_hour_text_utc(s) {
        None => None,
        Some(t) => Some(minute_text_of(&t)),
    }
}

} // verus!
