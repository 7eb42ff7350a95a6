//! Calendar values: the chrono parsers the application relies on, and the
//! plain-integer model of dates, clock times and local timestamps.

use vstd::prelude::*;
use chrono::{Datelike, Timelike};
use crate::text::{dec, pad2, push_dec_padded, push_pad2, string_of, zero_pad};

verus! {

/// What `chrono::NaiveDate::parse_from_str(s, "%Y-%m-%d")` yields for `s`, as
/// (year, month, day), or `None` when chrono rejects the text.
pub uninterp spec fn chrono_ymd(s: Seq<char>) -> Option<(i32, u32, u32)>;

/// What `chrono::NaiveTime::parse_from_str(s, "%H:%M")` yields for `s`, as
/// (hour, minute), or `None` when chrono rejects the text.
pub uninterp spec fn chrono_hm(s: Seq<char>) -> Option<(u32, u32)>;

/// What `chrono::NaiveDateTime::parse_from_str(s, "%Y-%m-%dT%H:%M:%S")` yields for `s`,
/// as seconds since 1970-01-01T00:00:00 of the same naive clock, or `None` when chrono
/// rejects the text.
pub uninterp spec fn chrono_stamp(s: Seq<char>) -> Option<i64>;

/// Largest magnitude of a timestamp that chrono's date range allows (years -262143..=262142).
pub const STAMP_LIMIT: i64 = 8796093022208;

/// A timestamp that the calendar helpers here can take apart.
pub open spec fn stamp_ok(t: int) -> bool {
    -STAMP_LIMIT < t < STAMP_LIMIT
}

/// A local timestamp inside chrono's date range (years -262143..=262142).
pub open spec fn in_chrono_range(t: int) -> bool {
    -8400000000000 <= t <= 8400000000000
}

/// Calls `chrono::NaiveDate::parse_from_str(s, "%Y-%m-%d")` and reads the date's year,
/// month and day. Trusted: the result is `chrono_ymd(s@)`, and a parsed date has a month in
/// 1..=12, a day in 1..=31 and a year in chrono's range -262143..=262142.
#[verifier::external_body]
pub fn parse_ymd(s: &str) -> (r: Option<(i32, u32, u32)>)
    ensures
        r == chrono_ymd(s@),
        r matches Some((y, m, d)) ==> 1 <= m <= 12 && 1 <= d <= 31 && -262143 <= y <= 262142,
{
    chrono::NaiveDate::parse_from_str(s, "%Y-%m-%d").ok().map(|d| (d.year(), d.month(), d.day()))
}

/// "HH:MM" of an hour and a minute, both zero-padded to two digits (chrono's `%H:%M`).
pub open spec fn hm_text(h: u32, m: u32) -> Seq<char> {
    pad2(h as nat) + seq![':'] + pad2(m as nat)
}

/// Calls `chrono::NaiveTime::parse_from_str(s, "%H:%M")` and reads the time's hour and
/// minute. Trusted: the result is `chrono_hm(s@)`; a parsed time has an hour below 24 and
/// a minute below 60; and the zero-padded "HH:MM" text of a clock time reads back as that
/// time.
#[verifier::external_body]
pub fn parse_hm(s: &str) -> (r: Option<(u32, u32)>)
    ensures
        r == chrono_hm(s@),
        r matches Some((h, m)) ==> h < 24 && m < 60,
        forall|h: u32, m: u32|
            #![trigger hm_text(h, m)]
            h < 24 && m < 60 && s@ == hm_text(h, m) ==> r == Some((h, m)),
{
    chrono::NaiveTime::parse_from_str(s, "%H:%M").ok().map(|t| (t.hour(), t.minute()))
}

/// Calls `chrono::NaiveDateTime::parse_from_str(s, "%Y-%m-%dT%H:%M:%S")` and reads the
/// value's timestamp on the naive clock. Trusted: the result is `chrono_stamp(s@)`, and it lies
/// inside chrono's date range.
#[verifier::external_body]
pub fn parse_stamp(s: &str) -> (r: Option<i64>)
    ensures
        r == chrono_stamp(s@),
        r matches Some(t) ==> in_chrono_range(t as int),
{
    chrono::NaiveDateTime::parse_from_str(s, "%Y-%m-%dT%H:%M:%S").ok().map(|t| t.and_utc().timestamp())
}

/// The day number of a timestamp (days since 1970-01-01, rounded down).
pub open spec fn day_of(t: int) -> int {
    t / 86400
}

/// Seconds since midnight of a timestamp.
pub open spec fn secs_of_day(t: int) -> int {
    t % 86400
}

/// The hour of day of a timestamp.
pub open spec fn hour_of(t: int) -> int {
    secs_of_day(t) / 3600
}

/// The minute of the hour of a timestamp.
pub open spec fn minute_of(t: int) -> int {
    (secs_of_day(t) % 3600) / 60
}

pub fn day_number(t: i64) -> (d: i64)
    requires
        stamp_ok(t as int),
    ensures
        d == day_of(t as int),
{
    let shifted: u64 = (t + 8796093091200i64) as u64;
    let d = (shifted / 86400) as i64 - 101806633;
    assert(8796093091200 == 101806633 * 86400);
    assert(d == day_of(t as int)) by (nonlinear_arith)
        requires
            shifted == t + 101806633 * 86400,
            shifted >= 0,
            d == shifted / 86400 - 101806633,
    {
    }
    d
}

pub fn seconds_of_day(t: i64) -> (s: u32)
    requires
        stamp_ok(t as int),
    ensures
        s == secs_of_day(t as int),
        s < 86400,
{
    let shifted: u64 = (t + 8796093091200i64) as u64;
    let s = (shifted % 86400) as u32;
    assert(s == secs_of_day(t as int)) by (nonlinear_arith)
        requires
            shifted == t + 101806633 * 86400,
            shifted >= 0,
            s == shifted % 86400,
    {
    }
    s
}

/// "HH:MM" of a timestamp, as chrono's `format("%H:%M")` writes it.
pub open spec fn hhmm(t: int) -> Seq<char> {
    pad2(hour_of(t) as nat) + seq![':'] + pad2(minute_of(t) as nat)
}

pub fn format_hhmm(t: i64) -> (s: String)
    requires
        stamp_ok(t as int),
    ensures
        s@ == hhmm(t as int),
{
    let sod = seconds_of_day(t);
    let mut v: Vec<char> = Vec::new();
    push_pad2(&mut v, (sod / 3600) as u64);
    v.push(':');
    push_pad2(&mut v, ((sod % 3600) / 60) as u64);
    string_of(&v)
}

/// A year as chrono's `%Y` writes it: four digits for 0..=9999, otherwise a sign and at
/// least four digits.
pub open spec fn year_text(y: int) -> Seq<char> {
    if 0 <= y <= 9999 {
        zero_pad(dec(y as nat), 4)
    } else if y > 9999 {
        seq!['+'] + zero_pad(dec(y as nat), 4)
    } else {
        seq!['-'] + zero_pad(dec((-y) as nat), 4)
    }
}

/// A date as chrono's `%d.%m.%Y` writes it.
pub open spec fn dmy_text(y: i32, m: u32, d: u32) -> Seq<char> {
    pad2(d as nat) + seq!['.'] + pad2(m as nat) + seq!['.'] + year_text(y as int)
}

/// A month as chrono's `%m/%Y` writes it.
pub open spec fn month_text(y: i32, m: u32) -> Seq<char> {
    pad2(m as nat) + seq!['/'] + year_text(y as int)
}

pub fn push_year(out: &mut Vec<char>, y: i32)
    ensures
        final(out)@ == old(out)@ + year_text(y as int),
{
    let ghost start = out@;
    if 0 <= y && y <= 9999 {
        push_dec_padded(out, y as u64, 4);
    } else if y > 9999 {
        out.push('+');
        push_dec_padded(out, y as u64, 4);
        assert(out@ =~= start + year_text(y as int));
    } else {
        out.push('-');
        let a: u64 = (-(y as i64)) as u64;
        push_dec_padded(out, a, 4);
        assert(out@ =~= start + year_text(y as int));
    }
}

pub fn push_dmy(out: &mut Vec<char>, y: i32, m: u32, d: u32)
    ensures
        final(out)@ == old(out)@ + dmy_text(y, m, d),
{
    let ghost start = out@;
    push_pad2(out, d as u64);
    out.push('.');
    push_pad2(out, m as u64);
    out.push('.');
    push_year(out, y);
    assert(out@ =~= start + dmy_text(y, m, d));
}

pub fn push_month(out: &mut Vec<char>, y: i32, m: u32)
    ensures
        final(out)@ == old(out)@ + month_text(y, m),
{
    let ghost start = out@;
    push_pad2(out, m as u64);
    out.push('/');
    push_year(out, y);
    assert(out@ =~= start + month_text(y, m));
}

} // verus!
