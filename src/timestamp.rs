use chrono::{Datelike, Timelike};
use vstd::prelude::*;
use vstd::string::StringExecFns;

use crate::amount::{digit_char, digit_str};

verus! {

/// The pattern of a creation date-time: `2024-03-01T09:30:00`.
pub const TIMESTAMP_FORMAT: &'static str = "%Y-%m-%dT%H:%M:%S";

/// A creation date-time, without offset, as its calendar fields.
#[derive(Clone, Copy, Debug, PartialEq, Eq, Structural)]
pub struct Timestamp {
    pub year: i32,
    pub month: u32,
    pub day: u32,
    pub hour: u32,
    pub minute: u32,
    pub second: u32,
}

/// The decimal digits of `v`, with leading zeros up to `w` digits.
pub open spec fn digits_min(v: nat, w: nat) -> Seq<char>
    decreases v + w,
{
    if w <= 1 && v < 10 {
        seq![digit_char(v)]
    } else {
        digits_min(v / 10, if w > 0 { (w - 1) as nat } else { 0 }).push(digit_char(v % 10))
    }
}

/// A year as `%Y` writes it: four digits or more, with a sign outside
/// `0..=9999`.
pub open spec fn year_text(y: int) -> Seq<char> {
    if 0 <= y <= 9999 {
        digits_min(y as nat, 4)
    } else if y < 0 {
        seq!['-'] + digits_min((-y) as nat, 4)
    } else {
        seq!['+'] + digits_min(y as nat, 4)
    }
}

/// The text of a date-time in `TIMESTAMP_FORMAT`.
pub open spec fn timestamp_text(t: Timestamp) -> Seq<char> {
    year_text(t.year as int) + seq!['-'] + digits_min(t.month as nat, 2) + seq!['-']
        + digits_min(t.day as nat, 2) + seq!['T'] + digits_min(t.hour as nat, 2) + seq![':']
        + digits_min(t.minute as nat, 2) + seq![':'] + digits_min(t.second as nat, 2)
}

/// What `chrono::NaiveDateTime::parse_from_str(s, pattern)` yields, as year,
/// month, day, hour, minute and second.
pub uninterp spec fn parsed_date_time(s: Seq<char>, pattern: Seq<char>) -> Option<
    (int, int, int, int, int, int),
>;

/// Relies on `chrono::NaiveDateTime::parse_from_str`, whose result depends on
/// the text and the pattern alone, and on chrono's `Datelike` and `Timelike`
/// accessors, which give a month in 1..=12, a day in 1..=31, an hour in 0..=23
/// and a minute and second in 0..=59.
#[verifier::external_body]
fn parse_date_time(s: &str, pattern: &str) -> (r: Option<(i32, u32, u32, u32, u32, u32)>)
    ensures
        r is None <==> parsed_date_time(s@, pattern@) is None,
        r matches Some(t) ==> parsed_date_time(s@, pattern@) == Some(
            (t.0 as int, t.1 as int, t.2 as int, t.3 as int, t.4 as int, t.5 as int),
        ) && 1 <= t.1 <= 12 && 1 <= t.2 <= 31 && t.3 <= 23 && t.4 <= 59 && t.5 <= 59,
{
    chrono::NaiveDateTime::parse_from_str(s, pattern).ok().map(
        |d| (d.year(), d.month(), d.day(), d.hour(), d.minute(), d.second()),
    )
}

fn write_digits_min(out: &mut String, v: u64, w: usize)
    ensures
        final(out)@ == old(out)@ + digits_min(v as nat, w as nat),
    decreases v + w,
{
    if w <= 1 && v < 10 {
        out.append(digit_str(v as u128));
    } else {
        let next_w: usize = if w > 0 { w - 1 } else { 0 };
        write_digits_min(out, v / 10, next_w);
        out.append(digit_str((v % 10) as u128));
    }
    assert(final(out)@ =~= old(out)@ + digits_min(v as nat, w as nat));
}

fn write_char_str(out: &mut String, s: &'static str, c: Ghost<char>)
    requires
        s@ =~= seq![c@],
    ensures
        final(out)@ == old(out)@ + seq![c@],
{
    out.append(s);
}

impl Timestamp {
    /// Reads a date-time written in `TIMESTAMP_FORMAT`; `None` where chrono
    /// does not accept the text.
    pub fn parse(s: &str) -> (r: Option<Timestamp>)
        ensures
            r is None <==> parsed_date_time(s@, TIMESTAMP_FORMAT@) is None,
            r matches Some(t) ==> parsed_date_time(s@, TIMESTAMP_FORMAT@) == Some(
                (
                    t.year as int,
                    t.month as int,
                    t.day as int,
                    t.hour as int,
                    t.minute as int,
                    t.second as int,
                ),
            ),
    {
        match parse_date_time(s, TIMESTAMP_FORMAT) {
            None => None,
            Some((year, month, day, hour, minute, second)) => Some(
                Timestamp { year, month, day, hour, minute, second },
            ),
        }
    }

    /// The date-time written in `TIMESTAMP_FORMAT`.
    pub fn format(&self) -> (r: String)
        ensures
            r@ == timestamp_text(*self),
    {
        proof {
            reveal_strlit("-");
            reveal_strlit("+");
            reveal_strlit("T");
            reveal_strlit(":");
        }
        let mut out = String::new();
        if 0 <= self.year && self.year <= 9999 {
            write_digits_min(&mut out, self.year as u64, 4);
        } else if self.year < 0 {
            write_char_str(&mut out, "-", Ghost('-'));
            write_digits_min(&mut out, (-(self.year as i64)) as u64, 4);
        } else {
            write_char_str(&mut out, "+", Ghost('+'));
            write_digits_min(&mut out, self.year as u64, 4);
        }
        write_char_str(&mut out, "-", Ghost('-'));
        write_digits_min(&mut out, self.month as u64, 2);
        write_char_str(&mut out, "-", Ghost('-'));
        write_digits_min(&mut out, self.day as u64, 2);
        write_char_str(&mut out, "T", Ghost('T'));
        write_digits_min(&mut out, self.hour as u64, 2);
        write_char_str(&mut out, ":", Ghost(':'));
        write_digits_min(&mut out, self.minute as u64, 2);
        write_char_str(&mut out, ":", Ghost(':'));
        write_digits_min(&mut out, self.second as u64, 2);
        assert(out@ =~= timestamp_text(*self));
        out
    }
}

} // verus!
