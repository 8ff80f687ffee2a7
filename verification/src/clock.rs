//! The time of a request.

use crate::headers::{is_visible_char, is_visible_text};
use crate::text::{decimal_digit, decimal_of};
use vstd::prelude::*;
use vstd::string::*;

verus! {

/// A moment in UTC.
pub struct MomentView {
    pub year: nat,
    pub month: nat,
    pub day: nat,
    pub hour: nat,
    pub minute: nat,
    pub second: nat,
}

/// `n` in decimal, with zeros in front up to `width` digits.
pub open spec fn padded(n: nat, width: nat) -> Seq<char>
    decreases width,
{
    if width <= 1 {
        decimal_of(n)
    } else {
        padded(n / 10, (width - 1) as nat).push(decimal_digit(n % 10))
    }
}

/// Whether February has a 29th day in a year.
pub open spec fn is_leap_year(year: nat) -> bool {
    year % 4 == 0 && (year % 100 != 0 || year % 400 == 0)
}

/// The number of days of a month.
pub open spec fn days_in(year: nat, month: nat) -> nat {
    if month == 2 {
        if is_leap_year(year) {
            29
        } else {
            28
        }
    } else if month == 4 || month == 6 || month == 9 || month == 11 {
        30
    } else {
        31
    }
}

/// A moment since 1970, on a day that exists.
pub open spec fn is_moment(m: MomentView) -> bool {
    &&& 1970 <= m.year
    &&& 1 <= m.month <= 12
    &&& 1 <= m.day <= days_in(m.year, m.month)
    &&& m.hour < 24
    &&& m.minute < 60
    &&& m.second < 60
}

/// A moment as a request names it: `YYYYMMDDTHHMMSSZ`, with a plus sign in
/// front of a year of more than four digits.
pub open spec fn amz_date_of(m: MomentView) -> Seq<char> {
    (if m.year > 9999 {
        seq!['+']
    } else {
        seq![]
    }) + padded(m.year, 4) + padded(m.month, 2) + padded(m.day, 2) + seq!['T'] + padded(m.hour, 2)
        + padded(m.minute, 2) + padded(m.second, 2) + seq!['Z']
}

/// The time of some moment.
pub open spec fn is_amz_date(s: Seq<char>) -> bool {
    exists|m: MomentView| is_moment(m) && s == #[trigger] amz_date_of(m)
}

/// Calls `chrono::Utc::now` and writes the moment with `DateTime::format`.
/// Trusted, for the one format that is asked for: the text is that of some
/// moment since 1970. Which one is the clock's matter; with a clock set before
/// 1970 the call does not return.
#[verifier::external_body]
fn utc_now(format: &str) -> (text: String)
    requires
        format@ == "%Y%m%dT%H%M%SZ"@,
    ensures
        is_amz_date(text@),
{
    chrono::Utc::now().format(format).to_string()
}

/// The time now, as a request names it.
pub fn amz_date_now() -> (text: String)
    ensures
        is_amz_date(text@),
{
    utc_now("%Y%m%dT%H%M%SZ")
}

/// A decimal number is made of digits, at least one.
proof fn lemma_decimal_of(n: nat)
    ensures
        decimal_of(n).len() >= 1,
        is_visible_text(decimal_of(n)),
    decreases n,
{
    if n >= 10 {
        lemma_decimal_of(n / 10);
    }
}

/// A padded number is made of digits, at least as many as asked for.
proof fn lemma_padded(n: nat, width: nat)
    ensures
        padded(n, width).len() >= width,
        is_visible_text(padded(n, width)),
    decreases width,
{
    if width <= 1 {
        lemma_decimal_of(n);
    } else {
        lemma_padded(n / 10, (width - 1) as nat);
    }
}

/// The time of a request can stand in a header, and holds a day.
pub proof fn lemma_amz_date_is_visible(s: Seq<char>)
    requires
        is_amz_date(s),
    ensures
        is_visible_text(s),
        s.len() >= 16,
{
    let m = choose|m: MomentView| is_moment(m) && s == #[trigger] amz_date_of(m);
    lemma_padded(m.year, 4);
    lemma_padded(m.month, 2);
    lemma_padded(m.day, 2);
    lemma_padded(m.hour, 2);
    lemma_padded(m.minute, 2);
    lemma_padded(m.second, 2);
    assert forall|i: int| 0 <= i < s.len() implies is_visible_char(#[trigger] s[i]) by {}
}

} // verus!
