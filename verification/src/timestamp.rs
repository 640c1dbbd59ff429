//! Points in time to the second, in UTC, and their text in sort keys.
//!
//! A timestamp is written as `YYYY-MM-DDTHH:MM:SS+00:00`: every number has a fixed
//! width and is padded with zeros, so that the order of the texts is the order of the
//! instants.
use crate::order::{lemma_lex_le_common_prefix, lex_le, lex_lt};
use chrono::{Datelike, TimeZone, Timelike, Utc};
use vstd::prelude::*;
use vstd::string::StringExecFns;

verus! {

/// A calendar date and a time of day in UTC, as plain numbers.
#[derive(Clone, Copy, Debug, PartialEq, Eq, Structural)]
pub struct Timestamp {
    pub year: i32,
    pub month: u32,
    pub day: u32,
    pub hour: u32,
    pub minute: u32,
    pub second: u32,
}

/// Whether `year` has a 29th of February in the proleptic Gregorian calendar.
pub open spec fn is_leap_year(year: int) -> bool {
    year % 4 == 0 && (year % 100 != 0 || year % 400 == 0)
}

/// The number of days of `month` in `year`; 0 where `month` is no month.
pub open spec fn days_in_month(year: int, month: int) -> int {
    if month == 2 {
        if is_leap_year(year) {
            29
        } else {
            28
        }
    } else if month == 4 || month == 6 || month == 9 || month == 11 {
        30
    } else if 1 <= month <= 12 {
        31
    } else {
        0
    }
}

/// Whether the three numbers name a day of the calendar in the years 0 to 9999.
pub open spec fn is_calendar_day(year: int, month: int, day: int) -> bool {
    0 <= year <= 9999 && 1 <= month <= 12 && 1 <= day <= days_in_month(year, month)
}

/// The character of a decimal digit.
pub open spec fn digit_char(d: int) -> char {
    if d == 0 {
        '0'
    } else if d == 1 {
        '1'
    } else if d == 2 {
        '2'
    } else if d == 3 {
        '3'
    } else if d == 4 {
        '4'
    } else if d == 5 {
        '5'
    } else if d == 6 {
        '6'
    } else if d == 7 {
        '7'
    } else if d == 8 {
        '8'
    } else {
        '9'
    }
}

/// A number below 100 in two digits.
pub open spec fn two_digits(n: int) -> Seq<char> {
    seq![digit_char(n / 10), digit_char(n % 10)]
}

/// A number below 10000 in four digits.
pub open spec fn four_digits(n: int) -> Seq<char> {
    two_digits(n / 100) + two_digits(n % 100)
}

/// The text `HH:MM:SS+00:00` of a time of day, followed by `rest`.
pub open spec fn time_text_then(hour: int, minute: int, second: int, rest: Seq<char>) -> Seq<
    char,
> {
    two_digits(hour) + (seq![':'] + (two_digits(minute) + (seq![':'] + (two_digits(second) + (
    seq!['+', '0', '0', ':', '0', '0'] + rest)))))
}

/// The text `YYYY-MM-DDTHH:MM:SS+00:00` of a point in time, followed by `rest`.
pub open spec fn instant_text_then(t: Timestamp, rest: Seq<char>) -> Seq<char> {
    four_digits(t.year as int) + (seq!['-'] + (two_digits(t.month as int) + (seq!['-'] + (
    two_digits(t.day as int) + (seq!['T'] + time_text_then(
        t.hour as int,
        t.minute as int,
        t.second as int,
        rest,
    ))))))
}

impl Timestamp {
    /// Whether this is a day of the calendar, in the years 0 to 9999, and a time of
    /// that day.
    pub open spec fn is_valid(&self) -> bool {
        &&& is_calendar_day(self.year as int, self.month as int, self.day as int)
        &&& self.hour <= 23
        &&& self.minute <= 59
        &&& self.second <= 59
    }

    /// The text `YYYY-MM-DDTHH:MM:SS+00:00`.
    pub open spec fn text(&self) -> Seq<char> {
        instant_text_then(*self, Seq::<char>::empty())
    }

    /// Whether this instant is before `other`.
    pub open spec fn is_before(&self, other: Timestamp) -> bool {
        let a = *self;
        let b = other;
        a.year < b.year || (a.year == b.year && (a.month < b.month || (a.month == b.month && (a.day
            < b.day || (a.day == b.day && (a.hour < b.hour || (a.hour == b.hour && (a.minute
            < b.minute || (a.minute == b.minute && a.second < b.second)))))))))
    }

    /// The text of this instant, or `None` where it is not valid.
    pub fn to_text(&self) -> (r: Option<String>)
        ensures
            r is Some <==> self.is_valid(),
            r matches Some(s) ==> s@ == self.text(),
    {
        if self.year < 0 || self.year > 9999 {
            return None;
        }
        utc_rfc3339(self.year, self.month, self.day, self.hour, self.minute, self.second)
    }
}

/// Reads the system's clock, to the second. Wraps `chrono::Utc::now` and the accessors
/// of `chrono::Datelike` and `chrono::Timelike`. The clock may say anything, so nothing
/// is claimed of the reading.
#[verifier::external_body]
pub(crate) fn utc_now() -> Timestamp {
    let t = Utc::now();
    Timestamp {
        year: t.year(),
        month: t.month(),
        day: t.day(),
        hour: t.hour(),
        minute: t.minute(),
        second: t.second(),
    }
}

/// Formats an instant of UTC. Wraps `chrono::TimeZone::with_ymd_and_hms` on `Utc` and
/// `chrono::DateTime::to_rfc3339`. The first yields an instant exactly for the days of
/// the calendar with an hour below 24 and minute and second below 60; the second
/// writes a year from 0 to 9999 in four digits, month, day, hour, minute and second
/// in two digits each, no fraction for a whole second, and the offset as `+00:00`.
#[verifier::external_body]
fn utc_rfc3339(year: i32, month: u32, day: u32, hour: u32, minute: u32, second: u32) -> (r: Option<
    String,
>)
    requires
        0 <= year <= 9999,
    ensures
        r is Some <==> (Timestamp { year, month, day, hour, minute, second }).is_valid(),
        r matches Some(s) ==> s@ == (Timestamp { year, month, day, hour, minute, second }).text(),
{
    let instant = Utc.with_ymd_and_hms(year, month, day, hour, minute, second).single()?;
    Some(instant.to_rfc3339())
}

/// Digits are ordered as their characters are.
pub proof fn lemma_digit_order(a: int, b: int)
    requires
        0 <= a <= 9,
        0 <= b <= 9,
    ensures
        ((digit_char(a) as int) < (digit_char(b) as int)) == (a < b),
        (digit_char(a) == digit_char(b)) == (a == b),
{
}

/// Two texts that begin with the same character compare as what follows it.
pub proof fn lemma_same_head_le(c: char, r1: Seq<char>, r2: Seq<char>)
    ensures
        lex_le(seq![c] + r1, seq![c] + r2) == lex_le(r1, r2),
{
    lemma_lex_le_common_prefix(seq![c], r1, r2);
}

/// Two texts that begin with two-digit numbers compare by the numbers first, and by
/// what follows where the numbers are the same.
pub proof fn lemma_two_digits_le(x: int, y: int, r1: Seq<char>, r2: Seq<char>)
    requires
        0 <= x < 100,
        0 <= y < 100,
    ensures
        lex_le(two_digits(x) + r1, two_digits(y) + r2) == (x < y || (x == y && lex_le(r1, r2))),
{
    let a = two_digits(x) + r1;
    let b = two_digits(y) + r2;
    let a1 = seq![digit_char(x % 10)] + r1;
    let b1 = seq![digit_char(y % 10)] + r2;
    assert(a.drop_first() =~= a1);
    assert(b.drop_first() =~= b1);
    assert(a1.drop_first() =~= r1);
    assert(b1.drop_first() =~= r2);
    assert(a[0] == digit_char(x / 10) && b[0] == digit_char(y / 10));
    assert(a1[0] == digit_char(x % 10) && b1[0] == digit_char(y % 10));
    lemma_digit_order(x / 10, y / 10);
    lemma_digit_order(x % 10, y % 10);
    assert(lex_le(a1, b1) == (x % 10 < y % 10 || (x % 10 == y % 10 && lex_le(r1, r2))));
    assert(lex_le(a, b) == (x / 10 < y / 10 || (x / 10 == y / 10 && lex_le(a1, b1))));
}

/// Two texts that begin with four-digit numbers compare by the numbers first, and by
/// what follows where the numbers are the same.
pub proof fn lemma_four_digits_le(x: int, y: int, r1: Seq<char>, r2: Seq<char>)
    requires
        0 <= x < 10000,
        0 <= y < 10000,
    ensures
        lex_le(four_digits(x) + r1, four_digits(y) + r2) == (x < y || (x == y && lex_le(r1, r2))),
{
    let a1 = two_digits(x % 100) + r1;
    let b1 = two_digits(y % 100) + r2;
    assert(four_digits(x) + r1 =~= two_digits(x / 100) + a1);
    assert(four_digits(y) + r2 =~= two_digits(y / 100) + b1);
    lemma_two_digits_le(x / 100, y / 100, a1, b1);
    lemma_two_digits_le(x % 100, y % 100, r1, r2);
}

/// Two times of day, each followed by more text, compare by the times first, and by
/// what follows where the times are the same.
pub proof fn lemma_time_text_le(
    h1: int,
    m1: int,
    s1: int,
    r1: Seq<char>,
    h2: int,
    m2: int,
    s2: int,
    r2: Seq<char>,
)
    requires
        0 <= h1 < 100 && 0 <= m1 < 100 && 0 <= s1 < 100,
        0 <= h2 < 100 && 0 <= m2 < 100 && 0 <= s2 < 100,
    ensures
        lex_le(time_text_then(h1, m1, s1, r1), time_text_then(h2, m2, s2, r2)) == (h1 < h2 || (h1
            == h2 && (m1 < m2 || (m1 == m2 && (s1 < s2 || (s1 == s2 && lex_le(r1, r2))))))),
{
    let zone = seq!['+', '0', '0', ':', '0', '0'];
    let a3 = zone + r1;
    let b3 = zone + r2;
    let a2 = two_digits(s1) + a3;
    let b2 = two_digits(s2) + b3;
    let a1 = two_digits(m1) + (seq![':'] + a2);
    let b1 = two_digits(m2) + (seq![':'] + b2);
    lemma_lex_le_common_prefix(zone, r1, r2);
    lemma_two_digits_le(s1, s2, a3, b3);
    lemma_same_head_le(':', a2, b2);
    lemma_two_digits_le(m1, m2, seq![':'] + a2, seq![':'] + b2);
    lemma_same_head_le(':', a1, b1);
    lemma_two_digits_le(h1, h2, seq![':'] + a1, seq![':'] + b1);
}

/// Two instants, each followed by more text, compare as the instants do, and by what
/// follows where the instants are the same.
pub proof fn lemma_instant_text_le(a: Timestamp, r1: Seq<char>, b: Timestamp, r2: Seq<char>)
    requires
        a.is_valid(),
        b.is_valid(),
    ensures
        lex_le(instant_text_then(a, r1), instant_text_then(b, r2)) == (a.is_before(b) || (a == b
            && lex_le(r1, r2))),
{
    let ta = time_text_then(a.hour as int, a.minute as int, a.second as int, r1);
    let tb = time_text_then(b.hour as int, b.minute as int, b.second as int, r2);
    let da = two_digits(a.day as int) + (seq!['T'] + ta);
    let db = two_digits(b.day as int) + (seq!['T'] + tb);
    let ma = two_digits(a.month as int) + (seq!['-'] + da);
    let mb = two_digits(b.month as int) + (seq!['-'] + db);
    lemma_time_text_le(
        a.hour as int,
        a.minute as int,
        a.second as int,
        r1,
        b.hour as int,
        b.minute as int,
        b.second as int,
        r2,
    );
    lemma_same_head_le('T', ta, tb);
    lemma_two_digits_le(a.day as int, b.day as int, seq!['T'] + ta, seq!['T'] + tb);
    lemma_same_head_le('-', da, db);
    lemma_two_digits_le(a.month as int, b.month as int, seq!['-'] + da, seq!['-'] + db);
    lemma_same_head_le('-', ma, mb);
    lemma_four_digits_le(a.year as int, b.year as int, seq!['-'] + ma, seq!['-'] + mb);
}

/// The texts of two valid instants are ordered as the instants are.
pub proof fn lemma_text_order_is_time_order(a: Timestamp, b: Timestamp)
    requires
        a.is_valid(),
        b.is_valid(),
    ensures
        lex_lt(a.text(), b.text()) == a.is_before(b),
        (a.text() == b.text()) == (a == b),
{
    let e = Seq::<char>::empty();
    lemma_instant_text_le(a, e, b, e);
    lemma_instant_text_le(b, e, a, e);
    if a.text() == b.text() {
        crate::order::lemma_lex_le_refl(a.text());
    }
}

/// The instant's text followed by `rest` is the text with `rest` appended.
pub proof fn lemma_text_then(t: Timestamp, rest: Seq<char>)
    ensures
        instant_text_then(t, rest) == t.text() + rest,
{
    assert(instant_text_then(t, rest) =~= t.text() + rest);
}

/// The one-character text of a decimal digit.
pub fn digit_str(d: u32) -> (s: &'static str)
    requires
        d <= 9,
    ensures
        s@ == seq![digit_char(d as int)],
{
    proof {
        reveal_strlit("0");
        reveal_strlit("1");
        reveal_strlit("2");
        reveal_strlit("3");
        reveal_strlit("4");
        reveal_strlit("5");
        reveal_strlit("6");
        reveal_strlit("7");
        reveal_strlit("8");
        reveal_strlit("9");
    }
    let s = if d == 0 {
        "0"
    } else if d == 1 {
        "1"
    } else if d == 2 {
        "2"
    } else if d == 3 {
        "3"
    } else if d == 4 {
        "4"
    } else if d == 5 {
        "5"
    } else if d == 6 {
        "6"
    } else if d == 7 {
        "7"
    } else if d == 8 {
        "8"
    } else {
        "9"
    };
    assert(s@ =~= seq![digit_char(d as int)]);
    s
}

/// Appends a number below 100 in two digits.
pub fn push_two_digits(s: &mut String, n: u32)
    requires
        n < 100,
    ensures
        final(s)@ == old(s)@ + two_digits(n as int),
{
    s.append(digit_str(n / 10));
    s.append(digit_str(n % 10));
    assert(s@ =~= old(s)@ + two_digits(n as int));
}

/// Appends a number below 10000 in four digits.
pub fn push_four_digits(s: &mut String, n: u32)
    requires
        n < 10000,
    ensures
        final(s)@ == old(s)@ + four_digits(n as int),
{
    push_two_digits(s, n / 100);
    push_two_digits(s, n % 100);
    assert(s@ =~= old(s)@ + four_digits(n as int));
}

} // verus!
