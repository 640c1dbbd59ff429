//! From a time filter to the range of sort keys that holds exactly the transactions
//! of the period the filter names.
use crate::error::QueryError;
use crate::keys::{key_head, sort_key_text, RecordKind};
use crate::order::{lemma_lex_le_common_prefix, lex_le};
use crate::timestamp::{
    days_in_month, four_digits, instant_text_then, is_calendar_day,
    lemma_four_digits_le, lemma_instant_text_le, lemma_same_head_le, lemma_two_digits_le,
    push_four_digits, push_two_digits, time_text_then, two_digits, Timestamp,
};
use vstd::pervasive::unreached;
use vstd::prelude::*;
use vstd::string::StringExecFns;

verus! {

/// What a caller may say about the time of the transactions it wants: a year, a month
/// and a day, each of which may be left out.
#[derive(Clone, Copy, Debug, PartialEq, Eq, Structural)]
pub struct TimeFilter {
    pub year: Option<u32>,
    pub month: Option<u32>,
    pub day: Option<u32>,
}

/// A stretch of time that a filter names.
#[derive(Clone, Copy, Debug, PartialEq, Eq, Structural)]
pub enum Period {
    /// All time before the given instant.
    Until(Timestamp),
    /// One year.
    Year(u32),
    /// One month of a year.
    Month(u32, u32),
    /// One day of a month of a year.
    Day(u32, u32, u32),
}

/// A closed range of sort keys, both ends included.
#[derive(Debug)]
pub struct KeyRange {
    pub lower: String,
    pub upper: String,
}

/// The period that a filter names at the time `now`. A day without a month is a day
/// of the current month, and a month without a year is a month of the current year. A
/// year, month or day that is no such number at all is an `Encoding` error; a day that
/// the month does not have is a `Validation` error.
pub open spec fn resolve(f: TimeFilter, now: Timestamp) -> Result<Period, QueryError> {
    if f.year is None && f.month is None && f.day is None {
        if now.is_valid() {
            Ok(Period::Until(now))
        } else {
            Err(QueryError::Encoding)
        }
    } else {
        let year: int = match f.year {
            Some(y) => y as int,
            None => now.year as int,
        };
        let month: int = match f.month {
            Some(m) => m as int,
            None => now.month as int,
        };
        if !(0 <= year <= 9999) {
            Err(QueryError::Encoding)
        } else {
            match f.day {
                None => match f.month {
                    None => Ok(Period::Year(year as u32)),
                    Some(m) => if 1 <= m <= 12 {
                        Ok(Period::Month(year as u32, m))
                    } else {
                        Err(QueryError::Encoding)
                    },
                },
                Some(d) => if !(1 <= month <= 12) || !(1 <= d <= 31) {
                    Err(QueryError::Encoding)
                } else if d > days_in_month(year, month) {
                    Err(QueryError::Validation)
                } else {
                    Ok(Period::Day(year as u32, month as u32, d))
                },
            }
        }
    }
}

impl Period {
    /// Whether the period is one of the calendar.
    pub open spec fn is_valid(&self) -> bool {
        match *self {
            Period::Until(t) => t.is_valid(),
            Period::Year(y) => y <= 9999,
            Period::Month(y, m) => y <= 9999 && 1 <= m <= 12,
            Period::Day(y, m, d) => is_calendar_day(y as int, m as int, d as int),
        }
    }

    /// Whether the instant `t` lies in the period.
    pub open spec fn covers(&self, t: Timestamp) -> bool {
        match *self {
            Period::Until(end) => t.is_before(end),
            Period::Year(y) => t.year == y,
            Period::Month(y, m) => t.year == y && t.month == m,
            Period::Day(y, m, d) => t.year == y && t.month == m && t.day == d,
        }
    }

    /// The date of the period as far as it goes: `YYYY`, `YYYY-MM` or `YYYY-MM-DD`,
    /// and nothing for all time.
    pub open spec fn date_text(&self) -> Seq<char> {
        match *self {
            Period::Until(_) => Seq::<char>::empty(),
            Period::Year(y) => four_digits(y as int),
            Period::Month(y, m) => four_digits(y as int) + (seq!['-'] + two_digits(m as int)),
            Period::Day(y, m, d) => four_digits(y as int) + (seq!['-'] + (two_digits(m as int) + (
            seq!['-'] + two_digits(d as int)))),
        }
    }

    /// What follows the date in the upper bound: for all time the instant itself, else
    /// a mark above every month, day or hour that can follow.
    pub open spec fn upper_mark(&self) -> Seq<char> {
        match *self {
            Period::Until(end) => end.text(),
            Period::Year(_) => seq!['-', '9', '9', '-', '9', '9'],
            Period::Month(_, _) => seq!['-', '9', '9'],
            Period::Day(_, _, _) => seq!['T', '9', '9'],
        }
    }

    /// The lowest key of the range: the transactions' key head and the date.
    pub open spec fn lower_text(&self) -> Seq<char> {
        key_head(RecordKind::Transaction) + self.date_text()
    }

    /// The highest key of the range: the lower bound and the mark.
    pub open spec fn upper_text(&self) -> Seq<char> {
        self.lower_text() + self.upper_mark()
    }

    /// Whether `key` lies in the period's range, ends included.
    pub open spec fn range_holds(&self, key: Seq<char>) -> bool {
        lex_le(self.lower_text(), key) && lex_le(key, self.upper_text())
    }

    /// The range of sort keys of the period.
    pub fn range(&self) -> (r: KeyRange)
        requires
            self.is_valid(),
        ensures
            r.lower@ == self.lower_text(),
            r.upper@ == self.upper_text(),
    {
        let mut lower = RecordKind::Transaction.head();
        proof {
            reveal_strlit("-");
            reveal_strlit("-99-99");
            reveal_strlit("-99");
            reveal_strlit("T99");
        }
        match *self {
            Period::Until(end) => {
                let mut upper = lower.clone();
                match end.to_text() {
                    Some(text) => {
                        upper.append(text.as_str());
                    },
                    None => {
                        unreached::<()>();
                    },
                }
                assert(lower@ =~= self.lower_text());
                assert(upper@ =~= self.upper_text());
                KeyRange { lower, upper }
            },
            Period::Year(y) => {
                push_four_digits(&mut lower, y);
                let mut upper = lower.clone();
                upper.append("-99-99");
                assert(lower@ =~= self.lower_text());
                assert(upper@ =~= self.upper_text());
                KeyRange { lower, upper }
            },
            Period::Month(y, m) => {
                push_four_digits(&mut lower, y);
                lower.append("-");
                push_two_digits(&mut lower, m);
                let mut upper = lower.clone();
                upper.append("-99");
                assert(lower@ =~= self.lower_text());
                assert(upper@ =~= self.upper_text());
                KeyRange { lower, upper }
            },
            Period::Day(y, m, d) => {
                push_four_digits(&mut lower, y);
                lower.append("-");
                push_two_digits(&mut lower, m);
                lower.append("-");
                push_two_digits(&mut lower, d);
                let mut upper = lower.clone();
                upper.append("T99");
                assert(lower@ =~= self.lower_text());
                assert(upper@ =~= self.upper_text());
                KeyRange { lower, upper }
            },
        }
    }
}

/// The number of days of a month of a year.
pub fn month_length(year: u32, month: u32) -> (n: u32)
    requires
        1 <= month <= 12,
    ensures
        n == days_in_month(year as int, month as int),
{
    if month == 2 {
        if year % 4 == 0 && (year % 100 != 0 || year % 400 == 0) {
            29
        } else {
            28
        }
    } else if month == 4 || month == 6 || month == 9 || month == 11 {
        30
    } else {
        31
    }
}

/// Finds the period that a filter names at the time `now`.
pub fn resolve_period(filter: &TimeFilter, now: &Timestamp) -> (r: Result<Period, QueryError>)
    ensures
        r == resolve(*filter, *now),
        r matches Ok(p) ==> p.is_valid(),
{
    if filter.year.is_none() && filter.month.is_none() && filter.day.is_none() {
        return if now.to_text().is_some() {
            Ok(Period::Until(*now))
        } else {
            Err(QueryError::Encoding)
        };
    }
    let year: u32 = match filter.year {
        Some(y) => {
            if y > 9999 {
                return Err(QueryError::Encoding);
            }
            y
        },
        None => {
            if now.year < 0 || now.year > 9999 {
                return Err(QueryError::Encoding);
            }
            now.year as u32
        },
    };
    match filter.day {
        None => match filter.month {
            None => Ok(Period::Year(year)),
            Some(m) => if 1 <= m && m <= 12 {
                Ok(Period::Month(year, m))
            } else {
                Err(QueryError::Encoding)
            },
        },
        Some(d) => {
            let month: u32 = match filter.month {
                Some(m) => m,
                None => now.month,
            };
            if month < 1 || month > 12 || d < 1 || d > 31 {
                Err(QueryError::Encoding)
            } else if d > month_length(year, month) {
                Err(QueryError::Validation)
            } else {
                Ok(Period::Day(year, month, d))
            }
        },
    }
}

/// Builds the key range for a filter at the time `now`: the range of the period that
/// the filter names, or the error that `resolve` gives.
pub fn build_range(filter: &TimeFilter, now: &Timestamp) -> (r: Result<KeyRange, QueryError>)
    ensures
        match resolve(*filter, *now) {
            Ok(p) => r matches Ok(k) && k.lower@ == p.lower_text() && k.upper@ == p.upper_text(),
            Err(e) => r matches Err(x) && x == e,
        },
{
    match resolve_period(filter, now) {
        Ok(p) => Ok(p.range()),
        Err(e) => Err(e),
    }
}

/// The range of a period holds the key of a transaction exactly when the
/// transaction's instant lies in the period, whatever the key's suffix: every record
/// of the period is in the range, and none of a neighbouring period is.
pub proof fn lemma_range_holds_exactly_the_period(p: Period, t: Timestamp, suffix: Seq<char>)
    requires
        p.is_valid(),
        t.is_valid(),
    ensures
        p.range_holds(sort_key_text(RecordKind::Transaction, t, suffix)) == p.covers(t),
{
    let head = key_head(RecordKind::Transaction);
    let rest = seq!['#'] + suffix;
    let empty = Seq::<char>::empty();
    let body = instant_text_then(t, rest);
    let date = p.date_text();
    let mark = p.upper_mark();
    assert(p.upper_text() =~= head + (date + mark));
    lemma_lex_le_common_prefix(head, date, body);
    lemma_lex_le_common_prefix(head, body, date + mark);
    // What follows the year, the month and the day in the key.
    let time = time_text_then(t.hour as int, t.minute as int, t.second as int, rest);
    let after_day = seq!['T'] + time;
    let after_month = seq!['-'] + (two_digits(t.day as int) + after_day);
    let after_year = seq!['-'] + (two_digits(t.month as int) + after_month);
    assert(body == four_digits(t.year as int) + after_year);
    match p {
        Period::Until(end) => {
            assert(date + mark =~= instant_text_then(end, empty));
            lemma_instant_text_le(t, rest, end, empty);
            assert(!lex_le(rest, empty));
        },
        Period::Year(y) => {
            let above = seq!['9', '9'] + seq!['-', '9', '9'];
            assert(date =~= four_digits(y as int) + empty);
            assert(date + mark =~= four_digits(y as int) + (seq!['-'] + above));
            assert(two_digits(99) =~= seq!['9', '9']);
            lemma_four_digits_le(y as int, t.year as int, empty, after_year);
            lemma_four_digits_le(t.year as int, y as int, after_year, seq!['-'] + above);
            lemma_same_head_le('-', two_digits(t.month as int) + after_month, above);
            lemma_two_digits_le(t.month as int, 99, after_month, seq!['-', '9', '9']);
        },
        Period::Month(y, m) => {
            let above = seq!['9', '9'] + empty;
            let low = seq!['-'] + (two_digits(m as int) + empty);
            let high = seq!['-'] + (two_digits(m as int) + (seq!['-'] + above));
            assert(date =~= four_digits(y as int) + low);
            assert(date + mark =~= four_digits(y as int) + high);
            assert(two_digits(99) =~= seq!['9', '9']);
            lemma_four_digits_le(y as int, t.year as int, low, after_year);
            lemma_four_digits_le(t.year as int, y as int, after_year, high);
            lemma_same_head_le('-', two_digits(m as int) + empty, two_digits(t.month as int) + after_month);
            lemma_same_head_le(
                '-',
                two_digits(t.month as int) + after_month,
                two_digits(m as int) + (seq!['-'] + above),
            );
            lemma_two_digits_le(m as int, t.month as int, empty, after_month);
            lemma_two_digits_le(t.month as int, m as int, after_month, seq!['-'] + above);
            lemma_same_head_le('-', two_digits(t.day as int) + after_day, above);
            lemma_two_digits_le(t.day as int, 99, after_day, empty);
        },
        Period::Day(y, m, d) => {
            let above = seq!['9', '9'] + empty;
            let low_day = seq!['-'] + (two_digits(d as int) + empty);
            let high_day = seq!['-'] + (two_digits(d as int) + (seq!['T'] + above));
            let low = seq!['-'] + (two_digits(m as int) + low_day);
            let high = seq!['-'] + (two_digits(m as int) + high_day);
            assert(date =~= four_digits(y as int) + low);
            assert(date + mark =~= four_digits(y as int) + high);
            assert(two_digits(99) =~= seq!['9', '9']);
            lemma_four_digits_le(y as int, t.year as int, low, after_year);
            lemma_four_digits_le(t.year as int, y as int, after_year, high);
            lemma_same_head_le('-', two_digits(m as int) + low_day, two_digits(t.month as int) + after_month);
            lemma_same_head_le('-', two_digits(t.month as int) + after_month, two_digits(m as int) + high_day);
            lemma_two_digits_le(m as int, t.month as int, low_day, after_month);
            lemma_two_digits_le(t.month as int, m as int, after_month, high_day);
            lemma_same_head_le('-', two_digits(d as int) + empty, two_digits(t.day as int) + after_day);
            lemma_same_head_le(
                '-',
                two_digits(t.day as int) + after_day,
                two_digits(d as int) + (seq!['T'] + above),
            );
            lemma_two_digits_le(d as int, t.day as int, empty, after_day);
            lemma_two_digits_le(t.day as int, d as int, after_day, seq!['T'] + above);
            lemma_same_head_le('T', time, above);
            let after_hour = seq![':'] + (two_digits(t.minute as int) + (seq![':'] + (two_digits(
                t.second as int,
            ) + (seq!['+', '0', '0', ':', '0', '0'] + rest))));
            assert(time == two_digits(t.hour as int) + after_hour);
            lemma_two_digits_le(t.hour as int, 99, after_hour, empty);
        },
    }
}

} // verus!
