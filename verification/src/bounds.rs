//! The bounds of a scan: the range of a period, tightened by the cursors of the
//! caller.
//!
//! The scan runs from the newest record down. The cursor to continue after is
//! therefore a new upper end, the one to stop before a new lower end, and either is
//! itself left out. A cursor never widens the range.
use crate::order::{
    lemma_lex_le_trans, lex_le, lex_lt, text_le, text_lt,
};
use crate::range::KeyRange;
use vstd::prelude::*;

verus! {

/// The two ends of a scan; an open end is itself left out.
#[derive(Debug)]
pub struct ScanBounds {
    pub lower: String,
    pub lower_open: bool,
    pub upper: String,
    pub upper_open: bool,
}

/// The two ends of a scan, as texts.
pub ghost struct Bounds {
    pub lower: Seq<char>,
    pub lower_open: bool,
    pub upper: Seq<char>,
    pub upper_open: bool,
}

impl Bounds {
    /// Whether `key` lies between the two ends.
    pub open spec fn holds(self, key: Seq<char>) -> bool {
        &&& if self.lower_open {
            lex_lt(self.lower, key)
        } else {
            lex_le(self.lower, key)
        }
        &&& if self.upper_open {
            lex_lt(key, self.upper)
        } else {
            lex_le(key, self.upper)
        }
    }
}

/// The text of a string that may be absent.
pub open spec fn text_of(s: Option<String>) -> Option<Seq<char>> {
    match s {
        Some(x) => Some(x@),
        None => None,
    }
}

/// The lower end after the cursor to stop before has been applied: the cursor's key,
/// left out, where there is one at or above the range's lower end.
pub open spec fn clamped_lower(lower: Seq<char>, before: Option<Seq<char>>) -> (Seq<char>, bool) {
    match before {
        Some(k) if lex_le(lower, k) => (k, true),
        _ => (lower, false),
    }
}

/// The upper end after the cursor to continue after has been applied: the cursor's
/// key, left out, where there is one at or below the range's upper end.
pub open spec fn clamped_upper(upper: Seq<char>, after: Option<Seq<char>>) -> (Seq<char>, bool) {
    match after {
        Some(k) if lex_le(k, upper) => (k, true),
        _ => (upper, false),
    }
}

/// The bounds of the scan for a range and two cursors.
pub open spec fn clamped(
    lower: Seq<char>,
    upper: Seq<char>,
    after: Option<Seq<char>>,
    before: Option<Seq<char>>,
) -> Bounds {
    Bounds {
        lower: clamped_lower(lower, before).0,
        lower_open: clamped_lower(lower, before).1,
        upper: clamped_upper(upper, after).0,
        upper_open: clamped_upper(upper, after).1,
    }
}

impl ScanBounds {
    /// The two ends as texts.
    pub open spec fn view(&self) -> Bounds {
        Bounds {
            lower: self.lower@,
            lower_open: self.lower_open,
            upper: self.upper@,
            upper_open: self.upper_open,
        }
    }

    /// Decides whether `key` lies between the two ends.
    pub fn holds(&self, key: &str) -> (r: bool)
        ensures
            r == self@.holds(key@),
    {
        let above = if self.lower_open {
            text_lt(self.lower.as_str(), key)
        } else {
            text_le(self.lower.as_str(), key)
        };
        let below = if self.upper_open {
            text_lt(key, self.upper.as_str())
        } else {
            text_le(key, self.upper.as_str())
        };
        above && below
    }
}

/// Tightens a range by the caller's cursors.
pub fn clamp_range(range: KeyRange, after: Option<String>, before: Option<String>) -> (b:
    ScanBounds)
    ensures
        b@ == clamped(range.lower@, range.upper@, text_of(after), text_of(before)),
{
    let KeyRange { lower, upper } = range;
    let (upper, upper_open) = match after {
        Some(k) => if text_le(k.as_str(), upper.as_str()) {
            (k, true)
        } else {
            (upper, false)
        },
        None => (upper, false),
    };
    let (lower, lower_open) = match before {
        Some(k) => if text_le(lower.as_str(), k.as_str()) {
            (k, true)
        } else {
            (lower, false)
        },
        None => (lower, false),
    };
    ScanBounds { lower, lower_open, upper, upper_open }
}

/// Cursors only shrink a range: a key within the clamped bounds is within the range.
pub proof fn lemma_clamp_never_widens(
    lower: Seq<char>,
    upper: Seq<char>,
    after: Option<Seq<char>>,
    before: Option<Seq<char>>,
    key: Seq<char>,
)
    requires
        clamped(lower, upper, after, before).holds(key),
    ensures
        lex_le(lower, key),
        lex_le(key, upper),
{
    let b = clamped(lower, upper, after, before);
    if b.upper_open {
        lemma_lex_le_trans(key, b.upper, upper);
    }
    if b.lower_open {
        lemma_lex_le_trans(lower, b.lower, key);
    }
}

/// Without cursors the bounds are the range, both ends included.
pub proof fn lemma_clamp_without_cursors(lower: Seq<char>, upper: Seq<char>, key: Seq<char>)
    ensures
        clamped(lower, upper, None, None).holds(key) == (lex_le(lower, key) && lex_le(key, upper)),
{
}

} // verus!
