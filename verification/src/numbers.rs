//! Whole numbers written in decimal digits, as filters and stored records give them.
use crate::order::chars_of;
use crate::timestamp::{digit_char, digit_str};
use vstd::prelude::*;
use vstd::string::StringExecFns;

verus! {

/// The most digits a number may have to be read.
pub const MAX_DIGITS: usize = 18;

/// Whether `c` is one of the digits `0` to `9`.
pub open spec fn is_digit(c: char) -> bool {
    '0' as int <= c as int <= '9' as int
}

/// Whether every character of `s` is a digit.
pub open spec fn all_digits(s: Seq<char>) -> bool {
    forall|i: int| 0 <= i < s.len() ==> is_digit(#[trigger] s[i])
}

/// The number that the digits `s` write.
pub open spec fn digits_value(s: Seq<char>) -> int
    decreases s.len(),
{
    if s.len() == 0 {
        0
    } else {
        digits_value(s.drop_last()) * 10 + (s.last() as int - '0' as int)
    }
}

/// Ten to the power `n`.
pub open spec fn pow10(n: nat) -> int
    decreases n,
{
    if n == 0 {
        1
    } else {
        10 * pow10((n - 1) as nat)
    }
}

/// The number that `s` writes: one to eighteen digits, with or without a minus sign
/// before them. Anything else writes no number.
pub open spec fn number_of(s: Seq<char>) -> Option<int> {
    if s.len() > 0 && s[0] == '-' {
        let digits = s.drop_first();
        if 1 <= digits.len() <= MAX_DIGITS && all_digits(digits) {
            Some(-digits_value(digits))
        } else {
            None
        }
    } else if 1 <= s.len() <= MAX_DIGITS && all_digits(s) {
        Some(digits_value(s))
    } else {
        None
    }
}

/// Digits write a number below the power of ten of their count.
pub proof fn lemma_digits_value_bound(s: Seq<char>)
    requires
        all_digits(s),
    ensures
        0 <= digits_value(s) < pow10(s.len()),
    decreases s.len(),
{
    if s.len() > 0 {
        assert(is_digit(s[s.len() - 1]));
        assert forall|i: int| 0 <= i < s.drop_last().len() implies is_digit(
            #[trigger] s.drop_last()[i],
        ) by {
            assert(s.drop_last()[i] == s[i]);
        }
        lemma_digits_value_bound(s.drop_last());
    }
}

/// Reads the digits of `v` from position `from` on. Gives `None` where there are no
/// digits, more than eighteen, or a character that is no digit.
fn read_digits(v: &Vec<char>, from: usize) -> (r: Option<i64>)
    requires
        from <= v.len(),
    ensures
        match r {
            Some(n) => {
                &&& 1 <= v.len() - from <= MAX_DIGITS
                &&& all_digits(v@.skip(from as int))
                &&& n == digits_value(v@.skip(from as int))
            },
            None => !(1 <= v.len() - from <= MAX_DIGITS && all_digits(v@.skip(from as int))),
        },
{
    let count = v.len() - from;
    if count < 1 || count > MAX_DIGITS {
        return None;
    }
    let ghost digits = v@.skip(from as int);
    let mut value: i64 = 0;
    let mut i: usize = 0;
    assert(digits.take(0) =~= Seq::<char>::empty());
    while i < count
        invariant
            i <= count,
            count == v.len() - from,
            count <= MAX_DIGITS,
            digits == v@.skip(from as int),
            all_digits(digits.take(i as int)),
            value == digits_value(digits.take(i as int)),
        decreases count - i,
    {
        let c: char = v[from + i];
        assert(digits[i as int] == c);
        if c < '0' || c > '9' {
            assert(!is_digit(digits[i as int]));
            return None;
        }
        let d: i64 = (c as u32 - '0' as u32) as i64;
        proof {
            let so_far = digits.take(i as int);
            let next = digits.take(i + 1);
            assert(next.drop_last() =~= so_far);
            assert(next.last() == c);
            lemma_digits_value_bound(so_far);
            lemma_pow10_upto_18(i as nat);
            assert forall|k: int| 0 <= k < next.len() implies is_digit(#[trigger] next[k]) by {
                if k < i {
                    assert(so_far[k] == next[k]);
                }
            }
        }
        value = value * 10 + d;
        i += 1;
    }
    assert(digits.take(count as int) =~= digits);
    Some(value)
}

/// Powers of ten up to the eighteenth stay within `i64`, and up to the seventeenth
/// they leave room for one more digit.
pub proof fn lemma_pow10_upto_18(n: nat)
    requires
        n <= 18,
    ensures
        1 <= pow10(n) <= 1_000_000_000_000_000_000,
        n <= 17 ==> pow10(n) <= 100_000_000_000_000_000,
        n == 18 ==> pow10(n) == 1_000_000_000_000_000_000,
{
    assert(pow10(0) == 1);
    assert(pow10(1) == 10);
    assert(pow10(2) == 100);
    assert(pow10(3) == 1_000);
    assert(pow10(4) == 10_000);
    assert(pow10(5) == 100_000);
    assert(pow10(6) == 1_000_000);
    assert(pow10(7) == 10_000_000);
    assert(pow10(8) == 100_000_000);
    assert(pow10(9) == 1_000_000_000);
    assert(pow10(10) == 10_000_000_000);
    assert(pow10(11) == 100_000_000_000);
    assert(pow10(12) == 1_000_000_000_000);
    assert(pow10(13) == 10_000_000_000_000);
    assert(pow10(14) == 100_000_000_000_000);
    assert(pow10(15) == 1_000_000_000_000_000);
    assert(pow10(16) == 10_000_000_000_000_000);
    assert(pow10(17) == 100_000_000_000_000_000);
    assert(pow10(18) == 1_000_000_000_000_000_000);
}

/// Reads a whole number written in decimal.
pub fn parse_number(s: &str) -> (r: Option<i64>)
    ensures
        match r {
            Some(n) => number_of(s@) == Some(n as int),
            None => number_of(s@) is None,
        },
{
    let v = chars_of(s);
    if v.len() > 0 && v[0] == '-' {
        assert(v@.skip(1) =~= v@.drop_first());
        match read_digits(&v, 1) {
            Some(n) => {
                proof {
                    lemma_digits_value_bound(v@.skip(1));
                    lemma_pow10_upto_18(v@.skip(1).len());
                }
                Some(-n)
            },
            None => None,
        }
    } else {
        assert(v@.skip(0) =~= v@);
        read_digits(&v, 0)
    }
}

/// The digits that write a number that is not negative, without leading zeros.
pub open spec fn digits_of(n: nat) -> Seq<char>
    decreases n,
{
    if n < 10 {
        seq![digit_char(n as int)]
    } else {
        digits_of(n / 10).push(digit_char((n % 10) as int))
    }
}

/// The text that writes a whole number: its digits, after a minus sign where it is
/// negative.
pub open spec fn decimal_text(n: int) -> Seq<char> {
    if n < 0 {
        seq!['-'] + digits_of((-n) as nat)
    } else {
        digits_of(n as nat)
    }
}

/// The digits of a number are digits, write that number, and are no more than the
/// number has places.
pub proof fn lemma_digits_of(n: nat, places: nat)
    requires
        places >= 1,
        n < pow10(places),
    ensures
        all_digits(digits_of(n)),
        digits_value(digits_of(n)) == n,
        1 <= digits_of(n).len() <= places,
    decreases n,
{
    let d = digits_of(n);
    if n < 10 {
        assert(d.drop_last() =~= Seq::<char>::empty());
        assert(d.last() == digit_char(n as int));
        assert(digits_value(d.drop_last()) == 0);
    } else {
        let rest = digits_of(n / 10);
        assert(places >= 2) by {
            assert(pow10(0) == 1);
            assert(pow10(1) == 10);
        }
        assert(n / 10 < pow10((places - 1) as nat));
        lemma_digits_of(n / 10, (places - 1) as nat);
        assert(d.drop_last() =~= rest);
        assert(d.last() == digit_char((n % 10) as int));
        assert forall|i: int| 0 <= i < d.len() implies is_digit(#[trigger] d[i]) by {
            if i < rest.len() {
                assert(d[i] == rest[i]);
            }
        }
    }
}

/// Reading the text of a number of at most eighteen digits gives the number.
pub proof fn lemma_number_reads_back(n: int)
    requires
        -1_000_000_000_000_000_000 < n < 1_000_000_000_000_000_000,
    ensures
        number_of(decimal_text(n)) == Some(n),
{
    lemma_pow10_upto_18(18);
    if n < 0 {
        let d = digits_of((-n) as nat);
        lemma_digits_of((-n) as nat, 18);
        assert(decimal_text(n).drop_first() =~= d);
        assert(decimal_text(n)[0] == '-');
    } else {
        let d = digits_of(n as nat);
        lemma_digits_of(n as nat, 18);
        assert(is_digit(d[0]));
    }
}

/// Appends the digits of a number.
pub fn push_digits(s: &mut String, n: u64)
    ensures
        final(s)@ == old(s)@ + digits_of(n as nat),
    decreases n,
{
    if n >= 10 {
        push_digits(s, n / 10);
    }
    s.append(digit_str((n % 10) as u32));
    assert(s@ =~= old(s)@ + digits_of(n as nat));
}

/// Writes a whole number in decimal.
pub fn number_text(n: i64) -> (s: String)
    ensures
        s@ == decimal_text(n as int),
{
    let mut s = String::new();
    if n < 0 {
        proof {
            reveal_strlit("-");
        }
        s.append("-");
        let magnitude: u64 = (-(n + 1)) as u64 + 1;
        push_digits(&mut s, magnitude);
    } else {
        push_digits(&mut s, n as u64);
    }
    assert(s@ =~= decimal_text(n as int));
    s
}

} // verus!
