//! Sort keys: a record kind, a separator, the record's instant and a suffix that
//! tells records of one instant apart.
//!
//! Within one kind the keys are ordered as the instants are, because the instant is
//! written with fixed widths.
use crate::error::QueryError;
use crate::order::{chars_of, lemma_lex_le_common_prefix, lemma_lex_le_refl, lex_le, lex_lt};
use crate::timestamp::{
    digit_char, four_digits, instant_text_then, lemma_digit_order, lemma_instant_text_le,
    lemma_text_then, time_text_then, two_digits, Timestamp,
};
use vstd::prelude::*;
use vstd::string::{StrSliceExecFns, StringExecFns};

verus! {

/// What a key names.
#[derive(Clone, Copy, Debug, PartialEq, Eq, Structural)]
pub enum RecordKind {
    Transaction,
    Merchant,
    Payout,
}

/// The word a key of this kind begins with.
pub open spec fn kind_prefix(kind: RecordKind) -> Seq<char> {
    match kind {
        RecordKind::Transaction => "TRANSACTION"@,
        RecordKind::Merchant => "MERCHANT"@,
        RecordKind::Payout => "PAYOUT"@,
    }
}

/// The kind's word and the separator: what every key of the kind begins with.
pub open spec fn key_head(kind: RecordKind) -> Seq<char> {
    kind_prefix(kind) + seq!['#']
}

/// The sort key of a record of `kind` at instant `t`, told apart from others of that
/// instant by `suffix`.
pub open spec fn sort_key_text(kind: RecordKind, t: Timestamp, suffix: Seq<char>) -> Seq<char> {
    key_head(kind) + instant_text_then(t, seq!['#'] + suffix)
}

/// The key under which a merchant is stored, as partition key and as sort key.
pub open spec fn merchant_key_text(name: Seq<char>) -> Seq<char> {
    key_head(RecordKind::Merchant) + name
}

impl RecordKind {
    /// The word a key of this kind begins with.
    pub fn prefix(&self) -> (s: &'static str)
        ensures
            s@ == kind_prefix(*self),
    {
        match self {
            RecordKind::Transaction => "TRANSACTION",
            RecordKind::Merchant => "MERCHANT",
            RecordKind::Payout => "PAYOUT",
        }
    }

    /// The kind's word followed by the separator.
    pub fn head(&self) -> (s: String)
        ensures
            s@ == key_head(*self),
    {
        let mut s = String::from_str(self.prefix());
        proof {
            reveal_strlit("#");
        }
        s.append("#");
        assert(s@ =~= key_head(*self));
        s
    }
}

/// Builds the sort key of a record. Fails with `Encoding` exactly where `t` is not a
/// valid instant.
pub fn encode_sort_key(kind: RecordKind, t: &Timestamp, suffix: &str) -> (r: Result<
    String,
    QueryError,
>)
    ensures
        t.is_valid() ==> (r matches Ok(s) && s@ == sort_key_text(kind, *t, suffix@)),
        !t.is_valid() ==> r == Err::<String, QueryError>(QueryError::Encoding),
{
    match t.to_text() {
        None => Err(QueryError::Encoding),
        Some(text) => {
            let mut s = kind.head();
            s.append(text.as_str());
            proof {
                reveal_strlit("#");
            }
            s.append("#");
            s.append(suffix);
            proof {
                lemma_text_then(*t, seq!['#'] + suffix@);
                assert(s@ =~= sort_key_text(kind, *t, suffix@));
            }
            Ok(s)
        },
    }
}

/// Builds the key of a merchant record from the merchant's name or id.
pub fn merchant_key(name: &str) -> (s: String)
    ensures
        s@ == merchant_key_text(name@),
{
    let mut s = RecordKind::Merchant.head();
    s.append(name);
    s
}

/// Keys of one kind are ordered as their instants are, and by their suffixes where
/// the instants are the same.
pub proof fn lemma_sort_key_order(
    kind: RecordKind,
    a: Timestamp,
    suffix_a: Seq<char>,
    b: Timestamp,
    suffix_b: Seq<char>,
)
    requires
        a.is_valid(),
        b.is_valid(),
    ensures
        lex_le(sort_key_text(kind, a, suffix_a), sort_key_text(kind, b, suffix_b)) == (
        a.is_before(b) || (a == b && lex_le(suffix_a, suffix_b))),
        a.is_before(b) ==> lex_lt(
            sort_key_text(kind, a, suffix_a),
            sort_key_text(kind, b, suffix_b),
        ),
{
    let ra = seq!['#'] + suffix_a;
    let rb = seq!['#'] + suffix_b;
    lemma_lex_le_common_prefix(key_head(kind), instant_text_then(a, ra), instant_text_then(b, rb));
    lemma_instant_text_le(a, ra, b, rb);
    lemma_lex_le_common_prefix(seq!['#'], suffix_a, suffix_b);
    if a.is_before(b) {
        lemma_lex_le_common_prefix(
            key_head(kind),
            instant_text_then(b, rb),
            instant_text_then(a, ra),
        );
        lemma_instant_text_le(b, rb, a, ra);
        if sort_key_text(kind, a, suffix_a) == sort_key_text(kind, b, suffix_b) {
            lemma_lex_le_refl(sort_key_text(kind, a, suffix_a));
        }
    }
}

/// What a sort key says: the kind of its record, the record's instant, and the suffix
/// that tells the record from others of that instant.
#[derive(Debug)]
pub struct SortKeyParts {
    pub kind: RecordKind,
    pub instant: Timestamp,
    pub suffix: String,
}

/// Whether `p` is the beginning of `s`.
pub open spec fn begins_with(s: Seq<char>, p: Seq<char>) -> bool {
    p.len() <= s.len() && s.take(p.len() as int) == p
}

/// The three kinds begin with three different letters, so a key begins with the head
/// of one kind at most.
pub proof fn lemma_one_head(s: Seq<char>, a: RecordKind, b: RecordKind)
    requires
        begins_with(s, key_head(a)),
        begins_with(s, key_head(b)),
    ensures
        a == b,
{
    reveal_strlit("TRANSACTION");
    reveal_strlit("MERCHANT");
    reveal_strlit("PAYOUT");
    let ha = key_head(a);
    let hb = key_head(b);
    assert(s.take(ha.len() as int)[0] == s[0]);
    assert(s.take(hb.len() as int)[0] == s[0]);
    assert(ha[0] == kind_prefix(a)[0]);
    assert(hb[0] == kind_prefix(b)[0]);
}

/// A stretch of the middle one of three texts put together is that stretch of the
/// whole, counted on from the end of the first.
pub proof fn lemma_stretch_of_middle(
    head: Seq<char>,
    middle: Seq<char>,
    tail: Seq<char>,
    from: int,
    to: int,
)
    requires
        0 <= from <= to <= middle.len(),
    ensures
        (head + middle + tail).subrange(head.len() + from, head.len() + to) == middle.subrange(
            from,
            to,
        ),
{
    assert((head + middle + tail).subrange(head.len() + from, head.len() + to)
        =~= middle.subrange(from, to));
}

/// An instant's text has 25 characters: the numbers stand at fixed places.
pub proof fn lemma_text_parts(t: Timestamp)
    ensures
        ({
            let text = t.text();
            &&& text.len() == 25
            &&& text.subrange(0, 2) == two_digits((t.year as int) / 100)
            &&& text.subrange(2, 4) == two_digits((t.year as int) % 100)
            &&& text.subrange(5, 7) == two_digits(t.month as int)
            &&& text.subrange(8, 10) == two_digits(t.day as int)
            &&& text.subrange(11, 13) == two_digits(t.hour as int)
            &&& text.subrange(14, 16) == two_digits(t.minute as int)
            &&& text.subrange(17, 19) == two_digits(t.second as int)
        }),
{
    let text = t.text();
    let empty = Seq::<char>::empty();
    let time = time_text_then(t.hour as int, t.minute as int, t.second as int, empty);
    assert(time.len() == 14);
    assert(time.subrange(0, 2) =~= two_digits(t.hour as int));
    assert(time.subrange(3, 5) =~= two_digits(t.minute as int));
    assert(time.subrange(6, 8) =~= two_digits(t.second as int));
    let date = four_digits(t.year as int) + (seq!['-'] + (two_digits(t.month as int) + (seq!['-']
        + (two_digits(t.day as int) + seq!['T']))));
    assert(date.len() == 11);
    assert(text =~= date + time);
    assert(date.subrange(0, 2) =~= two_digits((t.year as int) / 100));
    assert(date.subrange(2, 4) =~= two_digits((t.year as int) % 100));
    assert(date.subrange(5, 7) =~= two_digits(t.month as int));
    assert(date.subrange(8, 10) =~= two_digits(t.day as int));
    assert(text.subrange(0, 2) =~= date.subrange(0, 2));
    assert(text.subrange(2, 4) =~= date.subrange(2, 4));
    assert(text.subrange(5, 7) =~= date.subrange(5, 7));
    assert(text.subrange(8, 10) =~= date.subrange(8, 10));
    assert(text.subrange(11, 13) =~= time.subrange(0, 2));
    assert(text.subrange(14, 16) =~= time.subrange(3, 5));
    assert(text.subrange(17, 19) =~= time.subrange(6, 8));
}

/// Whether the numbers of the instant `t` stand in `s` where a sort key has them,
/// counted from position `h`.
pub open spec fn numbers_stand_at(s: Seq<char>, h: int, t: Timestamp) -> bool {
    &&& s.subrange(h, h + 2) == two_digits((t.year as int) / 100)
    &&& s.subrange(h + 2, h + 4) == two_digits((t.year as int) % 100)
    &&& s.subrange(h + 5, h + 7) == two_digits(t.month as int)
    &&& s.subrange(h + 8, h + 10) == two_digits(t.day as int)
    &&& s.subrange(h + 11, h + 13) == two_digits(t.hour as int)
    &&& s.subrange(h + 14, h + 16) == two_digits(t.minute as int)
    &&& s.subrange(h + 17, h + 19) == two_digits(t.second as int)
}

/// Whether every number of `t` is one that two digits can write, the year one that
/// four digits can.
pub open spec fn fits_digits(t: Timestamp) -> bool {
    &&& 0 <= t.year <= 9999
    &&& t.month < 100
    &&& t.day < 100
    &&& t.hour < 100
    &&& t.minute < 100
    &&& t.second < 100
}

/// Where in a sort key its parts stand, counted from the end of the head.
pub proof fn lemma_sort_key_shape(kind: RecordKind, t: Timestamp, suffix: Seq<char>)
    ensures
        ({
            let k = sort_key_text(kind, t, suffix);
            let h = key_head(kind).len() as int;
            &&& k.len() == h + 26 + suffix.len()
            &&& begins_with(k, key_head(kind))
            &&& numbers_stand_at(k, h, t)
            &&& k.subrange(h, h + 25) == t.text()
            &&& k[h + 25] == '#'
            &&& k.skip(h + 26) == suffix
        }),
{
    let k = sort_key_text(kind, t, suffix);
    let head = key_head(kind);
    let h = head.len() as int;
    let text = t.text();
    let tail = seq!['#'] + suffix;
    lemma_text_then(t, tail);
    lemma_text_parts(t);
    assert(k =~= head + text + tail);
    assert(k.take(h) =~= head);
    assert(k.skip(h + 26) =~= suffix);
    lemma_stretch_of_middle(head, text, tail, 0, 2);
    lemma_stretch_of_middle(head, text, tail, 2, 4);
    lemma_stretch_of_middle(head, text, tail, 5, 7);
    lemma_stretch_of_middle(head, text, tail, 8, 10);
    lemma_stretch_of_middle(head, text, tail, 11, 13);
    lemma_stretch_of_middle(head, text, tail, 14, 16);
    lemma_stretch_of_middle(head, text, tail, 17, 19);
    lemma_stretch_of_middle(head, text, tail, 0, 25);
    assert(text.subrange(0, 25) =~= text);
}

/// Two numbers below 100 with the same two digits are the same number.
pub proof fn lemma_two_digits_one_to_one(a: int, b: int)
    requires
        0 <= a < 100,
        0 <= b < 100,
        two_digits(a) == two_digits(b),
    ensures
        a == b,
{
    assert(two_digits(a)[0] == two_digits(b)[0]);
    assert(two_digits(a)[1] == two_digits(b)[1]);
    lemma_digit_order(a / 10, b / 10);
    lemma_digit_order(a % 10, b % 10);
}

/// Numbers that stand at one place are the same numbers.
pub proof fn lemma_numbers_stand_once(s: Seq<char>, h: int, a: Timestamp, b: Timestamp)
    requires
        numbers_stand_at(s, h, a),
        numbers_stand_at(s, h, b),
        fits_digits(a),
        fits_digits(b),
    ensures
        a == b,
{
    lemma_two_digits_one_to_one((a.year as int) / 100, (b.year as int) / 100);
    lemma_two_digits_one_to_one((a.year as int) % 100, (b.year as int) % 100);
    lemma_two_digits_one_to_one(a.month as int, b.month as int);
    lemma_two_digits_one_to_one(a.day as int, b.day as int);
    lemma_two_digits_one_to_one(a.hour as int, b.hour as int);
    lemma_two_digits_one_to_one(a.minute as int, b.minute as int);
    lemma_two_digits_one_to_one(a.second as int, b.second as int);
}

/// A sort key says one thing only: two keys that are the same text are of the same
/// kind, instant and suffix.
pub proof fn lemma_sort_key_is_one_to_one(
    kind_a: RecordKind,
    a: Timestamp,
    suffix_a: Seq<char>,
    kind_b: RecordKind,
    b: Timestamp,
    suffix_b: Seq<char>,
)
    requires
        a.is_valid(),
        b.is_valid(),
        sort_key_text(kind_a, a, suffix_a) == sort_key_text(kind_b, b, suffix_b),
    ensures
        kind_a == kind_b,
        a == b,
        suffix_a == suffix_b,
{
    let k = sort_key_text(kind_a, a, suffix_a);
    lemma_sort_key_shape(kind_a, a, suffix_a);
    lemma_sort_key_shape(kind_b, b, suffix_b);
    lemma_one_head(k, kind_a, kind_b);
    lemma_numbers_stand_once(k, key_head(kind_a).len() as int, a, b);
}

/// Decides whether the characters of `v` from position `at` on begin with `p`.
pub fn match_at(v: &Vec<char>, at: usize, p: &Vec<char>) -> (r: bool)
    requires
        at <= v.len(),
    ensures
        r == (at + p@.len() <= v@.len() && v@.subrange(at as int, at + p@.len()) == p@),
{
    if p.len() > v.len() - at {
        return false;
    }
    let mut i: usize = 0;
    while i < p.len()
        invariant
            i <= p.len(),
            at + p.len() <= v.len(),
            v@.subrange(at as int, at + i) == p@.take(i as int),
        decreases p.len() - i,
    {
        if v[at + i] != p[i] {
            assert(v@.subrange(at as int, at + p@.len())[i as int] != p@[i as int]);
            return false;
        }
        assert(v@.subrange(at as int, at + i + 1) =~= v@.subrange(at as int, at + i).push(
            v@[at + i],
        ));
        assert(p@.take(i + 1) =~= p@.take(i as int).push(p@[i as int]));
        i += 1;
    }
    assert(p@.take(p@.len() as int) =~= p@);
    true
}

/// Reads the two-digit number that stands at position `at` of `v`, if one does.
pub fn two_digits_at(v: &Vec<char>, at: usize) -> (r: Option<u32>)
    requires
        at + 2 <= v.len(),
    ensures
        match r {
            Some(n) => n < 100 && v@.subrange(at as int, at + 2) == two_digits(n as int),
            None => forall|n: int|
                0 <= n < 100 ==> v@.subrange(at as int, at + 2) != #[trigger] two_digits(n),
        },
{
    let a: char = v[at];
    let b: char = v[at + 1];
    let ghost pair = v@.subrange(at as int, at + 2);
    assert(pair[0] == a && pair[1] == b);
    if a < '0' || a > '9' || b < '0' || b > '9' {
        assert forall|n: int| 0 <= n < 100 implies pair != #[trigger] two_digits(n) by {
            assert(two_digits(n)[0] == digit_char(n / 10));
            assert(two_digits(n)[1] == digit_char(n % 10));
        }
        return None;
    }
    let n: u32 = (a as u32 - '0' as u32) * 10 + (b as u32 - '0' as u32);
    assert(pair =~= two_digits(n as int));
    Some(n)
}

/// Finds the kind whose head the key begins with, and the length of that head.
pub fn kind_of_key(v: &Vec<char>) -> (r: Option<(RecordKind, usize)>)
    ensures
        match r {
            Some((kind, h)) => begins_with(v@, key_head(kind)) && h == key_head(kind).len(),
            None => forall|kind: RecordKind| !begins_with(v@, #[trigger] key_head(kind)),
        },
{
    let transaction = chars_of(RecordKind::Transaction.head().as_str());
    let merchant = chars_of(RecordKind::Merchant.head().as_str());
    let payout = chars_of(RecordKind::Payout.head().as_str());
    proof {
        assert(v@.subrange(0, transaction@.len() as int) =~= v@.take(transaction@.len() as int));
        assert(v@.subrange(0, merchant@.len() as int) =~= v@.take(merchant@.len() as int));
        assert(v@.subrange(0, payout@.len() as int) =~= v@.take(payout@.len() as int));
    }
    if match_at(v, 0, &transaction) {
        Some((RecordKind::Transaction, transaction.len()))
    } else if match_at(v, 0, &merchant) {
        Some((RecordKind::Merchant, merchant.len()))
    } else if match_at(v, 0, &payout) {
        Some((RecordKind::Payout, payout.len()))
    } else {
        assert forall|kind: RecordKind| !begins_with(v@, #[trigger] key_head(kind)) by {
            match kind {
                RecordKind::Transaction => {},
                RecordKind::Merchant => {},
                RecordKind::Payout => {},
            }
        }
        None
    }
}

/// Reads the numbers of an instant where a sort key has them, counted from position
/// `h`.
pub fn read_instant(v: &Vec<char>, h: usize) -> (r: Option<Timestamp>)
    requires
        h + 26 <= v.len(),
    ensures
        match r {
            Some(t) => numbers_stand_at(v@, h as int, t) && fits_digits(t),
            None => forall|t: Timestamp|
                fits_digits(t) ==> !#[trigger] numbers_stand_at(v@, h as int, t),
        },
{
    let century = match two_digits_at(v, h) {
        Some(n) => n,
        None => {
            return None;
        },
    };
    let years = match two_digits_at(v, h + 2) {
        Some(n) => n,
        None => {
            return None;
        },
    };
    let month = match two_digits_at(v, h + 5) {
        Some(n) => n,
        None => {
            return None;
        },
    };
    let day = match two_digits_at(v, h + 8) {
        Some(n) => n,
        None => {
            return None;
        },
    };
    let hour = match two_digits_at(v, h + 11) {
        Some(n) => n,
        None => {
            return None;
        },
    };
    let minute = match two_digits_at(v, h + 14) {
        Some(n) => n,
        None => {
            return None;
        },
    };
    let second = match two_digits_at(v, h + 17) {
        Some(n) => n,
        None => {
            return None;
        },
    };
    let year: u32 = century * 100 + years;
    Some(Timestamp { year: year as i32, month, day, hour, minute, second })
}

/// Whether some kind, valid instant and suffix make the key.
pub open spec fn is_sort_key(key: Seq<char>) -> bool {
    exists|kind: RecordKind, t: Timestamp, suffix: Seq<char>|
        t.is_valid() && key == #[trigger] sort_key_text(kind, t, suffix)
}

/// Whether `r` is what reading `key` gives: the parts that make the key, or an
/// `Encoding` error where nothing makes it.
pub open spec fn is_reading_of(r: Result<SortKeyParts, QueryError>, key: Seq<char>) -> bool {
    &&& r is Ok <==> is_sort_key(key)
    &&& r matches Ok(p) ==> p.instant.is_valid() && key == sort_key_text(
        p.kind,
        p.instant,
        p.suffix@,
    )
    &&& r matches Err(e) ==> e == QueryError::Encoding
}

/// Reading a key that was built gives back what it was built from.
pub proof fn lemma_sort_key_reads_back(
    kind: RecordKind,
    t: Timestamp,
    suffix: Seq<char>,
    r: Result<SortKeyParts, QueryError>,
)
    requires
        t.is_valid(),
        is_reading_of(r, sort_key_text(kind, t, suffix)),
    ensures
        r matches Ok(p) && p.kind == kind && p.instant == t && p.suffix@ == suffix,
{
    let key = sort_key_text(kind, t, suffix);
    assert(is_sort_key(key));
    let p = r->Ok_0;
    lemma_sort_key_is_one_to_one(p.kind, p.instant, p.suffix@, kind, t, suffix);
}

/// Reads a sort key: finds the kind, the instant and the suffix that make it. Fails
/// with `Encoding` exactly where no kind, valid instant and suffix make the key.
pub fn decode_sort_key(key: &str) -> (r: Result<SortKeyParts, QueryError>)
    ensures
        is_reading_of(r, key@),
{
    let v = chars_of(key);
    let (kind, h) = match kind_of_key(&v) {
        Some(found) => found,
        None => {
            proof {
                assert forall|other: RecordKind, t: Timestamp, suffix: Seq<char>|
                    key@ != #[trigger] sort_key_text(other, t, suffix) by {
                    lemma_sort_key_shape(other, t, suffix);
                }
            }
            return Err(QueryError::Encoding);
        },
    };
    // Whatever makes the key is of this kind and has its parts where the key has them.
    proof {
        assert forall|other: RecordKind, t: Timestamp, suffix: Seq<char>|
            t.is_valid() && key@ == #[trigger] sort_key_text(other, t, suffix) implies other
            == kind && v@.len() >= h + 26 && fits_digits(t) && numbers_stand_at(v@, h as int, t)
            && v@.subrange(h as int, h + 25) == t.text() && v@[h + 25] == '#' by {
            lemma_sort_key_shape(other, t, suffix);
            lemma_one_head(v@, other, kind);
        }
    }
    if v.len() - h < 26 {
        return Err(QueryError::Encoding);
    }
    let instant = match read_instant(&v, h) {
        Some(t) => t,
        None => {
            return Err(QueryError::Encoding);
        },
    };
    proof {
        assert forall|other: RecordKind, t: Timestamp, suffix: Seq<char>|
            t.is_valid() && key@ == #[trigger] sort_key_text(other, t, suffix) implies t
            == instant by {
            lemma_numbers_stand_once(v@, h as int, t, instant);
        }
    }
    let text = match instant.to_text() {
        Some(text) => chars_of(text.as_str()),
        None => {
            return Err(QueryError::Encoding);
        },
    };
    proof {
        lemma_text_parts(instant);
    }
    if !match_at(&v, h, &text) {
        return Err(QueryError::Encoding);
    }
    if v[h + 25] != '#' {
        return Err(QueryError::Encoding);
    }
    let suffix = String::from_str(key.substring_char(h + 26, v.len()));
    proof {
        let head = key_head(kind);
        lemma_text_then(instant, seq!['#'] + suffix@);
        assert(v@.take(h as int) == head);
        assert(v@ =~= v@.take(h as int) + v@.subrange(h as int, h + 25) + seq!['#'] + v@.skip(
            h + 26,
        ));
        assert(v@.skip(h + 26) =~= v@.subrange(h + 26, v@.len() as int));
        assert(key@ =~= sort_key_text(kind, instant, suffix@));
    }
    Ok(SortKeyParts { kind, instant, suffix })
}

} // verus!
