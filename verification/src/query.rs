//! The listing and lookup operations: from what a caller asks to one scan of the
//! store, and from the scan to the records of a page.
use crate::bounds::{clamp_range, clamped, text_of};
use crate::error::QueryError;
use crate::keys::{key_head, sort_key_text, RecordKind};
use crate::models::{CardBrand, Merchant, Transaction};
use crate::numbers::{number_of, parse_number};
use crate::order::{lemma_lex_le_common_prefix, lemma_lex_le_extension, lex_le};
use crate::range::{resolve, resolve_period, KeyRange, TimeFilter};
use crate::store::{
    is_merchant_found, scan_continues, scan_items, Index, RecordStore, Scan, ScanAnswer,
    ScanRequest,
};
use crate::timestamp::{
    four_digits, instant_text_then, lemma_four_digits_le, utc_now, Timestamp,
};
use vstd::prelude::*;
use vstd::string::StringExecFns;

verus! {

/// The number of records on a page where the caller names none.
pub const DEFAULT_LIMIT: i32 = 10;

/// The number that a filter component writes. A component that is absent stays
/// absent; one that writes no number, or none that fits, is an `Encoding` error.
pub open spec fn component_of(text: Option<Seq<char>>) -> Result<Option<u32>, QueryError> {
    match text {
        None => Ok(None),
        Some(s) => match number_of(s) {
            Some(n) if 0 <= n <= u32::MAX => Ok(Some(n as u32)),
            _ => Err(QueryError::Encoding),
        },
    }
}

/// The time filter that three components write.
pub open spec fn filter_of(
    year: Option<Seq<char>>,
    month: Option<Seq<char>>,
    day: Option<Seq<char>>,
) -> Result<TimeFilter, QueryError> {
    match (component_of(year), component_of(month), component_of(day)) {
        (Ok(y), Ok(m), Ok(d)) => Ok(TimeFilter { year: y, month: m, day: d }),
        _ => Err(QueryError::Encoding),
    }
}

/// The scan that lists a merchant's transactions: by the primary index, over the
/// range of the filter's period as the cursors tighten it. A limit that is not
/// positive is a `Validation` error and comes before any other.
pub open spec fn transactions_plan(
    merchant_id: Seq<char>,
    year: Option<Seq<char>>,
    month: Option<Seq<char>>,
    day: Option<Seq<char>>,
    card_brand: Option<CardBrand>,
    after: Option<Seq<char>>,
    before: Option<Seq<char>>,
    limit: int,
    now: Timestamp,
) -> Result<Scan, QueryError> {
    if limit <= 0 {
        Err(QueryError::Validation)
    } else {
        match filter_of(year, month, day) {
            Err(e) => Err(e),
            Ok(f) => match resolve(f, now) {
                Err(e) => Err(e),
                Ok(p) => Ok(
                    Scan {
                        index: Index::Primary,
                        partition: merchant_id,
                        bounds: clamped(p.lower_text(), p.upper_text(), after, before),
                        card_brand,
                        limit: limit as nat,
                    },
                ),
            },
        }
    }
}

/// The upper end of the range of a settlement listing: above every transaction of a
/// year before 9999.
pub open spec fn settlement_upper_text() -> Seq<char> {
    key_head(RecordKind::Transaction) + seq!['9', '9', '9', '9']
}

/// The scan that lists the transactions settled to a merchant: by the secondary
/// index, over all transactions as the cursors tighten them, with no card brand
/// filter.
pub open spec fn settlement_plan(
    settlement_merchant_id: Seq<char>,
    after: Option<Seq<char>>,
    before: Option<Seq<char>>,
    limit: int,
) -> Result<Scan, QueryError> {
    if limit <= 0 {
        Err(QueryError::Validation)
    } else {
        Ok(
            Scan {
                index: Index::Settlement,
                partition: settlement_merchant_id,
                bounds: clamped(
                    key_head(RecordKind::Transaction),
                    settlement_upper_text(),
                    after,
                    before,
                ),
                card_brand: None,
                limit: limit as nat,
            },
        )
    }
}

/// Whether `r` is the listing that `plan` gives over `records`: the plan's error, or
/// the records that its scan gives with the word on whether more are left.
pub open spec fn listing_is(
    r: Result<(Vec<Transaction>, bool), QueryError>,
    records: Seq<Transaction>,
    plan: Result<Scan, QueryError>,
) -> bool {
    match plan {
        Ok(scan) => r matches Ok(pair) && pair.0@ == scan_items(records, scan) && pair.1
            == scan_continues(records, scan),
        Err(e) => r matches Err(x) && x == e,
    }
}

/// Whether `r` is the request that `plan` stands for.
pub open spec fn request_is(r: Result<ScanRequest, QueryError>, plan: Result<Scan, QueryError>) -> bool {
    match plan {
        Ok(scan) => r matches Ok(q) && q@ == scan,
        Err(e) => r matches Err(x) && x == e,
    }
}

/// Reads one component of a time filter.
pub fn parse_component(text: &Option<String>) -> (r: Result<Option<u32>, QueryError>)
    ensures
        r == component_of(text_of(*text)),
{
    match text {
        None => Ok(None),
        Some(s) => match parse_number(s.as_str()) {
            Some(n) => if 0 <= n && n <= 4_294_967_295 {
                Ok(Some(n as u32))
            } else {
                Err(QueryError::Encoding)
            },
            None => Err(QueryError::Encoding),
        },
    }
}

/// Reads the three components of a time filter.
pub fn parse_filter(year: &Option<String>, month: &Option<String>, day: &Option<String>) -> (r:
    Result<TimeFilter, QueryError>)
    ensures
        r == filter_of(text_of(*year), text_of(*month), text_of(*day)),
{
    let y = parse_component(year);
    let m = parse_component(month);
    let d = parse_component(day);
    match (y, m, d) {
        (Ok(y), Ok(m), Ok(d)) => Ok(TimeFilter { year: y, month: m, day: d }),
        _ => Err(QueryError::Encoding),
    }
}

/// Plans the listing of a merchant's transactions at the time `now`: checks the
/// limit, reads the filter, finds its period and tightens the period's range by the
/// cursors' keys.
pub fn plan_transactions(
    merchant_id: String,
    year: Option<String>,
    month: Option<String>,
    day: Option<String>,
    card_brand: Option<CardBrand>,
    after: Option<String>,
    before: Option<String>,
    limit: i32,
    now: &Timestamp,
) -> (r: Result<ScanRequest, QueryError>)
    ensures
        request_is(
            r,
            transactions_plan(
                merchant_id@,
                text_of(year),
                text_of(month),
                text_of(day),
                card_brand,
                text_of(after),
                text_of(before),
                limit as int,
                *now,
            ),
        ),
{
    if limit <= 0 {
        return Err(QueryError::Validation);
    }
    let filter = match parse_filter(&year, &month, &day) {
        Ok(f) => f,
        Err(e) => {
            return Err(e);
        },
    };
    let period = match resolve_period(&filter, now) {
        Ok(p) => p,
        Err(e) => {
            return Err(e);
        },
    };
    let bounds = clamp_range(period.range(), after, before);
    Ok(
        ScanRequest {
            index: Index::Primary,
            partition: merchant_id,
            bounds,
            card_brand,
            limit: limit as u32,
        },
    )
}

/// Plans the listing of the transactions settled to a merchant.
pub fn plan_settlement_transactions(
    settlement_merchant_id: String,
    after: Option<String>,
    before: Option<String>,
    limit: i32,
) -> (r: Result<ScanRequest, QueryError>)
    ensures
        request_is(
            r,
            settlement_plan(
                settlement_merchant_id@,
                text_of(after),
                text_of(before),
                limit as int,
            ),
        ),
{
    if limit <= 0 {
        return Err(QueryError::Validation);
    }
    let lower = RecordKind::Transaction.head();
    let mut upper = RecordKind::Transaction.head();
    proof {
        reveal_strlit("9999");
    }
    upper.append("9999");
    assert(upper@ =~= settlement_upper_text());
    let bounds = clamp_range(KeyRange { lower, upper }, after, before);
    Ok(
        ScanRequest {
            index: Index::Settlement,
            partition: settlement_merchant_id,
            bounds,
            card_brand: None,
            limit: limit as u32,
        },
    )
}

/// Turns a planned request into a listing by one scan of the store.
pub fn run_plan(store: &RecordStore, plan: Result<ScanRequest, QueryError>) -> (r: Result<
    (Vec<Transaction>, bool),
    QueryError,
>)
    ensures
        match plan {
            Ok(q) => listing_is(r, store.transactions(), Ok(q@)),
            Err(e) => listing_is(r, store.transactions(), Err(e)),
        },
{
    match plan {
        Ok(request) => {
            let ScanAnswer { items, continuation } = store.scan(&request);
            Ok((items, continuation))
        },
        Err(e) => Err(e),
    }
}

/// Lists a merchant's transactions at the time `now`, newest first: the records of
/// one page, and whether the scan left records unwalked.
pub fn get_transactions_at(
    store: &RecordStore,
    merchant_id: String,
    year: Option<String>,
    month: Option<String>,
    day: Option<String>,
    card_brand: Option<CardBrand>,
    after: Option<String>,
    before: Option<String>,
    limit: i32,
    now: &Timestamp,
) -> (r: Result<(Vec<Transaction>, bool), QueryError>)
    ensures
        listing_is(
            r,
            store.transactions(),
            transactions_plan(
                merchant_id@,
                text_of(year),
                text_of(month),
                text_of(day),
                card_brand,
                text_of(after),
                text_of(before),
                limit as int,
                *now,
            ),
        ),
{
    let plan = plan_transactions(
        merchant_id,
        year,
        month,
        day,
        card_brand,
        after,
        before,
        limit,
        now,
    );
    run_plan(store, plan)
}

/// Lists a merchant's transactions at the present time by the system's clock. The
/// outcome is that of `get_transactions_at` for some reading of the clock.
pub fn get_transactions(
    store: &RecordStore,
    merchant_id: String,
    year: Option<String>,
    month: Option<String>,
    day: Option<String>,
    card_brand: Option<CardBrand>,
    after: Option<String>,
    before: Option<String>,
    limit: i32,
) -> (r: Result<(Vec<Transaction>, bool), QueryError>)
    ensures
        exists|now: Timestamp|
            listing_is(
                r,
                store.transactions(),
                #[trigger] transactions_plan(
                    merchant_id@,
                    text_of(year),
                    text_of(month),
                    text_of(day),
                    card_brand,
                    text_of(after),
                    text_of(before),
                    limit as int,
                    now,
                ),
            ),
{
    let now = utc_now();
    get_transactions_at(
        store,
        merchant_id,
        year,
        month,
        day,
        card_brand,
        after,
        before,
        limit,
        &now,
    )
}

/// Lists the transactions settled to a merchant, newest first.
pub fn get_transactions_for_settlement_merchant(
    store: &RecordStore,
    settlement_merchant_id: String,
    after: Option<String>,
    before: Option<String>,
    limit: i32,
) -> (r: Result<(Vec<Transaction>, bool), QueryError>)
    ensures
        listing_is(
            r,
            store.transactions(),
            settlement_plan(
                settlement_merchant_id@,
                text_of(after),
                text_of(before),
                limit as int,
            ),
        ),
{
    let plan = plan_settlement_transactions(settlement_merchant_id, after, before, limit);
    run_plan(store, plan)
}

/// Whether `r` is what looking the merchant `id` up gives: the first merchant of that
/// id, or `NotFound` where the store holds none.
pub open spec fn is_lookup_of(r: Result<Merchant, QueryError>, merchants: Seq<Merchant>, id: Seq<char>) -> bool {
    match r {
        Ok(m) => is_merchant_found(merchants, id, Some(m)),
        Err(e) => e == QueryError::NotFound && is_merchant_found(merchants, id, None),
    }
}

/// Looks a merchant up by id. Fails with `NotFound` exactly where the store holds no
/// merchant of that id.
pub fn get_merchant(store: &RecordStore, merchant_id: String) -> (r: Result<Merchant, QueryError>)
    ensures
        is_lookup_of(r, store.merchants(), merchant_id@),
{
    match store.find_merchant(merchant_id.as_str()) {
        Some(m) => Ok(m),
        None => Err(QueryError::NotFound),
    }
}

/// Makes a page of rows that were fetched with one row to spare: where more rows
/// came than `limit`, more are left, and the last row is taken off.
pub fn get_transactions_for_merchant(fetched: Vec<Transaction>, limit: i64) -> (r: (
    Vec<Transaction>,
    bool,
))
    ensures
        r.1 == (fetched@.len() > limit),
        r.0@ == if fetched@.len() > limit && fetched@.len() > 0 {
            fetched@.drop_last()
        } else {
            fetched@
        },
{
    let mut rows = fetched;
    let has_more = limit < 0 || rows.len() as u64 > limit as u64;
    if has_more {
        rows.pop();
    }
    (rows, has_more)
}

/// The range of a settlement listing holds the key of every transaction of a year
/// before 9999.
pub proof fn lemma_settlement_range_holds(t: Timestamp, suffix: Seq<char>)
    requires
        t.is_valid(),
        t.year < 9999,
    ensures
        lex_le(
            key_head(RecordKind::Transaction),
            sort_key_text(RecordKind::Transaction, t, suffix),
        ),
        lex_le(sort_key_text(RecordKind::Transaction, t, suffix), settlement_upper_text()),
{
    let head = key_head(RecordKind::Transaction);
    let body = instant_text_then(t, seq!['#'] + suffix);
    let empty = Seq::<char>::empty();
    lemma_lex_le_extension(head, body);
    lemma_lex_le_common_prefix(head, body, seq!['9', '9', '9', '9']);
    assert(four_digits(9999) + empty =~= seq!['9', '9', '9', '9']);
    let rest = body.skip(4);
    assert(body =~= four_digits(t.year as int) + rest);
    lemma_four_digits_le(t.year as int, 9999, rest, empty);
}

} // verus!
