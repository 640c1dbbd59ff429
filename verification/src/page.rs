//! Pages: the records of one scan, each with the cursor that names it, and the two
//! signs that tell whether pages lie before and after.
use crate::cursor::{
    cursor_of, decode_optional_cursor, encode_cursor, lemma_cursor_round_trip, token_of,
};
use crate::error::QueryError;
use crate::models::{CardBrand, Merchant, Transaction};
use crate::paging::{continued, lemma_clamp_continues};
use crate::query::{
    get_merchant, is_lookup_of, plan_settlement_transactions, plan_transactions, request_is,
    settlement_plan, transactions_plan, DEFAULT_LIMIT,
};
use crate::bounds::text_of;
use crate::store::{scan_continues, scan_items, RecordStore, Scan, ScanAnswer, ScanRequest};
use crate::timestamp::{utc_now, Timestamp};
use vstd::prelude::*;

verus! {

/// A record of a page with its cursor.
#[derive(Debug)]
pub struct Edge {
    pub cursor: String,
    pub node: Transaction,
}

/// A page of records, newest first.
#[derive(Debug)]
pub struct Page {
    pub edges: Vec<Edge>,
    /// Whether the request came with a cursor to continue after.
    pub has_previous_page: bool,
    /// Whether the scan left records unwalked.
    pub has_next_page: bool,
}

/// A record of a page with its cursor as text.
pub ghost struct EdgeText {
    pub cursor: Seq<char>,
    pub node: Transaction,
}

/// A page with its cursors as texts.
pub ghost struct PageText {
    pub edges: Seq<EdgeText>,
    pub has_previous_page: bool,
    pub has_next_page: bool,
}

impl Edge {
    /// The edge with its cursor as text.
    pub open spec fn view(&self) -> EdgeText {
        EdgeText { cursor: self.cursor@, node: self.node }
    }
}

impl Page {
    /// The page with its cursors as texts.
    pub open spec fn view(&self) -> PageText {
        PageText {
            edges: Seq::new(self.edges@.len(), |i: int| self.edges@[i]@),
            has_previous_page: self.has_previous_page,
            has_next_page: self.has_next_page,
        }
    }
}

/// The edges of the records of a page: each record with the token for its own key
/// and its own time of creation. Where a token cannot be written there are no edges.
pub open spec fn edges_of(records: Seq<Transaction>) -> Result<Seq<EdgeText>, QueryError>
    decreases records.len(),
{
    if records.len() == 0 {
        Ok(Seq::<EdgeText>::empty())
    } else {
        let t = records.last();
        match (edges_of(records.drop_last()), token_of(t.id@, t.created_at as int)) {
            (Ok(edges), Ok(token)) => Ok(edges.push(EdgeText { cursor: token, node: t })),
            _ => Err(QueryError::Encoding),
        }
    }
}

/// The page of the records of a scan.
pub open spec fn page_of(records: Seq<Transaction>, continuation: bool, after_supplied: bool) -> Result<
    PageText,
    QueryError,
> {
    match edges_of(records) {
        Ok(edges) => Ok(
            PageText { edges, has_previous_page: after_supplied, has_next_page: continuation },
        ),
        Err(e) => Err(e),
    }
}

/// Whether `r` is the outcome `wanted`.
pub open spec fn page_is(r: Result<Page, QueryError>, wanted: Result<PageText, QueryError>) -> bool {
    match wanted {
        Ok(p) => r matches Ok(x) && x@ == p,
        Err(e) => r matches Err(x) && x == e,
    }
}

/// The number of records that a request asks for: `first`, else `last`, else ten.
pub open spec fn page_limit(first: Option<i32>, last: Option<i32>) -> int {
    match first {
        Some(n) => n as int,
        None => match last {
            Some(n) => n as int,
            None => DEFAULT_LIMIT as int,
        },
    }
}

/// The key that a cursor token carries, where there is a token.
pub open spec fn cursor_key(token: Option<Seq<char>>) -> Result<Option<Seq<char>>, QueryError> {
    match token {
        None => Ok(None),
        Some(t) => match cursor_of(t) {
            Ok(p) => Ok(Some(p.0)),
            Err(e) => Err(e),
        },
    }
}

/// The scan of a request with cursor tokens. Errors come in this order: a limit that
/// is not positive, a cursor that cannot be read, what the plan says.
pub open spec fn planned_scan(
    limit: int,
    after: Option<Seq<char>>,
    before: Option<Seq<char>>,
    plan: spec_fn(Option<Seq<char>>, Option<Seq<char>>) -> Result<Scan, QueryError>,
) -> Result<Scan, QueryError> {
    if limit <= 0 {
        Err(QueryError::Validation)
    } else {
        match (cursor_key(after), cursor_key(before)) {
            (Ok(a), Ok(b)) => plan(a, b),
            _ => Err(QueryError::InvalidCursor),
        }
    }
}

/// The page that a planned scan gives over `records`: the plan's error, or the page
/// of what the scan gives, or an `Encoding` error where a token cannot be written.
pub open spec fn scanned_page(
    records: Seq<Transaction>,
    plan: Result<Scan, QueryError>,
    after_supplied: bool,
) -> Result<PageText, QueryError> {
    match plan {
        Ok(scan) => page_of(
            scan_items(records, scan),
            scan_continues(records, scan),
            after_supplied,
        ),
        Err(e) => Err(e),
    }
}

/// The scan that lists a merchant's transactions for a request at the time `now`.
pub open spec fn transactions_scan(
    after: Option<Seq<char>>,
    before: Option<Seq<char>>,
    first: Option<i32>,
    last: Option<i32>,
    merchant_id: Seq<char>,
    year: Option<Seq<char>>,
    month: Option<Seq<char>>,
    day: Option<Seq<char>>,
    card_brand: Option<CardBrand>,
    now: Timestamp,
) -> Result<Scan, QueryError> {
    planned_scan(
        page_limit(first, last),
        after,
        before,
        |a: Option<Seq<char>>, b: Option<Seq<char>>|
            transactions_plan(
                merchant_id,
                year,
                month,
                day,
                card_brand,
                a,
                b,
                page_limit(first, last),
                now,
            ),
    )
}

/// The scan that lists the transactions settled to a merchant for a request.
pub open spec fn settlement_scan(
    after: Option<Seq<char>>,
    before: Option<Seq<char>>,
    first: Option<i32>,
    last: Option<i32>,
    settlement_merchant_id: Seq<char>,
) -> Result<Scan, QueryError> {
    planned_scan(
        page_limit(first, last),
        after,
        before,
        |a: Option<Seq<char>>, b: Option<Seq<char>>|
            settlement_plan(settlement_merchant_id, a, b, page_limit(first, last)),
    )
}

/// The page of a merchant's transactions for a request at the time `now`.
pub open spec fn transactions_page(
    records: Seq<Transaction>,
    after: Option<Seq<char>>,
    before: Option<Seq<char>>,
    first: Option<i32>,
    last: Option<i32>,
    merchant_id: Seq<char>,
    year: Option<Seq<char>>,
    month: Option<Seq<char>>,
    day: Option<Seq<char>>,
    card_brand: Option<CardBrand>,
    now: Timestamp,
) -> Result<PageText, QueryError> {
    scanned_page(
        records,
        transactions_scan(
            after,
            before,
            first,
            last,
            merchant_id,
            year,
            month,
            day,
            card_brand,
            now,
        ),
        after is Some,
    )
}

/// The page of the transactions settled to a merchant for a request.
pub open spec fn settlement_page(
    records: Seq<Transaction>,
    after: Option<Seq<char>>,
    before: Option<Seq<char>>,
    first: Option<i32>,
    last: Option<i32>,
    settlement_merchant_id: Seq<char>,
) -> Result<PageText, QueryError> {
    scanned_page(
        records,
        settlement_scan(after, before, first, last, settlement_merchant_id),
        after is Some,
    )
}

/// Makes the page of the records of a scan.
pub fn assemble_page(records: Vec<Transaction>, continuation: bool, after_supplied: bool) -> (r:
    Result<Page, QueryError>)
    ensures
        page_is(r, page_of(records@, continuation, after_supplied)),
{
    let ghost all = records@;
    let mut edges: Vec<Edge> = Vec::new();
    let mut i: usize = 0;
    assert(all.take(0) =~= Seq::<Transaction>::empty());
    while i < records.len()
        invariant
            i <= records.len(),
            all == records@,
            edges_of(all.take(i as int)) matches Ok(texts) && texts == Seq::new(
                edges@.len(),
                |k: int| edges@[k]@,
            ),
        decreases records.len() - i,
    {
        let node = records[i].clone();
        proof {
            let next = all.take(i + 1);
            assert(next.drop_last() =~= all.take(i as int));
            assert(next.last() == node);
        }
        match encode_cursor(node.id.as_str(), node.created_at) {
            Ok(cursor) => {
                let ghost before = Seq::new(edges@.len(), |k: int| edges@[k]@);
                let ghost added = EdgeText { cursor: cursor@, node };
                edges.push(Edge { cursor, node });
                assert(Seq::new(edges@.len(), |k: int| edges@[k]@) =~= before.push(added));
            },
            Err(_) => {
                proof {
                    lemma_edges_fail_onward(all, i + 1);
                }
                return Err(QueryError::Encoding);
            },
        }
        i += 1;
    }
    assert(all.take(i as int) =~= all);
    Ok(Page { edges, has_previous_page: after_supplied, has_next_page: continuation })
}

/// Where the edges of a beginning of the records cannot be made, the edges of the
/// records cannot be made.
pub proof fn lemma_edges_fail_onward(records: Seq<Transaction>, n: int)
    requires
        0 <= n <= records.len(),
        edges_of(records.take(n)) is Err,
    ensures
        edges_of(records) == Err::<Seq<EdgeText>, QueryError>(QueryError::Encoding),
    decreases records.len() - n,
{
    if n == records.len() {
        assert(records.take(n) =~= records);
    } else {
        let next = records.take(n + 1);
        assert(next.drop_last() =~= records.take(n));
        lemma_edges_fail_onward(records, n + 1);
    }
}

/// The number of records that a request asks for.
pub fn limit_of(first: Option<i32>, last: Option<i32>) -> (n: i32)
    ensures
        n == page_limit(first, last),
{
    match first {
        Some(n) => n,
        None => match last {
            Some(n) => n,
            None => DEFAULT_LIMIT,
        },
    }
}

/// The keys that the two cursor tokens of a request carry. Fails with
/// `InvalidCursor` where either token cannot be read.
pub fn cursor_keys(after: &Option<String>, before: &Option<String>) -> (r: Result<
    (Option<String>, Option<String>),
    QueryError,
>)
    ensures
        match (cursor_key(text_of(*after)), cursor_key(text_of(*before))) {
            (Ok(a), Ok(b)) => r matches Ok(keys) && text_of(keys.0) == a && text_of(keys.1) == b,
            _ => r matches Err(e) && e == QueryError::InvalidCursor,
        },
{
    let a = match decode_optional_cursor(after) {
        Ok(Some(c)) => Some(c.key),
        Ok(None) => None,
        Err(_) => {
            return Err(QueryError::InvalidCursor);
        },
    };
    let b = match decode_optional_cursor(before) {
        Ok(Some(c)) => Some(c.key),
        Ok(None) => None,
        Err(_) => {
            return Err(QueryError::InvalidCursor);
        },
    };
    Ok((a, b))
}

/// The root of the query operations.
#[derive(Clone, Copy, Debug)]
pub struct Query;

impl Query {
    /// Plans the scan for a listing of a merchant's transactions at the time `now`:
    /// checks the limit, reads the cursors, reads the filter and bounds the scan.
    pub fn plan_transactions_at(
        &self,
        after: Option<String>,
        before: Option<String>,
        first: Option<i32>,
        last: Option<i32>,
        merchant_id: String,
        year: Option<String>,
        month: Option<String>,
        day: Option<String>,
        card_brand: Option<CardBrand>,
        now: &Timestamp,
    ) -> (r: Result<ScanRequest, QueryError>)
        ensures
            request_is(
                r,
                transactions_scan(
                    text_of(after),
                    text_of(before),
                    first,
                    last,
                    merchant_id@,
                    text_of(year),
                    text_of(month),
                    text_of(day),
                    card_brand,
                    *now,
                ),
            ),
    {
        let limit = limit_of(first, last);
        if limit <= 0 {
            return Err(QueryError::Validation);
        }
        let (after_key, before_key) = match cursor_keys(&after, &before) {
            Ok(keys) => keys,
            Err(e) => {
                return Err(e);
            },
        };
        plan_transactions(
            merchant_id,
            year,
            month,
            day,
            card_brand,
            after_key,
            before_key,
            limit,
            now,
        )
    }

    /// Plans the scan for a listing of the transactions settled to a merchant.
    pub fn plan_settlement_transactions(
        &self,
        after: Option<String>,
        before: Option<String>,
        first: Option<i32>,
        last: Option<i32>,
        settlement_merchant_id: String,
    ) -> (r: Result<ScanRequest, QueryError>)
        ensures
            request_is(
                r,
                settlement_scan(
                    text_of(after),
                    text_of(before),
                    first,
                    last,
                    settlement_merchant_id@,
                ),
            ),
    {
        let limit = limit_of(first, last);
        if limit <= 0 {
            return Err(QueryError::Validation);
        }
        let (after_key, before_key) = match cursor_keys(&after, &before) {
            Ok(keys) => keys,
            Err(e) => {
                return Err(e);
            },
        };
        plan_settlement_transactions(settlement_merchant_id, after_key, before_key, limit)
    }

    /// Runs a planned scan on the store and makes the page of what it gives.
    pub fn run(
        &self,
        store: &RecordStore,
        plan: Result<ScanRequest, QueryError>,
        after_supplied: bool,
    ) -> (r: Result<Page, QueryError>)
        ensures
            match plan {
                Ok(q) => page_is(r, scanned_page(store.transactions(), Ok(q@), after_supplied)),
                Err(e) => page_is(r, Err(e)),
            },
    {
        match plan {
            Ok(request) => {
                let ScanAnswer { items, continuation } = store.scan(&request);
                assemble_page(items, continuation, after_supplied)
            },
            Err(e) => Err(e),
        }
    }

    /// Lists a merchant's transactions at the time `now`: one page, newest first,
    /// each record with its cursor.
    pub fn transactions_at(
        &self,
        store: &RecordStore,
        after: Option<String>,
        before: Option<String>,
        first: Option<i32>,
        last: Option<i32>,
        merchant_id: String,
        year: Option<String>,
        month: Option<String>,
        day: Option<String>,
        card_brand: Option<CardBrand>,
        now: &Timestamp,
    ) -> (r: Result<Page, QueryError>)
        ensures
            page_is(
                r,
                transactions_page(
                    store.transactions(),
                    text_of(after),
                    text_of(before),
                    first,
                    last,
                    merchant_id@,
                    text_of(year),
                    text_of(month),
                    text_of(day),
                    card_brand,
                    *now,
                ),
            ),
    {
        let after_supplied = after.is_some();
        let plan = self.plan_transactions_at(
            after,
            before,
            first,
            last,
            merchant_id,
            year,
            month,
            day,
            card_brand,
            now,
        );
        self.run(store, plan, after_supplied)
    }

    /// Lists a merchant's transactions at the present time by the system's clock. The
    /// outcome is that of `transactions_at` for some reading of the clock.
    pub fn transactions(
        &self,
        store: &RecordStore,
        after: Option<String>,
        before: Option<String>,
        first: Option<i32>,
        last: Option<i32>,
        merchant_id: String,
        year: Option<String>,
        month: Option<String>,
        day: Option<String>,
        card_brand: Option<CardBrand>,
    ) -> (r: Result<Page, QueryError>)
        ensures
            exists|now: Timestamp|
                page_is(
                    r,
                    #[trigger] transactions_page(
                        store.transactions(),
                        text_of(after),
                        text_of(before),
                        first,
                        last,
                        merchant_id@,
                        text_of(year),
                        text_of(month),
                        text_of(day),
                        card_brand,
                        now,
                    ),
                ),
    {
        let now = utc_now();
        self.transactions_at(
            store,
            after,
            before,
            first,
            last,
            merchant_id,
            year,
            month,
            day,
            card_brand,
            &now,
        )
    }

    /// Lists the transactions settled to a merchant: one page, newest first.
    pub fn settlement_transactions(
        &self,
        store: &RecordStore,
        after: Option<String>,
        before: Option<String>,
        first: Option<i32>,
        last: Option<i32>,
        settlement_merchant_id: String,
    ) -> (r: Result<Page, QueryError>)
        ensures
            page_is(
                r,
                settlement_page(
                    store.transactions(),
                    text_of(after),
                    text_of(before),
                    first,
                    last,
                    settlement_merchant_id@,
                ),
            ),
    {
        let after_supplied = after.is_some();
        let plan = self.plan_settlement_transactions(
            after,
            before,
            first,
            last,
            settlement_merchant_id,
        );
        self.run(store, plan, after_supplied)
    }

    /// Looks a merchant up by id.
    pub fn merchant(&self, store: &RecordStore, merchant_id: String) -> (r: Result<
        Merchant,
        QueryError,
    >)
        ensures
            is_lookup_of(r, store.merchants(), merchant_id@),
    {
        get_merchant(store, merchant_id)
    }
}

/// The request for the next page continues the scan: where a request's scan held the
/// key of a record, the same request with that record's token as the cursor to
/// continue after scans what the scan before selected below that key.
pub proof fn lemma_next_request_continues(
    scan: Scan,
    key: Seq<char>,
    tiebreak: int,
    after: Option<Seq<char>>,
    before: Option<Seq<char>>,
    first: Option<i32>,
    last: Option<i32>,
    merchant_id: Seq<char>,
    year: Option<Seq<char>>,
    month: Option<Seq<char>>,
    day: Option<Seq<char>>,
    card_brand: Option<CardBrand>,
    now: Timestamp,
)
    requires
        transactions_scan(
            after,
            before,
            first,
            last,
            merchant_id,
            year,
            month,
            day,
            card_brand,
            now,
        ) == Ok::<Scan, QueryError>(scan),
        scan.bounds.holds(key),
        token_of(key, tiebreak) is Ok,
    ensures
        transactions_scan(
            Some(token_of(key, tiebreak)->Ok_0),
            before,
            first,
            last,
            merchant_id,
            year,
            month,
            day,
            card_brand,
            now,
        ) == Ok::<Scan, QueryError>(continued(scan, key)),
{
    let token = token_of(key, tiebreak)->Ok_0;
    lemma_cursor_round_trip(key, tiebreak);
    assert(cursor_key(Some(token)) == Ok::<Option<Seq<char>>, QueryError>(Some(key)));
    let limit = page_limit(first, last);
    let a = cursor_key(after)->Ok_0;
    let b = cursor_key(before)->Ok_0;
    let f = crate::query::filter_of(year, month, day)->Ok_0;
    let p = crate::range::resolve(f, now)->Ok_0;
    lemma_clamp_continues(p.lower_text(), p.upper_text(), a, b, key);
}

/// The same request over the same store gives the same page: two outcomes that both
/// answer one request agree in every edge, in both signs, and in the error.
pub proof fn lemma_same_request_same_page(
    first: Result<Page, QueryError>,
    second: Result<Page, QueryError>,
    wanted: Result<PageText, QueryError>,
)
    requires
        page_is(first, wanted),
        page_is(second, wanted),
    ensures
        match (first, second) {
            (Ok(a), Ok(b)) => a@ == b@,
            (Err(a), Err(b)) => a == b,
            _ => false,
        },
{
}

/// A request whose filter names its year, and its month where it names a day, asks
/// for the same page at any time.
pub proof fn lemma_dated_request_ignores_the_clock(
    records: Seq<Transaction>,
    after: Option<Seq<char>>,
    before: Option<Seq<char>>,
    first: Option<i32>,
    last: Option<i32>,
    merchant_id: Seq<char>,
    year: Option<Seq<char>>,
    month: Option<Seq<char>>,
    day: Option<Seq<char>>,
    card_brand: Option<CardBrand>,
    now: Timestamp,
    later: Timestamp,
)
    requires
        year is Some,
        day is Some ==> month is Some,
    ensures
        transactions_page(
            records,
            after,
            before,
            first,
            last,
            merchant_id,
            year,
            month,
            day,
            card_brand,
            now,
        ) == transactions_page(
            records,
            after,
            before,
            first,
            last,
            merchant_id,
            year,
            month,
            day,
            card_brand,
            later,
        ),
{
    let limit = page_limit(first, last);
    assert forall|a: Option<Seq<char>>, b: Option<Seq<char>>|
        transactions_plan(merchant_id, year, month, day, card_brand, a, b, limit, now)
            == transactions_plan(merchant_id, year, month, day, card_brand, a, b, limit, later) by {
        match crate::query::filter_of(year, month, day) {
            Ok(f) => {
                assert(crate::range::resolve(f, now) == crate::range::resolve(f, later));
            },
            Err(_) => {},
        }
    }
}

/// The page without records.
pub open spec fn empty_page(after_supplied: bool, continuation: bool) -> Result<
    PageText,
    QueryError,
> {
    Ok(
        PageText {
            edges: Seq::<EdgeText>::empty(),
            has_previous_page: after_supplied,
            has_next_page: continuation,
        },
    )
}

/// A listing is never refused for want of records: it fails only on a limit that is
/// not positive or a filter that names no period, on a cursor that cannot be read, or
/// on a value that cannot be written or read. Where the scan gives no record, the
/// outcome is the page without records, with the scan's word on whether more are
/// left.
pub proof fn lemma_listing_errors(
    records: Seq<Transaction>,
    after: Option<Seq<char>>,
    before: Option<Seq<char>>,
    first: Option<i32>,
    last: Option<i32>,
    merchant_id: Seq<char>,
    year: Option<Seq<char>>,
    month: Option<Seq<char>>,
    day: Option<Seq<char>>,
    card_brand: Option<CardBrand>,
    now: Timestamp,
)
    ensures
        ({
            let scan = transactions_scan(
                after,
                before,
                first,
                last,
                merchant_id,
                year,
                month,
                day,
                card_brand,
                now,
            );
            let page = scanned_page(records, scan, after is Some);
            &&& page matches Err(e) ==> (e == QueryError::Validation || e
                == QueryError::InvalidCursor || e == QueryError::Encoding)
            &&& scan matches Ok(s) ==> (scan_items(records, s).len() == 0 ==> page
                == empty_page(after is Some, scan_continues(records, s)))
        }),
{
    let scan = transactions_scan(
        after,
        before,
        first,
        last,
        merchant_id,
        year,
        month,
        day,
        card_brand,
        now,
    );
    match scan {
        Ok(s) => {
            let items = scan_items(records, s);
            if items.len() == 0 {
                assert(edges_of(items) == Ok::<Seq<EdgeText>, QueryError>(
                    Seq::<EdgeText>::empty(),
                ));
            }
        },
        Err(_) => {},
    }
}

} // verus!
