//! The record store as the queries see it: transactions kept in the order of their
//! sort keys, scanned newest first through the primary index (by the merchant that
//! made them) or the secondary one (by the merchant that is paid), and merchants
//! found by id.
use crate::bounds::{Bounds, ScanBounds};
use crate::models::{CardBrand, Merchant, Transaction};
use crate::order::{lex_lt, text_eq, text_lt};
use vstd::prelude::*;

verus! {

/// By which merchant a scan finds its transactions.
#[derive(Clone, Copy, Debug, PartialEq, Eq, Structural)]
pub enum Index {
    /// By the merchant that made the transaction.
    Primary,
    /// By the merchant that receives the settled funds.
    Settlement,
}

/// One scan: an index, the merchant looked for, the bounds on the sort key, a card
/// brand to keep, and how many records to walk at most.
#[derive(Debug)]
pub struct ScanRequest {
    pub index: Index,
    pub partition: String,
    pub bounds: ScanBounds,
    pub card_brand: Option<CardBrand>,
    pub limit: u32,
}

/// What a scan says of itself, as texts and numbers.
pub ghost struct Scan {
    pub index: Index,
    pub partition: Seq<char>,
    pub bounds: Bounds,
    pub card_brand: Option<CardBrand>,
    pub limit: nat,
}

/// What a scan gives: the records, newest first, and whether records that the scan
/// would have walked are left.
#[derive(Debug)]
pub struct ScanAnswer {
    pub items: Vec<Transaction>,
    pub continuation: bool,
}

/// Whether `found` is what a lookup of the merchant `id` gives: the first merchant of
/// that id, or nothing where there is none.
pub open spec fn is_merchant_found(merchants: Seq<Merchant>, id: Seq<char>, found: Option<Merchant>) -> bool {
    match found {
        Some(m) => exists|i: int|
            0 <= i < merchants.len() && (#[trigger] merchants[i]).same_as(m) && m.id@ == id
                && forall|j: int| 0 <= j < i ==> (#[trigger] merchants[j]).id@ != id,
        None => forall|i: int| 0 <= i < merchants.len() ==> (#[trigger] merchants[i]).id@ != id,
    }
}

/// The merchant under which `index` files the transaction.
pub open spec fn partition_of(index: Index, t: Transaction) -> Seq<char> {
    match index {
        Index::Primary => t.merchant_id@,
        Index::Settlement => t.settlement_merchant_id@,
    }
}

impl Scan {
    /// Whether the scan walks the transaction: it is filed under the merchant looked
    /// for and its key is within the bounds.
    pub open spec fn selects(self, t: Transaction) -> bool {
        partition_of(self.index, t) == self.partition && self.bounds.holds(t.id@)
    }

    /// Whether the scan keeps a transaction that it walks.
    pub open spec fn keeps(self, t: Transaction) -> bool {
        match self.card_brand {
            Some(b) => t.card_brand == b,
            None => true,
        }
    }
}

/// The transactions of `records` that the scan walks if nothing stops it, the last of
/// `records` first.
pub open spec fn selection(records: Seq<Transaction>, scan: Scan) -> Seq<Transaction>
    decreases records.len(),
{
    if records.len() == 0 {
        Seq::<Transaction>::empty()
    } else {
        let rest = selection(records.drop_last(), scan);
        if scan.selects(records.last()) {
            seq![records.last()] + rest
        } else {
            rest
        }
    }
}

/// The transactions of `walked` that the scan keeps, in their order.
pub open spec fn kept(walked: Seq<Transaction>, scan: Scan) -> Seq<Transaction>
    decreases walked.len(),
{
    if walked.len() == 0 {
        Seq::<Transaction>::empty()
    } else {
        let before = kept(walked.drop_last(), scan);
        if scan.keeps(walked.last()) {
            before.push(walked.last())
        } else {
            before
        }
    }
}

/// The transactions that the scan walks: the first `limit` of its selection.
pub open spec fn walked(records: Seq<Transaction>, scan: Scan) -> Seq<Transaction> {
    let all = selection(records, scan);
    if all.len() <= scan.limit {
        all
    } else {
        all.take(scan.limit as int)
    }
}

/// The records that the scan gives: those it walks and keeps.
pub open spec fn scan_items(records: Seq<Transaction>, scan: Scan) -> Seq<Transaction> {
    kept(walked(records, scan), scan)
}

/// Whether the scan leaves records unwalked.
pub open spec fn scan_continues(records: Seq<Transaction>, scan: Scan) -> bool {
    selection(records, scan).len() > scan.limit
}

/// Whether the keys rise strictly along `records`.
pub open spec fn ascending(records: Seq<Transaction>) -> bool {
    forall|i: int, j: int|
        #![trigger records[i], records[j]]
        0 <= i < j < records.len() ==> lex_lt(records[i].id@, records[j].id@)
}

impl ScanRequest {
    /// The request as texts and numbers.
    pub open spec fn view(&self) -> Scan {
        Scan {
            index: self.index,
            partition: self.partition@,
            bounds: self.bounds@,
            card_brand: self.card_brand,
            limit: self.limit as nat,
        }
    }

    /// Decides whether the scan walks the transaction.
    pub fn selects(&self, t: &Transaction) -> (r: bool)
        ensures
            r == self@.selects(*t),
    {
        let filed_under = match self.index {
            Index::Primary => t.merchant_id.as_str(),
            Index::Settlement => t.settlement_merchant_id.as_str(),
        };
        text_eq(filed_under, self.partition.as_str()) && self.bounds.holds(t.id.as_str())
    }

    /// Decides whether the scan keeps a transaction that it walks.
    pub fn keeps(&self, t: &Transaction) -> (r: bool)
        ensures
            r == self@.keeps(*t),
    {
        match self.card_brand {
            Some(b) => t.card_brand == b,
            None => true,
        }
    }
}

/// The store: transactions in rising order of their keys, no key twice, and
/// merchants.
pub struct RecordStore {
    transactions: Vec<Transaction>,
    merchants: Vec<Merchant>,
}

impl RecordStore {
    /// The transactions, lowest key first.
    pub closed spec fn transactions(&self) -> Seq<Transaction> {
        self.transactions@
    }

    /// The merchants, in the order in which they came.
    pub closed spec fn merchants(&self) -> Seq<Merchant> {
        self.merchants@
    }

    /// Whether the store is in order: the transactions' keys rise strictly.
    pub open spec fn is_valid(&self) -> bool {
        ascending(self.transactions())
    }

    /// A store that holds nothing.
    pub fn new() -> (s: RecordStore)
        ensures
            s.is_valid(),
            s.transactions().len() == 0,
            s.merchants().len() == 0,
    {
        RecordStore { transactions: Vec::new(), merchants: Vec::new() }
    }

    /// The number of transactions.
    pub fn transaction_count(&self) -> (n: usize)
        ensures
            n == self.transactions().len(),
    {
        self.transactions.len()
    }

    /// Runs a scan: walks the selection from the newest record down, up to the limit,
    /// and keeps what the card brand filter lets through.
    pub fn scan(&self, request: &ScanRequest) -> (a: ScanAnswer)
        ensures
            a.items@ == scan_items(self.transactions(), request@),
            a.continuation == scan_continues(self.transactions(), request@),
            a.items@.len() <= request.limit,
    {
        let ghost all = self.transactions@;
        let ghost scan = request@;
        let mut items: Vec<Transaction> = Vec::new();
        let mut count: u32 = 0;
        let mut i: usize = self.transactions.len();
        let mut continuation = false;
        let ghost mut done: Seq<Transaction> = Seq::empty();
        proof {
            assert(all.take(i as int) =~= all);
            assert(done + selection(all, scan) =~= selection(all, scan));
        }
        while i > 0 && !continuation
            invariant
                i <= all.len(),
                all == self.transactions@,
                scan == request@,
                selection(all, scan) == done + selection(all.take(i as int), scan),
                done.len() == count,
                count <= request.limit,
                items@ == kept(done, scan),
                items@.len() <= count,
                continuation ==> i > 0 && scan.selects(all[i - 1]) && count == request.limit,
            decreases (if continuation { 0int } else { 1int }) + i,
        {
            let t = &self.transactions[i - 1];
            proof {
                let part = all.take(i as int);
                assert(part.last() == all[i - 1]);
                assert(part.drop_last() =~= all.take(i - 1));
            }
            if request.selects(t) {
                if count == request.limit {
                    continuation = true;
                } else {
                    count = count + 1;
                    proof {
                        let grown = done.push(*t);
                        assert(grown.drop_last() =~= done);
                        assert(grown.last() == *t);
                        assert(grown + selection(all.take(i - 1), scan) =~= done + (seq![*t]
                            + selection(all.take(i - 1), scan)));
                        done = grown;
                    }
                    if request.keeps(t) {
                        items.push(t.clone());
                    }
                    i = i - 1;
                }
            } else {
                i = i - 1;
            }
        }
        proof {
            let all_selected = selection(all, scan);
            if continuation {
                let part = all.take(i as int);
                assert(part.last() == all[i - 1]);
                assert(selection(part, scan).len() > 0);
                assert(all_selected.len() > scan.limit);
                assert(all_selected.take(scan.limit as int) =~= done);
            } else {
                assert(all.take(0) =~= Seq::<Transaction>::empty());
                assert(all_selected =~= done);
            }
        }
        ScanAnswer { items, continuation }
    }

    /// Adds a transaction in the place of its key. A transaction whose key the store
    /// already holds is not added, and `false` comes back.
    pub fn add_transaction(&mut self, t: Transaction) -> (added: bool)
        requires
            old(self).is_valid(),
        ensures
            final(self).is_valid(),
            final(self).merchants() == old(self).merchants(),
            added == !exists|i: int|
                0 <= i < old(self).transactions().len() && old(self).transactions()[i].id@
                    == t.id@,
            !added ==> final(self).transactions() == old(self).transactions(),
            added ==> exists|at: int|
                0 <= at <= old(self).transactions().len() && final(self).transactions() == old(
                    self,
                ).transactions().insert(at, t),
    {
        let ghost before = self.transactions@;
        let mut at: usize = 0;
        let mut searching = true;
        while searching && at < self.transactions.len()
            invariant
                at <= self.transactions.len(),
                self.transactions@ == before,
                ascending(before),
                forall|k: int| 0 <= k < at ==> lex_lt(#[trigger] before[k].id@, t.id@),
                !searching ==> at < before.len() && !lex_lt(before[at as int].id@, t.id@),
            decreases (if searching { 1int } else { 0int }) + self.transactions.len() - at,
        {
            if text_lt(self.transactions[at].id.as_str(), t.id.as_str()) {
                at += 1;
            } else {
                searching = false;
            }
        }
        if at < self.transactions.len() && text_eq(
            self.transactions[at].id.as_str(),
            t.id.as_str(),
        ) {
            return false;
        }
        proof {
            // The key is new: below `at` the keys are lower, from `at` on they are higher.
            assert forall|k: int| at <= k < before.len() implies lex_lt(
                t.id@,
                #[trigger] before[k].id@,
            ) by {
                crate::order::lemma_lex_lt_is_not_ge(before[at as int].id@, t.id@);
                crate::order::lemma_lex_le_total(t.id@, before[at as int].id@);
                if k > at {
                    crate::order::lemma_lex_le_trans(
                        t.id@,
                        before[at as int].id@,
                        before[k].id@,
                    );
                    if t.id@ == before[k].id@ {
                        crate::order::lemma_lex_le_antisym(before[at as int].id@, t.id@);
                    }
                }
            }
            assert forall|k: int| 0 <= k < before.len() implies before[k].id@ != t.id@ by {
                crate::order::lemma_lex_le_refl(t.id@);
            }
        }
        self.transactions.insert(at, t);
        proof {
            let after = self.transactions@;
            assert(after == before.insert(at as int, t));
            assert forall|i: int, j: int| 0 <= i < j < after.len() implies lex_lt(
                after[i].id@,
                after[j].id@,
            ) by {
                let x = if i < at { i } else { i - 1 };
                let y = if j < at { j } else { j - 1 };
                if i != at && j != at {
                    assert(after[i] == before[x] && after[j] == before[y]);
                } else if i == at {
                    assert(after[j] == before[y]);
                } else {
                    assert(after[i] == before[x]);
                }
            }
        }
        true
    }

    /// Adds a merchant. A merchant whose id the store already holds is not added, and
    /// `false` comes back.
    pub fn add_merchant(&mut self, m: Merchant) -> (added: bool)
        ensures
            final(self).transactions() == old(self).transactions(),
            added == !exists|i: int|
                0 <= i < old(self).merchants().len() && old(self).merchants()[i].id@ == m.id@,
            !added ==> final(self).merchants() == old(self).merchants(),
            added ==> final(self).merchants() == old(self).merchants().push(m),
    {
        let mut i: usize = 0;
        while i < self.merchants.len()
            invariant
                i <= self.merchants.len(),
                self.merchants@ == old(self).merchants@,
                self.transactions@ == old(self).transactions@,
                forall|k: int| 0 <= k < i ==> (#[trigger] self.merchants@[k]).id@ != m.id@,
            decreases self.merchants.len() - i,
        {
            if text_eq(self.merchants[i].id.as_str(), m.id.as_str()) {
                return false;
            }
            i += 1;
        }
        self.merchants.push(m);
        true
    }

    /// The first merchant with the given id, if the store holds one.
    pub fn find_merchant(&self, id: &str) -> (r: Option<Merchant>)
        ensures
            is_merchant_found(self.merchants(), id@, r),
    {
        let mut i: usize = 0;
        while i < self.merchants.len()
            invariant
                i <= self.merchants.len(),
                forall|k: int| 0 <= k < i ==> (#[trigger] self.merchants@[k]).id@ != id@,
            decreases self.merchants.len() - i,
        {
            if text_eq(self.merchants[i].id.as_str(), id) {
                let m = self.merchants[i].clone();
                assert(self.merchants()[i as int].same_as(m));
                return Some(m);
            }
            i += 1;
        }
        None
    }
}

} // verus!
