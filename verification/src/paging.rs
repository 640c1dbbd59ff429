//! What holds of scans and of paging through them.
//!
//! The store keeps its transactions in rising order of their keys, no key twice. A
//! scan's selection is then the selected transactions in falling order, a page is a
//! beginning of it, and the scan that continues after the last record of a page
//! selects exactly what the page left.
use crate::bounds::{clamped, lemma_clamp_never_widens, Bounds};
use crate::order::{lemma_lex_le_trans, lemma_lex_lt_asym, lemma_lex_lt_trans, lex_lt};
use crate::models::Transaction;
use crate::store::{
    ascending, kept, partition_of, scan_continues, scan_items, selection, walked, Scan,
};
use vstd::prelude::*;

verus! {

/// Whether the keys fall strictly along `s`.
pub open spec fn descending(s: Seq<Transaction>) -> bool {
    forall|i: int, j: int|
        #![trigger s[i], s[j]]
        0 <= i < j < s.len() ==> lex_lt(s[j].id@, s[i].id@)
}

/// The scan that continues `scan` after the record with key `key`: the same scan with
/// `key` as its upper end, left out.
pub open spec fn continued(scan: Scan, key: Seq<char>) -> Scan {
    Scan {
        bounds: Bounds {
            lower: scan.bounds.lower,
            lower_open: scan.bounds.lower_open,
            upper: key,
            upper_open: true,
        },
        ..scan
    }
}

/// What is left of `s` from its first record with a key below `key` on.
pub open spec fn from_below(s: Seq<Transaction>, key: Seq<char>) -> Seq<Transaction>
    decreases s.len(),
{
    if s.len() == 0 || lex_lt(s[0].id@, key) {
        s
    } else {
        from_below(s.drop_first(), key)
    }
}

/// The records that a caller gathers who asks for page after page, each time
/// continuing after the last record of the page before, until a page says that
/// nothing is left, for at most `rounds` further pages.
pub open spec fn pages_from(records: Seq<Transaction>, scan: Scan, rounds: nat) -> Seq<Transaction>
    decreases rounds,
{
    let items = scan_items(records, scan);
    if rounds == 0 || !scan_continues(records, scan) || items.len() == 0 {
        items
    } else {
        items + pages_from(records, continued(scan, items.last().id@), (rounds - 1) as nat)
    }
}

/// Whether the caller of `pages_from` comes to an end: within `rounds` further pages
/// a page says that nothing is left, and every page before it has a record to
/// continue after.
pub open spec fn paging_ends(records: Seq<Transaction>, scan: Scan, rounds: nat) -> bool
    decreases rounds,
{
    let items = scan_items(records, scan);
    if !scan_continues(records, scan) {
        true
    } else if rounds == 0 || items.len() == 0 {
        false
    } else {
        paging_ends(records, continued(scan, items.last().id@), (rounds - 1) as nat)
    }
}

/// A scan's selection holds exactly the transactions of the store that the scan
/// selects.
pub proof fn lemma_selection_contains(records: Seq<Transaction>, scan: Scan, t: Transaction)
    ensures
        selection(records, scan).contains(t) <==> (records.contains(t) && scan.selects(t)),
    decreases records.len(),
{
    if records.len() > 0 {
        let init = records.drop_last();
        let last = records.last();
        let rest = selection(init, scan);
        let sel = selection(records, scan);
        lemma_selection_contains(init, scan, t);
        if sel.contains(t) {
            let i = choose|i: int| 0 <= i < sel.len() && sel[i] == t;
            if scan.selects(last) {
                if i == 0 {
                    assert(records[records.len() - 1] == t);
                } else {
                    assert(rest[i - 1] == t);
                }
            }
            if rest.contains(t) {
                let j = choose|j: int| 0 <= j < init.len() && init[j] == t;
                assert(records[j] == t);
            }
        }
        if records.contains(t) && scan.selects(t) {
            let j = choose|j: int| 0 <= j < records.len() && records[j] == t;
            if j == records.len() - 1 {
                assert(sel[0] == t);
            } else {
                assert(init[j] == t);
                let i = choose|i: int| 0 <= i < rest.len() && rest[i] == t;
                if scan.selects(last) {
                    assert(sel[i + 1] == t);
                } else {
                    assert(sel[i] == t);
                }
            }
        }
    }
}

/// The selection of a scan over a store in order falls strictly: no record comes
/// twice.
pub proof fn lemma_selection_descends(records: Seq<Transaction>, scan: Scan)
    requires
        ascending(records),
    ensures
        descending(selection(records, scan)),
    decreases records.len(),
{
    if records.len() > 0 {
        let init = records.drop_last();
        let last = records.last();
        let rest = selection(init, scan);
        let sel = selection(records, scan);
        assert(ascending(init)) by {
            assert forall|i: int, j: int|
                #![trigger init[i], init[j]]
                0 <= i < j < init.len() implies lex_lt(init[i].id@, init[j].id@) by {
                assert(init[i] == records[i] && init[j] == records[j]);
            }
        }
        lemma_selection_descends(init, scan);
        if scan.selects(last) {
            assert forall|i: int, j: int|
                #![trigger sel[i], sel[j]]
                0 <= i < j < sel.len() implies lex_lt(sel[j].id@, sel[i].id@) by {
                assert(sel[j] == rest[j - 1]);
                if i == 0 {
                    lemma_selection_contains(init, scan, rest[j - 1]);
                    assert(rest.contains(rest[j - 1]));
                    let k = choose|k: int| 0 <= k < init.len() && init[k] == rest[j - 1];
                    assert(records[k] == init[k]);
                    assert(lex_lt(records[k].id@, records[records.len() - 1].id@));
                } else {
                    assert(sel[i] == rest[i - 1]);
                }
            }
        }
    }
}

/// A scan that continues after a key selects what the scan selected and lies below
/// the key, provided the key was within the scan's bounds.
pub proof fn lemma_continued_selects(scan: Scan, key: Seq<char>, t: Transaction)
    requires
        scan.bounds.holds(key),
    ensures
        continued(scan, key).selects(t) <==> (scan.selects(t) && lex_lt(t.id@, key)),
{
    if lex_lt(t.id@, key) {
        if scan.bounds.upper_open {
            lemma_lex_lt_trans(t.id@, key, scan.bounds.upper);
        } else {
            lemma_lex_le_trans(t.id@, key, scan.bounds.upper);
        }
    }
}

/// Over records that all lie below a key, continuing after the key changes nothing.
proof fn lemma_continued_above_all(records: Seq<Transaction>, scan: Scan, key: Seq<char>)
    requires
        scan.bounds.holds(key),
        forall|i: int| 0 <= i < records.len() ==> lex_lt(#[trigger] records[i].id@, key),
    ensures
        selection(records, continued(scan, key)) == selection(records, scan),
    decreases records.len(),
{
    if records.len() > 0 {
        let init = records.drop_last();
        assert forall|i: int| 0 <= i < init.len() implies lex_lt(#[trigger] init[i].id@, key) by {
            assert(init[i] == records[i]);
        }
        lemma_continued_above_all(init, scan, key);
        lemma_continued_selects(scan, key, records.last());
        assert(lex_lt(records[records.len() - 1].id@, key));
    }
}

/// The scan that continues after a key selects the part of the selection from its
/// first record below the key on.
pub proof fn lemma_selection_continued(records: Seq<Transaction>, scan: Scan, key: Seq<char>)
    requires
        ascending(records),
        scan.bounds.holds(key),
    ensures
        selection(records, continued(scan, key)) == from_below(selection(records, scan), key),
    decreases records.len(),
{
    if records.len() > 0 {
        let init = records.drop_last();
        let last = records.last();
        let rest = selection(init, scan);
        assert(ascending(init)) by {
            assert forall|i: int, j: int|
                #![trigger init[i], init[j]]
                0 <= i < j < init.len() implies lex_lt(init[i].id@, init[j].id@) by {
                assert(init[i] == records[i] && init[j] == records[j]);
            }
        }
        lemma_selection_continued(init, scan, key);
        lemma_continued_selects(scan, key, last);
        if scan.selects(last) {
            let sel = seq![last] + rest;
            assert(sel[0] == last);
            if lex_lt(last.id@, key) {
                assert forall|i: int| 0 <= i < init.len() implies lex_lt(
                    #[trigger] init[i].id@,
                    key,
                ) by {
                    assert(init[i] == records[i]);
                    assert(lex_lt(records[i].id@, records[records.len() - 1].id@));
                    lemma_lex_lt_trans(init[i].id@, last.id@, key);
                }
                lemma_continued_above_all(init, scan, key);
            } else {
                assert(sel.drop_first() =~= rest);
            }
        }
    }
}

/// In a sequence that falls strictly, what lies below the key of a record is what
/// follows the record.
pub proof fn lemma_from_below_own_key(s: Seq<Transaction>, i: int)
    requires
        descending(s),
        0 <= i < s.len(),
    ensures
        from_below(s, s[i].id@) == s.skip(i + 1),
    decreases i,
{
    let key = s[i].id@;
    let tail = s.drop_first();
    assert(descending(tail)) by {
        assert forall|a: int, b: int|
            #![trigger tail[a], tail[b]]
            0 <= a < b < tail.len() implies lex_lt(tail[b].id@, tail[a].id@) by {
            assert(tail[a] == s[a + 1] && tail[b] == s[b + 1]);
        }
    }
    lemma_lex_lt_asym(s[0].id@, key);
    if i == 0 {
        reveal_with_fuel(from_below, 2);
        if tail.len() > 0 {
            assert(tail[0] == s[1]);
            assert(lex_lt(s[1].id@, s[0].id@));
        }
        assert(tail =~= s.skip(1));
    } else {
        assert(lex_lt(s[i].id@, s[0].id@));
        assert(tail[i - 1] == s[i]);
        lemma_from_below_own_key(tail, i - 1);
        assert(tail.skip(i) =~= s.skip(i + 1));
    }
}

/// A scan without a card brand filter keeps all that it walks.
pub proof fn lemma_kept_without_filter(s: Seq<Transaction>, scan: Scan)
    requires
        scan.card_brand is None,
    ensures
        kept(s, scan) == s,
    decreases s.len(),
{
    if s.len() > 0 {
        lemma_kept_without_filter(s.drop_last(), scan);
        assert(s.drop_last().push(s.last()) =~= s);
    }
}

/// What a scan keeps is among what it walked, and passes its filter.
pub proof fn lemma_kept_contains(s: Seq<Transaction>, scan: Scan, t: Transaction)
    ensures
        kept(s, scan).contains(t) <==> (s.contains(t) && scan.keeps(t)),
    decreases s.len(),
{
    if s.len() > 0 {
        let init = s.drop_last();
        let last = s.last();
        let before = kept(init, scan);
        let all = kept(s, scan);
        lemma_kept_contains(init, scan, t);
        if all.contains(t) {
            let i = choose|i: int| 0 <= i < all.len() && all[i] == t;
            if scan.keeps(last) && i == before.len() {
                assert(s[s.len() - 1] == t);
            } else {
                assert(before[i] == t);
                let j = choose|j: int| 0 <= j < init.len() && init[j] == t;
                assert(s[j] == t);
            }
        }
        if s.contains(t) && scan.keeps(t) {
            let j = choose|j: int| 0 <= j < s.len() && s[j] == t;
            if j == s.len() - 1 {
                assert(all[all.len() - 1] == t);
            } else {
                assert(init[j] == t);
                let i = choose|i: int| 0 <= i < before.len() && before[i] == t;
                assert(all[i] == t);
            }
        }
    }
}

/// Every record that a scan gives is a transaction of the store, filed under the
/// merchant looked for in the scan's index, with its key within the bounds and its
/// card brand as asked for. A scan by the secondary index thus gives no transaction
/// that is settled to another merchant, whoever made it.
pub proof fn lemma_scan_gives_only_selected(records: Seq<Transaction>, scan: Scan, t: Transaction)
    requires
        scan_items(records, scan).contains(t),
    ensures
        records.contains(t),
        partition_of(scan.index, t) == scan.partition,
        scan.bounds.holds(t.id@),
        scan.keeps(t),
{
    let sel = selection(records, scan);
    let w = walked(records, scan);
    lemma_kept_contains(w, scan, t);
    let i = choose|i: int| 0 <= i < w.len() && w[i] == t;
    assert(sel[i] == t);
    lemma_selection_contains(records, scan, t);
}

/// A scan that says that nothing is left, and has no card brand filter, gives
/// exactly the transactions of the store that it selects.
pub proof fn lemma_last_scan_gives_all_selected(
    records: Seq<Transaction>,
    scan: Scan,
    t: Transaction,
)
    requires
        !scan_continues(records, scan),
        scan.card_brand is None,
    ensures
        scan_items(records, scan).contains(t) <==> (records.contains(t) && scan.selects(t)),
{
    lemma_kept_without_filter(walked(records, scan), scan);
    lemma_selection_contains(records, scan, t);
}

/// A scan says that records are left exactly when the store holds a transaction that
/// the scan selects and has not walked. Without a card brand filter the records
/// walked are the records given.
pub proof fn lemma_continuation_means_unwalked(records: Seq<Transaction>, scan: Scan)
    requires
        ascending(records),
    ensures
        scan_continues(records, scan) <==> exists|t: Transaction|
            records.contains(t) && scan.selects(t) && !walked(records, scan).contains(t),
        scan.card_brand is None ==> scan_items(records, scan) == walked(records, scan),
{
    let sel = selection(records, scan);
    let w = walked(records, scan);
    lemma_selection_descends(records, scan);
    if scan.card_brand is None {
        lemma_kept_without_filter(w, scan);
    }
    if scan_continues(records, scan) {
        let t = sel[scan.limit as int];
        assert(sel.contains(t));
        lemma_selection_contains(records, scan, t);
        if w.contains(t) {
            let i = choose|i: int| 0 <= i < w.len() && w[i] == t;
            assert(sel[i] == t);
            assert(lex_lt(sel[scan.limit as int].id@, sel[i].id@));
            lemma_lex_lt_asym(t.id@, t.id@);
        }
        assert(records.contains(t) && scan.selects(t) && !w.contains(t));
    } else {
        assert forall|t: Transaction| records.contains(t) && scan.selects(t) implies w.contains(
            t,
        ) by {
            lemma_selection_contains(records, scan, t);
        }
    }
}

/// What a scan keeps of two stretches put together is what it keeps of the one, then
/// what it keeps of the other.
pub proof fn lemma_kept_concat(a: Seq<Transaction>, b: Seq<Transaction>, scan: Scan)
    ensures
        kept(a + b, scan) == kept(a, scan) + kept(b, scan),
    decreases b.len(),
{
    if b.len() == 0 {
        assert(a + b =~= a);
        assert(kept(a, scan) + kept(b, scan) =~= kept(a, scan));
    } else {
        assert((a + b).drop_last() =~= a + b.drop_last());
        assert((a + b).last() == b.last());
        lemma_kept_concat(a, b.drop_last(), scan);
        assert(kept(a, scan) + kept(b.drop_last(), scan).push(b.last()) =~= (kept(a, scan)
            + kept(b.drop_last(), scan)).push(b.last()));
    }
}

/// Two scans with the same card brand filter keep the same.
pub proof fn lemma_kept_same_filter(s: Seq<Transaction>, a: Scan, b: Scan)
    requires
        a.card_brand == b.card_brand,
    ensures
        kept(s, a) == kept(s, b),
    decreases s.len(),
{
    if s.len() > 0 {
        lemma_kept_same_filter(s.drop_last(), a, b);
    }
}

/// Where a scan keeps anything of what it walked, the last record kept stands
/// somewhere among the walked, and nothing after it is kept. The place comes back.
pub proof fn lemma_last_kept(w: Seq<Transaction>, scan: Scan) -> (j: int)
    requires
        kept(w, scan).len() > 0,
    ensures
        0 <= j < w.len(),
        w[j] == kept(w, scan).last(),
        kept(w.take(j + 1), scan) == kept(w, scan),
    decreases w.len(),
{
    if scan.keeps(w.last()) {
        assert(w.take(w.len() as int) =~= w);
        w.len() - 1
    } else {
        let init = w.drop_last();
        let j = lemma_last_kept(init, scan);
        assert(init.take(j + 1) =~= w.take(j + 1));
        j
    }
}

/// What a scan keeps of records that fall strictly falls strictly.
pub proof fn lemma_kept_descends(s: Seq<Transaction>, scan: Scan)
    requires
        descending(s),
    ensures
        descending(kept(s, scan)),
    decreases s.len(),
{
    if s.len() > 0 {
        let init = s.drop_last();
        let before = kept(init, scan);
        let all = kept(s, scan);
        assert(descending(init)) by {
            assert forall|i: int, j: int|
                #![trigger init[i], init[j]]
                0 <= i < j < init.len() implies lex_lt(init[j].id@, init[i].id@) by {
                assert(init[i] == s[i] && init[j] == s[j]);
            }
        }
        lemma_kept_descends(init, scan);
        if scan.keeps(s.last()) {
            assert forall|i: int, j: int|
                #![trigger all[i], all[j]]
                0 <= i < j < all.len() implies lex_lt(all[j].id@, all[i].id@) by {
                assert(all[i] == before[i]);
                if j == before.len() {
                    lemma_kept_contains(init, scan, before[i]);
                    assert(before.contains(before[i]));
                    let k = choose|k: int| 0 <= k < init.len() && init[k] == before[i];
                    assert(s[k] == init[k]);
                    assert(lex_lt(s[s.len() - 1].id@, s[k].id@));
                } else {
                    assert(all[j] == before[j]);
                }
            }
        }
    }
}

/// Paging forward gathers every record that matches once, newest first: a caller who
/// continues after the last record of each page, until a page says that nothing is
/// left, has in the end exactly the records of the scan's whole selection that the
/// scan keeps, in their falling order, none twice and none left out.
pub proof fn lemma_forward_paging_gathers_selection(
    records: Seq<Transaction>,
    scan: Scan,
    rounds: nat,
)
    requires
        ascending(records),
        paging_ends(records, scan, rounds),
    ensures
        pages_from(records, scan, rounds) == kept(selection(records, scan), scan),
        descending(kept(selection(records, scan), scan)),
    decreases rounds,
{
    let sel = selection(records, scan);
    let w = walked(records, scan);
    let items = scan_items(records, scan);
    lemma_selection_descends(records, scan);
    lemma_kept_descends(sel, scan);
    if scan_continues(records, scan) {
        let j = lemma_last_kept(w, scan);
        let last = items.last();
        assert(last == sel[j]);
        assert(sel.contains(last));
        lemma_selection_contains(records, scan, last);
        let next = continued(scan, last.id@);
        lemma_selection_continued(records, scan, last.id@);
        lemma_from_below_own_key(sel, j);
        assert(selection(records, next) == sel.skip(j + 1));
        lemma_forward_paging_gathers_selection(records, next, (rounds - 1) as nat);
        lemma_kept_same_filter(sel.skip(j + 1), next, scan);
        assert(w.take(j + 1) =~= sel.take(j + 1));
        lemma_kept_concat(sel.take(j + 1), sel.skip(j + 1), scan);
        assert(sel.take(j + 1) + sel.skip(j + 1) =~= sel);
    }
}

/// Without a card brand filter paging forward always comes to an end, after no more
/// pages than there are records selected, and gathers the scan's whole selection.
pub proof fn lemma_paging_ends_without_filter(records: Seq<Transaction>, scan: Scan, rounds: nat)
    requires
        ascending(records),
        scan.card_brand is None,
        scan.limit > 0,
        rounds >= selection(records, scan).len(),
    ensures
        paging_ends(records, scan, rounds),
        pages_from(records, scan, rounds) == selection(records, scan),
    decreases rounds,
{
    let sel = selection(records, scan);
    let w = walked(records, scan);
    lemma_selection_descends(records, scan);
    lemma_kept_without_filter(w, scan);
    lemma_kept_without_filter(sel, scan);
    if scan_continues(records, scan) {
        let last = w.last();
        assert(last == sel[scan.limit - 1]);
        assert(sel.contains(last));
        lemma_selection_contains(records, scan, last);
        let next = continued(scan, last.id@);
        lemma_selection_continued(records, scan, last.id@);
        lemma_from_below_own_key(sel, scan.limit - 1);
        assert(selection(records, next) == sel.skip(scan.limit as int));
        lemma_paging_ends_without_filter(records, next, (rounds - 1) as nat);
    }
    lemma_forward_paging_gathers_selection(records, scan, rounds);
}

/// The scan that continues after a key is the scan that the clamp makes when the key
/// comes back as the cursor to continue after, provided the key was within the
/// bounds of the scan before.
pub proof fn lemma_clamp_continues(
    lower: Seq<char>,
    upper: Seq<char>,
    after: Option<Seq<char>>,
    before: Option<Seq<char>>,
    key: Seq<char>,
)
    requires
        clamped(lower, upper, after, before).holds(key),
    ensures
        clamped(lower, upper, Some(key), before) == (Bounds {
            upper: key,
            upper_open: true,
            ..clamped(lower, upper, after, before)
        }),
{
    lemma_clamp_never_widens(lower, upper, after, before, key);
}

/// What a scan keeps is no longer than what it walked.
pub proof fn lemma_kept_is_no_longer(s: Seq<Transaction>, scan: Scan)
    ensures
        kept(s, scan).len() <= s.len(),
    decreases s.len(),
{
    if s.len() > 0 {
        lemma_kept_is_no_longer(s.drop_last(), scan);
    }
}

/// A scan gives no more records than its limit, with or without a card brand
/// filter.
pub proof fn lemma_scan_is_within_limit(records: Seq<Transaction>, scan: Scan)
    ensures
        walked(records, scan).len() <= scan.limit,
        scan_items(records, scan).len() <= scan.limit,
{
    lemma_kept_is_no_longer(walked(records, scan), scan);
}

/// A scan that selects nothing gives nothing and says that nothing is left.
pub proof fn lemma_nothing_selected_gives_nothing(records: Seq<Transaction>, scan: Scan)
    requires
        forall|i: int| 0 <= i < records.len() ==> !scan.selects(#[trigger] records[i]),
    ensures
        scan_items(records, scan).len() == 0,
        !scan_continues(records, scan),
{
    let sel = selection(records, scan);
    if sel.len() > 0 {
        assert(sel.contains(sel[0]));
        lemma_selection_contains(records, scan, sel[0]);
    }
    lemma_kept_is_no_longer(walked(records, scan), scan);
}

} // verus!
