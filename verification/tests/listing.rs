use merchant_txns::error::QueryError;
use merchant_txns::keys::{encode_sort_key, RecordKind};
use merchant_txns::models::{CardBrand, Transaction, TransactionStatus, TransactionType};
use merchant_txns::page::{Page, Query};
use merchant_txns::query::{
    get_transactions,
    get_transactions_at, get_transactions_for_settlement_merchant, plan_transactions,
};
use merchant_txns::store::{Index, RecordStore};
use merchant_txns::timestamp::Timestamp;

fn noon(year: i32, month: u32, day: u32) -> Timestamp {
    Timestamp { year, month, day, hour: 12, minute: 0, second: 0 }
}

fn transaction(
    merchant: &str,
    settled_to: &str,
    year: i32,
    month: u32,
    day: u32,
    suffix: &str,
    brand: CardBrand,
) -> Transaction {
    let at = Timestamp { year, month, day, hour: 0, minute: 0, second: 0 };
    Transaction {
        id: encode_sort_key(RecordKind::Transaction, &at, suffix).unwrap(),
        merchant_id: merchant.to_string(),
        settlement_merchant_id: settled_to.to_string(),
        transaction_type: TransactionType::Online,
        status: TransactionStatus::Successful,
        amount: "12.50".to_string(),
        currency: "GBP".to_string(),
        pan: "4242".to_string(),
        card_brand: brand,
        date_transaction: at.to_text().unwrap(),
        date_settlement: at.to_text().unwrap(),
        payout_id: "PAYOUT#1".to_string(),
        created_at: 1_735_689_600_000 + i64::from(day),
    }
}

fn january_store() -> RecordStore {
    let mut store = RecordStore::new();
    for day in [3, 1, 5, 2, 4] {
        assert!(store.add_transaction(transaction("X", "X", 2025, 1, day, "1", CardBrand::Visa)));
    }
    store
}

fn days(page: &Page) -> Vec<String> {
    page.edges.iter().map(|e| e.node.id[17..22].to_string()).collect()
}

fn text(s: &str) -> Option<String> {
    Some(s.to_string())
}

#[test]
fn first_page_of_a_year_holds_the_newest_records() {
    let store = january_store();
    let now = noon(2025, 6, 1);
    let page = Query
        .transactions_at(
            &store,
            None,
            None,
            Some(3),
            None,
            "X".to_string(),
            text("2025"),
            None,
            None,
            None,
            &now,
        )
        .unwrap();
    assert_eq!(days(&page), vec!["01-05", "01-04", "01-03"]);
    assert!(page.has_next_page);
    assert!(!page.has_previous_page);
}

#[test]
fn second_page_follows_the_cursor_of_the_last_record() {
    let store = january_store();
    let now = noon(2025, 6, 1);
    let first = Query
        .transactions_at(
            &store,
            None,
            None,
            Some(3),
            None,
            "X".to_string(),
            text("2025"),
            None,
            None,
            None,
            &now,
        )
        .unwrap();
    let cursor = first.edges[2].cursor.clone();
    let second = Query
        .transactions_at(
            &store,
            Some(cursor),
            None,
            Some(3),
            None,
            "X".to_string(),
            text("2025"),
            None,
            None,
            None,
            &now,
        )
        .unwrap();
    assert_eq!(days(&second), vec!["01-02", "01-01"]);
    assert!(!second.has_next_page);
    assert!(second.has_previous_page);
}

#[test]
fn month_without_records_gives_an_empty_page() {
    let store = january_store();
    let now = noon(2025, 6, 1);
    let page = Query
        .transactions_at(
            &store,
            None,
            None,
            None,
            None,
            "X".to_string(),
            text("2025"),
            text("2"),
            None,
            None,
            &now,
        )
        .unwrap();
    assert!(page.edges.is_empty());
    assert!(!page.has_next_page);
    assert!(!page.has_previous_page);
}

#[test]
fn paging_forward_gathers_every_record_once() {
    let mut store = RecordStore::new();
    for month in 1..=12 {
        for day in [1, 15, 28] {
            assert!(store.add_transaction(transaction(
                "X",
                "X",
                2025,
                month,
                day,
                "1",
                CardBrand::Visa
            )));
        }
    }
    assert!(store.add_transaction(transaction("Y", "Y", 2025, 3, 3, "1", CardBrand::Visa)));
    assert!(store.add_transaction(transaction("X", "X", 2024, 12, 31, "1", CardBrand::Visa)));
    let now = noon(2026, 1, 1);
    let mut seen: Vec<String> = Vec::new();
    let mut after: Option<String> = None;
    let mut pages = 0;
    loop {
        let page = Query
            .transactions_at(
                &store,
                after.clone(),
                None,
                Some(5),
                None,
                "X".to_string(),
                text("2025"),
                None,
                None,
                None,
                &now,
            )
            .unwrap();
        pages += 1;
        for edge in &page.edges {
            seen.push(edge.node.id.clone());
        }
        if !page.has_next_page {
            break;
        }
        after = Some(page.edges.last().unwrap().cursor.clone());
    }
    assert_eq!(pages, 8);
    assert_eq!(seen.len(), 36);
    for pair in seen.windows(2) {
        assert!(pair[0] > pair[1]);
    }
    assert_eq!(seen[0], "TRANSACTION#2025-12-28T00:00:00+00:00#1");
    assert_eq!(seen[35], "TRANSACTION#2025-01-01T00:00:00+00:00#1");
}

#[test]
fn next_page_sign_is_false_when_the_page_takes_the_last_record() {
    let store = january_store();
    let now = noon(2025, 6, 1);
    let (records, more) = get_transactions_at(
        &store,
        "X".to_string(),
        text("2025"),
        None,
        None,
        None,
        None,
        None,
        5,
        &now,
    )
    .unwrap();
    assert_eq!(records.len(), 5);
    assert!(!more);
    let (records, more) = get_transactions_at(
        &store,
        "X".to_string(),
        text("2025"),
        None,
        None,
        None,
        None,
        None,
        4,
        &now,
    )
    .unwrap();
    assert_eq!(records.len(), 4);
    assert!(more);
}

#[test]
fn same_request_gives_the_same_page() {
    let store = january_store();
    let now = noon(2025, 6, 1);
    let ask = || {
        Query
            .transactions_at(
                &store,
                None,
                None,
                Some(2),
                None,
                "X".to_string(),
                text("2025"),
                text("01"),
                None,
                None,
                &now,
            )
            .unwrap()
    };
    let (a, b) = (ask(), ask());
    assert_eq!(days(&a), days(&b));
    assert_eq!(days(&a), vec!["01-05", "01-04"]);
    let cursors = |p: &Page| p.edges.iter().map(|e| e.cursor.clone()).collect::<Vec<_>>();
    assert_eq!(cursors(&a), cursors(&b));
    assert_eq!(a.has_next_page, b.has_next_page);
    assert_eq!(a.has_previous_page, b.has_previous_page);
}

#[test]
fn settlement_listing_goes_by_the_merchant_that_is_paid() {
    let mut store = RecordStore::new();
    assert!(store.add_transaction(transaction("A", "M", 2025, 1, 1, "1", CardBrand::Visa)));
    assert!(store.add_transaction(transaction("B", "M", 2025, 1, 2, "1", CardBrand::Amex)));
    assert!(store.add_transaction(transaction("M", "Z", 2025, 1, 3, "1", CardBrand::Visa)));
    assert!(store.add_transaction(transaction("M", "M", 2025, 1, 4, "1", CardBrand::Visa)));
    let (records, more) =
        get_transactions_for_settlement_merchant(&store, "M".to_string(), None, None, 10).unwrap();
    let owners: Vec<&str> = records.iter().map(|t| t.merchant_id.as_str()).collect();
    assert_eq!(owners, vec!["M", "B", "A"]);
    assert!(records.iter().all(|t| t.settlement_merchant_id == "M"));
    assert!(!more);
    let page = Query
        .settlement_transactions(&store, None, None, Some(2), None, "M".to_string())
        .unwrap();
    assert_eq!(days(&page), vec!["01-04", "01-02"]);
    assert!(page.has_next_page);
    let next = Query
        .settlement_transactions(
            &store,
            Some(page.edges[1].cursor.clone()),
            None,
            Some(2),
            None,
            "M".to_string(),
        )
        .unwrap();
    assert_eq!(days(&next), vec!["01-01"]);
    assert!(!next.has_next_page);
}

#[test]
fn card_brand_filter_keeps_the_limit_on_the_records_walked() {
    let mut store = RecordStore::new();
    assert!(store.add_transaction(transaction("X", "X", 2025, 1, 1, "1", CardBrand::Amex)));
    assert!(store.add_transaction(transaction("X", "X", 2025, 1, 2, "1", CardBrand::Visa)));
    assert!(store.add_transaction(transaction("X", "X", 2025, 1, 3, "1", CardBrand::Amex)));
    assert!(store.add_transaction(transaction("X", "X", 2025, 1, 4, "1", CardBrand::Visa)));
    let now = noon(2025, 6, 1);
    let (records, more) = get_transactions_at(
        &store,
        "X".to_string(),
        text("2025"),
        None,
        None,
        Some(CardBrand::Amex),
        None,
        None,
        2,
        &now,
    )
    .unwrap();
    assert_eq!(records.len(), 1);
    assert_eq!(records[0].id, "TRANSACTION#2025-01-03T00:00:00+00:00#1");
    assert!(more);
}

#[test]
fn before_cursor_leaves_out_its_own_record_and_all_below() {
    let store = january_store();
    let now = noon(2025, 6, 1);
    let (records, more) = get_transactions_at(
        &store,
        "X".to_string(),
        text("2025"),
        None,
        None,
        None,
        None,
        text("TRANSACTION#2025-01-03T00:00:00+00:00#1"),
        10,
        &now,
    )
    .unwrap();
    let ids: Vec<&str> = records.iter().map(|t| &t.id[17..22]).collect();
    assert_eq!(ids, vec!["01-05", "01-04"]);
    assert!(!more);
}

#[test]
fn no_filter_lists_all_time_before_now() {
    let store = january_store();
    let (records, _) = get_transactions_at(
        &store,
        "X".to_string(),
        None,
        None,
        None,
        None,
        None,
        None,
        10,
        &Timestamp { year: 2025, month: 1, day: 3, hour: 0, minute: 0, second: 0 },
    )
    .unwrap();
    let ids: Vec<&str> = records.iter().map(|t| &t.id[17..22]).collect();
    assert_eq!(ids, vec!["01-02", "01-01"]);
    let (records, _) = get_transactions_at(
        &store,
        "X".to_string(),
        None,
        None,
        None,
        None,
        None,
        None,
        10,
        &Timestamp { year: 2025, month: 1, day: 3, hour: 0, minute: 0, second: 1 },
    )
    .unwrap();
    assert_eq!(records.len(), 3);
}

#[test]
fn limit_that_is_not_positive_is_a_validation_error() {
    let store = january_store();
    let now = noon(2025, 6, 1);
    for limit in [0, -1] {
        let r = Query.transactions_at(
            &store,
            Some("not a cursor".to_string()),
            None,
            Some(limit),
            None,
            "X".to_string(),
            text("x"),
            None,
            None,
            None,
            &now,
        );
        assert_eq!(r.err(), Some(QueryError::Validation));
    }
    let r = Query.settlement_transactions(&store, None, None, None, Some(0), "X".to_string());
    assert_eq!(r.err(), Some(QueryError::Validation));
}

#[test]
fn limit_defaults_to_ten() {
    let mut store = RecordStore::new();
    for day in 1..=12 {
        assert!(store.add_transaction(transaction("X", "X", 2025, 1, day, "1", CardBrand::Visa)));
    }
    let now = noon(2025, 6, 1);
    let page = Query
        .transactions_at(
            &store,
            None,
            None,
            None,
            None,
            "X".to_string(),
            text("2025"),
            None,
            None,
            None,
            &now,
        )
        .unwrap();
    assert_eq!(page.edges.len(), 10);
    assert!(page.has_next_page);
    let page = Query
        .transactions_at(
            &store,
            None,
            None,
            None,
            Some(11),
            "X".to_string(),
            text("2025"),
            None,
            None,
            None,
            &now,
        )
        .unwrap();
    assert_eq!(page.edges.len(), 11);
}

#[test]
fn unreadable_cursor_is_an_invalid_cursor_error() {
    let store = january_store();
    let now = noon(2025, 6, 1);
    let r = Query.transactions_at(
        &store,
        Some("@@@".to_string()),
        None,
        Some(3),
        None,
        "X".to_string(),
        text("2025"),
        None,
        None,
        None,
        &now,
    );
    assert_eq!(r.err(), Some(QueryError::InvalidCursor));
    let r = Query.transactions_at(
        &store,
        None,
        Some("@@@".to_string()),
        Some(3),
        None,
        "X".to_string(),
        text("2025"),
        None,
        None,
        None,
        &now,
    );
    assert_eq!(r.err(), Some(QueryError::InvalidCursor));
}

#[test]
fn filter_that_is_no_number_is_an_encoding_error() {
    let now = noon(2025, 6, 1);
    let plan = |year: &str, month: Option<&str>, day: Option<&str>| {
        plan_transactions(
            "X".to_string(),
            text(year),
            month.map(str::to_string),
            day.map(str::to_string),
            None,
            None,
            None,
            10,
            &now,
        )
        .err()
    };
    assert_eq!(plan("twenty", None, None), Some(QueryError::Encoding));
    assert_eq!(plan("2025", Some("Jan"), None), Some(QueryError::Encoding));
    assert_eq!(plan("2025", Some("13"), None), Some(QueryError::Encoding));
    assert_eq!(plan("2025", Some("1"), Some("32")), Some(QueryError::Encoding));
    assert_eq!(plan("10000", None, None), Some(QueryError::Encoding));
    assert_eq!(plan("2025", Some("2"), Some("29")), Some(QueryError::Validation));
    assert_eq!(plan("2025", Some("4"), Some("31")), Some(QueryError::Validation));
    assert_eq!(plan("2024", Some("2"), Some("29")), None);
}

#[test]
fn plan_names_index_partition_bounds_and_limit() {
    let now = noon(2025, 6, 1);
    let request = plan_transactions(
        "X".to_string(),
        text("2025"),
        text("1"),
        None,
        Some(CardBrand::Visa),
        text("TRANSACTION#2025-01-20"),
        text("TRANSACTION#2025-01-10"),
        7,
        &now,
    )
    .unwrap();
    assert_eq!(request.index, Index::Primary);
    assert_eq!(request.partition, "X");
    assert_eq!(request.bounds.lower, "TRANSACTION#2025-01-10");
    assert!(request.bounds.lower_open);
    assert_eq!(request.bounds.upper, "TRANSACTION#2025-01-20");
    assert!(request.bounds.upper_open);
    assert_eq!(request.card_brand, Some(CardBrand::Visa));
    assert_eq!(request.limit, 7);
}

#[test]
fn store_keeps_one_record_per_key() {
    let mut store = january_store();
    assert!(!store.add_transaction(transaction("Y", "Y", 2025, 1, 3, "1", CardBrand::Amex)));
    assert_eq!(store.transaction_count(), 5);
    assert!(store.add_transaction(transaction("Y", "Y", 2025, 1, 3, "2", CardBrand::Amex)));
    assert_eq!(store.transaction_count(), 6);
}

#[test]
fn listing_by_the_clock_is_the_listing_at_some_time() {
    let store = january_store();
    let (records, more) = get_transactions(
        &store,
        "X".to_string(),
        text("2025"),
        text("1"),
        None,
        None,
        None,
        None,
        2,
    )
    .unwrap();
    let ids: Vec<&str> = records.iter().map(|t| &t.id[17..22]).collect();
    assert_eq!(ids, vec!["01-05", "01-04"]);
    assert!(more);
    let page = Query
        .transactions(
            &store,
            None,
            None,
            None,
            None,
            "X".to_string(),
            text("2025"),
            text("1"),
            text("3"),
            None,
        )
        .unwrap();
    assert_eq!(days(&page), vec!["01-03"]);
    assert!(!page.has_next_page);
    let all_time = Query
        .transactions(&store, None, None, None, None, "X".to_string(), None, None, None, None)
        .unwrap();
    assert_eq!(all_time.edges.len(), 5);
}

#[test]
fn planned_scan_is_run_on_the_store() {
    let store = january_store();
    let now = noon(2025, 6, 1);
    let plan = Query.plan_transactions_at(
        None,
        None,
        Some(2),
        None,
        "X".to_string(),
        text("2025"),
        None,
        None,
        None,
        &now,
    );
    let request = plan.unwrap();
    let answer = store.scan(&request);
    assert_eq!(answer.items.len(), 2);
    assert!(answer.continuation);
    let page = Query.run(&store, Ok(request), true).unwrap();
    assert_eq!(days(&page), vec!["01-05", "01-04"]);
    assert!(page.has_previous_page);
    assert_eq!(Query.run(&store, Err(QueryError::Storage), false).err(), Some(QueryError::Storage));
    let settled = Query
        .plan_settlement_transactions(None, None, None, None, "X".to_string())
        .unwrap();
    assert_eq!(settled.index, Index::Settlement);
    assert_eq!(settled.bounds.lower, "TRANSACTION#");
    assert_eq!(settled.bounds.upper, "TRANSACTION#9999");
    assert_eq!(settled.limit, 10);
    assert_eq!(settled.card_brand, None);
}

#[test]
fn paging_with_a_card_brand_filter_gathers_every_matching_record() {
    let mut store = RecordStore::new();
    for day in 1..=20 {
        let brand = if day % 3 == 0 { CardBrand::Amex } else { CardBrand::Visa };
        assert!(store.add_transaction(transaction("X", "X", 2025, 1, day, "1", brand)));
    }
    let now = noon(2025, 6, 1);
    let mut seen: Vec<String> = Vec::new();
    let mut after: Option<String> = None;
    loop {
        let page = Query
            .transactions_at(
                &store,
                after.clone(),
                None,
                Some(4),
                None,
                "X".to_string(),
                text("2025"),
                None,
                None,
                Some(CardBrand::Amex),
                &now,
            )
            .unwrap();
        seen.extend(page.edges.iter().map(|e| e.node.id[17..22].to_string()));
        if !page.has_next_page {
            break;
        }
        after = Some(page.edges.last().unwrap().cursor.clone());
    }
    assert_eq!(seen, vec!["01-18", "01-15", "01-12", "01-09", "01-06", "01-03"]);
}
