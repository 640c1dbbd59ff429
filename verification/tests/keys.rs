use merchant_txns::error::QueryError;
use merchant_txns::keys::{decode_sort_key, encode_sort_key, merchant_key, RecordKind};
use merchant_txns::timestamp::Timestamp;

fn at(year: i32, month: u32, day: u32, hour: u32, minute: u32, second: u32) -> Timestamp {
    Timestamp { year, month, day, hour, minute, second }
}

#[test]
fn sort_key_has_kind_instant_and_suffix() {
    let key = encode_sort_key(RecordKind::Transaction, &at(2025, 1, 5, 0, 0, 0), "5");
    assert_eq!(key, Ok("TRANSACTION#2025-01-05T00:00:00+00:00#5".to_string()));
}

#[test]
fn sort_key_pads_every_number() {
    let key = encode_sort_key(RecordKind::Payout, &at(7, 3, 9, 4, 5, 6), "1");
    assert_eq!(key, Ok("PAYOUT#0007-03-09T04:05:06+00:00#1".to_string()));
}

#[test]
fn sort_key_of_no_calendar_day_is_an_encoding_error() {
    let key = encode_sort_key(RecordKind::Transaction, &at(2025, 2, 29, 0, 0, 0), "1");
    assert_eq!(key, Err(QueryError::Encoding));
    let key = encode_sort_key(RecordKind::Transaction, &at(2024, 2, 29, 0, 0, 0), "1");
    assert!(key.is_ok());
    let key = encode_sort_key(RecordKind::Transaction, &at(10000, 1, 1, 0, 0, 0), "1");
    assert_eq!(key, Err(QueryError::Encoding));
    let key = encode_sort_key(RecordKind::Transaction, &at(2025, 1, 1, 24, 0, 0), "1");
    assert_eq!(key, Err(QueryError::Encoding));
}

#[test]
fn merchant_key_is_prefix_and_name() {
    assert_eq!(merchant_key("merchant_a_outlet_sb"), "MERCHANT#merchant_a_outlet_sb");
}

#[test]
fn sort_key_is_read_back() {
    for (kind, suffix) in
        [(RecordKind::Transaction, "5"), (RecordKind::Payout, ""), (RecordKind::Merchant, "a#b#")]
    {
        let t = at(2024, 2, 29, 23, 59, 58);
        let key = encode_sort_key(kind, &t, suffix).unwrap();
        let parts = decode_sort_key(&key).unwrap();
        assert_eq!(parts.kind, kind);
        assert_eq!(parts.instant, t);
        assert_eq!(parts.suffix, suffix);
    }
    let parts = decode_sort_key("TRANSACTION#2025-01-05T00:00:00+00:00#ü1").unwrap();
    assert_eq!(parts.instant, at(2025, 1, 5, 0, 0, 0));
    assert_eq!(parts.suffix, "ü1");
}

#[test]
fn text_that_is_no_sort_key_is_an_encoding_error() {
    for bad in [
        "",
        "TRANSACTION",
        "TRANSACTION#",
        "TRANSACTION#2025",
        "TRANSACTION#2025-01-05T00:00:00+00:00",
        "TRANSACTION#2025-01-05T00:00:00+00:00-1",
        "TRANSACTION#2025-02-30T00:00:00+00:00#1",
        "TRANSACTION#2025-01-05T24:00:00+00:00#1",
        "TRANSACTION#2025-01-05T00:00:00+01:00#1",
        "TRANSACTION#2025-01-05T00:00:00Z#1",
        "TRANSACTION#2025-01-05 00:00:00+00:00#1",
        "TRANSACTION#2025-1-5T00:00:00+00:00#1",
        "TRANSACTION#20x5-01-05T00:00:00+00:00#1",
        "TRANSACTIONS#2025-01-05T00:00:00+00:00#1",
        "transaction#2025-01-05T00:00:00+00:00#1",
        "MERCHANT#merchant_a_outlet_sb",
        "#2025-01-05T00:00:00+00:00#1",
    ] {
        assert_eq!(decode_sort_key(bad).err(), Some(QueryError::Encoding), "{:?}", bad);
    }
}

#[test]
fn keys_are_ordered_as_their_instants() {
    let instants = [
        at(1999, 12, 31, 23, 59, 59),
        at(2000, 1, 1, 0, 0, 0),
        at(2025, 1, 31, 0, 0, 0),
        at(2025, 2, 1, 0, 0, 0),
        at(2025, 9, 30, 23, 59, 59),
        at(2025, 10, 1, 0, 0, 0),
        at(2025, 10, 1, 0, 0, 1),
        at(2025, 10, 1, 0, 1, 0),
        at(2025, 10, 1, 1, 0, 0),
        at(2025, 12, 31, 23, 59, 59),
        at(2026, 1, 1, 0, 0, 0),
    ];
    let keys: Vec<String> = instants
        .iter()
        .map(|t| encode_sort_key(RecordKind::Transaction, t, "zz").unwrap())
        .collect();
    for pair in keys.windows(2) {
        assert!(pair[0] < pair[1], "{:?}", pair);
    }
    let low = encode_sort_key(RecordKind::Transaction, &instants[3], "9").unwrap();
    assert!(low < encode_sort_key(RecordKind::Transaction, &instants[4], "1").unwrap());
}
