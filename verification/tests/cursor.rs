use merchant_txns::cursor::{decode_cursor, decode_optional_cursor, encode_cursor, checked_token};
use merchant_txns::error::QueryError;
use merchant_txns::page::{assemble_page, cursor_keys, limit_of};

#[test]
fn cursor_reads_back_what_was_written() {
    for (key, tiebreak) in [
        ("TRANSACTION#2025-01-03T00:00:00+00:00#3", 1_735_862_400_000_i64),
        ("", 0),
        ("käse \"quoted\" \\ \n", i64::MIN),
        ("#", i64::MAX),
    ] {
        let token = encode_cursor(key, tiebreak).unwrap();
        let cursor = decode_cursor(&token).unwrap();
        assert_eq!(cursor.key, key);
        assert_eq!(cursor.tiebreak, tiebreak);
    }
}

#[test]
fn token_is_opaque() {
    let key = "TRANSACTION#2025-01-03T00:00:00+00:00#3";
    let token = encode_cursor(key, 7).unwrap();
    assert_ne!(token, key);
    assert!(!token.contains('#'));
    assert_eq!(token, "WyJUUkFOU0FDVElPTiMyMDI1LTAxLTAzVDAwOjAwOjAwKzAwOjAwIzMiLDdd");
}

#[test]
fn corrupted_token_is_an_invalid_cursor() {
    let token = encode_cursor("TRANSACTION#2025", 7).unwrap();
    let cut = &token[..token.len() - 3];
    assert_eq!(decode_cursor(cut).err(), Some(QueryError::InvalidCursor));
    assert_eq!(decode_cursor("").err(), Some(QueryError::InvalidCursor));
    assert_eq!(decode_cursor("TRANSACTION#2025").err(), Some(QueryError::InvalidCursor));
    assert_eq!(decode_cursor("bm90IGpzb24").err(), Some(QueryError::InvalidCursor));
}

#[test]
fn absent_token_is_no_cursor() {
    assert!(decode_optional_cursor(&None).unwrap().is_none());
    let token = encode_cursor("k", 1).unwrap();
    let cursor = decode_optional_cursor(&Some(token)).unwrap().unwrap();
    assert_eq!((cursor.key.as_str(), cursor.tiebreak), ("k", 1));
    assert_eq!(
        decode_optional_cursor(&Some("@".to_string())).err(),
        Some(QueryError::InvalidCursor)
    );
}

#[test]
fn token_goes_out_only_if_it_reads_back() {
    let ok = checked_token("k", 1, "tok".to_string(), Some(("k".to_string(), 1)));
    assert_eq!(ok, Ok("tok".to_string()));
    let other_key = checked_token("k", 1, "tok".to_string(), Some(("j".to_string(), 1)));
    assert_eq!(other_key, Err(QueryError::Encoding));
    let other_tiebreak = checked_token("k", 1, "tok".to_string(), Some(("k".to_string(), 2)));
    assert_eq!(other_tiebreak, Err(QueryError::Encoding));
    let unreadable = checked_token("k", 1, "tok".to_string(), None);
    assert_eq!(unreadable, Err(QueryError::Encoding));
}

#[test]
fn cursor_keys_are_read_from_both_tokens() {
    let a = encode_cursor("after", 1).unwrap();
    let b = encode_cursor("before", 2).unwrap();
    let keys = cursor_keys(&Some(a.clone()), &Some(b)).unwrap();
    assert_eq!(keys, (Some("after".to_string()), Some("before".to_string())));
    assert_eq!(cursor_keys(&None, &None).unwrap(), (None, None));
    assert_eq!(cursor_keys(&Some(a), &Some("@".to_string())).err(), Some(QueryError::InvalidCursor));
}

#[test]
fn limit_is_first_then_last_then_ten() {
    assert_eq!(limit_of(Some(3), Some(4)), 3);
    assert_eq!(limit_of(None, Some(4)), 4);
    assert_eq!(limit_of(None, None), 10);
    assert_eq!(limit_of(Some(-2), None), -2);
}

#[test]
fn empty_scan_makes_an_empty_page() {
    let page = assemble_page(Vec::new(), false, true).unwrap();
    assert!(page.edges.is_empty());
    assert!(page.has_previous_page);
    assert!(!page.has_next_page);
}
