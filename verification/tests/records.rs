use merchant_txns::error::QueryError;
use merchant_txns::items::{
    flag_field, number_field, number_text_field, rename_attribute, replace_key_names, text_field,
    texts_field, AttributeValue, Item,
};
use merchant_txns::models::{
    CardBrand, Merchant, MerchantLevel, Transaction, TransactionStatus, TransactionType,
};
use merchant_txns::numbers::{number_text, parse_number, push_digits};
use merchant_txns::records::{merchant_attributes, transaction_attributes};
use merchant_txns::page::Query;
use merchant_txns::query::{get_merchant, get_transactions_for_merchant};
use merchant_txns::store::RecordStore;

fn s(text: &str) -> AttributeValue {
    AttributeValue::S(text.to_string())
}

fn n(text: &str) -> AttributeValue {
    AttributeValue::N(text.to_string())
}

fn item(attributes: Vec<(&str, AttributeValue)>) -> Item {
    let mut item = Item::new();
    for (name, value) in attributes {
        item.insert(name.to_string(), value);
    }
    item
}

fn stored_transaction() -> Vec<(&'static str, AttributeValue)> {
    vec![
        ("pk", s("MERCHANT#a")),
        ("sk", s("TRANSACTION#2025-01-01T00:00:00+00:00#1")),
        ("settlement_merchant_id", s("MERCHANT#g")),
        ("transaction_type", s("Pos")),
        ("status", s("PaidOut")),
        ("amount", n("12.34")),
        ("currency", s("GBP")),
        ("pan", s("4242")),
        ("card_brand", s("Mastercard")),
        ("date_transaction", s("2025-01-01T00:00:00+00:00")),
        ("date_settlement", s("2025-02-02T00:00:00+00:00")),
        ("payout_id", s("PAYOUT#2025-02-02T00:00:00+00:00#1")),
        ("created_at", n("1735689600000")),
    ]
}

fn stored_merchant(level: &str, below: Vec<&str>) -> Vec<(&'static str, AttributeValue)> {
    vec![
        ("pk", s("MERCHANT#c")),
        ("sk", s("MERCHANT#c")),
        ("founded_date", s("2020-01-01")),
        ("industry", s("Retail")),
        ("vat_number", s("VAT123")),
        ("created_at", n("17")),
        ("merchant_level", s(level)),
        ("sub_merchants", AttributeValue::L(below.into_iter().map(str::to_string).collect())),
        ("has_settlement_permissions", AttributeValue::Bool(true)),
        ("has_billing_permissions", AttributeValue::Bool(false)),
    ]
}

fn without(
    attributes: Vec<(&'static str, AttributeValue)>,
    name: &str,
) -> Vec<(&'static str, AttributeValue)> {
    attributes.into_iter().filter(|(k, _)| *k != name).collect()
}

fn with(
    attributes: Vec<(&'static str, AttributeValue)>,
    name: &'static str,
    value: AttributeValue,
) -> Vec<(&'static str, AttributeValue)> {
    let mut rest = without(attributes, name);
    rest.push((name, value));
    rest
}

#[test]
fn transaction_is_read_field_by_field() {
    let read = Transaction::read_all(vec![item(stored_transaction())]).unwrap();
    assert_eq!(read.len(), 1);
    let t = &read[0];
    assert_eq!(t.id, "TRANSACTION#2025-01-01T00:00:00+00:00#1");
    assert_eq!(t.merchant_id, "MERCHANT#a");
    assert_eq!(t.settlement_merchant_id, "MERCHANT#g");
    assert_eq!(t.transaction_type, TransactionType::Pos);
    assert_eq!(t.status, TransactionStatus::PaidOut);
    assert_eq!(t.amount, "12.34");
    assert_eq!(t.currency, "GBP");
    assert_eq!(t.pan, "4242");
    assert_eq!(t.card_brand, CardBrand::Mastercard);
    assert_eq!(t.date_transaction, "2025-01-01T00:00:00+00:00");
    assert_eq!(t.date_settlement, "2025-02-02T00:00:00+00:00");
    assert_eq!(t.payout_id, "PAYOUT#2025-02-02T00:00:00+00:00#1");
    assert_eq!(t.created_at, 1_735_689_600_000);
}

#[test]
fn transaction_with_a_missing_field_is_refused() {
    for name in [
        "pk",
        "sk",
        "settlement_merchant_id",
        "transaction_type",
        "status",
        "amount",
        "currency",
        "pan",
        "card_brand",
        "date_transaction",
        "date_settlement",
        "payout_id",
        "created_at",
    ] {
        let items = vec![item(stored_transaction()), item(without(stored_transaction(), name))];
        assert_eq!(Transaction::read_all(items).err(), Some(QueryError::Encoding), "{}", name);
    }
}

#[test]
fn transaction_with_a_field_of_another_kind_is_refused() {
    let cases = vec![
        ("amount", s("12.34")),
        ("created_at", s("1735689600000")),
        ("created_at", n("17.5")),
        ("created_at", n("")),
        ("pan", n("4242")),
        ("card_brand", s("visa")),
        ("status", s("Paid")),
        ("transaction_type", s("Online ")),
        ("currency", AttributeValue::Bool(true)),
        ("payout_id", AttributeValue::Other),
        ("sk", AttributeValue::L(vec![])),
    ];
    for (name, value) in cases {
        let items = vec![item(with(stored_transaction(), name, value))];
        assert_eq!(Transaction::read_all(items).err(), Some(QueryError::Encoding), "{}", name);
    }
}

#[test]
fn from_item_reads_the_fields_under_their_own_names() {
    let named = with(
        with(stored_transaction(), "merchant_id", s("MERCHANT#b")),
        "id",
        s("TRANSACTION#x"),
    );
    let t = Transaction::from_item(&item(named)).unwrap();
    assert_eq!(t.merchant_id, "MERCHANT#b");
    assert_eq!(t.id, "TRANSACTION#x");
    assert_eq!(
        Transaction::from_item(&item(stored_transaction())).err(),
        Some(QueryError::Encoding)
    );
}

#[test]
fn no_items_are_no_records() {
    assert_eq!(Transaction::read_all(Vec::new()).unwrap().len(), 0);
    assert_eq!(Merchant::read_all(Vec::new()).unwrap().len(), 0);
}

#[test]
fn merchant_is_read_field_by_field() {
    let read =
        Merchant::read_all(vec![item(stored_merchant("Chain", vec!["MERCHANT#o1", "MERCHANT#o2"]))])
            .unwrap();
    let m = &read[0];
    assert_eq!(m.id, "MERCHANT#c");
    assert_eq!(m.name, "MERCHANT#c");
    assert_eq!(m.founded_date, "2020-01-01");
    assert_eq!(m.industry, "Retail");
    assert_eq!(m.vat_number, "VAT123");
    assert_eq!(m.created_at, 17);
    assert_eq!(m.merchant_level, MerchantLevel::Chain);
    assert_eq!(m.sub_merchants, vec!["MERCHANT#o1".to_string(), "MERCHANT#o2".to_string()]);
    assert!(m.has_settlement_permissions);
    assert!(!m.has_billing_permissions);
    assert!(m.check_valid());
}

#[test]
fn outlet_with_merchants_below_it_is_refused() {
    let bad = Merchant::read_all(vec![item(stored_merchant("Outlet", vec!["MERCHANT#o1"]))]);
    assert_eq!(bad.err(), Some(QueryError::Encoding));
    let good = Merchant::read_all(vec![item(stored_merchant("Outlet", vec![]))]);
    assert_eq!(good.unwrap()[0].merchant_level, MerchantLevel::Outlet);
    let group = Merchant::read_all(vec![item(stored_merchant("Group", vec![]))]);
    assert_eq!(group.unwrap()[0].merchant_level, MerchantLevel::Group);
}

#[test]
fn merchant_with_a_bad_field_is_refused() {
    let cases = vec![
        ("merchant_level", s("Shop")),
        ("sub_merchants", s("MERCHANT#o1")),
        ("has_billing_permissions", s("false")),
        ("created_at", n("x")),
    ];
    for (name, value) in cases {
        let items = vec![item(with(stored_merchant("Chain", vec![]), name, value))];
        assert_eq!(Merchant::read_all(items).err(), Some(QueryError::Encoding), "{}", name);
    }
    for name in ["pk", "sk", "founded_date", "industry", "vat_number", "has_settlement_permissions"]
    {
        let items = vec![item(without(stored_merchant("Chain", vec![]), name))];
        assert_eq!(Merchant::read_all(items).err(), Some(QueryError::Encoding), "{}", name);
    }
}

#[test]
fn key_attributes_get_the_names_of_their_fields() {
    let mut items = vec![
        item(vec![("pk", s("p")), ("sk", s("k")), ("x", n("1"))]),
        item(vec![("sk", s("k2")), ("id", s("old"))]),
        item(vec![("x", n("2"))]),
    ];
    replace_key_names(&mut items, "merchant_id", "id");
    assert_eq!(text_field(&items[0], "merchant_id"), Some("p".to_string()));
    assert_eq!(text_field(&items[0], "id"), Some("k".to_string()));
    assert_eq!(text_field(&items[0], "pk"), None);
    assert_eq!(text_field(&items[0], "sk"), None);
    assert_eq!(number_field(&items[0], "x"), Some(1));
    assert_eq!(items[0].len(), 3);
    assert_eq!(text_field(&items[1], "id"), Some("k2".to_string()));
    assert_eq!(text_field(&items[1], "merchant_id"), None);
    assert_eq!(items[1].len(), 1);
    assert_eq!(number_field(&items[2], "x"), Some(2));
    assert_eq!(items[2].len(), 1);
}

#[test]
fn renaming_an_attribute_to_its_own_name_keeps_it() {
    let mut it = item(vec![("pk", s("p"))]);
    rename_attribute(&mut it, "pk", "pk");
    assert_eq!(text_field(&it, "pk"), Some("p".to_string()));
    rename_attribute(&mut it, "absent", "pk");
    assert_eq!(text_field(&it, "pk"), Some("p".to_string()));
}

#[test]
fn fields_are_read_by_kind() {
    let it = item(vec![
        ("t", s("text")),
        ("n", n("-42")),
        ("f", n("1.5")),
        ("b", AttributeValue::Bool(true)),
        ("l", AttributeValue::L(vec!["a".to_string()])),
    ]);
    assert_eq!(text_field(&it, "t"), Some("text".to_string()));
    assert_eq!(text_field(&it, "n"), None);
    assert_eq!(number_field(&it, "n"), Some(-42));
    assert_eq!(number_field(&it, "f"), None);
    assert_eq!(number_field(&it, "t"), None);
    assert_eq!(number_text_field(&it, "f"), Some("1.5".to_string()));
    assert_eq!(number_text_field(&it, "t"), None);
    assert_eq!(flag_field(&it, "b"), Some(true));
    assert_eq!(flag_field(&it, "t"), None);
    assert_eq!(texts_field(&it, "l"), Some(vec!["a".to_string()]));
    assert_eq!(texts_field(&it, "b"), None);
    assert_eq!(text_field(&it, "missing"), None);
}

#[test]
fn numbers_are_read_from_decimal_digits() {
    assert_eq!(parse_number("0"), Some(0));
    assert_eq!(parse_number("007"), Some(7));
    assert_eq!(parse_number("2025"), Some(2025));
    assert_eq!(parse_number("-15"), Some(-15));
    assert_eq!(parse_number("999999999999999999"), Some(999_999_999_999_999_999));
    assert_eq!(parse_number("-999999999999999999"), Some(-999_999_999_999_999_999));
    assert_eq!(parse_number("1000000000000000000"), None);
    assert_eq!(parse_number(""), None);
    assert_eq!(parse_number("-"), None);
    assert_eq!(parse_number("+1"), None);
    assert_eq!(parse_number("1 "), None);
    assert_eq!(parse_number("1.0"), None);
    assert_eq!(parse_number("١٢"), None);
    assert_eq!(parse_number("12a"), None);
}

fn merchant(id: &str, level: MerchantLevel) -> Merchant {
    Merchant {
        id: id.to_string(),
        name: format!("name of {}", id),
        founded_date: "2020-01-01".to_string(),
        industry: "Retail".to_string(),
        vat_number: "VAT123".to_string(),
        created_at: 1,
        merchant_level: level,
        sub_merchants: Vec::new(),
        has_settlement_permissions: true,
        has_billing_permissions: false,
    }
}

#[test]
fn merchant_is_found_by_id_or_not_found() {
    let mut store = RecordStore::new();
    assert!(store.add_merchant(merchant("MERCHANT#a", MerchantLevel::Outlet)));
    assert!(store.add_merchant(merchant("MERCHANT#b", MerchantLevel::Group)));
    assert!(!store.add_merchant(merchant("MERCHANT#a", MerchantLevel::Chain)));
    let found = get_merchant(&store, "MERCHANT#b".to_string()).unwrap();
    assert_eq!(found.name, "name of MERCHANT#b");
    assert_eq!(found.merchant_level, MerchantLevel::Group);
    let found = Query.merchant(&store, "MERCHANT#a".to_string()).unwrap();
    assert_eq!(found.merchant_level, MerchantLevel::Outlet);
    assert_eq!(get_merchant(&store, "MERCHANT#c".to_string()).err(), Some(QueryError::NotFound));
    assert_eq!(get_merchant(&store, "".to_string()).err(), Some(QueryError::NotFound));
}

fn row(id: &str) -> Transaction {
    Transaction {
        id: id.to_string(),
        merchant_id: "m".to_string(),
        settlement_merchant_id: "m".to_string(),
        transaction_type: TransactionType::Online,
        status: TransactionStatus::Pending,
        amount: "1".to_string(),
        currency: "GBP".to_string(),
        pan: "1".to_string(),
        card_brand: CardBrand::Discover,
        date_transaction: String::new(),
        date_settlement: String::new(),
        payout_id: String::new(),
        created_at: 0,
    }
}

#[test]
fn spare_row_is_taken_off_and_says_that_more_are_left() {
    let (rows, more) = get_transactions_for_merchant(vec![row("c"), row("b"), row("a")], 2);
    assert_eq!(rows.iter().map(|t| t.id.as_str()).collect::<Vec<_>>(), vec!["c", "b"]);
    assert!(more);
    let (rows, more) = get_transactions_for_merchant(vec![row("c"), row("b")], 2);
    assert_eq!(rows.len(), 2);
    assert!(!more);
    let (rows, more) = get_transactions_for_merchant(Vec::new(), 2);
    assert!(rows.is_empty());
    assert!(!more);
    let (rows, more) = get_transactions_for_merchant(Vec::new(), -1);
    assert!(rows.is_empty());
    assert!(more);
}

fn sample_transaction() -> Transaction {
    Transaction {
        id: "TRANSACTION#2025-01-01T00:00:00+00:00#1".to_string(),
        merchant_id: "MERCHANT#a".to_string(),
        settlement_merchant_id: "MERCHANT#g".to_string(),
        transaction_type: TransactionType::Pos,
        status: TransactionStatus::Chargeback,
        amount: "99.90".to_string(),
        currency: "GBP".to_string(),
        pan: "1234".to_string(),
        card_brand: CardBrand::Amex,
        date_transaction: "2025-01-01T00:00:00+00:00".to_string(),
        date_settlement: "2025-01-03T00:00:00+00:00".to_string(),
        payout_id: "PAYOUT#2025-01-03T00:00:00+00:00#1".to_string(),
        created_at: -1_735_689_600_123,
    }
}

#[test]
fn transaction_is_stored_under_both_pairs_of_keys() {
    let item = sample_transaction().to_item();
    assert_eq!(item.len(), 15);
    assert_eq!(transaction_attributes().len(), 15);
    for name in transaction_attributes() {
        assert!(item.contains_key(name), "{}", name);
    }
    assert_eq!(text_field(&item, "pk"), Some("MERCHANT#a".to_string()));
    assert_eq!(text_field(&item, "sk"), Some("TRANSACTION#2025-01-01T00:00:00+00:00#1".to_string()));
    assert_eq!(text_field(&item, "gsi1_pk"), Some("MERCHANT#g".to_string()));
    assert_eq!(
        text_field(&item, "gsi1_sk"),
        Some("TRANSACTION#2025-01-01T00:00:00+00:00#1".to_string())
    );
    assert_eq!(text_field(&item, "transaction_type"), Some("Pos".to_string()));
    assert_eq!(text_field(&item, "status"), Some("Chargeback".to_string()));
    assert_eq!(text_field(&item, "card_brand"), Some("Amex".to_string()));
    assert_eq!(number_text_field(&item, "amount"), Some("99.90".to_string()));
    assert_eq!(number_text_field(&item, "created_at"), Some("-1735689600123".to_string()));
}

#[test]
fn stored_transaction_is_read_back() {
    let t = sample_transaction();
    let read = Transaction::read_all(vec![t.to_item()]).unwrap();
    let r = &read[0];
    assert_eq!(r.id, t.id);
    assert_eq!(r.merchant_id, t.merchant_id);
    assert_eq!(r.settlement_merchant_id, t.settlement_merchant_id);
    assert_eq!(r.transaction_type, t.transaction_type);
    assert_eq!(r.status, t.status);
    assert_eq!(r.amount, t.amount);
    assert_eq!(r.currency, t.currency);
    assert_eq!(r.pan, t.pan);
    assert_eq!(r.card_brand, t.card_brand);
    assert_eq!(r.date_transaction, t.date_transaction);
    assert_eq!(r.date_settlement, t.date_settlement);
    assert_eq!(r.payout_id, t.payout_id);
    assert_eq!(r.created_at, t.created_at);
}

#[test]
fn stored_merchant_is_read_back_under_its_id_as_name() {
    let mut m = merchant("MERCHANT#g", MerchantLevel::Group);
    m.sub_merchants = vec!["MERCHANT#c1".to_string(), "MERCHANT#c2".to_string()];
    let item = m.to_item();
    assert_eq!(item.len(), 11);
    assert_eq!(merchant_attributes().len(), 11);
    for name in merchant_attributes() {
        assert!(item.contains_key(name), "{}", name);
    }
    assert_eq!(text_field(&item, "pk"), Some("MERCHANT#g".to_string()));
    assert_eq!(text_field(&item, "sk"), Some("MERCHANT#g".to_string()));
    assert_eq!(text_field(&item, "name"), Some("name of MERCHANT#g".to_string()));
    let read = Merchant::read_all(vec![item]).unwrap();
    let r = &read[0];
    assert_eq!(r.id, m.id);
    assert_eq!(r.name, m.id);
    assert_eq!(r.founded_date, m.founded_date);
    assert_eq!(r.industry, m.industry);
    assert_eq!(r.vat_number, m.vat_number);
    assert_eq!(r.created_at, m.created_at);
    assert_eq!(r.merchant_level, m.merchant_level);
    assert_eq!(r.sub_merchants, m.sub_merchants);
    assert_eq!(r.has_settlement_permissions, m.has_settlement_permissions);
    assert_eq!(r.has_billing_permissions, m.has_billing_permissions);
}

#[test]
fn numbers_are_written_in_decimal() {
    assert_eq!(number_text(0), "0");
    assert_eq!(number_text(7), "7");
    assert_eq!(number_text(10), "10");
    assert_eq!(number_text(-1), "-1");
    assert_eq!(number_text(1_735_689_600_000), "1735689600000");
    assert_eq!(number_text(i64::MAX), "9223372036854775807");
    assert_eq!(number_text(i64::MIN), "-9223372036854775808");
    for n in [0, 9, 10, 99, 100, -100, 123_456_789_012_345_678, -999_999_999_999_999_999] {
        assert_eq!(parse_number(&number_text(n)), Some(n));
    }
    let mut s = String::from("x");
    push_digits(&mut s, 1203);
    assert_eq!(s, "x1203");
}
