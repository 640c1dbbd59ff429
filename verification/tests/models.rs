use merchant_txns::error::QueryError;
use merchant_txns::models::{CardBrand, MerchantLevel, TransactionStatus, TransactionType};
use merchant_txns::order::{chars_le, chars_of, text_eq, text_le, text_lt};
use merchant_txns::roles::{merchant_field_allowed, Forbidden, MerchantField, Role, RoleGuard};
use merchant_txns::timestamp::{digit_str, push_four_digits, push_two_digits, Timestamp};

#[test]
fn names_of_the_enumerations() {
    assert_eq!(TransactionType::Online.name(), "Online");
    assert_eq!(TransactionType::Pos.name(), "Pos");
    assert_eq!(TransactionStatus::Pending.name(), "Pending");
    assert_eq!(TransactionStatus::Successful.name(), "Successful");
    assert_eq!(TransactionStatus::Chargeback.name(), "Chargeback");
    assert_eq!(TransactionStatus::PaidOut.name(), "PaidOut");
    assert_eq!(CardBrand::Visa.name(), "Visa");
    assert_eq!(CardBrand::Mastercard.name(), "Mastercard");
    assert_eq!(CardBrand::Amex.name(), "Amex");
    assert_eq!(CardBrand::Discover.name(), "Discover");
    assert_eq!(MerchantLevel::Outlet.name(), "Outlet");
    assert_eq!(MerchantLevel::Chain.name(), "Chain");
    assert_eq!(MerchantLevel::Group.name(), "Group");
}

#[test]
fn every_value_is_found_again_under_its_name() {
    for t in [TransactionType::Online, TransactionType::Pos] {
        assert_eq!(TransactionType::from_name(t.name()), Some(t));
    }
    for s in [
        TransactionStatus::Pending,
        TransactionStatus::Successful,
        TransactionStatus::Chargeback,
        TransactionStatus::PaidOut,
    ] {
        assert_eq!(TransactionStatus::from_name(s.name()), Some(s));
    }
    for b in [CardBrand::Visa, CardBrand::Mastercard, CardBrand::Amex, CardBrand::Discover] {
        assert_eq!(CardBrand::from_name(b.name()), Some(b));
    }
    for l in [MerchantLevel::Outlet, MerchantLevel::Chain, MerchantLevel::Group] {
        assert_eq!(MerchantLevel::from_name(l.name()), Some(l));
    }
    assert_eq!(CardBrand::from_name("VISA"), None);
    assert_eq!(TransactionType::from_name(""), None);
    assert_eq!(TransactionStatus::from_name("Paid"), None);
    assert_eq!(MerchantLevel::from_name("Outlets"), None);
}

#[test]
fn errors_have_names() {
    assert_eq!(QueryError::Validation.name(), "ValidationError");
    assert_eq!(QueryError::InvalidCursor.name(), "InvalidCursorError");
    assert_eq!(QueryError::NotFound.name(), "NotFoundError");
    assert_eq!(QueryError::Storage.name(), "StorageError");
    assert_eq!(QueryError::Encoding.name(), "EncodingError");
}

#[test]
fn guard_passes_the_role_it_asks_for() {
    let admin = RoleGuard::new(Role::Admin);
    assert_eq!(admin.role, Role::Admin);
    assert_eq!(admin.check(Some(Role::Admin), None), Ok(()));
    assert_eq!(admin.check(Some(Role::Reader), None), Err(Forbidden));
    assert_eq!(admin.check(None, None), Err(Forbidden));
    assert_eq!(admin.check(None, Some("Admin")), Ok(()));
    assert_eq!(admin.check(Some(Role::Reader), Some("Admin")), Ok(()));
    assert_eq!(admin.check(None, Some("Reader")), Err(Forbidden));
    assert_eq!(admin.check(None, Some("admin")), Err(Forbidden));
    let reader = RoleGuard::new(Role::Reader);
    assert_eq!(reader.check(Some(Role::Reader), None), Ok(()));
    assert_eq!(reader.check(Some(Role::Admin), None), Err(Forbidden));
    assert_eq!(reader.check(None, Some("Reader")), Ok(()));
    assert_eq!(Role::from_name("Admin"), Some(Role::Admin));
    assert_eq!(Role::from_name("Reader"), Some(Role::Reader));
    assert_eq!(Role::from_name("Writer"), None);
}

#[test]
fn reader_sees_every_field_of_a_merchant_but_the_vat_number() {
    let fields = [
        MerchantField::Id,
        MerchantField::Name,
        MerchantField::FoundedDate,
        MerchantField::Industry,
        MerchantField::VatNumber,
        MerchantField::CreatedAt,
        MerchantField::MerchantLevel,
        MerchantField::SubMerchants,
        MerchantField::HasSettlementPermissions,
        MerchantField::HasBillingPermissions,
    ];
    for field in fields {
        assert!(merchant_field_allowed(field, Some(Role::Admin), None));
        assert!(merchant_field_allowed(field, None, Some("Admin")));
        assert!(!merchant_field_allowed(field, None, None));
        let reader = merchant_field_allowed(field, Some(Role::Reader), None);
        assert_eq!(reader, field != MerchantField::VatNumber);
        assert_eq!(merchant_field_allowed(field, None, Some("Reader")), reader);
    }
}

#[test]
fn texts_are_ordered_as_strings_are() {
    let texts = ["", "#", "-", "0", "9", "A", "T#2025", "T#2025-01", "T#2025-99", "a", "é", "日本"];
    for a in texts {
        for b in texts {
            assert_eq!(text_le(a, b), a <= b, "{:?} {:?}", a, b);
            assert_eq!(text_lt(a, b), a < b, "{:?} {:?}", a, b);
            assert_eq!(text_eq(a, b), a == b, "{:?} {:?}", a, b);
            assert_eq!(chars_le(&chars_of(a), &chars_of(b)), a <= b);
        }
    }
    assert_eq!(chars_of("a#é"), vec!['a', '#', 'é']);
}

#[test]
fn numbers_are_padded_with_zeros() {
    let mut s = String::from(">");
    push_two_digits(&mut s, 7);
    push_two_digits(&mut s, 42);
    push_four_digits(&mut s, 5);
    push_four_digits(&mut s, 2025);
    assert_eq!(s, ">07420005" .to_string() + "2025");
    let digits: String = (0..=9).map(digit_str).collect();
    assert_eq!(digits, "0123456789");
}

#[test]
fn instants_have_their_text_or_none() {
    let t = Timestamp { year: 2025, month: 12, day: 31, hour: 23, minute: 59, second: 59 };
    assert_eq!(t.to_text(), Some("2025-12-31T23:59:59+00:00".to_string()));
    let t = Timestamp { year: 0, month: 1, day: 1, hour: 0, minute: 0, second: 0 };
    assert_eq!(t.to_text(), Some("0000-01-01T00:00:00+00:00".to_string()));
    for bad in [
        Timestamp { year: -1, month: 1, day: 1, hour: 0, minute: 0, second: 0 },
        Timestamp { year: 2025, month: 0, day: 1, hour: 0, minute: 0, second: 0 },
        Timestamp { year: 2025, month: 13, day: 1, hour: 0, minute: 0, second: 0 },
        Timestamp { year: 2025, month: 1, day: 0, hour: 0, minute: 0, second: 0 },
        Timestamp { year: 2025, month: 11, day: 31, hour: 0, minute: 0, second: 0 },
        Timestamp { year: 2025, month: 1, day: 1, hour: 0, minute: 60, second: 0 },
        Timestamp { year: 2025, month: 1, day: 1, hour: 0, minute: 0, second: 60 },
    ] {
        assert_eq!(bad.to_text(), None, "{:?}", bad);
    }
}
