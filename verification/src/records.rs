//! Reading transactions and merchants from stored items.
//!
//! In the store an item's partition key and sort key stand under the store's own two
//! names. Before a record is read they get the names of the fields that they are: for
//! a transaction the merchant's id and the transaction's id, for a merchant its id
//! and its name.
use crate::error::QueryError;
use crate::items::{
    flag_at, flag_field, number_at, number_field, number_text_at, number_text_field,
    partition_key_name, renamed, replace_key_names, same_item, sort_key_name, text_at,
    text_field, texts_at, texts_field, texts_of, AttributeValue, Item,
};
use crate::models::{
    card_brand_name, card_brand_named, clone_texts, lemma_names_read_back, merchant_level_name,
    merchant_level_named, transaction_status_name, transaction_status_named,
    transaction_type_name, transaction_type_named, CardBrand, Merchant, MerchantLevel,
    Transaction, TransactionStatus, TransactionType,
};
use crate::numbers::{decimal_text, lemma_number_reads_back, number_text};
use vstd::prelude::*;
use vstd::string::StringExecFns;

verus! {

/// Whether the item's attributes are the fields of the transaction `t`.
pub open spec fn is_transaction_of(t: Transaction, m: Map<Seq<char>, AttributeValue>) -> bool {
    &&& text_at(m, "id"@) == Some(t.id@)
    &&& text_at(m, "merchant_id"@) == Some(t.merchant_id@)
    &&& text_at(m, "settlement_merchant_id"@) == Some(t.settlement_merchant_id@)
    &&& text_at(m, "transaction_type"@) matches Some(s) && transaction_type_named(s) == Some(
        t.transaction_type,
    )
    &&& text_at(m, "status"@) matches Some(s) && transaction_status_named(s) == Some(t.status)
    &&& number_text_at(m, "amount"@) == Some(t.amount@)
    &&& text_at(m, "currency"@) == Some(t.currency@)
    &&& text_at(m, "pan"@) == Some(t.pan@)
    &&& text_at(m, "card_brand"@) matches Some(s) && card_brand_named(s) == Some(t.card_brand)
    &&& text_at(m, "date_transaction"@) == Some(t.date_transaction@)
    &&& text_at(m, "date_settlement"@) == Some(t.date_settlement@)
    &&& text_at(m, "payout_id"@) == Some(t.payout_id@)
    &&& number_at(m, "created_at"@) == Some(t.created_at as int)
}

/// Whether the item has every field of a transaction, each of its kind.
pub open spec fn holds_transaction(m: Map<Seq<char>, AttributeValue>) -> bool {
    &&& text_at(m, "id"@) is Some
    &&& text_at(m, "merchant_id"@) is Some
    &&& text_at(m, "settlement_merchant_id"@) is Some
    &&& text_at(m, "transaction_type"@) matches Some(s) && transaction_type_named(s) is Some
    &&& text_at(m, "status"@) matches Some(s) && transaction_status_named(s) is Some
    &&& number_text_at(m, "amount"@) is Some
    &&& text_at(m, "currency"@) is Some
    &&& text_at(m, "pan"@) is Some
    &&& text_at(m, "card_brand"@) matches Some(s) && card_brand_named(s) is Some
    &&& text_at(m, "date_transaction"@) is Some
    &&& text_at(m, "date_settlement"@) is Some
    &&& text_at(m, "payout_id"@) is Some
    &&& number_at(m, "created_at"@) is Some
}

/// Whether the item's attributes are the fields of the merchant `x`.
pub open spec fn is_merchant_of(x: Merchant, m: Map<Seq<char>, AttributeValue>) -> bool {
    &&& text_at(m, "id"@) == Some(x.id@)
    &&& text_at(m, "name"@) == Some(x.name@)
    &&& text_at(m, "founded_date"@) == Some(x.founded_date@)
    &&& text_at(m, "industry"@) == Some(x.industry@)
    &&& text_at(m, "vat_number"@) == Some(x.vat_number@)
    &&& number_at(m, "created_at"@) == Some(x.created_at as int)
    &&& text_at(m, "merchant_level"@) matches Some(s) && merchant_level_named(s) == Some(
        x.merchant_level,
    )
    &&& texts_at(m, "sub_merchants"@) == Some(texts_of(x.sub_merchants@))
    &&& flag_at(m, "has_settlement_permissions"@) == Some(x.has_settlement_permissions)
    &&& flag_at(m, "has_billing_permissions"@) == Some(x.has_billing_permissions)
}

/// Whether the item has every field of a merchant, each of its kind, and is in
/// order: an outlet has no merchants below it.
pub open spec fn holds_merchant(m: Map<Seq<char>, AttributeValue>) -> bool {
    &&& text_at(m, "id"@) is Some
    &&& text_at(m, "name"@) is Some
    &&& text_at(m, "founded_date"@) is Some
    &&& text_at(m, "industry"@) is Some
    &&& text_at(m, "vat_number"@) is Some
    &&& number_at(m, "created_at"@) is Some
    &&& text_at(m, "merchant_level"@) matches Some(s) && merchant_level_named(s) is Some
    &&& texts_at(m, "sub_merchants"@) matches Some(below) && (merchant_level_named(
        text_at(m, "merchant_level"@)->0,
    ) == Some(MerchantLevel::Outlet) ==> below.len() == 0)
    &&& flag_at(m, "has_settlement_permissions"@) is Some
    &&& flag_at(m, "has_billing_permissions"@) is Some
}

/// A stored transaction's item with the merchant's id and the transaction's id under
/// their names.
pub open spec fn transaction_item(m: Map<Seq<char>, AttributeValue>) -> Map<
    Seq<char>,
    AttributeValue,
> {
    renamed(renamed(m, partition_key_name(), "merchant_id"@), sort_key_name(), "id"@)
}

/// A stored merchant's item with the merchant's id and name under their names.
pub open spec fn merchant_item(m: Map<Seq<char>, AttributeValue>) -> Map<
    Seq<char>,
    AttributeValue,
> {
    renamed(renamed(m, partition_key_name(), "id"@), sort_key_name(), "name"@)
}

/// Items that hold the same read as the same records.
pub proof fn lemma_same_item_reads_alike(
    a: Map<Seq<char>, AttributeValue>,
    b: Map<Seq<char>, AttributeValue>,
    name: Seq<char>,
)
    requires
        same_item(a, b),
    ensures
        text_at(a, name) == text_at(b, name),
        number_text_at(a, name) == number_text_at(b, name),
        number_at(a, name) == number_at(b, name),
        flag_at(a, name) == flag_at(b, name),
        texts_at(a, name) == texts_at(b, name),
{
    assert(a.contains_key(name) == b.contains_key(name));
    if a.contains_key(name) {
        assert(a[name].same_as(b[name]));
    }
}

/// Items that hold the same hold the same transaction.
pub proof fn lemma_same_item_same_transaction(
    a: Map<Seq<char>, AttributeValue>,
    b: Map<Seq<char>, AttributeValue>,
)
    requires
        same_item(a, b),
    ensures
        holds_transaction(a) == holds_transaction(b),
        forall|t: Transaction| is_transaction_of(t, a) == is_transaction_of(t, b),
{
    lemma_same_item_reads_alike(a, b, "id"@);
    lemma_same_item_reads_alike(a, b, "merchant_id"@);
    lemma_same_item_reads_alike(a, b, "settlement_merchant_id"@);
    lemma_same_item_reads_alike(a, b, "transaction_type"@);
    lemma_same_item_reads_alike(a, b, "status"@);
    lemma_same_item_reads_alike(a, b, "amount"@);
    lemma_same_item_reads_alike(a, b, "currency"@);
    lemma_same_item_reads_alike(a, b, "pan"@);
    lemma_same_item_reads_alike(a, b, "card_brand"@);
    lemma_same_item_reads_alike(a, b, "date_transaction"@);
    lemma_same_item_reads_alike(a, b, "date_settlement"@);
    lemma_same_item_reads_alike(a, b, "payout_id"@);
    lemma_same_item_reads_alike(a, b, "created_at"@);
}

/// Items that hold the same hold the same merchant.
pub proof fn lemma_same_item_same_merchant(
    a: Map<Seq<char>, AttributeValue>,
    b: Map<Seq<char>, AttributeValue>,
)
    requires
        same_item(a, b),
    ensures
        holds_merchant(a) == holds_merchant(b),
        forall|x: Merchant| is_merchant_of(x, a) == is_merchant_of(x, b),
{
    lemma_same_item_reads_alike(a, b, "id"@);
    lemma_same_item_reads_alike(a, b, "name"@);
    lemma_same_item_reads_alike(a, b, "founded_date"@);
    lemma_same_item_reads_alike(a, b, "industry"@);
    lemma_same_item_reads_alike(a, b, "vat_number"@);
    lemma_same_item_reads_alike(a, b, "created_at"@);
    lemma_same_item_reads_alike(a, b, "merchant_level"@);
    lemma_same_item_reads_alike(a, b, "sub_merchants"@);
    lemma_same_item_reads_alike(a, b, "has_settlement_permissions"@);
    lemma_same_item_reads_alike(a, b, "has_billing_permissions"@);
}

impl Transaction {
    /// Reads a transaction from an item whose attributes have the names of the
    /// fields. Fails with `Encoding` exactly where a field is missing or of another
    /// kind.
    pub fn from_item(item: &Item) -> (r: Result<Transaction, QueryError>)
        ensures
            r is Ok <==> holds_transaction(item@),
            r matches Ok(t) ==> is_transaction_of(t, item@),
            r matches Err(e) ==> e == QueryError::Encoding,
    {
        let id = match text_field(item, "id") {
            Some(x) => x,
            None => {
                return Err(QueryError::Encoding);
            },
        };
        let merchant_id = match text_field(item, "merchant_id") {
            Some(x) => x,
            None => {
                return Err(QueryError::Encoding);
            },
        };
        let settlement_merchant_id = match text_field(item, "settlement_merchant_id") {
            Some(x) => x,
            None => {
                return Err(QueryError::Encoding);
            },
        };
        let transaction_type = match text_field(item, "transaction_type") {
            Some(x) => match TransactionType::from_name(x.as_str()) {
                Some(v) => v,
                None => {
                    return Err(QueryError::Encoding);
                },
            },
            None => {
                return Err(QueryError::Encoding);
            },
        };
        let status = match text_field(item, "status") {
            Some(x) => match TransactionStatus::from_name(x.as_str()) {
                Some(v) => v,
                None => {
                    return Err(QueryError::Encoding);
                },
            },
            None => {
                return Err(QueryError::Encoding);
            },
        };
        let amount = match number_text_field(item, "amount") {
            Some(x) => x,
            None => {
                return Err(QueryError::Encoding);
            },
        };
        let currency = match text_field(item, "currency") {
            Some(x) => x,
            None => {
                return Err(QueryError::Encoding);
            },
        };
        let pan = match text_field(item, "pan") {
            Some(x) => x,
            None => {
                return Err(QueryError::Encoding);
            },
        };
        let card_brand = match text_field(item, "card_brand") {
            Some(x) => match CardBrand::from_name(x.as_str()) {
                Some(v) => v,
                None => {
                    return Err(QueryError::Encoding);
                },
            },
            None => {
                return Err(QueryError::Encoding);
            },
        };
        let date_transaction = match text_field(item, "date_transaction") {
            Some(x) => x,
            None => {
                return Err(QueryError::Encoding);
            },
        };
        let date_settlement = match text_field(item, "date_settlement") {
            Some(x) => x,
            None => {
                return Err(QueryError::Encoding);
            },
        };
        let payout_id = match text_field(item, "payout_id") {
            Some(x) => x,
            None => {
                return Err(QueryError::Encoding);
            },
        };
        let created_at = match number_field(item, "created_at") {
            Some(x) => x,
            None => {
                return Err(QueryError::Encoding);
            },
        };
        Ok(
            Transaction {
                id,
                merchant_id,
                settlement_merchant_id,
                transaction_type,
                status,
                amount,
                currency,
                pan,
                card_brand,
                date_transaction,
                date_settlement,
                payout_id,
                created_at,
            },
        )
    }

    /// Reads the transactions of the items of a scan, in their order. The items come
    /// as the store holds them, their keys under the store's names. Fails with
    /// `Encoding` exactly where an item does not hold a transaction.
    pub fn read_all(items: Vec<Item>) -> (r: Result<Vec<Transaction>, QueryError>)
        ensures
            r is Ok <==> forall|i: int|
                0 <= i < items@.len() ==> holds_transaction(
                    transaction_item((#[trigger] items@[i])@),
                ),
            r matches Ok(v) ==> v@.len() == items@.len() && forall|i: int|
                0 <= i < items@.len() ==> is_transaction_of(
                    #[trigger] v@[i],
                    transaction_item(items@[i]@),
                ),
            r matches Err(e) ==> e == QueryError::Encoding,
    {
        let mut named = items;
        replace_key_names(&mut named, "merchant_id", "id");
        proof {
            reveal_strlit("pk");
            reveal_strlit("sk");
        }
        let mut out: Vec<Transaction> = Vec::new();
        let mut i: usize = 0;
        while i < named.len()
            invariant
                i <= named@.len(),
                named@.len() == items@.len(),
                out@.len() == i,
                forall|k: int|
                    0 <= k < items@.len() ==> same_item(
                        (#[trigger] named@[k])@,
                        transaction_item(items@[k]@),
                    ),
                forall|k: int|
                    0 <= k < i ==> holds_transaction(transaction_item((#[trigger] items@[k])@)),
                forall|k: int|
                    0 <= k < i ==> is_transaction_of(
                        #[trigger] out@[k],
                        transaction_item(items@[k]@),
                    ),
            decreases named@.len() - i,
        {
            proof {
                lemma_same_item_same_transaction(
                    named@[i as int]@,
                    transaction_item(items@[i as int]@),
                );
            }
            match Transaction::from_item(&named[i]) {
                Ok(t) => {
                    out.push(t);
                },
                Err(_) => {
                    return Err(QueryError::Encoding);
                },
            }
            i += 1;
        }
        Ok(out)
    }
}

impl Merchant {
    /// Reads a merchant from an item whose attributes have the names of the fields.
    /// Fails with `Encoding` exactly where a field is missing or of another kind, or
    /// an outlet has merchants below it.
    pub fn from_item(item: &Item) -> (r: Result<Merchant, QueryError>)
        ensures
            r is Ok <==> holds_merchant(item@),
            r matches Ok(x) ==> is_merchant_of(x, item@) && x.is_valid(),
            r matches Err(e) ==> e == QueryError::Encoding,
    {
        let id = match text_field(item, "id") {
            Some(x) => x,
            None => {
                return Err(QueryError::Encoding);
            },
        };
        let name = match text_field(item, "name") {
            Some(x) => x,
            None => {
                return Err(QueryError::Encoding);
            },
        };
        let founded_date = match text_field(item, "founded_date") {
            Some(x) => x,
            None => {
                return Err(QueryError::Encoding);
            },
        };
        let industry = match text_field(item, "industry") {
            Some(x) => x,
            None => {
                return Err(QueryError::Encoding);
            },
        };
        let vat_number = match text_field(item, "vat_number") {
            Some(x) => x,
            None => {
                return Err(QueryError::Encoding);
            },
        };
        let created_at = match number_field(item, "created_at") {
            Some(x) => x,
            None => {
                return Err(QueryError::Encoding);
            },
        };
        let merchant_level = match text_field(item, "merchant_level") {
            Some(x) => match MerchantLevel::from_name(x.as_str()) {
                Some(v) => v,
                None => {
                    return Err(QueryError::Encoding);
                },
            },
            None => {
                return Err(QueryError::Encoding);
            },
        };
        let sub_merchants = match texts_field(item, "sub_merchants") {
            Some(x) => x,
            None => {
                return Err(QueryError::Encoding);
            },
        };
        let has_settlement_permissions = match flag_field(item, "has_settlement_permissions") {
            Some(x) => x,
            None => {
                return Err(QueryError::Encoding);
            },
        };
        let has_billing_permissions = match flag_field(item, "has_billing_permissions") {
            Some(x) => x,
            None => {
                return Err(QueryError::Encoding);
            },
        };
        let merchant = Merchant {
            id,
            name,
            founded_date,
            industry,
            vat_number,
            created_at,
            merchant_level,
            sub_merchants,
            has_settlement_permissions,
            has_billing_permissions,
        };
        if merchant.check_valid() {
            Ok(merchant)
        } else {
            Err(QueryError::Encoding)
        }
    }

    /// Reads the merchants of the items of a scan, in their order. The items come as
    /// the store holds them, their keys under the store's names. Fails with
    /// `Encoding` exactly where an item does not hold a merchant.
    pub fn read_all(items: Vec<Item>) -> (r: Result<Vec<Merchant>, QueryError>)
        ensures
            r is Ok <==> forall|i: int|
                0 <= i < items@.len() ==> holds_merchant(merchant_item((#[trigger] items@[i])@)),
            r matches Ok(v) ==> v@.len() == items@.len() && forall|i: int|
                0 <= i < items@.len() ==> is_merchant_of(
                    #[trigger] v@[i],
                    merchant_item(items@[i]@),
                ) && v@[i].is_valid(),
            r matches Err(e) ==> e == QueryError::Encoding,
    {
        let mut named = items;
        replace_key_names(&mut named, "id", "name");
        proof {
            reveal_strlit("pk");
            reveal_strlit("sk");
        }
        let mut out: Vec<Merchant> = Vec::new();
        let mut i: usize = 0;
        while i < named.len()
            invariant
                i <= named@.len(),
                named@.len() == items@.len(),
                out@.len() == i,
                forall|k: int|
                    0 <= k < items@.len() ==> same_item(
                        (#[trigger] named@[k])@,
                        merchant_item(items@[k]@),
                    ),
                forall|k: int|
                    0 <= k < i ==> holds_merchant(merchant_item((#[trigger] items@[k])@)),
                forall|k: int|
                    0 <= k < i ==> is_merchant_of(#[trigger] out@[k], merchant_item(items@[k]@))
                        && out@[k].is_valid(),
            decreases named@.len() - i,
        {
            proof {
                lemma_same_item_same_merchant(named@[i as int]@, merchant_item(items@[i as int]@));
            }
            match Merchant::from_item(&named[i]) {
                Ok(x) => {
                    out.push(x);
                },
                Err(_) => {
                    return Err(QueryError::Encoding);
                },
            }
            i += 1;
        }
        Ok(out)
    }
}

/// The names of the attributes under which a transaction is stored.
pub open spec fn transaction_attribute_names() -> Set<Seq<char>> {
    set![
        "pk"@,
        "sk"@,
        "gsi1_pk"@,
        "gsi1_sk"@,
        "settlement_merchant_id"@,
        "transaction_type"@,
        "status"@,
        "amount"@,
        "currency"@,
        "pan"@,
        "card_brand"@,
        "date_transaction"@,
        "date_settlement"@,
        "payout_id"@,
        "created_at"@,
    ]
}

/// Whether `m` is the item under which the transaction `t` is stored: the merchant
/// that made it is the partition key and its id the sort key; the merchant that is
/// paid and, again, its id are the keys of the secondary index.
pub open spec fn is_stored_transaction(t: Transaction, m: Map<Seq<char>, AttributeValue>) -> bool {
    &&& m.dom() == transaction_attribute_names()
    &&& text_at(m, "pk"@) == Some(t.merchant_id@)
    &&& text_at(m, "sk"@) == Some(t.id@)
    &&& text_at(m, "gsi1_pk"@) == Some(t.settlement_merchant_id@)
    &&& text_at(m, "gsi1_sk"@) == Some(t.id@)
    &&& text_at(m, "settlement_merchant_id"@) == Some(t.settlement_merchant_id@)
    &&& text_at(m, "transaction_type"@) == Some(transaction_type_name(t.transaction_type))
    &&& text_at(m, "status"@) == Some(transaction_status_name(t.status))
    &&& number_text_at(m, "amount"@) == Some(t.amount@)
    &&& text_at(m, "currency"@) == Some(t.currency@)
    &&& text_at(m, "pan"@) == Some(t.pan@)
    &&& text_at(m, "card_brand"@) == Some(card_brand_name(t.card_brand))
    &&& text_at(m, "date_transaction"@) == Some(t.date_transaction@)
    &&& text_at(m, "date_settlement"@) == Some(t.date_settlement@)
    &&& text_at(m, "payout_id"@) == Some(t.payout_id@)
    &&& number_text_at(m, "created_at"@) == Some(decimal_text(t.created_at as int))
}

/// The names of the attributes under which a merchant is stored.
pub open spec fn merchant_attribute_names() -> Set<Seq<char>> {
    set![
        "pk"@,
        "sk"@,
        "name"@,
        "founded_date"@,
        "industry"@,
        "vat_number"@,
        "created_at"@,
        "merchant_level"@,
        "sub_merchants"@,
        "has_settlement_permissions"@,
        "has_billing_permissions"@,
    ]
}

/// Whether `m` is the item under which the merchant `x` is stored: its id is the
/// partition key and the sort key.
pub open spec fn is_stored_merchant(x: Merchant, m: Map<Seq<char>, AttributeValue>) -> bool {
    &&& m.dom() == merchant_attribute_names()
    &&& text_at(m, "pk"@) == Some(x.id@)
    &&& text_at(m, "sk"@) == Some(x.id@)
    &&& text_at(m, "name"@) == Some(x.name@)
    &&& text_at(m, "founded_date"@) == Some(x.founded_date@)
    &&& text_at(m, "industry"@) == Some(x.industry@)
    &&& text_at(m, "vat_number"@) == Some(x.vat_number@)
    &&& number_text_at(m, "created_at"@) == Some(decimal_text(x.created_at as int))
    &&& text_at(m, "merchant_level"@) == Some(merchant_level_name(x.merchant_level))
    &&& texts_at(m, "sub_merchants"@) == Some(texts_of(x.sub_merchants@))
    &&& flag_at(m, "has_settlement_permissions"@) == Some(x.has_settlement_permissions)
    &&& flag_at(m, "has_billing_permissions"@) == Some(x.has_billing_permissions)
}

/// The names of the attributes are all different.
pub proof fn lemma_attribute_names_differ()
    ensures
        "pk"@.len() == 2 && "pk"@[0] == 'p' && "pk"@[1] == 'k',
        "sk"@.len() == 2 && "sk"@[0] == 's' && "sk"@[1] == 'k',
        "id"@.len() == 2 && "id"@[0] == 'i',
        "name"@.len() == 4 && "name"@[0] == 'n',
        "merchant_id"@.len() == 11,
        "gsi1_pk"@.len() == 7 && "gsi1_pk"@[5] == 'p',
        "gsi1_sk"@.len() == 7 && "gsi1_sk"@[5] == 's',
        "settlement_merchant_id"@.len() == 22,
        "transaction_type"@.len() == 16 && "transaction_type"@[0] == 't',
        "status"@.len() == 6,
        "amount"@.len() == 6 && "amount"@[0] == 'a',
        "currency"@.len() == 8 && "currency"@[0] == 'c',
        "pan"@.len() == 3,
        "card_brand"@.len() == 10 && "card_brand"@[1] == 'a',
        "date_transaction"@.len() == 16 && "date_transaction"@[0] == 'd',
        "date_settlement"@.len() == 15,
        "payout_id"@.len() == 9,
        "created_at"@.len() == 10 && "created_at"@[1] == 'r',
        "founded_date"@.len() == 12,
        "industry"@.len() == 8 && "industry"@[0] == 'i',
        "vat_number"@.len() == 10 && "vat_number"@[1] == 'a',
        "merchant_level"@.len() == 14,
        "sub_merchants"@.len() == 13,
        "has_settlement_permissions"@.len() == 26,
        "has_billing_permissions"@.len() == 23,
        "status"@[0] == 's',
{
    reveal_strlit("pk");
    reveal_strlit("sk");
    reveal_strlit("id");
    reveal_strlit("name");
    reveal_strlit("merchant_id");
    reveal_strlit("gsi1_pk");
    reveal_strlit("gsi1_sk");
    reveal_strlit("settlement_merchant_id");
    reveal_strlit("transaction_type");
    reveal_strlit("status");
    reveal_strlit("amount");
    reveal_strlit("currency");
    reveal_strlit("pan");
    reveal_strlit("card_brand");
    reveal_strlit("date_transaction");
    reveal_strlit("date_settlement");
    reveal_strlit("payout_id");
    reveal_strlit("created_at");
    reveal_strlit("founded_date");
    reveal_strlit("industry");
    reveal_strlit("vat_number");
    reveal_strlit("merchant_level");
    reveal_strlit("sub_merchants");
    reveal_strlit("has_settlement_permissions");
    reveal_strlit("has_billing_permissions");
}

impl Transaction {
    /// Makes the item under which the transaction is stored.
    pub fn to_item(&self) -> (item: Item)
        ensures
            is_stored_transaction(*self, item@),
    {
        proof {
            lemma_attribute_names_differ();
        }
        let mut item = Item::new();
        item.insert(String::from_str("pk"), AttributeValue::S(self.merchant_id.clone()));
        item.insert(String::from_str("sk"), AttributeValue::S(self.id.clone()));
        item.insert(
            String::from_str("gsi1_pk"),
            AttributeValue::S(self.settlement_merchant_id.clone()),
        );
        item.insert(String::from_str("gsi1_sk"), AttributeValue::S(self.id.clone()));
        item.insert(
            String::from_str("settlement_merchant_id"),
            AttributeValue::S(self.settlement_merchant_id.clone()),
        );
        item.insert(
            String::from_str("transaction_type"),
            AttributeValue::S(String::from_str(self.transaction_type.name())),
        );
        item.insert(
            String::from_str("status"),
            AttributeValue::S(String::from_str(self.status.name())),
        );
        item.insert(String::from_str("amount"), AttributeValue::N(self.amount.clone()));
        item.insert(String::from_str("currency"), AttributeValue::S(self.currency.clone()));
        item.insert(String::from_str("pan"), AttributeValue::S(self.pan.clone()));
        item.insert(
            String::from_str("card_brand"),
            AttributeValue::S(String::from_str(self.card_brand.name())),
        );
        item.insert(
            String::from_str("date_transaction"),
            AttributeValue::S(self.date_transaction.clone()),
        );
        item.insert(
            String::from_str("date_settlement"),
            AttributeValue::S(self.date_settlement.clone()),
        );
        item.insert(String::from_str("payout_id"), AttributeValue::S(self.payout_id.clone()));
        item.insert(String::from_str("created_at"), AttributeValue::N(number_text(self.created_at)));
        assert(item@.dom() =~= transaction_attribute_names());
        item
    }
}

impl Merchant {
    /// Makes the item under which the merchant is stored.
    pub fn to_item(&self) -> (item: Item)
        ensures
            is_stored_merchant(*self, item@),
    {
        proof {
            lemma_attribute_names_differ();
        }
        let mut item = Item::new();
        item.insert(String::from_str("pk"), AttributeValue::S(self.id.clone()));
        item.insert(String::from_str("sk"), AttributeValue::S(self.id.clone()));
        item.insert(String::from_str("name"), AttributeValue::S(self.name.clone()));
        item.insert(String::from_str("founded_date"), AttributeValue::S(self.founded_date.clone()));
        item.insert(String::from_str("industry"), AttributeValue::S(self.industry.clone()));
        item.insert(String::from_str("vat_number"), AttributeValue::S(self.vat_number.clone()));
        item.insert(String::from_str("created_at"), AttributeValue::N(number_text(self.created_at)));
        item.insert(
            String::from_str("merchant_level"),
            AttributeValue::S(String::from_str(self.merchant_level.name())),
        );
        item.insert(
            String::from_str("sub_merchants"),
            AttributeValue::L(clone_texts(&self.sub_merchants)),
        );
        item.insert(
            String::from_str("has_settlement_permissions"),
            AttributeValue::Bool(self.has_settlement_permissions),
        );
        item.insert(
            String::from_str("has_billing_permissions"),
            AttributeValue::Bool(self.has_billing_permissions),
        );
        assert(item@.dom() =~= merchant_attribute_names());
        item
    }
}

/// A stored transaction is read back as it was, provided the time of its creation
/// has no more than eighteen digits.
pub proof fn lemma_stored_transaction_reads_back(t: Transaction, m: Map<Seq<char>, AttributeValue>)
    requires
        is_stored_transaction(t, m),
        -1_000_000_000_000_000_000 < t.created_at < 1_000_000_000_000_000_000,
    ensures
        holds_transaction(transaction_item(m)),
        is_transaction_of(t, transaction_item(m)),
{
    lemma_attribute_names_differ();
    lemma_names_read_back(t.transaction_type, t.status, t.card_brand, MerchantLevel::Outlet);
    lemma_number_reads_back(t.created_at as int);
    let named = transaction_item(m);
    assert(m.contains_key("pk"@) && m.contains_key("sk"@));
    assert(named.contains_key("merchant_id"@) && named["merchant_id"@] == m["pk"@]);
    assert(named.contains_key("id"@) && named["id"@] == m["sk"@]);
}

/// A stored merchant that is in order is read back as it was but for its name,
/// provided the time of its creation has no more than eighteen digits. The sort key
/// stands for the name when a merchant is read, and the sort key of a merchant is its
/// id.
pub proof fn lemma_stored_merchant_reads_back(x: Merchant, m: Map<Seq<char>, AttributeValue>)
    requires
        is_stored_merchant(x, m),
        x.is_valid(),
        -1_000_000_000_000_000_000 < x.created_at < 1_000_000_000_000_000_000,
    ensures
        holds_merchant(merchant_item(m)),
        is_merchant_of(Merchant { name: x.id, ..x }, merchant_item(m)),
{
    lemma_attribute_names_differ();
    lemma_names_read_back(
        TransactionType::Online,
        TransactionStatus::Pending,
        CardBrand::Visa,
        x.merchant_level,
    );
    lemma_number_reads_back(x.created_at as int);
    let named = merchant_item(m);
    assert(m.contains_key("pk"@) && m.contains_key("sk"@));
    assert(named.contains_key("id"@) && named["id"@] == m["pk"@]);
    assert(named.contains_key("name"@) && named["name"@] == m["sk"@]);
}

/// Whether `names` lists exactly the texts of `wanted`.
pub open spec fn lists_names(names: Seq<&'static str>, wanted: Set<Seq<char>>) -> bool {
    &&& forall|i: int| 0 <= i < names.len() ==> wanted.contains(#[trigger] names[i]@)
    &&& forall|name: Seq<char>|
        wanted.contains(name) ==> exists|i: int| 0 <= i < names.len() && #[trigger] names[i]@ == name
}

/// The names of the attributes under which a transaction is stored.
pub fn transaction_attributes() -> (names: Vec<&'static str>)
    ensures
        lists_names(names@, transaction_attribute_names()),
{
    let mut names: Vec<&'static str> = Vec::new();
    names.push("pk");
    names.push("sk");
    names.push("gsi1_pk");
    names.push("gsi1_sk");
    names.push("settlement_merchant_id");
    names.push("transaction_type");
    names.push("status");
    names.push("amount");
    names.push("currency");
    names.push("pan");
    names.push("card_brand");
    names.push("date_transaction");
    names.push("date_settlement");
    names.push("payout_id");
    names.push("created_at");
    proof {
        assert(names@[0]@ == "pk"@ && names@[1]@ == "sk"@ && names@[2]@ == "gsi1_pk"@);
        assert(names@[3]@ == "gsi1_sk"@ && names@[4]@ == "settlement_merchant_id"@);
        assert(names@[5]@ == "transaction_type"@ && names@[6]@ == "status"@);
        assert(names@[7]@ == "amount"@ && names@[8]@ == "currency"@ && names@[9]@ == "pan"@);
        assert(names@[10]@ == "card_brand"@ && names@[11]@ == "date_transaction"@);
        assert(names@[12]@ == "date_settlement"@ && names@[13]@ == "payout_id"@);
        assert(names@[14]@ == "created_at"@);
    }
    names
}

/// The names of the attributes under which a merchant is stored.
pub fn merchant_attributes() -> (names: Vec<&'static str>)
    ensures
        lists_names(names@, merchant_attribute_names()),
{
    let mut names: Vec<&'static str> = Vec::new();
    names.push("pk");
    names.push("sk");
    names.push("name");
    names.push("founded_date");
    names.push("industry");
    names.push("vat_number");
    names.push("created_at");
    names.push("merchant_level");
    names.push("sub_merchants");
    names.push("has_settlement_permissions");
    names.push("has_billing_permissions");
    proof {
        assert(names@[0]@ == "pk"@ && names@[1]@ == "sk"@ && names@[2]@ == "name"@);
        assert(names@[3]@ == "founded_date"@ && names@[4]@ == "industry"@);
        assert(names@[5]@ == "vat_number"@ && names@[6]@ == "created_at"@);
        assert(names@[7]@ == "merchant_level"@ && names@[8]@ == "sub_merchants"@);
        assert(names@[9]@ == "has_settlement_permissions"@);
        assert(names@[10]@ == "has_billing_permissions"@);
    }
    names
}

} // verus!
