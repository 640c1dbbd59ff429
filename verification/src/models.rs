//! The records: transactions and merchants, and the closed sets of values in them.
use crate::order::text_eq;
use vstd::prelude::*;

verus! {

/// How a transaction was made.
#[derive(Clone, Copy, Debug, PartialEq, Eq, Structural)]
pub enum TransactionType {
    Online,
    Pos,
}

/// Where a transaction stands in its life.
#[derive(Clone, Copy, Debug, PartialEq, Eq, Structural)]
pub enum TransactionStatus {
    Pending,
    Successful,
    Chargeback,
    PaidOut,
}

/// The card scheme of a transaction.
#[derive(Clone, Copy, Debug, PartialEq, Eq, Structural)]
pub enum CardBrand {
    Visa,
    Mastercard,
    Amex,
    Discover,
}

/// The tier of a merchant: an outlet trades, a chain holds outlets, a group holds
/// chains.
#[derive(Clone, Copy, Debug, PartialEq, Eq, Structural)]
pub enum MerchantLevel {
    Outlet,
    Chain,
    Group,
}

/// The name of a transaction type, as it is stored and shown.
pub open spec fn transaction_type_name(t: TransactionType) -> Seq<char> {
    match t {
        TransactionType::Online => "Online"@,
        TransactionType::Pos => "Pos"@,
    }
}

/// The transaction type of a name, if it is one.
pub open spec fn transaction_type_named(s: Seq<char>) -> Option<TransactionType> {
    if s == "Online"@ {
        Some(TransactionType::Online)
    } else if s == "Pos"@ {
        Some(TransactionType::Pos)
    } else {
        None
    }
}

/// The name of a status, as it is stored and shown.
pub open spec fn transaction_status_name(t: TransactionStatus) -> Seq<char> {
    match t {
        TransactionStatus::Pending => "Pending"@,
        TransactionStatus::Successful => "Successful"@,
        TransactionStatus::Chargeback => "Chargeback"@,
        TransactionStatus::PaidOut => "PaidOut"@,
    }
}

/// The status of a name, if it is one.
pub open spec fn transaction_status_named(s: Seq<char>) -> Option<TransactionStatus> {
    if s == "Pending"@ {
        Some(TransactionStatus::Pending)
    } else if s == "Successful"@ {
        Some(TransactionStatus::Successful)
    } else if s == "Chargeback"@ {
        Some(TransactionStatus::Chargeback)
    } else if s == "PaidOut"@ {
        Some(TransactionStatus::PaidOut)
    } else {
        None
    }
}

/// The name of a card brand, as it is stored and shown.
pub open spec fn card_brand_name(b: CardBrand) -> Seq<char> {
    match b {
        CardBrand::Visa => "Visa"@,
        CardBrand::Mastercard => "Mastercard"@,
        CardBrand::Amex => "Amex"@,
        CardBrand::Discover => "Discover"@,
    }
}

/// The card brand of a name, if it is one.
pub open spec fn card_brand_named(s: Seq<char>) -> Option<CardBrand> {
    if s == "Visa"@ {
        Some(CardBrand::Visa)
    } else if s == "Mastercard"@ {
        Some(CardBrand::Mastercard)
    } else if s == "Amex"@ {
        Some(CardBrand::Amex)
    } else if s == "Discover"@ {
        Some(CardBrand::Discover)
    } else {
        None
    }
}

/// The name of a merchant level, as it is stored and shown.
pub open spec fn merchant_level_name(l: MerchantLevel) -> Seq<char> {
    match l {
        MerchantLevel::Outlet => "Outlet"@,
        MerchantLevel::Chain => "Chain"@,
        MerchantLevel::Group => "Group"@,
    }
}

/// The merchant level of a name, if it is one.
pub open spec fn merchant_level_named(s: Seq<char>) -> Option<MerchantLevel> {
    if s == "Outlet"@ {
        Some(MerchantLevel::Outlet)
    } else if s == "Chain"@ {
        Some(MerchantLevel::Chain)
    } else if s == "Group"@ {
        Some(MerchantLevel::Group)
    } else {
        None
    }
}

impl TransactionType {
    /// The name of this type.
    pub fn name(&self) -> (s: &'static str)
        ensures
            s@ == transaction_type_name(*self),
    {
        match self {
            TransactionType::Online => "Online",
            TransactionType::Pos => "Pos",
        }
    }

    /// The type with the given name.
    pub fn from_name(s: &str) -> (r: Option<TransactionType>)
        ensures
            r == transaction_type_named(s@),
    {
        if text_eq(s, "Online") {
            Some(TransactionType::Online)
        } else if text_eq(s, "Pos") {
            Some(TransactionType::Pos)
        } else {
            None
        }
    }
}

impl TransactionStatus {
    /// The name of this status.
    pub fn name(&self) -> (s: &'static str)
        ensures
            s@ == transaction_status_name(*self),
    {
        match self {
            TransactionStatus::Pending => "Pending",
            TransactionStatus::Successful => "Successful",
            TransactionStatus::Chargeback => "Chargeback",
            TransactionStatus::PaidOut => "PaidOut",
        }
    }

    /// The status with the given name.
    pub fn from_name(s: &str) -> (r: Option<TransactionStatus>)
        ensures
            r == transaction_status_named(s@),
    {
        if text_eq(s, "Pending") {
            Some(TransactionStatus::Pending)
        } else if text_eq(s, "Successful") {
            Some(TransactionStatus::Successful)
        } else if text_eq(s, "Chargeback") {
            Some(TransactionStatus::Chargeback)
        } else if text_eq(s, "PaidOut") {
            Some(TransactionStatus::PaidOut)
        } else {
            None
        }
    }
}

impl CardBrand {
    /// The name of this brand.
    pub fn name(&self) -> (s: &'static str)
        ensures
            s@ == card_brand_name(*self),
    {
        match self {
            CardBrand::Visa => "Visa",
            CardBrand::Mastercard => "Mastercard",
            CardBrand::Amex => "Amex",
            CardBrand::Discover => "Discover",
        }
    }

    /// The brand with the given name.
    pub fn from_name(s: &str) -> (r: Option<CardBrand>)
        ensures
            r == card_brand_named(s@),
    {
        if text_eq(s, "Visa") {
            Some(CardBrand::Visa)
        } else if text_eq(s, "Mastercard") {
            Some(CardBrand::Mastercard)
        } else if text_eq(s, "Amex") {
            Some(CardBrand::Amex)
        } else if text_eq(s, "Discover") {
            Some(CardBrand::Discover)
        } else {
            None
        }
    }
}

impl MerchantLevel {
    /// The name of this level.
    pub fn name(&self) -> (s: &'static str)
        ensures
            s@ == merchant_level_name(*self),
    {
        match self {
            MerchantLevel::Outlet => "Outlet",
            MerchantLevel::Chain => "Chain",
            MerchantLevel::Group => "Group",
        }
    }

    /// The level with the given name.
    pub fn from_name(s: &str) -> (r: Option<MerchantLevel>)
        ensures
            r == merchant_level_named(s@),
    {
        if text_eq(s, "Outlet") {
            Some(MerchantLevel::Outlet)
        } else if text_eq(s, "Chain") {
            Some(MerchantLevel::Chain)
        } else if text_eq(s, "Group") {
            Some(MerchantLevel::Group)
        } else {
            None
        }
    }
}

/// Every value is found again under its name.
pub proof fn lemma_names_read_back(
    t: TransactionType,
    s: TransactionStatus,
    b: CardBrand,
    l: MerchantLevel,
)
    ensures
        transaction_type_named(transaction_type_name(t)) == Some(t),
        transaction_status_named(transaction_status_name(s)) == Some(s),
        card_brand_named(card_brand_name(b)) == Some(b),
        merchant_level_named(merchant_level_name(l)) == Some(l),
{
    reveal_strlit("Online");
    reveal_strlit("Pos");
    reveal_strlit("Pending");
    reveal_strlit("Successful");
    reveal_strlit("Chargeback");
    reveal_strlit("PaidOut");
    reveal_strlit("Visa");
    reveal_strlit("Mastercard");
    reveal_strlit("Amex");
    reveal_strlit("Discover");
    reveal_strlit("Outlet");
    reveal_strlit("Chain");
    reveal_strlit("Group");
    assert("Online"@.len() != "Pos"@.len());
    assert("Pending"@[0] != "Successful"@[0]);
    assert("Pending"@[0] != "Chargeback"@[0]);
    assert("Pending"@[1] != "PaidOut"@[1]);
    assert("Successful"@[0] != "Chargeback"@[0]);
    assert("Successful"@[0] != "PaidOut"@[0]);
    assert("Chargeback"@[0] != "PaidOut"@[0]);
    assert("Visa"@[0] != "Mastercard"@[0]);
    assert("Visa"@[0] != "Amex"@[0]);
    assert("Visa"@[0] != "Discover"@[0]);
    assert("Mastercard"@[0] != "Amex"@[0]);
    assert("Mastercard"@[0] != "Discover"@[0]);
    assert("Amex"@[0] != "Discover"@[0]);
    assert("Outlet"@[0] != "Chain"@[0]);
    assert("Outlet"@[0] != "Group"@[0]);
    assert("Chain"@[0] != "Group"@[0]);
}

/// A card transaction of a merchant.
#[derive(Debug)]
pub struct Transaction {
    /// The sort key: unique among all transactions, and ordered as the transactions
    /// are in time.
    pub id: String,
    /// The merchant that made the transaction.
    pub merchant_id: String,
    /// The merchant that receives the settled funds.
    pub settlement_merchant_id: String,
    pub transaction_type: TransactionType,
    pub status: TransactionStatus,
    /// The amount as the store writes it: a decimal number in the currency.
    pub amount: String,
    pub currency: String,
    /// The masked card number.
    pub pan: String,
    pub card_brand: CardBrand,
    pub date_transaction: String,
    pub date_settlement: String,
    pub payout_id: String,
    /// When the record was made, in milliseconds since 1970; the tiebreak of cursors.
    pub created_at: i64,
}

impl Clone for Transaction {
    fn clone(&self) -> (r: Self)
        ensures
            r == *self,
    {
        Transaction {
            id: self.id.clone(),
            merchant_id: self.merchant_id.clone(),
            settlement_merchant_id: self.settlement_merchant_id.clone(),
            transaction_type: self.transaction_type,
            status: self.status,
            amount: self.amount.clone(),
            currency: self.currency.clone(),
            pan: self.pan.clone(),
            card_brand: self.card_brand,
            date_transaction: self.date_transaction.clone(),
            date_settlement: self.date_settlement.clone(),
            payout_id: self.payout_id.clone(),
            created_at: self.created_at,
        }
    }
}

/// A merchant.
#[derive(Debug)]
pub struct Merchant {
    pub id: String,
    pub name: String,
    pub founded_date: String,
    pub industry: String,
    pub vat_number: String,
    pub created_at: i64,
    pub merchant_level: MerchantLevel,
    /// The merchants below this one; outlets have none.
    pub sub_merchants: Vec<String>,
    pub has_settlement_permissions: bool,
    pub has_billing_permissions: bool,
}

impl Merchant {
    /// Whether the record is in order: an outlet has no merchants below it.
    pub open spec fn is_valid(&self) -> bool {
        self.merchant_level == MerchantLevel::Outlet ==> self.sub_merchants@.len() == 0
    }

    /// Decides whether the record is in order.
    pub fn check_valid(&self) -> (r: bool)
        ensures
            r == self.is_valid(),
    {
        match self.merchant_level {
            MerchantLevel::Outlet => self.sub_merchants.len() == 0,
            _ => true,
        }
    }
}

/// Copies a list of texts.
pub fn clone_texts(v: &Vec<String>) -> (r: Vec<String>)
    ensures
        r@ == v@,
{
    let mut r: Vec<String> = Vec::new();
    let mut i: usize = 0;
    while i < v.len()
        invariant
            i <= v.len(),
            r@ == v@.take(i as int),
        decreases v.len() - i,
    {
        r.push(v[i].clone());
        assert(r@ =~= v@.take(i + 1));
        i += 1;
    }
    assert(v@.take(v.len() as int) =~= v@);
    r
}

impl Merchant {
    /// Whether `other` holds what this record holds.
    pub open spec fn same_as(&self, other: Merchant) -> bool {
        &&& self.id == other.id
        &&& self.name == other.name
        &&& self.founded_date == other.founded_date
        &&& self.industry == other.industry
        &&& self.vat_number == other.vat_number
        &&& self.created_at == other.created_at
        &&& self.merchant_level == other.merchant_level
        &&& self.sub_merchants@ == other.sub_merchants@
        &&& self.has_settlement_permissions == other.has_settlement_permissions
        &&& self.has_billing_permissions == other.has_billing_permissions
    }
}

impl Clone for Merchant {
    fn clone(&self) -> (r: Self)
        ensures
            self.same_as(r),
    {
        Merchant {
            id: self.id.clone(),
            name: self.name.clone(),
            founded_date: self.founded_date.clone(),
            industry: self.industry.clone(),
            vat_number: self.vat_number.clone(),
            created_at: self.created_at,
            merchant_level: self.merchant_level,
            sub_merchants: clone_texts(&self.sub_merchants),
            has_settlement_permissions: self.has_settlement_permissions,
            has_billing_permissions: self.has_billing_permissions,
        }
    }
}

} // verus!
