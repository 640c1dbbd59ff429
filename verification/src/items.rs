//! Stored items: maps from attribute names to loosely typed values, as the record
//! store hands them out, and the strict reading of records from them.
//!
//! A field that is missing, or holds a value of another kind than the record asks
//! for, fails the reading: nothing is filled in.
use crate::models::clone_texts;
use crate::numbers::{number_of, parse_number};
use vstd::hash_map::StringHashMap;
use vstd::prelude::*;
use vstd::string::StringExecFns;

verus! {

/// The value of an attribute.
#[derive(Debug)]
pub enum AttributeValue {
    /// A text.
    S(String),
    /// A number, written in decimal.
    N(String),
    /// A flag.
    Bool(bool),
    /// A list of texts.
    L(Vec<String>),
    /// A value of a kind that no record uses.
    Other,
}

/// A stored item.
pub type Item = StringHashMap<AttributeValue>;

/// The texts of a list of strings.
pub open spec fn texts_of(v: Seq<String>) -> Seq<Seq<char>> {
    Seq::new(v.len(), |i: int| v[i]@)
}

impl AttributeValue {
    /// Whether `other` holds what this value holds.
    pub open spec fn same_as(&self, other: AttributeValue) -> bool {
        match (*self, other) {
            (AttributeValue::S(a), AttributeValue::S(b)) => a@ == b@,
            (AttributeValue::N(a), AttributeValue::N(b)) => a@ == b@,
            (AttributeValue::Bool(a), AttributeValue::Bool(b)) => a == b,
            (AttributeValue::L(a), AttributeValue::L(b)) => texts_of(a@) == texts_of(b@),
            (AttributeValue::Other, AttributeValue::Other) => true,
            _ => false,
        }
    }
}

impl Clone for AttributeValue {
    fn clone(&self) -> (r: Self)
        ensures
            self.same_as(r),
    {
        match self {
            AttributeValue::S(s) => AttributeValue::S(s.clone()),
            AttributeValue::N(s) => AttributeValue::N(s.clone()),
            AttributeValue::Bool(b) => AttributeValue::Bool(*b),
            AttributeValue::L(v) => AttributeValue::L(clone_texts(v)),
            AttributeValue::Other => AttributeValue::Other,
        }
    }
}

/// The text under `name`, where the item has that attribute and it is a text.
pub open spec fn text_at(m: Map<Seq<char>, AttributeValue>, name: Seq<char>) -> Option<Seq<char>> {
    if m.contains_key(name) {
        match m[name] {
            AttributeValue::S(s) => Some(s@),
            _ => None,
        }
    } else {
        None
    }
}

/// The written number under `name`, where the item has that attribute and it is a
/// number.
pub open spec fn number_text_at(m: Map<Seq<char>, AttributeValue>, name: Seq<char>) -> Option<
    Seq<char>,
> {
    if m.contains_key(name) {
        match m[name] {
            AttributeValue::N(s) => Some(s@),
            _ => None,
        }
    } else {
        None
    }
}

/// The whole number under `name`, where the item has that attribute and it is a
/// number that is whole and can be read.
pub open spec fn number_at(m: Map<Seq<char>, AttributeValue>, name: Seq<char>) -> Option<int> {
    match number_text_at(m, name) {
        Some(s) => number_of(s),
        None => None,
    }
}

/// The flag under `name`, where the item has that attribute and it is a flag.
pub open spec fn flag_at(m: Map<Seq<char>, AttributeValue>, name: Seq<char>) -> Option<bool> {
    if m.contains_key(name) {
        match m[name] {
            AttributeValue::Bool(b) => Some(b),
            _ => None,
        }
    } else {
        None
    }
}

/// The texts under `name`, where the item has that attribute and it is a list.
pub open spec fn texts_at(m: Map<Seq<char>, AttributeValue>, name: Seq<char>) -> Option<
    Seq<Seq<char>>,
> {
    if m.contains_key(name) {
        match m[name] {
            AttributeValue::L(v) => Some(texts_of(v@)),
            _ => None,
        }
    } else {
        None
    }
}

/// Reads the text under `name`.
pub fn text_field(item: &Item, name: &str) -> (r: Option<String>)
    ensures
        match r {
            Some(s) => text_at(item@, name@) == Some(s@),
            None => text_at(item@, name@) is None,
        },
{
    match item.get(name) {
        Some(AttributeValue::S(s)) => Some(s.clone()),
        _ => None,
    }
}

/// Reads the written number under `name`.
pub fn number_text_field(item: &Item, name: &str) -> (r: Option<String>)
    ensures
        match r {
            Some(s) => number_text_at(item@, name@) == Some(s@),
            None => number_text_at(item@, name@) is None,
        },
{
    match item.get(name) {
        Some(AttributeValue::N(s)) => Some(s.clone()),
        _ => None,
    }
}

/// Reads the whole number under `name`.
pub fn number_field(item: &Item, name: &str) -> (r: Option<i64>)
    ensures
        match r {
            Some(n) => number_at(item@, name@) == Some(n as int),
            None => number_at(item@, name@) is None,
        },
{
    match item.get(name) {
        Some(AttributeValue::N(s)) => parse_number(s.as_str()),
        _ => None,
    }
}

/// Reads the flag under `name`.
pub fn flag_field(item: &Item, name: &str) -> (r: Option<bool>)
    ensures
        r == flag_at(item@, name@),
{
    match item.get(name) {
        Some(AttributeValue::Bool(b)) => Some(*b),
        _ => None,
    }
}

/// Reads the list of texts under `name`.
pub fn texts_field(item: &Item, name: &str) -> (r: Option<Vec<String>>)
    ensures
        match r {
            Some(v) => texts_at(item@, name@) == Some(texts_of(v@)),
            None => texts_at(item@, name@) is None,
        },
{
    match item.get(name) {
        Some(AttributeValue::L(v)) => Some(clone_texts(v)),
        _ => None,
    }
}

/// The item with the attribute `from` under the name `to` instead, where it has that
/// attribute; else the item as it is.
pub open spec fn renamed(
    m: Map<Seq<char>, AttributeValue>,
    from: Seq<char>,
    to: Seq<char>,
) -> Map<Seq<char>, AttributeValue> {
    if m.contains_key(from) {
        m.remove(from).insert(to, m[from])
    } else {
        m
    }
}

/// Whether two items have the same attributes with the same values.
pub open spec fn same_item(
    a: Map<Seq<char>, AttributeValue>,
    b: Map<Seq<char>, AttributeValue>,
) -> bool {
    &&& a.dom() == b.dom()
    &&& forall|name: Seq<char>| #[trigger] a.contains_key(name) ==> a[name].same_as(b[name])
}

/// Gives the attribute `from` of an item the name `to`. An attribute that the item
/// had under the name `to` gives way.
pub fn rename_attribute(item: &mut Item, from: &str, to: &str)
    ensures
        same_item(final(item)@, renamed(old(item)@, from@, to@)),
{
    let value = match item.get(from) {
        Some(v) => Some(v.clone()),
        None => None,
    };
    match value {
        Some(v) => {
            item.remove(from);
            item.insert(String::from_str(to), v);
            proof {
                let want = renamed(old(item)@, from@, to@);
                assert(item@.dom() =~= want.dom());
                assert forall|name: Seq<char>| #[trigger]
                    item@.contains_key(name) implies item@[name].same_as(want[name]) by {
                    if name != to@ {
                        lemma_same_as_itself(item@[name]);
                    }
                }
            }
        },
        None => {
            proof {
                assert forall|name: Seq<char>| #[trigger]
                    item@.contains_key(name) implies item@[name].same_as(item@[name]) by {
                    lemma_same_as_itself(item@[name]);
                }
            }
        },
    }
}

/// Every value holds what it holds.
pub proof fn lemma_same_as_itself(v: AttributeValue)
    ensures
        v.same_as(v),
{
}

/// The name of the attribute that holds an item's partition key in the store.
pub open spec fn partition_key_name() -> Seq<char> {
    "pk"@
}

/// The name of the attribute that holds an item's sort key in the store.
pub open spec fn sort_key_name() -> Seq<char> {
    "sk"@
}

/// Gives the two key attributes of every item the names under which the records know
/// them: the partition key the name `partition_key`, then the sort key the name
/// `sort_key`.
pub fn replace_key_names(items: &mut Vec<Item>, partition_key: &str, sort_key: &str)
    ensures
        final(items)@.len() == old(items)@.len(),
        forall|i: int|
            0 <= i < old(items)@.len() ==> same_item(
                (#[trigger] final(items)@[i])@,
                renamed(
                    renamed(old(items)@[i]@, partition_key_name(), partition_key@),
                    sort_key_name(),
                    sort_key@,
                ),
            ),
{
    let ghost before = items@;
    let mut i: usize = 0;
    while i < items.len()
        invariant
            i <= items@.len(),
            items@.len() == before.len(),
            forall|k: int| i <= k < before.len() ==> items@[k] == before[k],
            forall|k: int|
                0 <= k < i ==> same_item(
                    (#[trigger] items@[k])@,
                    renamed(
                        renamed(before[k]@, partition_key_name(), partition_key@),
                        sort_key_name(),
                        sort_key@,
                    ),
                ),
        decreases items@.len() - i,
    {
        let ghost first = items@[i as int]@;
        rename_attribute(&mut items[i], "pk", partition_key);
        let ghost second = items@[i as int]@;
        rename_attribute(&mut items[i], "sk", sort_key);
        proof {
            lemma_renamed_respects_same(
                second,
                renamed(first, partition_key_name(), partition_key@),
                sort_key_name(),
                sort_key@,
            );
            lemma_same_item_trans(
                items@[i as int]@,
                renamed(second, sort_key_name(), sort_key@),
                renamed(
                    renamed(first, partition_key_name(), partition_key@),
                    sort_key_name(),
                    sort_key@,
                ),
            );
        }
        i += 1;
    }
}

/// Renaming an attribute of two items that hold the same gives two items that hold
/// the same.
pub proof fn lemma_renamed_respects_same(
    a: Map<Seq<char>, AttributeValue>,
    b: Map<Seq<char>, AttributeValue>,
    from: Seq<char>,
    to: Seq<char>,
)
    requires
        same_item(a, b),
    ensures
        same_item(renamed(a, from, to), renamed(b, from, to)),
{
    let x = renamed(a, from, to);
    let y = renamed(b, from, to);
    assert(a.contains_key(from) == b.contains_key(from));
    assert(x.dom() =~= y.dom());
    assert forall|name: Seq<char>| #[trigger] x.contains_key(name) implies x[name].same_as(
        y[name],
    ) by {
        if a.contains_key(from) {
            assert(a.contains_key(from));
            if name != to {
                assert(a.contains_key(name));
            }
        } else {
            assert(a.contains_key(name));
        }
    }
}

/// Holding the same is transitive.
pub proof fn lemma_same_item_trans(
    a: Map<Seq<char>, AttributeValue>,
    b: Map<Seq<char>, AttributeValue>,
    c: Map<Seq<char>, AttributeValue>,
)
    requires
        same_item(a, b),
        same_item(b, c),
    ensures
        same_item(a, c),
{
    assert forall|name: Seq<char>| #[trigger] a.contains_key(name) implies a[name].same_as(
        c[name],
    ) by {
        assert(b.contains_key(name));
    }
}

} // verus!
