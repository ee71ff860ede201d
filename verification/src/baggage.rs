//! Baggage items: key/value pairs that propagate forward through a trace.
use vstd::prelude::*;
use vstd::string::StringExecFns;

use crate::kv::{kv_set, lemma_kv_set_absent_appends, lemma_kv_set_at_first_match};
use crate::text::{str_compare, KeyCmp};

verus! {

/// One baggage entry: a key and the value it carries.
#[derive(Debug, PartialEq)]
pub struct BaggageItem {
    key: String,
    value: String,
}

impl View for BaggageItem {
    type V = (Seq<char>, Seq<char>);

    closed spec fn view(&self) -> (Seq<char>, Seq<char>) {
        (self.key@, self.value@)
    }
}

impl BaggageItem {
    /// Creates a baggage item from a key and a value.
    pub fn new(key: &str, value: &str) -> (r: BaggageItem)
        ensures
            r@ == (key@, value@),
    {
        BaggageItem { key: String::from_str(key), value: String::from_str(value) }
    }

    /// The item's key.
    pub fn key(&self) -> (r: &str)
        ensures
            r@ == self@.0,
    {
        self.key.as_str()
    }

    /// The item's value.
    pub fn value(&self) -> (r: &str)
        ensures
            r@ == self@.1,
    {
        self.value.as_str()
    }

    /// The item's value, as the owned string stored in the item.
    pub(crate) fn value_ref(&self) -> (r: &String)
        ensures
            r@ == self@.1,
    {
        &self.value
    }
}

impl Clone for BaggageItem {
    /// Cloning keeps the key and the value.
    fn clone(&self) -> (r: Self)
        ensures
            r@ == self@,
    {
        BaggageItem { key: self.key.clone(), value: self.value.clone() }
    }
}

/// The mathematical contents of a baggage vector.
pub open spec fn baggage_view(s: Seq<BaggageItem>) -> Seq<(Seq<char>, Seq<char>)> {
    s.map_values(|b: BaggageItem| b@)
}

/// The index of the first item carrying the key, if any.
pub(crate) fn baggage_find(items: &Vec<BaggageItem>, key: &str) -> (r: Option<usize>)
    ensures
        match r {
            Some(i) => {
                &&& i < items@.len()
                &&& baggage_view(items@)[i as int].0 == key@
                &&& forall|j: int| 0 <= j < i ==> baggage_view(items@)[j].0 != key@
            },
            None => forall|j: int| 0 <= j < items@.len() ==> baggage_view(items@)[j].0 != key@,
        },
{
    let n = items.len();
    let mut i: usize = 0;
    while i < n
        invariant
            0 <= i <= n,
            n == items@.len(),
            forall|j: int| 0 <= j < i ==> baggage_view(items@)[j].0 != key@,
        decreases n - i,
    {
        let c = str_compare(items[i].key(), key);
        match c {
            KeyCmp::Equal => {
                return Some(i);
            },
            _ => {},
        }
        i += 1;
    }
    None
}

/// Insert or update a baggage item: the contents change exactly as `kv_set`
/// describes.
pub(crate) fn baggage_put(items: &mut Vec<BaggageItem>, key: String, value: String)
    ensures
        baggage_view(final(items)@) == kv_set(baggage_view(old(items)@), key@, value@),
{
    let ghost oldv = baggage_view(items@);
    let found = baggage_find(items, key.as_str());
    match found {
        Some(i) => {
            let slot = vstd::std_specs::vec::vec_index_mut(items, i);
            slot.value = value;
            proof {
                assert(baggage_view(items@) =~= oldv.update(
                    i as int,
                    (oldv[i as int].0, value@),
                ));
                lemma_kv_set_at_first_match(oldv, i as int, value@);
            }
        },
        None => {
            items.push(BaggageItem { key, value });
            proof {
                assert(baggage_view(items@) =~= oldv.push((key@, value@)));
                lemma_kv_set_absent_appends(oldv, key@, value@);
            }
        },
    }
}

} // verus!
