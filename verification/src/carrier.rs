//! Carrier and format abstraction for context propagation.
//!
//! A carrier is an external medium a `SpanContext` is written to or read
//! from.  Key/value carriers (HTTP-header-like or generic text maps) are
//! reached through the `MapCarrier` trait; a byte-stream medium exists as a
//! format choice for backends that support one.
use vstd::prelude::*;
use vstd::string::StringExecFns;

use crate::baggage::{baggage_find, baggage_put, baggage_view, BaggageItem};
use crate::kv::{kv_get, kv_set, lemma_kv_get_first_match, lemma_kv_get_none};

verus! {

/// `SpanContext` extraction format: the medium a context is read from.
#[derive(Clone, Copy, Debug)]
pub enum ExtractFormat {
    Binary,
    HttpHeaders,
    TextMap,
}

/// `SpanContext` injection format: the medium a context is written to.
#[derive(Clone, Copy, Debug)]
pub enum InjectFormat {
    Binary,
    HttpHeaders,
    TextMap,
}

/// The mathematical contents of a vector of owned key/value pairs.
pub open spec fn items_view(s: Seq<(String, String)>) -> Seq<(Seq<char>, Seq<char>)> {
    s.map_values(|p: (String, String)| (p.0@, p.1@))
}

/// Interface for HTTP-header and text-map carriers.
///
/// A carrier is a finite mapping from text keys to text values; `entries`
/// is its mathematical contents, in carrier order.
pub trait MapCarrier {
    /// The carrier's key/value pairs, in carrier order.
    spec fn entries(&self) -> Seq<(Seq<char>, Seq<char>)>;

    /// List all items stored in the carrier as `(key, value)` pairs.
    fn items(&self) -> (r: Vec<(String, String)>)
        ensures
            items_view(r@) == self.entries(),
    ;

    /// Attempt to fetch an exact key from the carrier.
    fn get(&self, key: &str) -> (r: Option<String>)
        ensures
            match r {
                Some(v) => kv_get(self.entries(), key@) == Some(v@),
                None => kv_get(self.entries(), key@) is None,
            },
    ;

    /// Set a key/value pair on the carrier; the last write wins.
    fn set(&mut self, key: &str, value: &str)
        ensures
            final(self).entries() == kv_set(old(self).entries(), key@, value@),
    ;
}

/// A ready-made in-memory map carrier: an insertion-ordered map of text
/// keys to text values with unique keys.
#[derive(Debug)]
pub struct TextMapCarrier {
    pairs: Vec<BaggageItem>,
}

impl TextMapCarrier {
    /// An empty carrier.
    pub fn new() -> (r: TextMapCarrier)
        ensures
            r.entries() == Seq::<(Seq<char>, Seq<char>)>::empty(),
    {
        let r = TextMapCarrier { pairs: Vec::new() };
        proof {
            assert(r.entries() =~= Seq::<(Seq<char>, Seq<char>)>::empty());
        }
        r
    }
}

impl MapCarrier for TextMapCarrier {
    closed spec fn entries(&self) -> Seq<(Seq<char>, Seq<char>)> {
        baggage_view(self.pairs@)
    }

    fn items(&self) -> (r: Vec<(String, String)>) {
        let mut r: Vec<(String, String)> = Vec::new();
        let n = self.pairs.len();
        let mut i: usize = 0;
        while i < n
            invariant
                0 <= i <= n,
                n == self.pairs@.len(),
                r@.len() == i,
                forall|j: int|
                    0 <= j < i ==> (#[trigger] r@[j].0)@ == self.pairs@[j]@.0 && r@[j].1@
                        == self.pairs@[j]@.1,
            decreases n - i,
        {
            let item = &self.pairs[i];
            r.push((String::from_str(item.key()), String::from_str(item.value())));
            i += 1;
        }
        proof {
            assert(items_view(r@) =~= self.entries());
        }
        r
    }

    fn get(&self, key: &str) -> (r: Option<String>) {
        let found = baggage_find(&self.pairs, key);
        match found {
            Some(i) => {
                proof {
                    lemma_kv_get_first_match(self.entries(), i as int);
                }
                Some(self.pairs[i].value_ref().clone())
            },
            None => {
                proof {
                    lemma_kv_get_none(self.entries(), key@);
                }
                None
            },
        }
    }

    fn set(&mut self, key: &str, value: &str) {
        baggage_put(&mut self.pairs, String::from_str(key), String::from_str(value));
    }
}

} // verus!
