//! Span tags: a map from tag names to closed-variant values.
use vstd::prelude::*;

use crate::kv::{kv_get, lemma_kv_get_first_match, lemma_kv_get_none};
use crate::sorted::{entries_view, entry_find, entry_put_sorted, sorted_by_key};

verus! {

/// The values a span tag can take.
///
/// A floating-point tag is carried as its decimal text: the library never
/// computes with it, it only stores and serializes it.
#[derive(Debug, PartialEq)]
pub enum TagValue {
    Boolean(bool),
    Float(String),
    Integer(i64),
    String(String),
}

/// Map from tag names to `TagValue`s.
///
/// The pairs are kept in strictly increasing key order, so serialization
/// walks them deterministically.
#[derive(Debug)]
pub struct SpanTags {
    entries: Vec<(String, TagValue)>,
}

impl View for SpanTags {
    type V = Seq<(Seq<char>, TagValue)>;

    closed spec fn view(&self) -> Seq<(Seq<char>, TagValue)> {
        entries_view(self.entries@)
    }
}

impl SpanTags {
    /// The tag entries stand in strictly increasing key order.
    pub open spec fn wf(&self) -> bool {
        sorted_by_key(self@)
    }

    /// Returns a new empty tag map.
    pub fn new() -> (r: SpanTags)
        ensures
            r@ == Seq::<(Seq<char>, TagValue)>::empty(),
            r.wf(),
    {
        let r = SpanTags { entries: Vec::new() };
        proof {
            assert(r@ =~= Seq::<(Seq<char>, TagValue)>::empty());
        }
        r
    }

    /// Attempt to extract a tag by name.
    pub fn get(&self, tag: &str) -> (r: Option<&TagValue>)
        ensures
            match r {
                Some(v) => kv_get(self@, tag@) == Some(*v),
                None => kv_get(self@, tag@) is None,
            },
    {
        let found = entry_find(&self.entries, tag);
        match found {
            Some(i) => {
                proof {
                    lemma_kv_get_first_match(self@, i as int);
                }
                Some(&self.entries[i].1)
            },
            None => {
                proof {
                    lemma_kv_get_none(self@, tag@);
                }
                None
            },
        }
    }

    /// The stored tags, in increasing key order.
    pub fn iter(&self) -> (r: &Vec<(String, TagValue)>)
        ensures
            entries_view(r@) == self@,
    {
        &self.entries
    }

    /// Set a tag to the given value, inserting or overwriting.
    pub fn tag(&mut self, tag: &str, value: TagValue)
        requires
            old(self).wf(),
        ensures
            final(self).wf(),
            kv_get(final(self)@, tag@) == Some(value),
            forall|k2: Seq<char>|
                k2 != tag@ ==> #[trigger] kv_get(final(self)@, k2) == kv_get(old(self)@, k2),
    {
        entry_put_sorted(&mut self.entries, tag, value);
    }
}

} // verus!
