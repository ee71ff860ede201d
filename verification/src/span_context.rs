//! The propagatable identity of a span.
use vstd::prelude::*;
use vstd::string::StringExecFns;

use crate::baggage::{baggage_find, baggage_put, baggage_view, BaggageItem};
use crate::impl_context::ImplContext;
use crate::kv::{
    kv_get, kv_set, kv_unique, lemma_kv_get_first_match, lemma_kv_get_none, lemma_kv_set_unique,
};
use crate::span::SpanReference;

verus! {

/// A span's identity: a backend-specific inner context plus the baggage map.
///
/// Baggage items are key/value pairs that are propagated through a trace:
/// they are copied into derived spans every time a `SpanContext` is
/// referenced by a `Span`, and are never propagated backwards to parents.
/// The map keeps insertion order and unique keys.
#[derive(Debug)]
pub struct SpanContext<C> {
    inner: C,
    baggage: Vec<BaggageItem>,
}

impl<C> SpanContext<C> {
    /// The backend-specific part of the context.
    pub closed spec fn spec_inner(&self) -> C {
        self.inner
    }

    /// The baggage map's contents, in insertion order.
    pub closed spec fn bag(&self) -> Seq<(Seq<char>, Seq<char>)> {
        baggage_view(self.baggage@)
    }

    /// Baggage keys are unique.
    pub open spec fn wf(&self) -> bool {
        kv_unique(self.bag())
    }

    /// Creates a new `SpanContext` with empty baggage around a backend
    /// context.
    pub fn new(inner: C) -> (r: SpanContext<C>)
        ensures
            r.spec_inner() == inner,
            r.bag() == Seq::<(Seq<char>, Seq<char>)>::empty(),
            r.wf(),
    {
        let r = SpanContext { inner, baggage: Vec::new() };
        proof {
            assert(r.bag() =~= Seq::<(Seq<char>, Seq<char>)>::empty());
        }
        r
    }

    /// The backend part of the context, for the crate's own backends.
    pub(crate) fn inner_ref(&self) -> (r: &C)
        ensures
            *r == self.spec_inner(),
    {
        &self.inner
    }

    /// The stored baggage items, in insertion order.
    pub fn baggage_items(&self) -> (r: &Vec<BaggageItem>)
        ensures
            baggage_view(r@) == self.bag(),
    {
        &self.baggage
    }

    /// Attempt to fetch a baggage item by key.
    ///
    /// Returns `None` exactly when no item carries the key.
    pub fn get_baggage_item(&self, key: &str) -> (r: Option<&String>)
        ensures
            match r {
                Some(v) => kv_get(self.bag(), key@) == Some(v@),
                None => kv_get(self.bag(), key@) is None,
            },
    {
        let found = baggage_find(&self.baggage, key);
        match found {
            Some(i) => {
                proof {
                    lemma_kv_get_first_match(self.bag(), i as int);
                }
                Some(self.baggage[i].value_ref())
            },
            None => {
                proof {
                    lemma_kv_get_none(self.bag(), key@);
                }
                None
            },
        }
    }

    /// Adds or updates the baggage items with the given key/value pair;
    /// the last write wins.
    pub fn set_baggage_item(&mut self, key: String, value: String)
        ensures
            final(self).bag() == kv_set(old(self).bag(), key@, value@),
            final(self).spec_inner() == old(self).spec_inner(),
            old(self).wf() ==> final(self).wf(),
    {
        let ghost ob = self.bag();
        baggage_put(&mut self.baggage, key, value);
        proof {
            if kv_unique(ob) {
                lemma_kv_set_unique(ob, key@, value@);
            }
        }
    }
}

/// One baggage entry in a context's debug text: the key and the value,
/// quoted verbatim.
pub open spec fn debug_item_text(p: (Seq<char>, Seq<char>)) -> Seq<char> {
    "\""@ + p.0 + "\": \""@ + p.1 + "\""@
}

/// The baggage entries in a context's debug text, separated by commas.
pub open spec fn debug_items_text(s: Seq<(Seq<char>, Seq<char>)>) -> Seq<char>
    decreases s.len(),
{
    if s.len() == 0 {
        Seq::<char>::empty()
    } else if s.len() == 1 {
        debug_item_text(s[0])
    } else {
        debug_item_text(s[0]) + ", "@ + debug_items_text(s.drop_first())
    }
}

/// The full debug text of a context: an opaque backend part and the
/// baggage map, keys and values verbatim.
pub open spec fn debug_context_text(bag: Seq<(Seq<char>, Seq<char>)>) -> Seq<char> {
    "SpanContext { inner: Box<ImplContext>, baggage: {"@ + debug_items_text(bag) + "} }"@
}

/// Appending one entry appends a separator (except to an empty list) and
/// the entry's text.
proof fn lemma_debug_items_push(s: Seq<(Seq<char>, Seq<char>)>, x: (Seq<char>, Seq<char>))
    ensures
        s.len() == 0 ==> debug_items_text(s.push(x)) == debug_item_text(x),
        s.len() > 0 ==> debug_items_text(s.push(x)) == debug_items_text(s) + ", "@
            + debug_item_text(x),
    decreases s.len(),
{
    reveal_with_fuel(debug_items_text, 3);
    if s.len() == 0 {
        assert(s.push(x)[0] == x);
    } else if s.len() == 1 {
        assert(s.push(x)[0] == s[0]);
        assert(s.push(x).drop_first() =~= seq![x]);
        assert(debug_items_text(s.push(x)) == debug_item_text(s[0]) + ", "@ + debug_item_text(
            x,
        ));
        assert(debug_items_text(s) == debug_item_text(s[0]));
    } else {
        assert(s.push(x)[0] == s[0]);
        assert(s.push(x).drop_first() =~= s.drop_first().push(x));
        lemma_debug_items_push(s.drop_first(), x);
        assert(debug_items_text(s.push(x)) == debug_item_text(s[0]) + ", "@ + (debug_items_text(
            s.drop_first(),
        ) + ", "@ + debug_item_text(x)));
        assert(debug_items_text(s) == debug_item_text(s[0]) + ", "@ + debug_items_text(
            s.drop_first(),
        ));
        assert(debug_item_text(s[0]) + ", "@ + (debug_items_text(s.drop_first()) + ", "@
            + debug_item_text(x)) =~= (debug_item_text(s[0]) + ", "@ + debug_items_text(
            s.drop_first(),
        )) + ", "@ + debug_item_text(x));
    }
}

impl<C> SpanContext<C> {
    /// The context rendered as debug text: the backend part is opaque, the
    /// baggage entries come verbatim in insertion order.
    #[verifier::loop_isolation(false)]
    pub fn debug_text(&self) -> (r: String)
        ensures
            r@ == debug_context_text(self.bag()),
    {
        let mut buf = String::from_str("SpanContext { inner: Box<ImplContext>, baggage: {");
        let ghost pre = buf@;
        let ghost bag = self.bag();
        let n = self.baggage.len();
        let mut i: usize = 0;
        proof {
            assert(bag.take(0) =~= Seq::<(Seq<char>, Seq<char>)>::empty());
            assert(buf@ =~= pre + debug_items_text(bag.take(0)));
        }
        while i < n
            invariant
                0 <= i <= n,
                n == bag.len(),
                bag == baggage_view(self.baggage@),
                buf@ == pre + debug_items_text(bag.take(i as int)),
            decreases n - i,
        {
            if i > 0 {
                buf.append(", ");
            }
            let item = &self.baggage[i];
            buf.append("\"");
            buf.append(item.key());
            buf.append("\": \"");
            buf.append(item.value());
            buf.append("\"");
            proof {
                lemma_debug_items_push(bag.take(i as int), bag[i as int]);
                assert(bag.take(i as int + 1) =~= bag.take(i as int).push(bag[i as int]));
                assert(buf@ =~= pre + debug_items_text(bag.take(i as int + 1)));
            }
            i += 1;
        }
        proof {
            assert(bag.take(n as int) =~= bag);
        }
        buf.append("} }");
        proof {
            assert(buf@ =~= debug_context_text(self.bag()));
        }
        buf
    }
}

impl<C: ImplContext> SpanContext<C> {
    /// Access the backend context carried inside.
    ///
    /// The backend in use fixes the context type, so the concrete context
    /// is always available; a mismatch is impossible by construction.
    pub fn impl_context(&self) -> (r: Option<&C::Inner>)
        ensures
            r matches Some(x) && *x == self.spec_inner().spec_inner(),
    {
        Some(self.inner.impl_context())
    }

    /// Update this `SpanContext` to reference another span.
    ///
    /// Called by the `Span` referencing methods, before they copy the
    /// parent's baggage, so the backend hook observes pre-copy baggage.
    pub fn reference_span(&mut self, reference: &SpanReference<C>)
        ensures
            final(self).spec_inner() == old(self).spec_inner().hook_result(*reference),
            final(self).bag() == old(self).bag(),
    {
        self.inner.reference_span(reference);
    }
}

impl<C: ImplContext> Clone for SpanContext<C> {
    /// Cloning deep-clones the backend context and the baggage map.
    fn clone(&self) -> (r: Self)
        ensures
            r.spec_inner() == self.spec_inner(),
            r.bag() == self.bag(),
    {
        let inner = self.inner.duplicate();
        let baggage = self.baggage.clone();
        proof {
            assert(baggage_view(baggage@) =~= baggage_view(self.baggage@));
        }
        SpanContext { inner, baggage }
    }
}

} // verus!
