//! Backend-specific context details.
//!
//! A `SpanContext` couples data common to every backend (the baggage map)
//! with a backend-specific part: trace and span identifiers, flags, and
//! whatever else the concrete tracer needs.  The backend part is fixed by
//! the type parameter of `SpanContext`; the traits here state what the
//! crate relies on from it: explicit duplication and the reference hook
//! that runs whenever the owning span references another span.
use vstd::prelude::*;

use crate::span::SpanReference;

verus! {

/// Contract of the backend-specific part of a `SpanContext`.
///
/// `Inner` is the concrete backend context handed back by `impl_context`.
/// `hook_result` is the backend's own description of what its reference
/// hook computes; the executable `reference_span` must realize it.
pub trait ImplContext: Sized {
    /// The concrete backend context carried inside.
    type Inner;

    /// The carried backend context, as a value.
    spec fn spec_inner(&self) -> Self::Inner;

    /// What the reference hook turns this context into.
    spec fn hook_result(&self, reference: SpanReference<Self>) -> Self;

    /// Access the carried backend context.
    fn impl_context(&self) -> (r: &Self::Inner)
        ensures
            *r == self.spec_inner(),
    ;

    /// Duplicate the context.
    ///
    /// Duplication is an explicit capability of the interface, so the
    /// interface itself documents that backend contexts can be copied into
    /// child operations.
    fn duplicate(&self) -> (r: Self)
        ensures
            r == *self,
    ;

    /// Update internal identifiers when the owning span references another
    /// span; for instance, inherit the parent's trace identifier.
    fn reference_span(&mut self, reference: &SpanReference<Self>)
        ensures
            *final(self) == old(self).hook_result(*reference),
    ;
}

/// Trait for structures that want to be wrapped in `ImplContextBox`es.
///
/// The wrapped structure only has to describe and implement its reference
/// hook and its duplication; `ImplContextBox` lifts both to `ImplContext`.
pub trait SpanReferenceAware: Sized {
    /// What the reference hook turns this context into; unless the context
    /// says otherwise, references leave it unchanged.
    open spec fn spec_referenced(&self, reference: SpanReference<ImplContextBox<Self>>) -> Self {
        *self
    }

    /// See `ImplContext::reference_span`.
    fn reference_span(&mut self, reference: &SpanReference<ImplContextBox<Self>>)
        ensures
            *final(self) == old(self).spec_referenced(*reference),
    ;

    /// See `ImplContext::duplicate`.
    fn duplicate(&self) -> (r: Self)
        ensures
            r == *self,
    ;
}

/// Utility structure that makes a `SpanReferenceAware` value usable as the
/// backend part of a `SpanContext`.
#[derive(Debug)]
pub struct ImplContextBox<T> {
    /// The wrapped backend context.
    pub inner: T,
}

impl<T> ImplContextBox<T> {
    /// Wrap a compatible value into an `ImplContextBox`.
    pub fn new(inner: T) -> (r: ImplContextBox<T>)
        ensures
            r.inner == inner,
    {
        ImplContextBox { inner }
    }
}

impl<T: SpanReferenceAware> ImplContext for ImplContextBox<T> {
    type Inner = T;

    open spec fn spec_inner(&self) -> T {
        self.inner
    }

    open spec fn hook_result(&self, reference: SpanReference<Self>) -> Self {
        ImplContextBox { inner: self.inner.spec_referenced(reference) }
    }

    fn impl_context(&self) -> (r: &T) {
        &self.inner
    }

    fn duplicate(&self) -> (r: Self) {
        ImplContextBox { inner: self.inner.duplicate() }
    }

    fn reference_span(&mut self, reference: &SpanReference<Self>) {
        self.inner.reference_span(reference);
    }
}

} // verus!
