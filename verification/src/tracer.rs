//! The `Tracer` façade and the backend contract.
use vstd::prelude::*;

use crate::carrier::{ExtractFormat, InjectFormat, MapCarrier};
use crate::errors::Error;
use crate::impl_context::ImplContext;
use crate::span::{Span, SpanReference, StartOptions};
use crate::span_context::SpanContext;

verus! {

/// Smallest set of operations a concrete tracer backend must implement.
///
/// Each backend fixes the context type its spans carry, says which carrier
/// formats it supports, and describes its own behaviour through the
/// `extract_post`, `inject_post` and `span_post` predicates, which its
/// executable methods must realize.  Requesting an unsupported format is a
/// wiring error, not a runtime condition, so the supported formats stand in
/// the preconditions.
pub trait TracerInterface: Sized {
    /// The backend context type carried by this tracer's spans.
    type Context: ImplContext;

    /// Which extraction formats the backend accepts; unless a backend says
    /// otherwise, all of them.
    open spec fn extract_supported(fmt: ExtractFormat) -> bool {
        true
    }

    /// Which injection formats the backend accepts; unless a backend says
    /// otherwise, all of them.
    open spec fn inject_supported(fmt: InjectFormat) -> bool {
        true
    }

    /// What extraction returns, given the carrier's contents; unless a
    /// backend says otherwise, nothing is promised.
    open spec fn extract_post(
        &self,
        fmt: ExtractFormat,
        entries: Seq<(Seq<char>, Seq<char>)>,
        r: Result<Option<SpanContext<Self::Context>>, Error<Self::Context>>,
    ) -> bool {
        true
    }

    /// What injection does to the carrier's contents; unless a backend
    /// says otherwise, nothing is promised.
    open spec fn inject_post(
        &self,
        context: SpanContext<Self::Context>,
        fmt: InjectFormat,
        old_entries: Seq<(Seq<char>, Seq<char>)>,
        new_entries: Seq<(Seq<char>, Seq<char>)>,
        r: Result<(), Error<Self::Context>>,
    ) -> bool {
        true
    }

    /// What a created span looks like; unless a backend says otherwise,
    /// nothing is promised beyond the span's validity.
    open spec fn span_post(
        &self,
        name: Seq<char>,
        options: StartOptions<Self::Context>,
        r: Span<Self::Context>,
    ) -> bool {
        true
    }

    /// Attempt to extract a `SpanContext` from a carrier.
    fn extract<M: MapCarrier>(&self, fmt: ExtractFormat, carrier: &M) -> (r: Result<
        Option<SpanContext<Self::Context>>,
        Error<Self::Context>,
    >)
        requires
            Self::extract_supported(fmt),
        ensures
            self.extract_post(fmt, carrier.entries(), r),
    ;

    /// Inject tracing information into a carrier.
    fn inject<M: MapCarrier>(
        &self,
        context: &SpanContext<Self::Context>,
        fmt: InjectFormat,
        carrier: &mut M,
    ) -> (r: Result<(), Error<Self::Context>>)
        requires
            Self::inject_supported(fmt),
        ensures
            self.inject_post(*context, fmt, old(carrier).entries(), final(carrier).entries(), r),
    ;

    /// Create a new `Span` with the given operation name and options.
    fn span(&self, name: &str, options: StartOptions<Self::Context>) -> (r: Span<Self::Context>)
        ensures
            r.wf(),
            self.span_post(name@, options, r),
    ;
}

/// The library user's interface to tracing: a thin façade over a pluggable
/// backend implementation.
pub struct Tracer<T: TracerInterface> {
    tracer: T,
}

impl<T: TracerInterface> Tracer<T> {
    /// The wrapped backend.
    pub closed spec fn spec_tracer(&self) -> T {
        self.tracer
    }

    /// Creates a new `Tracer` for a concrete backend.
    pub fn new(tracer: T) -> (r: Tracer<T>)
        ensures
            r.spec_tracer() == tracer,
    {
        Tracer { tracer }
    }

    /// Attempt to extract a `SpanContext` from a carrier.
    ///
    /// A carrier that simply lacks tracing information yields `Ok(None)`;
    /// malformed tracing information yields an error, as the backend's
    /// `extract_post` describes.
    pub fn extract<M: MapCarrier>(&self, fmt: ExtractFormat, carrier: &M) -> (r: Result<
        Option<SpanContext<T::Context>>,
        Error<T::Context>,
    >)
        requires
            T::extract_supported(fmt),
        ensures
            self.spec_tracer().extract_post(fmt, carrier.entries(), r),
    {
        self.tracer.extract(fmt, carrier)
    }

    /// Inject tracing information into a carrier.
    pub fn inject<M: MapCarrier>(
        &self,
        context: &SpanContext<T::Context>,
        fmt: InjectFormat,
        carrier: &mut M,
    ) -> (r: Result<(), Error<T::Context>>)
        requires
            T::inject_supported(fmt),
        ensures
            self.spec_tracer().inject_post(
                *context,
                fmt,
                old(carrier).entries(),
                final(carrier).entries(),
                r,
            ),
    {
        self.tracer.inject(context, fmt, carrier)
    }

    /// Create a new `Span` with the given operation name and default
    /// starting options.
    pub fn span(&self, name: &str) -> (r: Span<T::Context>)
        ensures
            r.wf(),
            exists|options: StartOptions<T::Context>|
                options.spec_refs() == Seq::<SpanReference<T::Context>>::empty()
                    && options.spec_start() is None && #[trigger] self.spec_tracer().span_post(
                    name@,
                    options,
                    r,
                ),
    {
        let options = StartOptions::default();
        let ghost o = options;
        let span = self.tracer.span(name, options);
        proof {
            assert(o.spec_refs() =~= Seq::<SpanReference<T::Context>>::empty());
            assert(self.spec_tracer().span_post(name@, o, span));
        }
        span
    }

    /// Create a new `Span` with the given operation name and options.
    pub fn span_with_options(&self, name: &str, options: StartOptions<T::Context>) -> (r: Span<
        T::Context,
    >)
        ensures
            r.wf(),
            self.spec_tracer().span_post(name@, options, r),
    {
        self.tracer.span(name, options)
    }
}

} // verus!
