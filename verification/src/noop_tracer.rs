//! A tracer backend that discards spans.
//!
//! Spans are still collected in full and cost memory until they are read
//! from the receiver and dropped; extraction finds no context, injection
//! writes nothing, and `report` discards.  Useful to disable tracing in
//! applications built with tracing support.
use vstd::prelude::*;

use crate::carrier::{ExtractFormat, InjectFormat, MapCarrier};
use crate::channel::{channel_sender_clone, channel_unbounded};
use crate::errors::Error;
use crate::impl_context::{ImplContext, ImplContextBox, SpanReferenceAware};
use crate::log::Log;
use crate::span::{
    apply_references, FinishedSpan, Span, SpanReceiver, SpanReference, SpanSender, StartOptions,
};
use crate::span_context::SpanContext;
use crate::tag::TagValue;
use crate::tracer::{Tracer, TracerInterface};

verus! {

/// Inner `NoopTracer` context: a wide random trace identifier and a span
/// identifier.
#[derive(Clone, Copy, Debug)]
pub struct NoopTracerContext {
    /// The identifier of the trace this span belongs to.
    pub trace_id: [u8; 16],
    /// The identifier of the span itself.
    pub span_id: u64,
}

impl SpanReferenceAware for NoopTracerContext {
    /// Referencing a span makes this context inherit the parent's trace
    /// identifier; the span identifier stays.
    open spec fn spec_referenced(&self, reference: SpanReference<ImplContextBox<Self>>) -> Self {
        NoopTracerContext {
            trace_id: reference.parent().spec_inner().inner.trace_id,
            span_id: self.span_id,
        }
    }

    fn reference_span(&mut self, reference: &SpanReference<ImplContextBox<Self>>) {
        let parent = reference.parent_context();
        self.trace_id = parent.inner_ref().inner.trace_id;
    }

    fn duplicate(&self) -> (r: Self) {
        NoopTracerContext { trace_id: self.trace_id, span_id: self.span_id }
    }
}

/// The context type `NoopTracer` spans carry.
pub type NoopContext = ImplContextBox<NoopTracerContext>;

/// Law: backend identity is inherited.
///
/// The reference hook makes the referencing context's trace identifier
/// equal to the parent's, for `ChildOf` and `FollowsFrom` alike, and
/// leaves its span identifier unchanged.
pub proof fn lemma_noop_trace_id_inherited(child: NoopContext, reference: SpanReference<
    NoopContext,
>)
    ensures
        child.hook_result(reference).inner.trace_id
            == reference.parent().spec_inner().inner.trace_id,
        child.hook_result(reference).inner.span_id == child.inner.span_id,
{
}

/// A span as `NoopTracer` creates it: fresh identifiers, empty baggage,
/// then the start options applied.
pub open spec fn noop_span_built(
    name: Seq<char>,
    options: StartOptions<NoopContext>,
    r: Span<NoopContext>,
    trace_id: [u8; 16],
    span_id: u64,
) -> bool {
    let fresh = ImplContextBox { inner: NoopTracerContext { trace_id, span_id } };
    let (fi, fb) = apply_references(
        fresh,
        Seq::<(Seq<char>, Seq<char>)>::empty(),
        options.spec_refs(),
    );
    &&& r.spec_name() == name
    &&& r.spec_refs() == options.spec_refs()
    &&& r.spec_finish() is None
    &&& r.spec_logs() == Seq::<Log>::empty()
    &&& r.spec_tags()@ == Seq::<(Seq<char>, TagValue)>::empty()
    &&& (options.spec_start() matches Some(t) ==> r.spec_start() == t)
    &&& r.spec_context().spec_inner() == fi
    &&& r.spec_context().bag() == fb
}

/// A tracer that discards spans and propagates nothing.
pub struct NoopTracer {
    sender: SpanSender<NoopContext>,
}

impl TracerInterface for NoopTracer {
    type Context = NoopContext;

    /// Every extraction format is accepted and finds nothing.
    open spec fn extract_supported(fmt: ExtractFormat) -> bool {
        true
    }

    /// Every injection format is accepted and writes nothing.
    open spec fn inject_supported(fmt: InjectFormat) -> bool {
        true
    }

    open spec fn extract_post(
        &self,
        fmt: ExtractFormat,
        entries: Seq<(Seq<char>, Seq<char>)>,
        r: Result<Option<SpanContext<NoopContext>>, Error<NoopContext>>,
    ) -> bool {
        r == Ok::<Option<SpanContext<NoopContext>>, Error<NoopContext>>(None)
    }

    open spec fn inject_post(
        &self,
        context: SpanContext<NoopContext>,
        fmt: InjectFormat,
        old_entries: Seq<(Seq<char>, Seq<char>)>,
        new_entries: Seq<(Seq<char>, Seq<char>)>,
        r: Result<(), Error<NoopContext>>,
    ) -> bool {
        r == Ok::<(), Error<NoopContext>>(()) && new_entries == old_entries
    }

    open spec fn span_post(
        &self,
        name: Seq<char>,
        options: StartOptions<NoopContext>,
        r: Span<NoopContext>,
    ) -> bool {
        exists|t: [u8; 16], s: u64| #[trigger] noop_span_built(name, options, r, t, s)
    }

    /// Extraction intentionally finds no context.
    fn extract<M: MapCarrier>(&self, fmt: ExtractFormat, carrier: &M) -> (r: Result<
        Option<SpanContext<NoopContext>>,
        Error<NoopContext>,
    >) {
        Ok(None)
    }

    /// Injection intentionally writes nothing.
    fn inject<M: MapCarrier>(
        &self,
        context: &SpanContext<NoopContext>,
        fmt: InjectFormat,
        carrier: &mut M,
    ) -> (r: Result<(), Error<NoopContext>>) {
        Ok(())
    }

    /// Create a span with freshly drawn random identifiers.
    fn span(&self, name: &str, options: StartOptions<NoopContext>) -> (r: Span<NoopContext>) {
        let trace_id = rand::random::<[u8; 16]>();
        let span_id = rand::random::<u64>();
        let context = SpanContext::new(
            ImplContextBox::new(NoopTracerContext { trace_id, span_id }),
        );
        let ghost o = options;
        let span = Span::new(name, context, options, channel_sender_clone(&self.sender));
        proof {
            assert(noop_span_built(name@, o, span, trace_id, span_id));
        }
        span
    }
}

impl NoopTracer {
    /// Instantiate a new `NoopTracer`, returning the façade and the
    /// receiving end of its finished-span channel.
    pub fn new() -> (r: (Tracer<NoopTracer>, SpanReceiver<NoopContext>)) {
        let (sender, receiver) = channel_unbounded();
        let tracer = NoopTracer { sender };
        (Tracer::new(tracer), receiver)
    }

    /// "Reports" the finished span into nowhere: the span is dropped.
    pub fn report(span: FinishedSpan<NoopContext>) {
    }
}

} // verus!
