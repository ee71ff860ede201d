//! A placeholder tracer backend that refuses propagation.
//!
//! Spans are created with random identifiers and can be finished, but
//! extraction and injection always fail with a message, and `report`
//! discards.
use vstd::prelude::*;
use vstd::string::StringExecFns;

use crate::carrier::{ExtractFormat, InjectFormat, MapCarrier};
use crate::channel::{channel_sender_clone, channel_unbounded};
use crate::errors::Error;
use crate::impl_context::{ImplContext, ImplContextBox, SpanReferenceAware};
use crate::log::Log;
use crate::span::{
    apply_references, FinishedSpan, Span, SpanReceiver, SpanReference, SpanSender, StartOptions,
};
use crate::span_context::SpanContext;
use crate::tag::TagValue;
use crate::tracer::{Tracer, TracerInterface};

verus! {

/// Inner `NullTracer` context: a trace and a span identifier.
#[derive(Clone, Copy, Debug)]
pub struct NullTracerContext {
    /// The identifier of the trace this span belongs to.
    pub trace_id: u64,
    /// The identifier of the span itself.
    pub span_id: u64,
}

impl SpanReferenceAware for NullTracerContext {
    /// Referencing a span makes this context inherit the parent's trace
    /// identifier; the span identifier stays.
    open spec fn spec_referenced(&self, reference: SpanReference<ImplContextBox<Self>>) -> Self {
        NullTracerContext {
            trace_id: reference.parent().spec_inner().inner.trace_id,
            span_id: self.span_id,
        }
    }

    fn reference_span(&mut self, reference: &SpanReference<ImplContextBox<Self>>) {
        let parent = reference.parent_context();
        self.trace_id = parent.inner_ref().inner.trace_id;
    }

    fn duplicate(&self) -> (r: Self) {
        NullTracerContext { trace_id: self.trace_id, span_id: self.span_id }
    }
}

/// The context type `NullTracer` spans carry.
pub type NullContext = ImplContextBox<NullTracerContext>;

/// Law: backend identity is inherited.
///
/// The reference hook makes the referencing context's trace identifier
/// equal to the parent's, for `ChildOf` and `FollowsFrom` alike, and
/// leaves its span identifier unchanged.
pub proof fn lemma_null_trace_id_inherited(child: NullContext, reference: SpanReference<
    NullContext,
>)
    ensures
        child.hook_result(reference).inner.trace_id
            == reference.parent().spec_inner().inner.trace_id,
        child.hook_result(reference).inner.span_id == child.inner.span_id,
{
}

/// A span as `NullTracer` creates it: fresh identifiers, empty baggage,
/// then the start options applied.
pub open spec fn null_span_built(
    name: Seq<char>,
    options: StartOptions<NullContext>,
    r: Span<NullContext>,
    trace_id: u64,
    span_id: u64,
) -> bool {
    let fresh = ImplContextBox { inner: NullTracerContext { trace_id, span_id } };
    let (fi, fb) = apply_references(
        fresh,
        Seq::<(Seq<char>, Seq<char>)>::empty(),
        options.spec_refs(),
    );
    &&& r.spec_name() == name
    &&& r.spec_refs() == options.spec_refs()
    &&& r.spec_finish() is None
    &&& r.spec_logs() == Seq::<Log>::empty()
    &&& r.spec_tags()@ == Seq::<(Seq<char>, TagValue)>::empty()
    &&& (options.spec_start() matches Some(t) ==> r.spec_start() == t)
    &&& r.spec_context().spec_inner() == fi
    &&& r.spec_context().bag() == fb
}

/// A tracer whose propagation operations always fail.
pub struct NullTracer {
    sender: SpanSender<NullContext>,
}

impl TracerInterface for NullTracer {
    type Context = NullContext;

    open spec fn extract_supported(fmt: ExtractFormat) -> bool {
        true
    }

    open spec fn inject_supported(fmt: InjectFormat) -> bool {
        true
    }

    open spec fn extract_post(
        &self,
        fmt: ExtractFormat,
        entries: Seq<(Seq<char>, Seq<char>)>,
        r: Result<Option<SpanContext<NullContext>>, Error<NullContext>>,
    ) -> bool {
        r matches Err(Error::Msg(m)) && m@ == "NullTracer cannot extract contexts"@
    }

    open spec fn inject_post(
        &self,
        context: SpanContext<NullContext>,
        fmt: InjectFormat,
        old_entries: Seq<(Seq<char>, Seq<char>)>,
        new_entries: Seq<(Seq<char>, Seq<char>)>,
        r: Result<(), Error<NullContext>>,
    ) -> bool {
        (r matches Err(Error::Msg(m)) && m@ == "NullTracer cannot inject contexts"@)
            && new_entries == old_entries
    }

    open spec fn span_post(
        &self,
        name: Seq<char>,
        options: StartOptions<NullContext>,
        r: Span<NullContext>,
    ) -> bool {
        exists|t: u64, s: u64| #[trigger] null_span_built(name, options, r, t, s)
    }

    /// Extraction always fails with a message.
    fn extract<M: MapCarrier>(&self, fmt: ExtractFormat, carrier: &M) -> (r: Result<
        Option<SpanContext<NullContext>>,
        Error<NullContext>,
    >) {
        Err(Error::Msg(String::from_str("NullTracer cannot extract contexts")))
    }

    /// Injection always fails with a message.
    fn inject<M: MapCarrier>(
        &self,
        context: &SpanContext<NullContext>,
        fmt: InjectFormat,
        carrier: &mut M,
    ) -> (r: Result<(), Error<NullContext>>) {
        Err(Error::Msg(String::from_str("NullTracer cannot inject contexts")))
    }

    /// Create a span with freshly drawn random identifiers.
    fn span(&self, name: &str, options: StartOptions<NullContext>) -> (r: Span<NullContext>) {
        let trace_id = rand::random::<u64>();
        let span_id = rand::random::<u64>();
        let context = SpanContext::new(
            ImplContextBox::new(NullTracerContext { trace_id, span_id }),
        );
        let ghost o = options;
        let span = Span::new(name, context, options, channel_sender_clone(&self.sender));
        proof {
            assert(null_span_built(name@, o, span, trace_id, span_id));
        }
        span
    }
}

impl NullTracer {
    /// Instantiate a new `NullTracer`, returning the façade and the
    /// receiving end of its finished-span channel.
    pub fn new() -> (r: (Tracer<NullTracer>, SpanReceiver<NullContext>)) {
        let (sender, receiver) = channel_unbounded();
        let tracer = NullTracer { sender };
        (Tracer::new(tracer), receiver)
    }

    /// Discards the finished span.
    pub fn report(span: FinishedSpan<NullContext>) {
    }
}

} // verus!
