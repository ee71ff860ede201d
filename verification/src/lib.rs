//! A generic distributed-tracing interface.
//!
//! The crate provides the `Tracer`/`Span`/`SpanContext` abstractions of a
//! distributed-tracing API: callers create named spans, relate them to parent
//! contexts, attach tags, logs and baggage items, and finish them.  Finished
//! spans travel over a multi-producer channel to a background reporter that
//! ships them to a concrete tracing backend.
//!
//! Concrete backends plug in through the `TracerInterface` trait; the crate
//! ships a file-oriented backend (`FileTracer`), a discarding backend
//! (`NoopTracer`) and an always-failing placeholder (`NullTracer`).
use vstd::prelude::*;

mod baggage;
mod carrier;
mod channel;
mod clock;
mod errors;
mod file_tracer;
mod impl_context;
mod kv;
mod log;
mod noop_tracer;
mod null_tracer;
mod random;
mod reporter;
mod sorted;
mod span;
mod span_context;
mod tag;
mod text;
mod tracer;

pub use baggage::BaggageItem;
pub use carrier::{ExtractFormat, InjectFormat, MapCarrier, TextMapCarrier};
pub use errors::Error;
pub use file_tracer::{FileContext, FileTracer, FileTracerContext};
pub use impl_context::{ImplContext, ImplContextBox, SpanReferenceAware};
pub use log::{Log, LogFileds, LogValue};
pub use noop_tracer::{NoopContext, NoopTracer, NoopTracerContext};
pub use null_tracer::{NullContext, NullTracer, NullTracerContext};
pub use reporter::{
    ReporterAction, ReporterEvent, reporter_step, RECV_TIMEOUT_MSEC_DEFAULT,
    STOP_DELAY_SECS_DEFAULT,
};
pub use span::{FinishedSpan, Span, SpanReceiver, SpanReference, SpanSender, StartOptions};
pub use span_context::SpanContext;
pub use tag::{SpanTags, TagValue};
pub use tracer::{Tracer, TracerInterface};
