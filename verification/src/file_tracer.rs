//! A tracer backend that serializes spans to human-readable text.
//!
//! Useful for local testing and experiments.  Contexts carry a pair of
//! 64-bit identifiers; propagation uses the `TraceID` and `SpanID` carrier
//! fields and keeps baggage under keys with the `Baggage-` prefix.
use vstd::prelude::*;
use vstd::string::StringExecFns;

use crate::carrier::{ExtractFormat, InjectFormat, MapCarrier};
use crate::channel::{channel_sender_clone, channel_unbounded};
use crate::errors::Error;
use crate::impl_context::{ImplContext, ImplContextBox, SpanReferenceAware};
use crate::kv::{kv_get, kv_set};
use crate::log::{Log, LogValue};
use crate::span::{
    apply_references, FinishedSpan, Span, SpanReceiver, SpanReference, SpanSender, StartOptions,
};
use crate::span_context::SpanContext;
use crate::tag::TagValue;
use crate::text::{
    bool_text, bool_to_text, dec_digits, dec_int, dec_val, frac_text, frac_to_dec, i64_to_dec,
    parse_u64, u64_to_dec, valid_u64_text, has_prefix,
};
use crate::tracer::{Tracer, TracerInterface};

verus! {

/// Inner `SpanContext` for `FileTracer`: the trace and span identifiers.
#[derive(Clone, Copy, Debug)]
pub struct FileTracerContext {
    /// The identifier of the trace this span belongs to.
    pub trace_id: u64,
    /// The identifier of the span itself.
    pub span_id: u64,
}

impl SpanReferenceAware for FileTracerContext {
    /// Referencing a span makes this context inherit the parent's trace
    /// identifier; the span identifier stays.
    open spec fn spec_referenced(&self, reference: SpanReference<ImplContextBox<Self>>) -> Self {
        FileTracerContext {
            trace_id: reference.parent().spec_inner().inner.trace_id,
            span_id: self.span_id,
        }
    }

    fn reference_span(&mut self, reference: &SpanReference<ImplContextBox<Self>>) {
        let parent = reference.parent_context();
        self.trace_id = parent.inner_ref().inner.trace_id;
    }

    fn duplicate(&self) -> (r: Self) {
        FileTracerContext { trace_id: self.trace_id, span_id: self.span_id }
    }
}

/// The context type `FileTracer` spans carry.
pub type FileContext = ImplContextBox<FileTracerContext>;

/// Law: backend identity is inherited.
///
/// The reference hook makes the referencing context's trace identifier
/// equal to the parent's, for `ChildOf` and `FollowsFrom` alike, and
/// leaves its span identifier unchanged.
pub proof fn lemma_file_trace_id_inherited(child: FileContext, reference: SpanReference<
    FileContext,
>)
    ensures
        child.hook_result(reference).inner.trace_id
            == reference.parent().spec_inner().inner.trace_id,
        child.hook_result(reference).inner.span_id == child.inner.span_id,
{
}

/// What extraction from a key/value carrier returns.
///
/// A carrier without a `TraceID` or without a `SpanID` field carries no
/// context; a malformed identifier is an error; otherwise the context holds
/// the two identifiers and every carrier entry whose key starts with
/// `Baggage-`, under its full key.
pub open spec fn file_extract_post(
    entries: Seq<(Seq<char>, Seq<char>)>,
    r: Result<Option<SpanContext<FileContext>>, Error<FileContext>>,
) -> bool {
    match kv_get(entries, "TraceID"@) {
        None => r == Ok::<Option<SpanContext<FileContext>>, Error<FileContext>>(None),
        Some(trace_text) => if !valid_u64_text(trace_text) {
            r matches Err(Error::ParseIntError(t)) && t@ == trace_text
        } else {
            match kv_get(entries, "SpanID"@) {
                None => r == Ok::<Option<SpanContext<FileContext>>, Error<FileContext>>(None),
                Some(span_text) => if !valid_u64_text(span_text) {
                    r matches Err(Error::ParseIntError(t)) && t@ == span_text
                } else {
                    r matches Ok(Some(ctx)) && {
                        &&& ctx.spec_inner() == (ImplContextBox {
                            inner: FileTracerContext {
                                trace_id: dec_val(trace_text) as u64,
                                span_id: dec_val(span_text) as u64,
                            },
                        })
                        &&& ctx.bag() == collect_baggage(
                            entries,
                            Seq::<(Seq<char>, Seq<char>)>::empty(),
                        )
                        &&& ctx.wf()
                    }
                },
            }
        },
    }
}

/// The baggage collected from carrier entries: every entry whose key
/// starts with `Baggage-` is set, in carrier order, on top of `bag`.
pub open spec fn collect_baggage(
    entries: Seq<(Seq<char>, Seq<char>)>,
    bag: Seq<(Seq<char>, Seq<char>)>,
) -> Seq<(Seq<char>, Seq<char>)>
    decreases entries.len(),
{
    if entries.len() == 0 {
        bag
    } else if "Baggage-"@.is_prefix_of(entries[0].0) {
        collect_baggage(entries.drop_first(), kv_set(bag, entries[0].0, entries[0].1))
    } else {
        collect_baggage(entries.drop_first(), bag)
    }
}

/// The carrier contents after injecting the given baggage: each item is
/// set, in order, under its key with the `Baggage-` prefix.
pub open spec fn inject_baggage(
    entries: Seq<(Seq<char>, Seq<char>)>,
    bag: Seq<(Seq<char>, Seq<char>)>,
) -> Seq<(Seq<char>, Seq<char>)>
    decreases bag.len(),
{
    if bag.len() == 0 {
        entries
    } else {
        inject_baggage(kv_set(entries, "Baggage-"@ + bag[0].0, bag[0].1), bag.drop_first())
    }
}

/// The carrier contents after injecting a context: the decimal trace and
/// span identifiers under `TraceID` and `SpanID`, then every baggage item
/// under its prefixed key.
pub open spec fn file_injected(
    entries: Seq<(Seq<char>, Seq<char>)>,
    context: SpanContext<FileContext>,
) -> Seq<(Seq<char>, Seq<char>)> {
    inject_baggage(
        kv_set(
            kv_set(entries, "TraceID"@, dec_digits(context.spec_inner().inner.trace_id as nat)),
            "SpanID"@,
            dec_digits(context.spec_inner().inner.span_id as nat),
        ),
        context.bag(),
    )
}

/// A span as `FileTracer` creates it: fresh identifiers, empty baggage,
/// then the start options applied.
pub open spec fn file_span_built(
    name: Seq<char>,
    options: StartOptions<FileContext>,
    r: Span<FileContext>,
    trace_id: u64,
    span_id: u64,
) -> bool {
    let fresh = ImplContextBox { inner: FileTracerContext { trace_id, span_id } };
    let (fi, fb) = apply_references(
        fresh,
        Seq::<(Seq<char>, Seq<char>)>::empty(),
        options.spec_refs(),
    );
    &&& r.spec_name() == name
    &&& r.spec_refs() == options.spec_refs()
    &&& r.spec_finish() is None
    &&& r.spec_logs() == Seq::<Log>::empty()
    &&& r.spec_tags()@ == Seq::<(Seq<char>, TagValue)>::empty()
    &&& (options.spec_start() matches Some(t) ==> r.spec_start() == t)
    &&& r.spec_context().spec_inner() == fi
    &&& r.spec_context().bag() == fb
}

/// A tracer that serializes spans into human-readable text lines.
///
/// Intended for experiments and tests, not for production use.
pub struct FileTracer {
    sender: SpanSender<FileContext>,
}

impl TracerInterface for FileTracer {
    type Context = FileContext;

    /// Only HTTP-header-like carriers are read.
    open spec fn extract_supported(fmt: ExtractFormat) -> bool {
        fmt is HttpHeaders
    }

    /// Any key/value carrier can be written; a byte stream cannot.
    open spec fn inject_supported(fmt: InjectFormat) -> bool {
        !(fmt is Binary)
    }

    open spec fn extract_post(
        &self,
        fmt: ExtractFormat,
        entries: Seq<(Seq<char>, Seq<char>)>,
        r: Result<Option<SpanContext<FileContext>>, Error<FileContext>>,
    ) -> bool {
        file_extract_post(entries, r)
    }

    open spec fn inject_post(
        &self,
        context: SpanContext<FileContext>,
        fmt: InjectFormat,
        old_entries: Seq<(Seq<char>, Seq<char>)>,
        new_entries: Seq<(Seq<char>, Seq<char>)>,
        r: Result<(), Error<FileContext>>,
    ) -> bool {
        r == Ok::<(), Error<FileContext>>(()) && new_entries == file_injected(
            old_entries,
            context,
        )
    }

    open spec fn span_post(
        &self,
        name: Seq<char>,
        options: StartOptions<FileContext>,
        r: Span<FileContext>,
    ) -> bool {
        exists|t: u64, s: u64| #[trigger] file_span_built(name, options, r, t, s)
    }

    /// Extract a span context from an HTTP-header-like carrier.
    #[verifier::loop_isolation(false)]
    fn extract<M: MapCarrier>(&self, fmt: ExtractFormat, carrier: &M) -> (r: Result<
        Option<SpanContext<FileContext>>,
        Error<FileContext>,
    >) {
        match fmt {
            ExtractFormat::HttpHeaders => {
                let trace_id = match carrier.get("TraceID") {
                    None => {
                        return Ok(None);
                    },
                    Some(text) => match parse_u64(text.as_str()) {
                        None => {
                            return Err(Error::ParseIntError(text));
                        },
                        Some(v) => v,
                    },
                };
                let span_id = match carrier.get("SpanID") {
                    None => {
                        return Ok(None);
                    },
                    Some(text) => match parse_u64(text.as_str()) {
                        None => {
                            return Err(Error::ParseIntError(text));
                        },
                        Some(v) => v,
                    },
                };
                let mut context = SpanContext::new(
                    ImplContextBox::new(FileTracerContext { trace_id, span_id }),
                );
                let items = carrier.items();
                let ghost entries = carrier.entries();
                let n = items.len();
                let mut i: usize = 0;
                proof {
                    assert(entries.skip(0) =~= entries);
                }
                while i < n
                    invariant
                        0 <= i <= n,
                        n == entries.len(),
                        crate::carrier::items_view(items@) == entries,
                        context.wf(),
                        context.spec_inner() == (ImplContextBox {
                            inner: FileTracerContext { trace_id, span_id },
                        }),
                        collect_baggage(entries, Seq::<(Seq<char>, Seq<char>)>::empty())
                            == collect_baggage(entries.skip(i as int), context.bag()),
                    decreases n - i,
                {
                    proof {
                        assert(entries.skip(i as int)[0] == entries[i as int]);
                        assert(entries.skip(i as int).drop_first() =~= entries.skip(i as int + 1));
                    }
                    let item = &items[i];
                    if has_prefix(item.0.as_str(), "Baggage-") {
                        context.set_baggage_item(item.0.clone(), item.1.clone());
                    }
                    i += 1;
                }
                proof {
                    assert(entries.skip(n as int) =~= Seq::<(Seq<char>, Seq<char>)>::empty());
                }
                Ok(Some(context))
            },
            _ => unreached(),
        }
    }

    /// Inject the span context into a key/value carrier.
    #[verifier::loop_isolation(false)]
    fn inject<M: MapCarrier>(
        &self,
        context: &SpanContext<FileContext>,
        fmt: InjectFormat,
        carrier: &mut M,
    ) -> (r: Result<(), Error<FileContext>>) {
        match fmt {
            InjectFormat::Binary => unreached(),
            _ => {
                let inner = match context.impl_context() {
                    Some(c) => c,
                    None => unreached(),
                };
                let trace_text = u64_to_dec(inner.trace_id);
                carrier.set("TraceID", trace_text.as_str());
                let span_text = u64_to_dec(inner.span_id);
                carrier.set("SpanID", span_text.as_str());
                let ghost base = carrier.entries();
                let ghost bag = context.bag();
                let items = context.baggage_items();
                let n = items.len();
                let mut i: usize = 0;
                proof {
                    assert(bag.skip(0) =~= bag);
                }
                while i < n
                    invariant
                        0 <= i <= n,
                        n == bag.len(),
                        crate::baggage::baggage_view(items@) == bag,
                        inject_baggage(base, bag) == inject_baggage(
                            carrier.entries(),
                            bag.skip(i as int),
                        ),
                    decreases n - i,
                {
                    proof {
                        assert(bag.skip(i as int)[0] == bag[i as int]);
                        assert(bag.skip(i as int).drop_first() =~= bag.skip(i as int + 1));
                    }
                    let item = &items[i];
                    let mut key = String::from_str("Baggage-");
                    key.append(item.key());
                    carrier.set(key.as_str(), item.value());
                    i += 1;
                }
                proof {
                    assert(bag.skip(n as int) =~= Seq::<(Seq<char>, Seq<char>)>::empty());
                }
                Ok(())
            },
        }
    }

    /// Create a span with freshly drawn random identifiers.
    fn span(&self, name: &str, options: StartOptions<FileContext>) -> (r: Span<FileContext>) {
        let trace_id = rand::random::<u64>();
        let span_id = rand::random::<u64>();
        let context = SpanContext::new(
            ImplContextBox::new(FileTracerContext { trace_id, span_id }),
        );
        let ghost o = options;
        let span = Span::new(name, context, options, channel_sender_clone(&self.sender));
        proof {
            assert(file_span_built(name@, o, span, trace_id, span_id));
        }
        span
    }
}

impl FileTracer {
    /// Instantiate a new file tracer, returning the façade and the
    /// receiving end of its finished-span channel.
    pub fn new() -> (r: (Tracer<FileTracer>, SpanReceiver<FileContext>)) {
        let (sender, receiver) = channel_unbounded();
        let tracer = FileTracer { sender };
        (Tracer::new(tracer), receiver)
    }
}

/// The text of a tag or log value: booleans and integers in decimal,
/// floating-point text and strings as they stand.
pub open spec fn tag_value_text(v: TagValue) -> Seq<char> {
    match v {
        TagValue::Boolean(b) => bool_text(b),
        TagValue::Float(s) => s@,
        TagValue::Integer(i) => dec_int(i as int),
        TagValue::String(s) => s@,
    }
}

/// The text of a log value, same conventions as tag values.
pub open spec fn log_value_text(v: LogValue) -> Seq<char> {
    match v {
        LogValue::Boolean(b) => bool_text(b),
        LogValue::Float(s) => s@,
        LogValue::Integer(i) => dec_int(i as int),
        LogValue::String(s) => s@,
    }
}

/// A duration in nanoseconds as decimal seconds: the whole seconds, then a
/// dot and the fractional digits when they are not zero.
pub open spec fn duration_text(nanos: nat) -> Seq<char> {
    if nanos % 1_000_000_000 == 0 {
        dec_digits(nanos / 1_000_000_000)
    } else {
        dec_digits(nanos / 1_000_000_000) + "."@ + frac_text(nanos % 1_000_000_000)
    }
}

/// The serialized line for one span reference.
pub open spec fn reference_line(r: SpanReference<FileContext>) -> Seq<char> {
    match r {
        SpanReference::ChildOf(p) => "===>   * Child of span ID: "@ + dec_digits(
            p.spec_inner().inner.span_id as nat,
        ) + "\n"@,
        SpanReference::FollowsFrom(p) => "===>   * Follows from span ID: "@ + dec_digits(
            p.spec_inner().inner.span_id as nat,
        ) + "\n"@,
    }
}

/// The serialized lines for a sequence of references, in order.
pub open spec fn reference_lines(s: Seq<SpanReference<FileContext>>) -> Seq<char>
    decreases s.len(),
{
    if s.len() == 0 {
        Seq::<char>::empty()
    } else {
        reference_line(s[0]) + reference_lines(s.drop_first())
    }
}

/// The serialized line for one baggage item.
pub open spec fn baggage_line(p: (Seq<char>, Seq<char>)) -> Seq<char> {
    "===>   * "@ + p.0 + ": "@ + p.1 + "\n"@
}

/// The serialized lines for a baggage map, in insertion order.
pub open spec fn baggage_lines(s: Seq<(Seq<char>, Seq<char>)>) -> Seq<char>
    decreases s.len(),
{
    if s.len() == 0 {
        Seq::<char>::empty()
    } else {
        baggage_line(s[0]) + baggage_lines(s.drop_first())
    }
}

/// The serialized line for one tag.
pub open spec fn tag_line(p: (Seq<char>, TagValue)) -> Seq<char> {
    "===>   * "@ + p.0 + ": "@ + tag_value_text(p.1) + "\n"@
}

/// The serialized lines for the tag map; the map is key-sorted, so the
/// lines come out in sorted key order.
pub open spec fn tag_lines(s: Seq<(Seq<char>, TagValue)>) -> Seq<char>
    decreases s.len(),
{
    if s.len() == 0 {
        Seq::<char>::empty()
    } else {
        tag_line(s[0]) + tag_lines(s.drop_first())
    }
}

/// The serialized line for one log field.
pub open spec fn field_line(p: (Seq<char>, LogValue)) -> Seq<char> {
    "===>     * "@ + p.0 + ": "@ + log_value_text(p.1) + "\n"@
}

/// The serialized lines for a log's fields; the fields are key-sorted.
pub open spec fn field_lines(s: Seq<(Seq<char>, LogValue)>) -> Seq<char>
    decreases s.len(),
{
    if s.len() == 0 {
        Seq::<char>::empty()
    } else {
        field_line(s[0]) + field_lines(s.drop_first())
    }
}

/// The serialized lines for one log: its timestamp in whole Unix seconds,
/// then its fields.
pub open spec fn log_lines(l: Log) -> Seq<char> {
    "===>   - "@ + dec_digits((l.spec_timestamp().unwrap() / 1_000_000_000) as nat) + ":\n"@
        + field_lines(l.spec_fields())
}

/// The serialized lines for a sequence of logs, in order of attachment.
pub open spec fn logs_lines(s: Seq<Log>) -> Seq<char>
    decreases s.len(),
{
    if s.len() == 0 {
        Seq::<char>::empty()
    } else {
        log_lines(s[0]) + logs_lines(s.drop_first())
    }
}

/// The full serialized text of a finished span: identifiers, duration,
/// then the bracketed reference, baggage, tag and log blocks.
pub open spec fn trace_text(span: FinishedSpan<FileContext>) -> Seq<char> {
    "==>> Trace ID: "@ + dec_digits(span.spec_context().spec_inner().inner.trace_id as nat)
        + "\n"@ + "===> Span ID: "@ + dec_digits(
        span.spec_context().spec_inner().inner.span_id as nat,
    ) + "\n"@ + "===> Span Duration: "@ + duration_text(
        (span.spec_finish() - span.spec_start()) as nat,
    ) + "\n"@ + "===> References: [\n"@ + reference_lines(span.spec_refs()) + "===> ]\n"@
        + "===> Baggage items: [\n"@ + baggage_lines(span.spec_context().bag()) + "===> ]\n"@
        + "===> Tags: [\n"@ + tag_lines(span.spec_tags()@) + "===> ]\n"@ + "===> Logs: [\n"@
        + logs_lines(span.spec_logs()) + "===> ]\n"@
}

/// Appending one reference appends its line.
proof fn lemma_reference_lines_push(s: Seq<SpanReference<FileContext>>, x: SpanReference<
    FileContext,
>)
    ensures
        reference_lines(s.push(x)) == reference_lines(s) + reference_line(x),
    decreases s.len(),
{
    reveal_with_fuel(reference_lines, 3);
    if s.len() == 0 {
        assert(s.push(x)[0] == x);
        assert(s.push(x).drop_first() =~= Seq::<SpanReference<FileContext>>::empty());
        assert(reference_lines(s.push(x)) =~= reference_lines(s) + reference_line(x));
    } else {
        assert(s.push(x)[0] == s[0]);
        assert(s.push(x).drop_first() =~= s.drop_first().push(x));
        lemma_reference_lines_push(s.drop_first(), x);
        assert(reference_lines(s.push(x)) == reference_line(s[0]) + reference_lines(
            s.drop_first().push(x),
        ));
        assert(reference_lines(s) == reference_line(s[0]) + reference_lines(s.drop_first()));
        assert(reference_line(s[0]) + (reference_lines(s.drop_first()) + reference_line(x)) =~= (
        reference_line(s[0]) + reference_lines(s.drop_first())) + reference_line(x));
    }
}

/// Appending one baggage item appends its line.
proof fn lemma_baggage_lines_push(s: Seq<(Seq<char>, Seq<char>)>, x: (Seq<char>, Seq<char>))
    ensures
        baggage_lines(s.push(x)) == baggage_lines(s) + baggage_line(x),
    decreases s.len(),
{
    reveal_with_fuel(baggage_lines, 3);
    if s.len() == 0 {
        assert(s.push(x)[0] == x);
        assert(s.push(x).drop_first() =~= Seq::<(Seq<char>, Seq<char>)>::empty());
        assert(baggage_lines(s.push(x)) =~= baggage_lines(s) + baggage_line(x));
    } else {
        assert(s.push(x)[0] == s[0]);
        assert(s.push(x).drop_first() =~= s.drop_first().push(x));
        lemma_baggage_lines_push(s.drop_first(), x);
        assert(baggage_lines(s.push(x)) == baggage_line(s[0]) + baggage_lines(
            s.drop_first().push(x),
        ));
        assert(baggage_lines(s) == baggage_line(s[0]) + baggage_lines(s.drop_first()));
        assert(baggage_line(s[0]) + (baggage_lines(s.drop_first()) + baggage_line(x)) =~= (
        baggage_line(s[0]) + baggage_lines(s.drop_first())) + baggage_line(x));
    }
}

/// Appending one tag appends its line.
proof fn lemma_tag_lines_push(s: Seq<(Seq<char>, TagValue)>, x: (Seq<char>, TagValue))
    ensures
        tag_lines(s.push(x)) == tag_lines(s) + tag_line(x),
    decreases s.len(),
{
    reveal_with_fuel(tag_lines, 3);
    if s.len() == 0 {
        assert(s.push(x)[0] == x);
        assert(s.push(x).drop_first() =~= Seq::<(Seq<char>, TagValue)>::empty());
        assert(tag_lines(s.push(x)) =~= tag_lines(s) + tag_line(x));
    } else {
        assert(s.push(x)[0] == s[0]);
        assert(s.push(x).drop_first() =~= s.drop_first().push(x));
        lemma_tag_lines_push(s.drop_first(), x);
        assert(tag_lines(s.push(x)) == tag_line(s[0]) + tag_lines(s.drop_first().push(x)));
        assert(tag_lines(s) == tag_line(s[0]) + tag_lines(s.drop_first()));
        assert(tag_line(s[0]) + (tag_lines(s.drop_first()) + tag_line(x)) =~= (tag_line(s[0])
            + tag_lines(s.drop_first())) + tag_line(x));
    }
}

/// Appending one field appends its line.
proof fn lemma_field_lines_push(s: Seq<(Seq<char>, LogValue)>, x: (Seq<char>, LogValue))
    ensures
        field_lines(s.push(x)) == field_lines(s) + field_line(x),
    decreases s.len(),
{
    reveal_with_fuel(field_lines, 3);
    if s.len() == 0 {
        assert(s.push(x)[0] == x);
        assert(s.push(x).drop_first() =~= Seq::<(Seq<char>, LogValue)>::empty());
        assert(field_lines(s.push(x)) =~= field_lines(s) + field_line(x));
    } else {
        assert(s.push(x)[0] == s[0]);
        assert(s.push(x).drop_first() =~= s.drop_first().push(x));
        lemma_field_lines_push(s.drop_first(), x);
        assert(field_lines(s.push(x)) == field_line(s[0]) + field_lines(
            s.drop_first().push(x),
        ));
        assert(field_lines(s) == field_line(s[0]) + field_lines(s.drop_first()));
        assert(field_line(s[0]) + (field_lines(s.drop_first()) + field_line(x)) =~= (field_line(
            s[0],
        ) + field_lines(s.drop_first())) + field_line(x));
    }
}

/// Appending one log appends its lines.
proof fn lemma_logs_lines_push(s: Seq<Log>, x: Log)
    ensures
        logs_lines(s.push(x)) == logs_lines(s) + log_lines(x),
    decreases s.len(),
{
    reveal_with_fuel(logs_lines, 3);
    if s.len() == 0 {
        assert(s.push(x)[0] == x);
        assert(s.push(x).drop_first() =~= Seq::<Log>::empty());
        assert(logs_lines(s.push(x)) =~= logs_lines(s) + log_lines(x));
    } else {
        assert(s.push(x)[0] == s[0]);
        assert(s.push(x).drop_first() =~= s.drop_first().push(x));
        lemma_logs_lines_push(s.drop_first(), x);
        assert(logs_lines(s.push(x)) == log_lines(s[0]) + logs_lines(s.drop_first().push(x)));
        assert(logs_lines(s) == log_lines(s[0]) + logs_lines(s.drop_first()));
        assert(log_lines(s[0]) + (logs_lines(s.drop_first()) + log_lines(x)) =~= (log_lines(
            s[0],
        ) + logs_lines(s.drop_first())) + log_lines(x));
    }
}

/// Render a tag value's text.
fn tag_value_to_text(v: &TagValue) -> (r: String)
    ensures
        r@ == tag_value_text(*v),
{
    match v {
        TagValue::Boolean(b) => String::from_str(bool_to_text(*b)),
        TagValue::Float(s) => s.clone(),
        TagValue::Integer(i) => i64_to_dec(*i),
        TagValue::String(s) => s.clone(),
    }
}

/// Render a log value's text.
fn log_value_to_text(v: &LogValue) -> (r: String)
    ensures
        r@ == log_value_text(*v),
{
    match v {
        LogValue::Boolean(b) => String::from_str(bool_to_text(*b)),
        LogValue::Float(s) => s.clone(),
        LogValue::Integer(i) => i64_to_dec(*i),
        LogValue::String(s) => s.clone(),
    }
}


/// Append the serialized reference block body.
#[verifier::loop_isolation(false)]
fn render_references(buf: &mut String, span: &FinishedSpan<FileContext>)
    ensures
        final(buf)@ == old(buf)@ + reference_lines(span.spec_refs()),
{
    let ghost pre = buf@;
    let refs = span.references();
    let n = refs.len();
    let mut i: usize = 0;
    proof {
        assert(span.spec_refs().take(0) =~= Seq::<SpanReference<FileContext>>::empty());
        assert(buf@ =~= pre + reference_lines(span.spec_refs().take(0)));
    }
    while i < n
        invariant
            0 <= i <= n,
            n == span.spec_refs().len(),
            buf@ == pre + reference_lines(span.spec_refs().take(i as int)),
        decreases n - i,
    {
        match &refs[i] {
            SpanReference::ChildOf(p) => {
                buf.append("===>   * Child of span ID: ");
                buf.append(u64_to_dec(p.inner_ref().inner.span_id).as_str());
                buf.append("\n");
            },
            SpanReference::FollowsFrom(p) => {
                buf.append("===>   * Follows from span ID: ");
                buf.append(u64_to_dec(p.inner_ref().inner.span_id).as_str());
                buf.append("\n");
            },
        }
        proof {
            lemma_reference_lines_push(
                span.spec_refs().take(i as int),
                span.spec_refs()[i as int],
            );
            assert(span.spec_refs().take(i as int + 1) =~= span.spec_refs().take(i as int).push(
                span.spec_refs()[i as int],
            ));
            assert(buf@ =~= pre + reference_lines(span.spec_refs().take(i as int + 1)));
        }
        i += 1;
    }
    proof {
        assert(span.spec_refs().take(n as int) =~= span.spec_refs());
    }
}

/// Append the serialized baggage block body.
#[verifier::loop_isolation(false)]
fn render_baggage(buf: &mut String, span: &FinishedSpan<FileContext>)
    ensures
        final(buf)@ == old(buf)@ + baggage_lines(span.spec_context().bag()),
{
    let ghost pre = buf@;
    let ghost bag = span.spec_context().bag();
    let items = span.context().baggage_items();
    let n = items.len();
    let mut i: usize = 0;
    proof {
        assert(bag.take(0) =~= Seq::<(Seq<char>, Seq<char>)>::empty());
        assert(buf@ =~= pre + baggage_lines(bag.take(0)));
    }
    while i < n
        invariant
            0 <= i <= n,
            n == bag.len(),
            crate::baggage::baggage_view(items@) == bag,
            buf@ == pre + baggage_lines(bag.take(i as int)),
        decreases n - i,
    {
        let item = &items[i];
        buf.append("===>   * ");
        buf.append(item.key());
        buf.append(": ");
        buf.append(item.value());
        buf.append("\n");
        proof {
            lemma_baggage_lines_push(bag.take(i as int), bag[i as int]);
            assert(bag.take(i as int + 1) =~= bag.take(i as int).push(bag[i as int]));
            assert(buf@ =~= pre + baggage_lines(bag.take(i as int + 1)));
        }
        i += 1;
    }
    proof {
        assert(bag.take(n as int) =~= bag);
    }
}

/// Append the serialized tag block body.
#[verifier::loop_isolation(false)]
fn render_tags(buf: &mut String, span: &FinishedSpan<FileContext>)
    ensures
        final(buf)@ == old(buf)@ + tag_lines(span.spec_tags()@),
{
    let ghost pre = buf@;
    let ghost tags = span.spec_tags()@;
    let entries = span.tags().iter();
    let n = entries.len();
    let mut i: usize = 0;
    proof {
        assert(tags.take(0) =~= Seq::<(Seq<char>, TagValue)>::empty());
        assert(buf@ =~= pre + tag_lines(tags.take(0)));
    }
    while i < n
        invariant
            0 <= i <= n,
            n == tags.len(),
            crate::sorted::entries_view(entries@) == tags,
            buf@ == pre + tag_lines(tags.take(i as int)),
        decreases n - i,
    {
        let pair = &entries[i];
        buf.append("===>   * ");
        buf.append(pair.0.as_str());
        buf.append(": ");
        buf.append(tag_value_to_text(&pair.1).as_str());
        buf.append("\n");
        proof {
            lemma_tag_lines_push(tags.take(i as int), tags[i as int]);
            assert(tags.take(i as int + 1) =~= tags.take(i as int).push(tags[i as int]));
            assert(buf@ =~= pre + tag_lines(tags.take(i as int + 1)));
        }
        i += 1;
    }
    proof {
        assert(tags.take(n as int) =~= tags);
    }
}

/// Append the serialized field lines of one log.
#[verifier::loop_isolation(false)]
fn render_fields(buf: &mut String, entry: &Log)
    ensures
        final(buf)@ == old(buf)@ + field_lines(entry.spec_fields()),
{
    let ghost pre = buf@;
    let ghost fields = entry.spec_fields();
    let field_entries = entry.iter();
    let n = field_entries.len();
    let mut i: usize = 0;
    proof {
        assert(fields.take(0) =~= Seq::<(Seq<char>, LogValue)>::empty());
        assert(buf@ =~= pre + field_lines(fields.take(0)));
    }
    while i < n
        invariant
            0 <= i <= n,
            n == fields.len(),
            crate::sorted::entries_view(field_entries@) == fields,
            buf@ == pre + field_lines(fields.take(i as int)),
        decreases n - i,
    {
        let pair = &field_entries[i];
        buf.append("===>     * ");
        buf.append(pair.0.as_str());
        buf.append(": ");
        buf.append(log_value_to_text(&pair.1).as_str());
        buf.append("\n");
        proof {
            lemma_field_lines_push(fields.take(i as int), fields[i as int]);
            assert(fields.take(i as int + 1) =~= fields.take(i as int).push(fields[i as int]));
            assert(buf@ =~= pre + field_lines(fields.take(i as int + 1)));
        }
        i += 1;
    }
    proof {
        assert(fields.take(n as int) =~= fields);
    }
}

/// Append the serialized log block body.
#[verifier::loop_isolation(false)]
fn render_logs(buf: &mut String, span: &FinishedSpan<FileContext>)
    requires
        span.wf(),
    ensures
        final(buf)@ == old(buf)@ + logs_lines(span.spec_logs()),
{
    let ghost pre = buf@;
    let logs = span.logs();
    let n = logs.len();
    let mut i: usize = 0;
    proof {
        assert(span.spec_logs().take(0) =~= Seq::<Log>::empty());
        assert(buf@ =~= pre + logs_lines(span.spec_logs().take(0)));
    }
    while i < n
        invariant
            0 <= i <= n,
            n == span.spec_logs().len(),
            buf@ == pre + logs_lines(span.spec_logs().take(i as int)),
        decreases n - i,
    {
        let entry = &logs[i];
        proof {
            assert(span.spec_logs()[i as int].wf() && span.spec_logs()[i as int].stamped());
        }
        let timestamp = match entry.timestamp() {
            Some(t) => t,
            None => unreached(),
        };
        buf.append("===>   - ");
        buf.append(u64_to_dec(timestamp / 1_000_000_000).as_str());
        buf.append(":\n");
        render_fields(buf, entry);
        proof {
            lemma_logs_lines_push(span.spec_logs().take(i as int), span.spec_logs()[i as int]);
            assert(span.spec_logs().take(i as int + 1) =~= span.spec_logs().take(i as int).push(
                span.spec_logs()[i as int],
            ));
            assert(buf@ =~= pre + logs_lines(span.spec_logs().take(i as int + 1)));
        }
        i += 1;
    }
    proof {
        assert(span.spec_logs().take(n as int) =~= span.spec_logs());
    }
}

impl FileTracer {
    /// Serialize a `FinishedSpan` into its human-readable text, one line
    /// per item: identifiers, duration, references and baggage in
    /// insertion order, tags and log fields in sorted key order.
    #[verifier::rlimit(60)]
    pub fn render_trace(span: &FinishedSpan<FileContext>) -> (r: String)
        requires
            span.wf(),
            span.spec_start() <= span.spec_finish(),
        ensures
            r@ == trace_text(*span),
    {
        let inner = match span.context().impl_context() {
            Some(c) => c,
            None => unreached(),
        };
        let mut buf = String::from_str("==>> Trace ID: ");
        buf.append(u64_to_dec(inner.trace_id).as_str());
        buf.append("\n");
        buf.append("===> Span ID: ");
        buf.append(u64_to_dec(inner.span_id).as_str());
        buf.append("\n");
        buf.append("===> Span Duration: ");
        let delta = span.finish_time() - span.start_time();
        buf.append(u64_to_dec(delta / 1_000_000_000).as_str());
        if delta % 1_000_000_000 != 0 {
            buf.append(".");
            buf.append(frac_to_dec(delta % 1_000_000_000).as_str());
        }
        buf.append("\n");
        buf.append("===> References: [\n");
        render_references(&mut buf, span);
        buf.append("===> ]\n");
        buf.append("===> Baggage items: [\n");
        render_baggage(&mut buf, span);
        buf.append("===> ]\n");
        buf.append("===> Tags: [\n");
        render_tags(&mut buf, span);
        buf.append("===> ]\n");
        buf.append("===> Logs: [\n");
        render_logs(&mut buf, span);
        buf.append("===> ]\n");
        proof {
            assert(buf@ =~= trace_text(*span));
        }
        buf
    }
}

} // verus!
