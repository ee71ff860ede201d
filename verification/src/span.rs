//! Spans: the in-flight record of an operation and its finished snapshot.
use vstd::prelude::*;
use vstd::string::StringExecFns;

use crate::baggage::baggage_view;
use crate::channel::channel_send;
use crate::clock::now_nanos;
use crate::errors::Error;
use crate::impl_context::ImplContext;
use crate::kv::{kv_get, kv_merge, lemma_kv_merge_push};
use crate::log::{Log, LogValue};
use crate::span_context::SpanContext;
use crate::tag::{SpanTags, TagValue};

verus! {

/// Type alias for a `crossbeam_channel` sender of `FinishedSpan`s.
pub type SpanSender<C> = crossbeam_channel::Sender<FinishedSpan<C>>;

/// Type alias for a `crossbeam_channel` receiver of `FinishedSpan`s.
pub type SpanReceiver<C> = crossbeam_channel::Receiver<FinishedSpan<C>>;

/// The two recognized causal relationships among spans, each carrying the
/// `SpanContext` it relates to.
#[derive(Debug)]
pub enum SpanReference<C> {
    ChildOf(SpanContext<C>),
    FollowsFrom(SpanContext<C>),
}

impl<C> SpanReference<C> {
    /// The referenced parent context.
    pub open spec fn parent(self) -> SpanContext<C> {
        match self {
            SpanReference::ChildOf(p) => p,
            SpanReference::FollowsFrom(p) => p,
        }
    }

    /// Access the referenced parent context.
    pub fn parent_context(&self) -> (r: &SpanContext<C>)
        ensures
            *r == self.parent(),
    {
        match self {
            SpanReference::ChildOf(p) => p,
            SpanReference::FollowsFrom(p) => p,
        }
    }
}

/// Additional options passed to `Tracer::span`: initial references and an
/// optional explicit start time (nanoseconds since the Unix epoch).
pub struct StartOptions<C> {
    references: Vec<SpanReference<C>>,
    start_time: Option<u64>,
}

impl<C> StartOptions<C> {
    /// The references the span will be created with, in order.
    pub closed spec fn spec_refs(&self) -> Seq<SpanReference<C>> {
        self.references@
    }

    /// The explicit start time, if one was set.
    pub closed spec fn spec_start(&self) -> Option<u64> {
        self.start_time
    }

    /// Declares a `ChildOf` relationship for the `Span` to be.
    pub fn child_of(self, parent: SpanContext<C>) -> (r: Self)
        ensures
            r.spec_refs() == self.spec_refs().push(SpanReference::ChildOf(parent)),
            r.spec_start() == self.spec_start(),
    {
        self.reference_span(SpanReference::ChildOf(parent))
    }

    /// Declares a `FollowsFrom` relationship for the `Span` to be.
    pub fn follows(self, parent: SpanContext<C>) -> (r: Self)
        ensures
            r.spec_refs() == self.spec_refs().push(SpanReference::FollowsFrom(parent)),
            r.spec_start() == self.spec_start(),
    {
        self.reference_span(SpanReference::FollowsFrom(parent))
    }

    /// Declares any `SpanReference` for the `Span` to be.
    pub fn reference_span(self, reference: SpanReference<C>) -> (r: Self)
        ensures
            r.spec_refs() == self.spec_refs().push(reference),
            r.spec_start() == self.spec_start(),
    {
        let mut options = self;
        options.references.push(reference);
        options
    }

    /// Sets the start time for the operation.
    pub fn start_time(self, start_time: u64) -> (r: Self)
        ensures
            r.spec_refs() == self.spec_refs(),
            r.spec_start() == Some(start_time),
    {
        let mut options = self;
        options.start_time = Some(start_time);
        options
    }
}

impl<C> Default for StartOptions<C> {
    /// Options for a root span: no references, started when created.
    fn default() -> (r: Self)
        ensures
            r.spec_refs() == Seq::<SpanReference<C>>::empty(),
            r.spec_start() is None,
    {
        StartOptions { references: Vec::new(), start_time: None }
    }
}

/// The backend context and baggage that result from applying the given
/// references in order: each reference runs the backend hook and then
/// merges the parent's baggage over the child's.
pub open spec fn apply_references<C: ImplContext>(
    inner: C,
    bag: Seq<(Seq<char>, Seq<char>)>,
    refs: Seq<SpanReference<C>>,
) -> (C, Seq<(Seq<char>, Seq<char>)>)
    decreases refs.len(),
{
    if refs.len() == 0 {
        (inner, bag)
    } else {
        apply_references(
            inner.hook_result(refs[0]),
            kv_merge(bag, refs[0].parent().bag()),
            refs.drop_first(),
        )
    }
}

/// Model of an in-progress operation.
///
/// A `Span` is created by a tracer, mutated by its owner while the
/// operation runs, and consumed exactly once by `finish`, which is the only
/// way to produce a `FinishedSpan`.
#[verifier::reject_recursive_types(C)]
pub struct Span<C> {
    context: SpanContext<C>,
    finish_time: Option<u64>,
    logs: Vec<Log>,
    name: String,
    references: Vec<SpanReference<C>>,
    sender: SpanSender<C>,
    start_time: u64,
    tags: SpanTags,
}

impl<C> Span<C> {
    /// The span's context.
    pub closed spec fn spec_context(&self) -> SpanContext<C> {
        self.context
    }

    /// The explicitly set finish time, if any.
    pub closed spec fn spec_finish(&self) -> Option<u64> {
        self.finish_time
    }

    /// The attached logs, in order of attachment.
    pub closed spec fn spec_logs(&self) -> Seq<Log> {
        self.logs@
    }

    /// The operation name.
    pub closed spec fn spec_name(&self) -> Seq<char> {
        self.name@
    }

    /// The recorded references, in order.
    pub closed spec fn spec_refs(&self) -> Seq<SpanReference<C>> {
        self.references@
    }

    /// The start time, nanoseconds since the Unix epoch.
    pub closed spec fn spec_start(&self) -> u64 {
        self.start_time
    }

    /// The attached tags.
    pub closed spec fn spec_tags(&self) -> SpanTags {
        self.tags
    }

    /// Validity: unique baggage keys, ordered tags, and every attached log
    /// ordered and timestamped.
    pub open spec fn wf(&self) -> bool {
        &&& self.spec_context().wf()
        &&& self.spec_tags().wf()
        &&& forall|i: int|
            0 <= i < self.spec_logs().len() ==> (#[trigger] self.spec_logs()[i]).wf()
                && self.spec_logs()[i].stamped()
    }
}

impl<C: ImplContext> Span<C> {
    /// Creates a new `Span` and applies the `StartOptions`: the start time
    /// is the explicit one or now, and each reference is applied in order.
    ///
    /// For use by `TracerInterface` implementations; `sender` is the
    /// sending end of the tracer's finished-span channel.
    #[verifier::loop_isolation(false)]
    pub fn new(name: &str, context: SpanContext<C>, options: StartOptions<C>, sender: SpanSender<
        C,
    >) -> (r: Span<C>)
        requires
            context.wf(),
        ensures
            r.wf(),
            r.spec_name() == name@,
            r.spec_finish() is None,
            r.spec_logs() == Seq::<Log>::empty(),
            r.spec_tags()@ == Seq::<(Seq<char>, TagValue)>::empty(),
            r.spec_refs() == options.spec_refs(),
            options.spec_start() matches Some(t) ==> r.spec_start() == t,
            ({
                let (fi, fb) = apply_references(
                    context.spec_inner(),
                    context.bag(),
                    options.spec_refs(),
                );
                r.spec_context().spec_inner() == fi && r.spec_context().bag() == fb
            }),
    {
        let ghost initial_inner = context.spec_inner();
        let ghost initial_bag = context.bag();
        let ghost all_refs = options.spec_refs();
        let start_time = match options.start_time {
            Some(t) => t,
            None => now_nanos(),
        };
        let mut refs = options.references;
        let mut span = Span {
            context,
            finish_time: None,
            logs: Vec::new(),
            name: String::from_str(name),
            references: Vec::new(),
            sender,
            start_time,
            tags: SpanTags::new(),
        };
        proof {
            assert(span.spec_refs() + refs@ =~= all_refs);
            assert(span.spec_tags()@ =~= Seq::<(Seq<char>, TagValue)>::empty());
        }
        while refs.len() > 0
            invariant
                span.wf(),
                span.spec_name() == name@,
                span.spec_finish() is None,
                span.spec_logs() == Seq::<Log>::empty(),
                span.spec_tags()@ == Seq::<(Seq<char>, TagValue)>::empty(),
                span.spec_start() == start_time,
                span.spec_refs() + refs@ == all_refs,
                apply_references(initial_inner, initial_bag, all_refs) == apply_references(
                    span.spec_context().spec_inner(),
                    span.spec_context().bag(),
                    refs@,
                ),
            decreases refs.len(),
        {
            let ghost before = refs@;
            let reference = refs.remove(0);
            proof {
                assert(before.drop_first() =~= refs@);
            }
            span.reference_span(reference);
            proof {
                assert(span.spec_refs() + refs@ =~= all_refs);
            }
        }
        proof {
            assert(span.spec_refs() =~= all_refs);
        }
        span
    }

    /// Adds a reference to a `SpanContext`: first the backend hook runs,
    /// then every baggage item of the parent is copied into this span's
    /// context (overwriting on key collision), and the relation is
    /// recorded.
    #[verifier::loop_isolation(false)]
    pub fn reference_span(&mut self, reference: SpanReference<C>)
        requires
            old(self).wf(),
        ensures
            final(self).wf(),
            final(self).spec_context().spec_inner() == old(
                self,
            ).spec_context().spec_inner().hook_result(reference),
            final(self).spec_context().bag() == kv_merge(
                old(self).spec_context().bag(),
                reference.parent().bag(),
            ),
            final(self).spec_refs() == old(self).spec_refs().push(reference),
            final(self).spec_name() == old(self).spec_name(),
            final(self).spec_start() == old(self).spec_start(),
            final(self).spec_finish() == old(self).spec_finish(),
            final(self).spec_logs() == old(self).spec_logs(),
            final(self).spec_tags() == old(self).spec_tags(),
    {
        self.context.reference_span(&reference);
        let ghost parent_bag = reference.parent().bag();
        let ghost base_bag = self.context.bag();
        let parent = reference.parent_context();
        let items = parent.baggage_items();
        let n = items.len();
        let mut i: usize = 0;
        while i < n
            invariant
                0 <= i <= n,
                n == parent_bag.len(),
                self.spec_context().bag() == kv_merge(base_bag, parent_bag.take(i as int)),
                self.spec_context().wf(),
                self.spec_context().spec_inner() == old(
                    self,
                ).spec_context().spec_inner().hook_result(reference),
                self.spec_refs() == old(self).spec_refs(),
                self.spec_name() == old(self).spec_name(),
                self.spec_start() == old(self).spec_start(),
                self.spec_finish() == old(self).spec_finish(),
                self.spec_logs() == old(self).spec_logs(),
                self.spec_tags() == old(self).spec_tags(),
                baggage_view(items@) == parent_bag,
            decreases n - i,
        {
            let item = &items[i];
            let key = String::from_str(item.key());
            let value = String::from_str(item.value());
            self.context.set_baggage_item(key, value);
            proof {
                lemma_kv_merge_push(base_bag, parent_bag.take(i as int), parent_bag[i as int]);
                assert(parent_bag.take(i as int + 1) =~= parent_bag.take(i as int).push(
                    parent_bag[i as int],
                ));
            }
            i += 1;
        }
        proof {
            assert(parent_bag.take(n as int) =~= parent_bag);
        }
        self.references.push(reference);
    }

    /// Marks this span as a child of the given context.
    pub fn child_of(&mut self, parent: SpanContext<C>)
        requires
            old(self).wf(),
        ensures
            final(self).wf(),
            final(self).spec_context().spec_inner() == old(
                self,
            ).spec_context().spec_inner().hook_result(SpanReference::ChildOf(parent)),
            final(self).spec_context().bag() == kv_merge(
                old(self).spec_context().bag(),
                parent.bag(),
            ),
            final(self).spec_refs() == old(self).spec_refs().push(
                SpanReference::ChildOf(parent),
            ),
            final(self).spec_name() == old(self).spec_name(),
            final(self).spec_logs() == old(self).spec_logs(),
            final(self).spec_tags() == old(self).spec_tags(),
            final(self).spec_start() == old(self).spec_start(),
            final(self).spec_finish() == old(self).spec_finish(),
    {
        self.reference_span(SpanReference::ChildOf(parent));
    }

    /// Marks this span as a follower of the given context.
    pub fn follows(&mut self, parent: SpanContext<C>)
        requires
            old(self).wf(),
        ensures
            final(self).wf(),
            final(self).spec_context().spec_inner() == old(
                self,
            ).spec_context().spec_inner().hook_result(SpanReference::FollowsFrom(parent)),
            final(self).spec_context().bag() == kv_merge(
                old(self).spec_context().bag(),
                parent.bag(),
            ),
            final(self).spec_refs() == old(self).spec_refs().push(
                SpanReference::FollowsFrom(parent),
            ),
            final(self).spec_name() == old(self).spec_name(),
            final(self).spec_logs() == old(self).spec_logs(),
            final(self).spec_tags() == old(self).spec_tags(),
            final(self).spec_start() == old(self).spec_start(),
            final(self).spec_finish() == old(self).spec_finish(),
    {
        self.reference_span(SpanReference::FollowsFrom(parent));
    }

    /// Builds the immutable snapshot `finish` sends — every field is
    /// carried over unchanged and the given finish time is recorded — and
    /// hands back the channel sender it travels on.
    fn into_finished(self, finish_time: u64) -> (r: (FinishedSpan<C>, SpanSender<C>))
        ensures
            r.0.spec_context() == self.spec_context(),
            r.0.spec_name() == self.spec_name(),
            r.0.spec_logs() == self.spec_logs(),
            r.0.spec_refs() == self.spec_refs(),
            r.0.spec_tags() == self.spec_tags(),
            r.0.spec_start() == self.spec_start(),
            r.0.spec_finish() == finish_time,
            self.wf() ==> r.0.wf(),
    {
        let Span { context, finish_time: _, logs, name, references, sender, start_time, tags } =
            self;
        let finished = FinishedSpan {
            context,
            finish_time,
            logs,
            name,
            references,
            start_time,
            tags,
        };
        proof {
            assert(finished.spec_logs() == self.spec_logs());
            assert(finished.spec_tags() == self.spec_tags());
            assert(finished.spec_context() == self.spec_context());
        }
        (finished, sender)
    }

    /// Finishes the span and sends it to the tracer's receiver.
    ///
    /// Consumes the `Span`, so an operation can be finished at most once;
    /// the finish time is the explicitly set one or now.  The value handed
    /// to the channel is exactly the snapshot `into_finished` contracts.
    /// Whether the send succeeds is the channel's to decide; if the
    /// receiving side is gone, the finished span comes back inside
    /// `Error::SendError` for the caller to handle, never swallowed.
    pub fn finish(self) -> (r: Result<(), Error<C>>)
        ensures
            r matches Err(e) ==> e matches Error::SendError(f) && {
                &&& f.spec_context() == self.spec_context()
                &&& f.spec_name() == self.spec_name()
                &&& f.spec_logs() == self.spec_logs()
                &&& f.spec_refs() == self.spec_refs()
                &&& f.spec_tags() == self.spec_tags()
                &&& f.spec_start() == self.spec_start()
                &&& (self.spec_finish() matches Some(t) ==> f.spec_finish() == t)
                &&& (self.wf() ==> f.wf())
            },
    {
        let finish_time = match self.finish_time {
            Some(t) => t,
            None => now_nanos(),
        };
        let (finished, sender) = self.into_finished(finish_time);
        match channel_send(&sender, finished) {
            Ok(()) => Ok(()),
            Err(f) => Err(Error::SendError(f)),
        }
    }

    /// Access the `SpanContext` of this span.
    pub fn context(&self) -> (r: &SpanContext<C>)
        ensures
            *r == self.spec_context(),
    {
        &self.context
    }

    /// Set the span finish time explicitly; the span can still be mutated
    /// afterwards.
    pub fn finish_time(&mut self, finish_time: u64)
        ensures
            final(self).spec_finish() == Some(finish_time),
            final(self).spec_context() == old(self).spec_context(),
            final(self).spec_name() == old(self).spec_name(),
            final(self).spec_logs() == old(self).spec_logs(),
            final(self).spec_refs() == old(self).spec_refs(),
            final(self).spec_tags() == old(self).spec_tags(),
            final(self).spec_start() == old(self).spec_start(),
    {
        self.finish_time = Some(finish_time);
    }

    /// Attempt to fetch a baggage item by key.
    pub fn get_baggage_item(&self, key: &str) -> (r: Option<&String>)
        ensures
            match r {
                Some(v) => kv_get(self.spec_context().bag(), key@) == Some(v@),
                None => kv_get(self.spec_context().bag(), key@) is None,
            },
    {
        self.context.get_baggage_item(key)
    }

    /// Attach a log event to the span; a log without a timestamp receives
    /// the current time.
    pub fn log(&mut self, log: Log)
        requires
            old(self).wf(),
            log.wf(),
        ensures
            final(self).wf(),
            final(self).spec_logs().len() == old(self).spec_logs().len() + 1,
            final(self).spec_logs().drop_last() == old(self).spec_logs(),
            ({
                let l = final(self).spec_logs().last();
                &&& l.spec_fields() == log.spec_fields()
                &&& l.stamped()
                &&& (log.spec_timestamp() matches Some(t) ==> l.spec_timestamp() == Some(t))
            }),
            final(self).spec_context() == old(self).spec_context(),
            final(self).spec_name() == old(self).spec_name(),
            final(self).spec_refs() == old(self).spec_refs(),
            final(self).spec_tags() == old(self).spec_tags(),
            final(self).spec_start() == old(self).spec_start(),
            final(self).spec_finish() == old(self).spec_finish(),
    {
        let mut log = log;
        log.at_or_now();
        self.logs.push(log);
        proof {
            assert(self.spec_logs().drop_last() =~= old(self).spec_logs());
        }
    }

    /// Returns the operation name.
    pub fn operation_name(&self) -> (r: &str)
        ensures
            r@ == self.spec_name(),
    {
        self.name.as_str()
    }

    /// Access all referenced span contexts and their relationship, in
    /// order of recording.
    pub fn references(&self) -> (r: &Vec<SpanReference<C>>)
        ensures
            r@ == self.spec_refs(),
    {
        &self.references
    }

    /// Adds or updates a baggage item; baggage is forwarded to spans that
    /// reference this span, never backwards.
    pub fn set_baggage_item(&mut self, key: &str, value: &str)
        requires
            old(self).wf(),
        ensures
            final(self).wf(),
            final(self).spec_context().bag() == crate::kv::kv_set(
                old(self).spec_context().bag(),
                key@,
                value@,
            ),
            final(self).spec_context().spec_inner() == old(self).spec_context().spec_inner(),
            final(self).spec_name() == old(self).spec_name(),
            final(self).spec_logs() == old(self).spec_logs(),
            final(self).spec_refs() == old(self).spec_refs(),
            final(self).spec_tags() == old(self).spec_tags(),
            final(self).spec_start() == old(self).spec_start(),
            final(self).spec_finish() == old(self).spec_finish(),
    {
        self.context.set_baggage_item(String::from_str(key), String::from_str(value));
        proof {
            assert(self.spec_logs() == old(self).spec_logs());
            assert(self.spec_tags() == old(self).spec_tags());
        }
    }

    /// Updates the operation name.
    pub fn set_operation_name(&mut self, name: &str)
        ensures
            final(self).spec_name() == name@,
            final(self).spec_context() == old(self).spec_context(),
            final(self).spec_logs() == old(self).spec_logs(),
            final(self).spec_refs() == old(self).spec_refs(),
            final(self).spec_tags() == old(self).spec_tags(),
            final(self).spec_start() == old(self).spec_start(),
            final(self).spec_finish() == old(self).spec_finish(),
    {
        self.name = String::from_str(name);
    }

    /// Append a tag to the span, overwriting a tag with the same name.
    pub fn tag(&mut self, tag: &str, value: TagValue)
        requires
            old(self).wf(),
        ensures
            final(self).wf(),
            kv_get(final(self).spec_tags()@, tag@) == Some(value),
            forall|k2: Seq<char>|
                k2 != tag@ ==> #[trigger] kv_get(final(self).spec_tags()@, k2) == kv_get(
                    old(self).spec_tags()@,
                    k2,
                ),
            final(self).spec_context() == old(self).spec_context(),
            final(self).spec_name() == old(self).spec_name(),
            final(self).spec_logs() == old(self).spec_logs(),
            final(self).spec_refs() == old(self).spec_refs(),
            final(self).spec_start() == old(self).spec_start(),
            final(self).spec_finish() == old(self).spec_finish(),
    {
        self.tags.tag(tag, value);
        proof {
            assert(self.spec_logs() == old(self).spec_logs());
            assert(self.spec_context() == old(self).spec_context());
        }
    }

    /// Tags the span as failed and logs an `error` event with the given
    /// message, error kind and error detail.
    pub fn fail_span(&mut self, message: &str, kind: &str, object: &str)
        requires
            old(self).wf(),
        ensures
            final(self).wf(),
            kv_get(final(self).spec_tags()@, "error"@) == Some(TagValue::Boolean(true)),
            forall|k2: Seq<char>|
                k2 != "error"@ ==> #[trigger] kv_get(final(self).spec_tags()@, k2) == kv_get(
                    old(self).spec_tags()@,
                    k2,
                ),
            final(self).spec_logs().len() == old(self).spec_logs().len() + 1,
            final(self).spec_logs().drop_last() == old(self).spec_logs(),
            ({
                let f = final(self).spec_logs().last().spec_fields();
                &&& (kv_get(f, "event"@) matches Some(LogValue::String(v)) && v@ == "error"@)
                &&& (kv_get(f, "message"@) matches Some(LogValue::String(v)) && v@ == message@)
                &&& (kv_get(f, "error.kind"@) matches Some(LogValue::String(v)) && v@ == kind@)
                &&& (kv_get(f, "error.object"@) matches Some(LogValue::String(v)) && v@
                    == object@)
                &&& (forall|k2: Seq<char>|
                    k2 != "event"@ && k2 != "message"@ && k2 != "error.kind"@ && k2
                        != "error.object"@ ==> #[trigger] kv_get(f, k2) is None)
                &&& final(self).spec_logs().last().stamped()
            }),
            final(self).spec_context() == old(self).spec_context(),
            final(self).spec_name() == old(self).spec_name(),
            final(self).spec_refs() == old(self).spec_refs(),
            final(self).spec_start() == old(self).spec_start(),
            final(self).spec_finish() == old(self).spec_finish(),
    {
        proof {
            reveal_strlit("event");
            reveal_strlit("message");
            reveal_strlit("error.kind");
            reveal_strlit("error.object");
            assert("event"@ != "message"@ && "event"@ != "error.kind"@ && "event"@
                != "error.object"@ && "message"@ != "error.kind"@ && "message"@
                != "error.object"@ && "error.kind"@ != "error.object"@) by {
                assert("event"@.len() == 5 && "message"@.len() == 7 && "error.kind"@.len() == 10
                    && "error.object"@.len() == 12);
            }
        }
        self.tag("error", TagValue::Boolean(true));
        let entry = Log::new().log("event", LogValue::String(String::from_str("error"))).log(
            "message",
            LogValue::String(String::from_str(message)),
        ).log("error.kind", LogValue::String(String::from_str(kind))).log(
            "error.object",
            LogValue::String(String::from_str(object)),
        );
        self.log(entry);
    }
}

/// Law: baggage propagates forward.
///
/// `Span::reference_span` (and through it `child_of`, `follows` and
/// `Span::new`) leaves the referencing span with the baggage
/// `kv_merge(child, parent)`.  This law says what that merge holds: every
/// baggage item of the referenced parent appears in the child afterwards
/// with the parent's value — it stays until something explicitly
/// overwrites it.
pub proof fn lemma_baggage_forward_propagation<C: ImplContext>(
    before: Span<C>,
    after: Span<C>,
    reference: SpanReference<C>,
    key: Seq<char>,
)
    requires
        reference.parent().wf(),
        crate::kv::kv_has(reference.parent().bag(), key),
        after.spec_context().bag() == kv_merge(
            before.spec_context().bag(),
            reference.parent().bag(),
        ),
    ensures
        kv_get(after.spec_context().bag(), key) == kv_get(reference.parent().bag(), key),
{
    crate::kv::lemma_kv_merge_parent_wins(
        before.spec_context().bag(),
        reference.parent().bag(),
        key,
    );
}

/// Law: baggage never propagates backwards.
///
/// Setting a baggage item changes the one context it is set on and nothing
/// else: `set_baggage_item` relates only the old and new value of its own
/// receiver (`kv_set`), so a parent context, being a separate value, still
/// lacks a key it never held even after a child sets that key.
pub proof fn lemma_baggage_not_backward<C>(
    parent: SpanContext<C>,
    child_bag: Seq<(Seq<char>, Seq<char>)>,
    key: Seq<char>,
    value: Seq<char>,
)
    requires
        !crate::kv::kv_has(parent.bag(), key),
    ensures
        kv_get(crate::kv::kv_set(child_bag, key, value), key) == Some(value),
        !crate::kv::kv_has(parent.bag(), key),
{
    crate::kv::lemma_kv_set_get(child_bag, key, value);
}

/// A `Span` that represents a finished operation.
///
/// The record can no longer be altered; tracers ship `FinishedSpan`s to the
/// distributed tracer.
#[derive(Debug)]
pub struct FinishedSpan<C> {
    context: SpanContext<C>,
    finish_time: u64,
    logs: Vec<Log>,
    name: String,
    references: Vec<SpanReference<C>>,
    start_time: u64,
    tags: SpanTags,
}

impl<C> FinishedSpan<C> {
    /// The operation's context.
    pub closed spec fn spec_context(&self) -> SpanContext<C> {
        self.context
    }

    /// The finish time, nanoseconds since the Unix epoch.
    pub closed spec fn spec_finish(&self) -> u64 {
        self.finish_time
    }

    /// The attached logs, in order of attachment.
    pub closed spec fn spec_logs(&self) -> Seq<Log> {
        self.logs@
    }

    /// The operation name.
    pub closed spec fn spec_name(&self) -> Seq<char> {
        self.name@
    }

    /// The recorded references, in order.
    pub closed spec fn spec_refs(&self) -> Seq<SpanReference<C>> {
        self.references@
    }

    /// The start time, nanoseconds since the Unix epoch.
    pub closed spec fn spec_start(&self) -> u64 {
        self.start_time
    }

    /// The attached tags.
    pub closed spec fn spec_tags(&self) -> SpanTags {
        self.tags
    }

    /// Validity: unique baggage keys, ordered tags, and every log ordered
    /// and timestamped.
    pub open spec fn wf(&self) -> bool {
        &&& self.spec_context().wf()
        &&& self.spec_tags().wf()
        &&& forall|i: int|
            0 <= i < self.spec_logs().len() ==> (#[trigger] self.spec_logs()[i]).wf()
                && self.spec_logs()[i].stamped()
    }

    /// Access the operation's `SpanContext`.
    pub fn context(&self) -> (r: &SpanContext<C>)
        ensures
            *r == self.spec_context(),
    {
        &self.context
    }

    /// The time the span was finished, nanoseconds since the Unix epoch.
    pub fn finish_time(&self) -> (r: u64)
        ensures
            r == self.spec_finish(),
    {
        self.finish_time
    }

    /// Access the logs attached to this span.
    pub fn logs(&self) -> (r: &Vec<Log>)
        ensures
            r@ == self.spec_logs(),
    {
        &self.logs
    }

    /// Access the name of the operation.
    pub fn name(&self) -> (r: &String)
        ensures
            r@ == self.spec_name(),
    {
        &self.name
    }

    /// Access all referenced span contexts and their relationship.
    pub fn references(&self) -> (r: &Vec<SpanReference<C>>)
        ensures
            r@ == self.spec_refs(),
    {
        &self.references
    }

    /// The time the span was started, nanoseconds since the Unix epoch.
    pub fn start_time(&self) -> (r: u64)
        ensures
            r == self.spec_start(),
    {
        self.start_time
    }

    /// Access the tags attached to this span.
    pub fn tags(&self) -> (r: &SpanTags)
        ensures
            *r == self.spec_tags(),
    {
        &self.tags
    }
}

} // verus!
