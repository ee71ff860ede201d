//! Structured log events attached to spans.
use vstd::prelude::*;
use vstd::string::StringExecFns;

use crate::clock::now_nanos;
use crate::kv::kv_get;
use crate::sorted::{entries_view, entry_put_sorted, sorted_by_key};

verus! {

/// The values a log field can take.
///
/// A floating-point field is carried as its decimal text: the library never
/// computes with it, it only stores and serializes it.
#[derive(Debug, PartialEq)]
pub enum LogValue {
    Boolean(bool),
    Float(String),
    Integer(i64),
    String(String),
}

/// Structured log fields container, kept in strictly increasing key order.
#[derive(Debug)]
pub struct LogFileds {
    entries: Vec<(String, LogValue)>,
}

impl View for LogFileds {
    type V = Seq<(Seq<char>, LogValue)>;

    closed spec fn view(&self) -> Seq<(Seq<char>, LogValue)> {
        entries_view(self.entries@)
    }
}

impl LogFileds {
    /// The field entries stand in strictly increasing key order.
    pub open spec fn wf(&self) -> bool {
        sorted_by_key(self@)
    }

    /// Creates an empty field container.
    pub fn new() -> (r: LogFileds)
        ensures
            r@ == Seq::<(Seq<char>, LogValue)>::empty(),
            r.wf(),
    {
        let r = LogFileds { entries: Vec::new() };
        proof {
            assert(r@ =~= Seq::<(Seq<char>, LogValue)>::empty());
        }
        r
    }

    /// Insert or update a field.
    pub fn log(&mut self, key: String, value: LogValue)
        requires
            old(self).wf(),
        ensures
            final(self).wf(),
            kv_get(final(self)@, key@) == Some(value),
            forall|k2: Seq<char>|
                k2 != key@ ==> #[trigger] kv_get(final(self)@, k2) == kv_get(old(self)@, k2),
    {
        entry_put_sorted(&mut self.entries, key.as_str(), value);
    }

    /// The stored fields, in increasing key order.
    pub fn iter(&self) -> (r: &Vec<(String, LogValue)>)
        ensures
            entries_view(r@) == self@,
    {
        &self.entries
    }
}

/// Structured logging information to attach to spans.
///
/// Each log holds a set of values identified by strings, and an optional
/// timestamp in nanoseconds since the Unix epoch.  A log without a timestamp
/// receives the current time when it is attached to a span.
#[derive(Debug)]
pub struct Log {
    fields: LogFileds,
    timestamp: Option<u64>,
}

impl Log {
    /// The log's fields.
    pub closed spec fn spec_fields(&self) -> Seq<(Seq<char>, LogValue)> {
        self.fields@
    }

    /// The log's optional timestamp.
    pub closed spec fn spec_timestamp(&self) -> Option<u64> {
        self.timestamp
    }

    /// The fields stand in strictly increasing key order.
    pub open spec fn wf(&self) -> bool {
        sorted_by_key(self.spec_fields())
    }

    /// A timestamp has been set.
    pub open spec fn stamped(&self) -> bool {
        self.spec_timestamp() is Some
    }

    /// Creates an empty structured log.
    pub fn new() -> (r: Log)
        ensures
            r.spec_fields() == Seq::<(Seq<char>, LogValue)>::empty(),
            r.spec_timestamp() is None,
            r.wf(),
    {
        Log { fields: LogFileds::new(), timestamp: None }
    }

    /// Sets the timestamp associated with the log.
    pub fn at(self, timestamp: u64) -> (r: Log)
        ensures
            r.spec_fields() == self.spec_fields(),
            r.spec_timestamp() == Some(timestamp),
    {
        Log { fields: self.fields, timestamp: Some(timestamp) }
    }

    /// Sets the timestamp to now if not set.
    pub fn at_or_now(&mut self)
        ensures
            final(self).spec_fields() == old(self).spec_fields(),
            final(self).stamped(),
            old(self).spec_timestamp() matches Some(t) ==> final(self).spec_timestamp() == Some(
                t,
            ),
    {
        if self.timestamp.is_none() {
            self.timestamp = Some(now_nanos());
        }
    }

    /// Extend the log fields with the given value.
    ///
    /// If a value with the same key is already in the log it is replaced.
    pub fn log(self, key: &str, value: LogValue) -> (r: Log)
        requires
            self.wf(),
        ensures
            r.wf(),
            r.spec_timestamp() == self.spec_timestamp(),
            kv_get(r.spec_fields(), key@) == Some(value),
            forall|k2: Seq<char>|
                k2 != key@ ==> #[trigger] kv_get(r.spec_fields(), k2) == kv_get(
                    self.spec_fields(),
                    k2,
                ),
    {
        let mut fields = self.fields;
        fields.log(String::from_str(key), value);
        Log { fields, timestamp: self.timestamp }
    }

    /// The stored fields, in increasing key order.
    pub fn iter(&self) -> (r: &Vec<(String, LogValue)>)
        ensures
            entries_view(r@) == self.spec_fields(),
    {
        self.fields.iter()
    }

    /// Access the (optional) timestamp for the log.
    pub fn timestamp(&self) -> (r: Option<u64>)
        ensures
            r == self.spec_timestamp(),
    {
        self.timestamp
    }
}

} // verus!
