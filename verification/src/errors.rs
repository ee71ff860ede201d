//! Errors returned by the tracing interface.
use vstd::prelude::*;

use crate::span::FinishedSpan;

verus! {

/// Enumeration of all errors returned by this crate.
///
/// Absence of tracing fields in a carrier is not an error; these are the
/// genuine failures: carrier trouble, malformed identifiers, a closed
/// completion channel, or a backend-specific message.
#[derive(Debug)]
pub enum Error<C> {
    /// A carrier stream failed while reading or writing; holds a detail
    /// message.
    IoError(String),
    /// A backend-specific failure with free-text detail.
    Msg(String),
    /// A carrier field held a malformed numeric identifier; holds the
    /// offending text.
    ParseIntError(String),
    /// The completion channel's receiving side is gone; holds the finished
    /// span that could not be sent.
    SendError(FinishedSpan<C>),
}

} // verus!
