//! The reporter's decision core.
//!
//! The reporter is a background worker that drains finished spans from the
//! channel and hands each to a sink.  The worker loop is plain thread
//! plumbing; what it decides at each step is a pure function from the stop
//! flag and the channel's answer to an action, stated and verified here.
//! Shutdown is drain-then-stop: the stopping side sleeps for the stop
//! delay, sets the flag, and joins the worker.
use vstd::prelude::*;

use crate::span::FinishedSpan;

verus! {

/// The default stop delay, in seconds: how long a stopping reporter keeps
/// draining before it sets the stop flag.
pub const STOP_DELAY_SECS_DEFAULT: u64 = 2;

/// The default receive timeout of the worker loop, in milliseconds.
pub const RECV_TIMEOUT_MSEC_DEFAULT: u64 = 50;

/// What the channel gave the worker on one iteration.
pub enum ReporterEvent<C> {
    /// A finished span arrived.
    Received(FinishedSpan<C>),
    /// Nothing arrived within the receive timeout.
    TimedOut,
    /// The channel failed: every sender is gone.  The worker treats this
    /// as fatal, so the decision function is never asked about it.
    Closed,
}

/// What the worker does next.
pub enum ReporterAction<C> {
    /// Hand this span to the sink, then poll again.
    Deliver(FinishedSpan<C>),
    /// Poll the channel again.
    Poll,
    /// Stop the worker loop.
    Halt,
}

/// One decision of the reporter loop: while no stop was requested, a
/// received span is delivered (never dropped, never reordered) and a
/// timeout polls again; once stop is requested the worker halts.
pub fn reporter_step<C>(stop_requested: bool, event: ReporterEvent<C>) -> (r: ReporterAction<C>)
    requires
        !(event is Closed),
    ensures
        stop_requested ==> r is Halt,
        !stop_requested ==> match event {
            ReporterEvent::Received(span) => r == ReporterAction::Deliver(span),
            ReporterEvent::TimedOut => r is Poll,
            ReporterEvent::Closed => false,
        },
{
    if stop_requested {
        ReporterAction::Halt
    } else {
        match event {
            ReporterEvent::Received(span) => ReporterAction::Deliver(span),
            ReporterEvent::TimedOut => ReporterAction::Poll,
            ReporterEvent::Closed => unreached(),
        }
    }
}

} // verus!
