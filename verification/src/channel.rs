//! The finished-span channel.
//!
//! Finished spans travel from the thread that finishes them to the reporter
//! over a multi-producer channel of the `crossbeam_channel` crate.  The
//! channel types and the calls the crate makes are declared here and trusted.
use vstd::prelude::*;

verus! {

/// `crossbeam_channel::Sender`, declared so it can stand in fields and
/// signatures; the crate treats it as opaque.
#[verifier::external_type_specification]
#[verifier::external_body]
#[verifier::reject_recursive_types(T)]
pub struct ExSender<T>(crossbeam_channel::Sender<T>);

/// `crossbeam_channel::Receiver`, declared so it can stand in signatures;
/// the crate hands it out and never reads from it itself.
#[verifier::external_type_specification]
#[verifier::external_body]
#[verifier::reject_recursive_types(T)]
pub struct ExReceiver<T>(crossbeam_channel::Receiver<T>);

/// Relies on `crossbeam_channel::unbounded`: a connected sender/receiver
/// pair for an unbounded channel.
#[verifier::external_body]
pub(crate) fn channel_unbounded<T>() -> (crossbeam_channel::Sender<T>, crossbeam_channel::Receiver<
    T,
>) {
    crossbeam_channel::unbounded()
}

/// Relies on `crossbeam_channel::Sender::send`: the message is handed to the
/// channel, or handed back unchanged when every receiver is gone.
#[verifier::external_body]
pub(crate) fn channel_send<T>(sender: &crossbeam_channel::Sender<T>, message: T) -> (r: Result<
    (),
    T,
>)
    ensures
        r matches Err(m) ==> m == message,
{
    sender.send(message).map_err(|e| e.0)
}

/// Relies on `crossbeam_channel::Sender::clone`: another sender for the
/// same channel.
#[verifier::external_body]
pub(crate) fn channel_sender_clone<T>(sender: &crossbeam_channel::Sender<T>) -> crossbeam_channel::Sender<
    T,
> {
    sender.clone()
}

} // verus!
