//! Bounded channels between the engine and its subscribers.
//!
//! A channel is shared with other threads, which may add to it or drain it at
//! any moment, so no contract here speaks of what a channel holds: sending
//! reports whether the message was taken, and that is all that is known.

use vstd::prelude::*;

verus! {

/// The sending half of a `crossbeam` channel; opaque to the verifier.
#[verifier::external_type_specification]
#[verifier::external_body]
#[verifier::reject_recursive_types(T)]
pub struct ExSender<T>(crossbeam::channel::Sender<T>);

/// The receiving half of a `crossbeam` channel; opaque to the verifier.
#[verifier::external_type_specification]
#[verifier::external_body]
#[verifier::reject_recursive_types(T)]
pub struct ExReceiver<T>(crossbeam::channel::Receiver<T>);

/// Another handle to the channel of `sender`.
///
/// Trusted: specifies `Clone::clone` of `crossbeam::channel::Sender`, which
/// returns a sender for the same channel. No contract tells two handles of
/// one channel apart, so the new handle is taken as equal to the old.
pub assume_specification<T>[ <crossbeam::channel::Sender<T> as Clone>::clone ](
    sender: &crossbeam::channel::Sender<T>,
) -> (other: crossbeam::channel::Sender<T>)
    ensures
        other == *sender,
;

/// Another handle to the channel of `receiver`.
///
/// Trusted: specifies `Clone::clone` of `crossbeam::channel::Receiver`, which
/// returns a receiver for the same channel. No contract tells two handles of
/// one channel apart, so the new handle is taken as equal to the old.
pub assume_specification<T>[ <crossbeam::channel::Receiver<T> as Clone>::clone ](
    receiver: &crossbeam::channel::Receiver<T>,
) -> (other: crossbeam::channel::Receiver<T>)
    ensures
        other == *receiver,
;

/// The largest capacity that this library asks of a channel.
pub const MAX_CHANNEL_CAPACITY: usize = 1024;

/// A fresh channel that holds at most `cap` messages.
///
/// Trusted: calls `crossbeam::channel::bounded`, which panics only when the
/// capacity is too large to lay out; the bound keeps far away from that.
/// Nothing is claimed of the two halves.
#[verifier::external_body]
pub(crate) fn bounded_channel<T>(cap: usize) -> (halves: (
    crossbeam::channel::Sender<T>,
    crossbeam::channel::Receiver<T>,
))
    requires
        cap <= MAX_CHANNEL_CAPACITY,
{
    crossbeam::channel::bounded(cap)
}

/// Offers `msg` to the channel without blocking; `true` when it was taken.
///
/// Trusted: calls `crossbeam::channel::Sender::try_send`, which returns at
/// once and fails when the channel is full or has no receiver left. Which of
/// these happens depends on the other threads, so nothing is claimed of the
/// result.
#[verifier::external_body]
pub(crate) fn offer<T>(sender: &crossbeam::channel::Sender<T>, msg: T) -> (taken: bool) {
    sender.try_send(msg).is_ok()
}

} // verus!
