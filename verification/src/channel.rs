//! The queue between the producers and the consumer: a channel of
//! `crossbeam_channel` that carries messages and, as `None`, the request to
//! stop.

use crate::record::Message;
use vstd::prelude::*;

verus! {

/// `crossbeam_channel::Sender`: what the queue holds changes under every
/// holder of an end, so nothing inside is described.
#[verifier::external_type_specification]
#[verifier::external_body]
#[verifier::reject_recursive_types(T)]
pub struct ExSender<T>(crossbeam_channel::Sender<T>);

/// `crossbeam_channel::Receiver`, as opaque as the sending end.
#[verifier::external_type_specification]
#[verifier::external_body]
#[verifier::reject_recursive_types(T)]
pub struct ExReceiver<T>(crossbeam_channel::Receiver<T>);

/// The producers' end of the queue.
pub type MessageSender = crossbeam_channel::Sender<Option<Message>>;

/// The consumer's end of the queue.
pub type MessageReceiver = crossbeam_channel::Receiver<Option<Message>>;

/// The largest capacity that a bounded queue is made with: the most slots
/// of up to 64 bytes each that one allocation can hold.
pub const MAX_CAPACITY: usize = usize::MAX / 128;

/// The capacity that a queue was made with, as
/// `crossbeam_channel::Sender::capacity` gives it for the queue's sending
/// end: `None` for a queue that grows as needed.
pub uninterp spec fn queue_capacity(sender: MessageSender) -> Option<usize>;

/// How an attempt to send without waiting ended. Where the item was not
/// taken, it comes back.
pub enum TrySend {
    Sent,
    Full(Option<Message>),
    Disconnected(Option<Message>),
}

/// Trusted: `crossbeam_channel::unbounded`. The queue is made without a
/// capacity; nothing else is claimed of the two ends.
#[verifier::external_body]
pub(crate) fn unbounded() -> (ends: (MessageSender, MessageReceiver))
    ensures
        queue_capacity(ends.0) is None,
{
    crossbeam_channel::unbounded()
}

/// Trusted: `crossbeam_channel::bounded`. The queue is made with the
/// capacity asked for; nothing else is claimed of the two ends.
/// The call panics where the capacity is too large for the slot counters,
/// which count to twice the next power of two above it, or for the one
/// allocation that holds the slots, which is limited to `isize::MAX` bytes;
/// with slots of a counter and a message, 64 bytes at most, capacities up to
/// `MAX_CAPACITY` are clear of both.
#[verifier::external_body]
pub(crate) fn bounded(cap: usize) -> (ends: (MessageSender, MessageReceiver))
    requires
        cap <= MAX_CAPACITY,
    ensures
        queue_capacity(ends.0) == Some(cap),
{
    crossbeam_channel::bounded(cap)
}

/// Trusted: `crossbeam_channel::Sender::try_send`. Whether the item is taken
/// depends on what the other threads do; an item that is not taken is handed
/// back unchanged.
#[verifier::external_body]
pub(crate) fn try_send(sender: &MessageSender, item: Option<Message>) -> (outcome: TrySend)
    ensures
        outcome matches TrySend::Full(back) ==> back == item,
        outcome matches TrySend::Disconnected(back) ==> back == item,
{
    match sender.try_send(item) {
        Ok(()) => TrySend::Sent,
        Err(crossbeam_channel::TrySendError::Full(back)) => TrySend::Full(back),
        Err(crossbeam_channel::TrySendError::Disconnected(back)) => TrySend::Disconnected(back),
    }
}

/// Trusted: `crossbeam_channel::Sender::send`, which waits for room. It
/// fails only where the receiving end is gone, and then hands the item back
/// unchanged.
#[verifier::external_body]
pub(crate) fn send(sender: &MessageSender, item: Option<Message>) -> (outcome: Result<(), Option<Message>>)
    ensures
        outcome matches Err(back) ==> back == item,
{
    match sender.send(item) {
        Ok(()) => Ok(()),
        Err(crossbeam_channel::SendError(back)) => Err(back),
    }
}

/// Trusted: `crossbeam_channel::Receiver::recv`, which waits for an item.
/// `None` says that the queue is empty and every sending end is gone.
#[verifier::external_body]
pub(crate) fn recv(receiver: &MessageReceiver) -> (item: Option<Option<Message>>) {
    match receiver.recv() {
        Ok(item) => Some(item),
        Err(crossbeam_channel::RecvError) => None,
    }
}

/// Trusted: `crossbeam_channel::Sender::len`: the number of items in the
/// queue at some moment of the call, which is never more than the capacity
/// that the queue was made with.
#[verifier::external_body]
pub(crate) fn queued(sender: &MessageSender) -> (n: usize)
    ensures
        queue_capacity(*sender) matches Some(cap) ==> n <= cap,
{
    sender.len()
}

} // verus!
