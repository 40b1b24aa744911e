//! The hand-off primitive: non-blocking sends and receives on `async_channel`, and the
//! rules that turn what a channel answered into what the bridge does next.
//!
//! In contracts a sender stands for the channel that it feeds: two senders are equal
//! exactly when they feed one channel. What is pending on a channel is never part of a
//! contract, because other threads change it at any time.
use vstd::prelude::*;

use async_channel::Receiver;
use async_channel::Sender;

verus! {

#[verifier::external_type_specification]
#[verifier::external_body]
#[verifier::reject_recursive_types(T)]
pub struct ExSender<T>(Sender<T>);

#[verifier::external_type_specification]
#[verifier::external_body]
#[verifier::reject_recursive_types(T)]
pub struct ExReceiver<T>(Receiver<T>);

/// What a channel answered to a non-blocking send.
#[derive(Debug)]
pub enum SendOutcome<T> {
    /// The message is in the channel.
    Delivered,
    /// The channel is bounded and has no room; the message comes back.
    Full(T),
    /// Every receiver is gone; the message comes back.
    Closed(T),
}

/// What a channel answered to a non-blocking receive.
#[derive(Debug)]
pub enum Received<T> {
    /// The oldest pending message.
    Value(T),
    /// Nothing is pending, but a sender is still alive.
    Empty,
    /// Nothing is pending and nothing will ever arrive.
    Closed,
}

/// One step of a task that waits for a result: what to do with what the channel
/// answered.
#[derive(Debug)]
pub enum Reception<T> {
    /// The result is there.
    Ready(T),
    /// Nothing yet: give the executor a turn, then look again.
    Yield,
    /// Nothing will ever come: the sender was dropped without sending.
    Broken(InvariantBroken),
}

/// An invariant of the bridge that a channel showed to be broken. The host treats each
/// of these as fatal.
#[derive(Clone, Copy, Debug, PartialEq, Eq, Structural)]
pub enum InvariantBroken {
    /// A one-shot channel already held a value when a second one was delivered.
    ChannelFull,
    /// A result channel had lost its receiver before the result was delivered.
    ChannelClosed,
    /// An operation named a system that did not run: the world does not hold it, or
    /// could not run it.
    SystemDidNotRun,
    /// An operation that takes an input found none on its input channel.
    InputMissing,
}

/// What becomes of a waiter after one delivery attempt on its channel.
#[derive(Clone, Copy, Debug, PartialEq, Eq, Structural)]
pub enum Delivery {
    /// The value is on its way to the awaiting task.
    Delivered,
    /// Nobody is listening any more; the waiter is retired without fuss.
    Abandoned,
}

impl<T> SendOutcome<T> {
    /// The message that was handed back, if the send did not go through.
    pub open spec fn returned(self) -> Option<T> {
        match self {
            SendOutcome::Delivered => None,
            SendOutcome::Full(message) => Some(message),
            SendOutcome::Closed(message) => Some(message),
        }
    }

    /// Reads the outcome of delivering a result that must not be lost: a spawned
    /// entity's id, a system's output. Anything but a delivery breaks an invariant.
    pub fn into_result(self) -> (result: Result<(), InvariantBroken>)
        ensures
            result == one_shot_result(self),
    {
        match self {
            SendOutcome::Delivered => Ok(()),
            SendOutcome::Full(_) => Err(InvariantBroken::ChannelFull),
            SendOutcome::Closed(_) => Err(InvariantBroken::ChannelClosed),
        }
    }

    /// Reads the outcome of handing over a request: a request that the channel did not
    /// take goes back to whoever offered it.
    pub fn into_refusal(self) -> (result: Result<(), T>)
        ensures
            result == refusal(self),
    {
        match self {
            SendOutcome::Delivered => Ok(()),
            SendOutcome::Full(refused) => Err(refused),
            SendOutcome::Closed(refused) => Err(refused),
        }
    }

    /// Reads the outcome of delivering an awaited value: a closed channel means that
    /// the awaiting task was cancelled, which is expected; a full one is a logic error.
    pub fn into_delivery(self) -> (result: Result<Delivery, InvariantBroken>)
        ensures
            result == wait_delivery(self),
    {
        match self {
            SendOutcome::Delivered => Ok(Delivery::Delivered),
            SendOutcome::Full(_) => Err(InvariantBroken::ChannelFull),
            SendOutcome::Closed(_) => Ok(Delivery::Abandoned),
        }
    }
}

impl<T> Received<T> {
    /// Reads the answer to a receive as a step of a waiting task: a value ends the
    /// wait, an empty channel asks for another look later, a closed one breaks an
    /// invariant, because a result that was promised can no longer arrive.
    pub fn into_reception(self) -> (step: Reception<T>)
        ensures
            step == reception(self),
    {
        match self {
            Received::Value(value) => Reception::Ready(value),
            Received::Empty => Reception::Yield,
            Received::Closed => Reception::Broken(InvariantBroken::ChannelClosed),
        }
    }
}

/// The step that follows from the answer to a receive.
pub open spec fn reception<T>(received: Received<T>) -> Reception<T> {
    match received {
        Received::Value(value) => Reception::Ready(value),
        Received::Empty => Reception::Yield,
        Received::Closed => Reception::Broken(InvariantBroken::ChannelClosed),
    }
}

/// Delivers a result that must not be lost, such as the id of a spawned entity, on its
/// one-shot channel. Anything but a delivery breaks an invariant: the requester must
/// still be listening, and nothing else may have been delivered before.
pub fn deliver<T>(sender: &Sender<T>, value: T) -> (result: Result<(), InvariantBroken>)
    ensures
        result matches Err(broken) ==> broken is ChannelFull || broken is ChannelClosed,
{
    try_send(sender, value).into_result()
}

/// Looks for a promised result without blocking, and says what the waiting task is
/// to do next.
pub fn recv<T>(receiver: &Receiver<T>) -> (step: Reception<T>)
    ensures
        step matches Reception::Broken(broken) ==> broken is ChannelClosed,
{
    try_recv(receiver).into_reception()
}

/// What goes back to the sender of a request: nothing when the channel took the
/// request, the request itself when it did not.
pub open spec fn refusal<T>(outcome: SendOutcome<T>) -> Result<(), T> {
    match outcome {
        SendOutcome::Delivered => Ok(()),
        SendOutcome::Full(refused) => Err(refused),
        SendOutcome::Closed(refused) => Err(refused),
    }
}

/// The verdict on a result delivery: only `Delivered` is acceptable.
pub open spec fn one_shot_result<T>(outcome: SendOutcome<T>) -> Result<(), InvariantBroken> {
    match outcome {
        SendOutcome::Delivered => Ok(()),
        SendOutcome::Full(_) => Err(InvariantBroken::ChannelFull),
        SendOutcome::Closed(_) => Err(InvariantBroken::ChannelClosed),
    }
}

/// The verdict on a delivery to a waiter: `Closed` retires the waiter silently, `Full`
/// is fatal.
pub open spec fn wait_delivery<T>(outcome: SendOutcome<T>) -> Result<Delivery, InvariantBroken> {
    match outcome {
        SendOutcome::Delivered => Ok(Delivery::Delivered),
        SendOutcome::Full(_) => Err(InvariantBroken::ChannelFull),
        SendOutcome::Closed(_) => Ok(Delivery::Abandoned),
    }
}

/// `async_channel::bounded`: a channel that holds at most `capacity` messages. The
/// outside function panics on a capacity of zero, which `requires` rules out.
#[verifier::external_body]
pub(crate) fn bounded<T>(capacity: usize) -> (pair: (Sender<T>, Receiver<T>))
    requires
        capacity > 0,
{
    async_channel::bounded(capacity)
}

/// `async_channel::unbounded`: a channel without a capacity limit.
#[verifier::external_body]
pub(crate) fn unbounded<T>() -> (pair: (Sender<T>, Receiver<T>))
{
    async_channel::unbounded()
}

/// `Sender::try_send`: never blocks. Which outcome comes back depends on the other
/// side of the channel; when the message is refused, it is the one that was offered.
#[verifier::external_body]
pub(crate) fn try_send<T>(sender: &Sender<T>, message: T) -> (outcome: SendOutcome<T>)
    ensures
        outcome.returned() is Some ==> outcome.returned() == Some(message),
{
    match sender.try_send(message) {
        Ok(()) => SendOutcome::Delivered,
        Err(async_channel::TrySendError::Full(message)) => SendOutcome::Full(message),
        Err(async_channel::TrySendError::Closed(message)) => SendOutcome::Closed(message),
    }
}

/// `Receiver::try_recv`: never blocks. Nothing is known of the answer beforehand: it
/// depends on what the senders have done.
#[verifier::external_body]
pub(crate) fn try_recv<T>(receiver: &Receiver<T>) -> (received: Received<T>)
{
    match receiver.try_recv() {
        Ok(message) => Received::Value(message),
        Err(async_channel::TryRecvError::Empty) => Received::Empty,
        Err(async_channel::TryRecvError::Closed) => Received::Closed,
    }
}

/// `Receiver::len`: the number of messages pending at the moment of the call.
#[verifier::external_body]
pub(crate) fn pending<T>(receiver: &Receiver<T>) -> (count: usize)
{
    receiver.len()
}

/// `Sender::clone`: another handle on the same channel. Since a sender stands for the
/// channel that it feeds, the copy equals what it was made from.
#[verifier::external_body]
pub(crate) fn clone_sender<T>(sender: &Sender<T>) -> (copy: Sender<T>)
    ensures
        copy == *sender,
{
    sender.clone()
}

/// `Sender::same_channel`: whether two senders feed one channel, which is what
/// equality of senders means.
#[verifier::external_body]
pub(crate) fn same_channel<T>(first: &Sender<T>, second: &Sender<T>) -> (same: bool)
    ensures
        same == (*first == *second),
{
    first.same_channel(second)
}

/// `Sender::sender_count`: the number of live senders of the channel.
#[verifier::external_body]
pub(crate) fn sender_count<T>(sender: &Sender<T>) -> (count: usize)
{
    sender.sender_count()
}

} // verus!
