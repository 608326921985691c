//! The hub that tells every live session what happened: who signed in, and
//! what was said.
//!
//! The hub is a `tokio::sync::broadcast` channel. Each subscriber has a
//! position of its own in the channel and sees, in the order of publication,
//! what is published after it subscribed. The channel keeps a bounded number
//! of events; a subscriber that falls further behind loses the oldest ones and
//! is told how many. Publishing never waits for a subscriber.

use tokio::sync::broadcast::error::SendError;
use tokio::sync::broadcast::Receiver;
use tokio::sync::broadcast::Sender;
use vstd::prelude::*;
use crate::error::ChatError;
use crate::error::ChatResult;
use crate::error::RecvFault;
use crate::messages::MessagePayload;
use crate::requests::SignInResponse;

verus! {

/// How many events the hub keeps for subscribers that have not read them yet.
pub const HUB_CAPACITY: usize = 1000;

/// Something that happened and that every live session is told of.
#[derive(Debug, PartialEq, Eq)]
pub enum BroadcastPayload {
    Message(MessagePayload),
    SignIn(SignInResponse),
}

impl Clone for BroadcastPayload {
    fn clone(&self) -> (copy: Self)
        ensures
            copy == *self,
    {
        match self {
            BroadcastPayload::Message(message) => BroadcastPayload::Message(message.clone()),
            BroadcastPayload::SignIn(response) => BroadcastPayload::SignIn(response.clone()),
        }
    }
}

/// The sending half of a `tokio::sync::broadcast` channel. Its state is shared
/// with every receiver and every clone, so nothing is said of what is in it.
#[verifier::external_type_specification]
#[verifier::external_body]
#[verifier::reject_recursive_types(T)]
pub struct ExSender<T>(Sender<T>);

/// The receiving half of a `tokio::sync::broadcast` channel: one subscription.
#[verifier::external_type_specification]
#[verifier::external_body]
#[verifier::reject_recursive_types(T)]
pub struct ExReceiver<T>(Receiver<T>);

/// The capacity that the channel of this sender was made with: how many
/// values the channel was asked to keep for a receiver that has not read
/// them yet. The channel keeps at least that many; a receiver that falls
/// further behind loses the oldest. It is fixed when the channel is made and
/// is the same for every handle on the channel.
pub uninterp spec fn sender_capacity(tx: Sender<BroadcastPayload>) -> nat;

/// The capacity that the channel of this receiver was made with.
pub uninterp spec fn receiver_capacity(rx: Receiver<BroadcastPayload>) -> nat;

/// `tokio::sync::broadcast::channel` makes a channel with the capacity that
/// it is given, and the channel's first receiver. It panics on a capacity of
/// 0 or above `usize::MAX / 2`, which the precondition leaves out.
#[verifier::external_body]
fn open_channel(capacity: usize) -> (ends: (Sender<BroadcastPayload>, Receiver<BroadcastPayload>))
    requires
        0 < capacity <= usize::MAX / 2,
    ensures
        sender_capacity(ends.0) == capacity,
        receiver_capacity(ends.1) == capacity,
{
    tokio::sync::broadcast::channel(capacity)
}

/// `Sender::subscribe` makes a new receiver on the sender's channel, which
/// starts at the channel's current end. (The call panics once the channel has
/// `usize::MAX / 4` receivers, more than can be alive at a time.)
#[verifier::external_body]
fn subscribe_to(tx: &Sender<BroadcastPayload>) -> (rx: Receiver<BroadcastPayload>)
    ensures
        receiver_capacity(rx) == sender_capacity(*tx),
{
    tx.subscribe()
}

/// `Sender::clone` makes another handle on the same channel.
#[verifier::external_body]
fn another_handle(tx: &Sender<BroadcastPayload>) -> (copy: Sender<BroadcastPayload>)
    ensures
        sender_capacity(copy) == sender_capacity(*tx),
{
    tx.clone()
}

/// The error of `Sender::send`, which holds the value that was not sent.
#[verifier::external_type_specification]
#[verifier::external_body]
#[verifier::reject_recursive_types(T)]
pub struct ExSendError<T>(SendError<T>);

/// `Sender::send` stores `value` for every receiver that the channel has at
/// this moment and returns how many they are, or, if it has none, gives the
/// value back in an error. It does not wait for a receiver. Which of the two
/// happens depends on who else holds a receiver, so nothing is claimed of the
/// result.
pub assume_specification<T>[ Sender::<T>::send ](tx: &Sender<T>, value: T) -> (sent: Result<
    usize,
    SendError<T>,
>)
;

/// What the hub's log does with what its subscription yielded: an event is
/// to be logged, and the log goes on; a fault ends the log with an error that
/// holds the fault.
pub fn log_broadcast(received: Result<BroadcastPayload, RecvFault>) -> (next: ChatResult<
    BroadcastPayload,
>)
    ensures
        next == (match received {
            Ok(payload) => Ok::<BroadcastPayload, ChatError>(payload),
            Err(fault) => Err::<BroadcastPayload, ChatError>(ChatError::RecvError(fault)),
        }),
{
    match received {
        Ok(payload) => Ok(payload),
        Err(fault) => Err(ChatError::RecvError(fault)),
    }
}

/// The publishing side of the hub.
#[derive(Debug)]
pub struct Broadcast {
    tx: Sender<BroadcastPayload>,
}

impl Clone for Broadcast {
    /// Another handle on the same hub.
    fn clone(&self) -> (copy: Self)
        ensures
            copy.capacity() == self.capacity(),
    {
        Broadcast { tx: another_handle(&self.tx) }
    }
}

impl Broadcast {
    /// How many events the hub was made to keep for a subscription that has
    /// not read them yet.
    pub closed spec fn capacity(&self) -> nat {
        sender_capacity(self.tx)
    }

    /// A new hub that keeps `HUB_CAPACITY` events for each subscription, and
    /// its first subscription.
    pub fn new() -> (made: (Self, Receiver<BroadcastPayload>))
        ensures
            made.0.capacity() == HUB_CAPACITY,
            receiver_capacity(made.1) == HUB_CAPACITY,
    {
        let (tx, rx) = open_channel(HUB_CAPACITY);
        (Broadcast { tx }, rx)
    }

    /// Publishes `payload` to every subscription alive at this moment, without
    /// waiting for any of them. Publishing succeeds whether or not anybody is
    /// subscribed: an event that the hub has no subscription for is dropped.
    pub fn publish(&self, payload: BroadcastPayload) -> (outcome: ChatResult<()>)
        ensures
            outcome is Ok,
    {
        match self.tx.send(payload) {
            // Stored for the subscriptions that are alive.
            Ok(_) => Ok(()),
            // Nobody is subscribed: the event goes nowhere.
            Err(_) => Ok(()),
        }
    }

    /// Tells every live session that a user has signed in.
    pub fn sign_in(&self, response: SignInResponse) -> (outcome: ChatResult<()>)
        ensures
            outcome is Ok,
    {
        self.publish(BroadcastPayload::SignIn(response))
    }

    /// Tells every live session of a new message.
    pub fn send_message(&self, response: MessagePayload) -> (outcome: ChatResult<()>)
        ensures
            outcome is Ok,
    {
        self.publish(BroadcastPayload::Message(response))
    }

    /// A new subscription of this hub, with the hub's capacity: it sees what
    /// is published from now on, and nothing that was published before.
    pub fn subscribe(&self) -> (subscription: Receiver<BroadcastPayload>)
        ensures
            receiver_capacity(subscription) == self.capacity(),
    {
        subscribe_to(&self.tx)
    }
}

} // verus!
