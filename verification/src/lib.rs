//! The state of a chat relay: who has signed in, what was said, and the hub
//! that tells every live session about both.

pub mod broadcast;
pub mod error;
pub mod messages;
pub mod order;
pub mod requests;
pub mod session;
pub mod users;

use tokio::sync::broadcast::Receiver;
use vstd::prelude::*;
use crate::broadcast::Broadcast;
use crate::broadcast::BroadcastPayload;
use crate::broadcast::HUB_CAPACITY;
use crate::broadcast::receiver_capacity;
use crate::messages::MessageView;
use crate::messages::Messages;
use crate::users::Users;

verus! {

/// The state that a relay starts with: nobody signed in, nothing said, and a
/// new hub with its first subscription.
pub fn state() -> (fresh: (Users, Messages, Broadcast, Receiver<BroadcastPayload>))
    ensures
        fresh.0@ == Set::<Seq<char>>::empty(),
        fresh.1@ == Seq::<MessageView>::empty(),
        fresh.2.capacity() == HUB_CAPACITY,
        receiver_capacity(fresh.3) == HUB_CAPACITY,
{
    let users = Users::new();
    let messages = Messages::new();
    let (broadcast, rx) = Broadcast::new();
    (users, messages, broadcast, rx)
}

} // verus!
