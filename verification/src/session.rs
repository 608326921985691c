//! The bridge between the hub and one live connection.
//!
//! A bridge lives as long as its connection. It waits for two things at once,
//! the next event of its subscription and the next frame of the connection,
//! and is told of whichever comes first. It answers with what is to be done
//! next. Waiting, writing and closing are the caller's part; deciding is the
//! bridge's.

use tokio::sync::broadcast::Receiver;
use vstd::prelude::*;
use crate::broadcast::Broadcast;
use crate::broadcast::BroadcastPayload;
use crate::broadcast::receiver_capacity;
use crate::error::RecvFault;

verus! {

/// Where a bridge stands in its life.
#[derive(Debug, Clone, Copy, PartialEq, Eq, Structural)]
pub enum SessionState {
    /// Forwarding events and watching the connection.
    Active,
    /// The connection is lost or was closed; its resources are being released.
    Closing,
    /// Over. Nothing happens any more.
    Closed,
}

/// The kinds of frame that a client can send.
#[derive(Debug, Clone, Copy, PartialEq, Eq, Structural)]
pub enum Frame {
    Text,
    Binary,
    Ping,
    Pong,
    Close,
}

/// What a bridge is told.
#[derive(Debug)]
pub enum SessionEvent {
    /// The subscription yielded an event.
    Published(BroadcastPayload),
    /// The subscription yielded a fault instead of an event.
    Faulted(RecvFault),
    /// The connection yielded a frame.
    Inbound(Frame),
    /// Reading from the connection failed.
    ReadFailed,
    /// The connection has ended.
    Disconnected,
    /// The event that was to be forwarded has been written to the connection.
    Written,
    /// Writing to the connection failed.
    WriteFailed,
    /// The subscription and the connection have been released.
    Released,
}

/// What a bridge asks for.
#[derive(Debug)]
pub enum SessionAction {
    /// Wait for the next event of the subscription or frame of the
    /// connection, whichever comes first.
    Wait,
    /// Write this event to the connection, and report how that went.
    Forward(BroadcastPayload),
    /// Drop the subscription and close the connection, and report it done.
    Release,
    /// Stop: nothing is left to do.
    Stop,
}

impl SessionEvent {
    /// The event tells that the connection is gone or going: a close frame,
    /// the end of the stream, or a failure to read or to write.
    pub open spec fn ends_session(self) -> bool {
        match self {
            SessionEvent::Inbound(Frame::Close) => true,
            SessionEvent::ReadFailed => true,
            SessionEvent::Disconnected => true,
            SessionEvent::WriteFailed => true,
            _ => false,
        }
    }
}

/// The state that follows `state` on `event`, and what is asked for.
///
/// An active bridge forwards what the hub publishes and goes on through
/// everything else but the loss of its connection. On that it asks once for
/// its resources to be released, and is closed with the next event.
pub open spec fn step(state: SessionState, event: SessionEvent) -> (SessionState, SessionAction) {
    match state {
        SessionState::Active => match event {
            SessionEvent::Published(payload) => (
                SessionState::Active,
                SessionAction::Forward(payload),
            ),
            _ => if event.ends_session() {
                (SessionState::Closing, SessionAction::Release)
            } else {
                (SessionState::Active, SessionAction::Wait)
            },
        },
        _ => (SessionState::Closed, SessionAction::Stop),
    }
}

/// The state after a bridge in `state` was told `events` one after another,
/// and what it asked for on each of them.
pub open spec fn run(state: SessionState, events: Seq<SessionEvent>) -> (
    SessionState,
    Seq<SessionAction>,
)
    decreases events.len(),
{
    if events.len() == 0 {
        (state, Seq::empty())
    } else {
        let before = run(state, events.drop_last());
        let last = step(before.0, events.last());
        (last.0, before.1.push(last.1))
    }
}

/// The events that the hub published, in order, among what a bridge was told.
pub open spec fn published(events: Seq<SessionEvent>) -> Seq<BroadcastPayload>
    decreases events.len(),
{
    if events.len() == 0 {
        Seq::empty()
    } else {
        match events.last() {
            SessionEvent::Published(payload) => published(events.drop_last()).push(payload),
            _ => published(events.drop_last()),
        }
    }
}

/// The events that a bridge asked to be written to the connection, in order.
pub open spec fn forwarded(actions: Seq<SessionAction>) -> Seq<BroadcastPayload>
    decreases actions.len(),
{
    if actions.len() == 0 {
        Seq::empty()
    } else {
        match actions.last() {
            SessionAction::Forward(payload) => forwarded(actions.drop_last()).push(payload),
            _ => forwarded(actions.drop_last()),
        }
    }
}

/// How often a bridge asked for its resources to be released.
pub open spec fn releases(actions: Seq<SessionAction>) -> nat
    decreases actions.len(),
{
    if actions.len() == 0 {
        0
    } else {
        releases(actions.drop_last()) + (if actions.last() is Release {
            1nat
        } else {
            0nat
        })
    }
}

/// What a bridge was told, without the faults of its subscription.
pub open spec fn without_faults(events: Seq<SessionEvent>) -> Seq<SessionEvent>
    decreases events.len(),
{
    if events.len() == 0 {
        Seq::empty()
    } else if events.last() is Faulted {
        without_faults(events.drop_last())
    } else {
        without_faults(events.drop_last()).push(events.last())
    }
}

/// The coordinator of one live connection.
#[derive(Debug)]
pub struct SessionBridge {
    state: SessionState,
}

impl SessionBridge {
    /// Where the bridge stands.
    pub closed spec fn state_of(&self) -> SessionState {
        self.state
    }

    /// Opens a bridge for a new connection: subscribes to the hub, and
    /// returns the bridge, active, with its subscription, which is one of
    /// this hub and has the hub's capacity.
    pub fn open(hub: &Broadcast) -> (opened: (Self, Receiver<BroadcastPayload>))
        ensures
            opened.0.state_of() is Active,
            receiver_capacity(opened.1) == hub.capacity(),
    {
        let subscription = hub.subscribe();
        (SessionBridge { state: SessionState::Active }, subscription)
    }

    /// Where the bridge stands.
    pub fn state(&self) -> (state: SessionState)
        ensures
            state == self.state_of(),
    {
        self.state
    }

    /// Takes note of `event` and says what is to be done next.
    pub fn handle(&mut self, event: SessionEvent) -> (action: SessionAction)
        ensures
            (final(self).state_of(), action) == step(old(self).state_of(), event),
    {
        match self.state {
            SessionState::Active => match event {
                SessionEvent::Published(payload) => SessionAction::Forward(payload),
                SessionEvent::Inbound(Frame::Close)
                | SessionEvent::ReadFailed
                | SessionEvent::Disconnected
                | SessionEvent::WriteFailed => {
                    self.state = SessionState::Closing;
                    SessionAction::Release
                },
                _ => SessionAction::Wait,
            },
            _ => {
                self.state = SessionState::Closed;
                SessionAction::Stop
            },
        }
    }
}

/// A bridge that is still active has asked for every event that the hub
/// published to it to be written to the connection: each once, in the order
/// of publication, and nothing else.
pub proof fn lemma_active_bridge_forwards_all(events: Seq<SessionEvent>)
    requires
        run(SessionState::Active, events).0 is Active,
    ensures
        forwarded(run(SessionState::Active, events).1) == published(events),
    decreases events.len(),
{
    if events.len() > 0 {
        let before = run(SessionState::Active, events.drop_last());
        lemma_active_bridge_forwards_all(events.drop_last());
        let after = run(SessionState::Active, events);
        assert(after.1.drop_last() =~= before.1);
    }
}

/// A fault of the subscription, such as a backlog that overran, does not end
/// a bridge: with or without such faults among what it is told, it ends in
/// the same state and forwards the same events in the same order.
pub proof fn lemma_faults_change_nothing(events: Seq<SessionEvent>)
    ensures
        run(SessionState::Active, without_faults(events)).0 == run(
            SessionState::Active,
            events,
        ).0 || !(run(SessionState::Active, events).0 is Active),
        run(SessionState::Active, events).0 is Active ==> forwarded(
            run(SessionState::Active, without_faults(events)).1,
        ) == forwarded(run(SessionState::Active, events).1),
    decreases events.len(),
{
    if events.len() > 0 {
        let front = events.drop_last();
        lemma_faults_change_nothing(front);
        let before = run(SessionState::Active, front);
        let after = run(SessionState::Active, events);
        assert(after.1.drop_last() =~= before.1);
        if !(events.last() is Faulted) {
            let kept = without_faults(events);
            assert(kept.drop_last() =~= without_faults(front));
            let kept_before = run(SessionState::Active, without_faults(front));
            let kept_after = run(SessionState::Active, kept);
            assert(kept_after.1.drop_last() =~= kept_before.1);
        }
    }
}

/// Once its connection is gone, a bridge is no longer active, and it never
/// becomes active again.
pub proof fn lemma_disconnect_ends_bridge(events: Seq<SessionEvent>, at: int)
    requires
        0 <= at < events.len(),
        events[at].ends_session(),
    ensures
        !(run(SessionState::Active, events).0 is Active),
        at + 1 < events.len() ==> run(SessionState::Active, events).0 is Closed,
    decreases events.len(),
{
    let front = events.drop_last();
    if at < events.len() - 1 {
        lemma_disconnect_ends_bridge(front, at);
    }
}

/// A bridge asks for its resources to be released exactly once, when it
/// leaves the active state, and never before or after.
pub proof fn lemma_released_once(events: Seq<SessionEvent>)
    ensures
        releases(run(SessionState::Active, events).1) == (if run(
            SessionState::Active,
            events,
        ).0 is Active {
            0nat
        } else {
            1nat
        }),
    decreases events.len(),
{
    if events.len() > 0 {
        let before = run(SessionState::Active, events.drop_last());
        lemma_released_once(events.drop_last());
        let after = run(SessionState::Active, events);
        assert(after.1.drop_last() =~= before.1);
    }
}

/// A closed bridge stays closed and asks for nothing more.
pub proof fn lemma_closed_is_final(events: Seq<SessionEvent>)
    ensures
        events.len() > 0 ==> run(SessionState::Closed, events).0 is Closed,
        forwarded(run(SessionState::Closed, events).1) == Seq::<BroadcastPayload>::empty(),
        releases(run(SessionState::Closed, events).1) == 0,
    decreases events.len(),
{
    if events.len() > 0 {
        let before = run(SessionState::Closed, events.drop_last());
        lemma_closed_is_final(events.drop_last());
        let after = run(SessionState::Closed, events);
        assert(after.1.drop_last() =~= before.1);
    }
}

} // verus!
