use chat_backend::broadcast::Broadcast;
use chat_backend::broadcast::BroadcastPayload;
use chat_backend::error::RecvFault;
use chat_backend::messages::MessagePayload;
use chat_backend::requests::SignInResponse;
use chat_backend::session::Frame;
use chat_backend::session::SessionAction;
use chat_backend::session::SessionBridge;
use chat_backend::session::SessionEvent;
use chat_backend::session::SessionState;
use tokio::sync::broadcast::error::TryRecvError;
use tokio::sync::broadcast::Receiver;

fn message(index: usize) -> BroadcastPayload {
    BroadcastPayload::Message(MessagePayload::new(
        "adam".to_string(),
        format!("message {}", index),
        index,
    ))
}

fn next_event(rx: &mut Receiver<BroadcastPayload>) -> Option<SessionEvent> {
    match rx.try_recv() {
        Ok(payload) => Some(SessionEvent::Published(payload)),
        Err(TryRecvError::Empty) => None,
        Err(TryRecvError::Closed) => Some(SessionEvent::Faulted(RecvFault::Closed)),
        Err(TryRecvError::Lagged(missed)) => Some(SessionEvent::Faulted(RecvFault::Lagged(missed))),
    }
}

fn forwarded(action: SessionAction) -> BroadcastPayload {
    match action {
        SessionAction::Forward(payload) => payload,
        other => panic!("expected an event to forward, but got {:?}", other),
    }
}

#[test]
fn websocket() {
    let (mut users, mut messages, broadcast, _rx) = chat_backend::state();
    let (mut bridge, mut subscription) = SessionBridge::open(&broadcast);
    users.add_user("adam");
    broadcast
        .sign_in(SignInResponse {
            user: "adam".to_string(),
        })
        .expect("cannot brodcast signin");
    let message_payload = messages.send("adam", "woohoo");
    broadcast
        .send_message(message_payload)
        .expect("cannot send message");

    // First payload is the sign in
    {
        let event = next_event(&mut subscription).expect("cannot get next message");
        match forwarded(bridge.handle(event)) {
            BroadcastPayload::Message(_) => panic!("got a broadcast message payload out of order"),
            BroadcastPayload::SignIn(sign_in) => {
                assert_eq!(
                    sign_in,
                    SignInResponse {
                        user: "adam".to_string()
                    }
                );
            }
        }
        assert!(matches!(
            bridge.handle(SessionEvent::Written),
            SessionAction::Wait
        ));
    }

    // Second payload is the message
    {
        let event = next_event(&mut subscription).expect("cannot get next message");
        match forwarded(bridge.handle(event)) {
            BroadcastPayload::Message(m) => {
                assert_eq!(m.user.as_ref(), "adam");
                assert_eq!(m.message.as_ref(), "woohoo");
            }
            BroadcastPayload::SignIn(_) => {
                panic!("got a broadcast message payload out of order");
            }
        }
    }
}

#[test]
fn new_bridge_is_active() {
    let (hub, _rx) = Broadcast::new();
    let (bridge, _subscription) = SessionBridge::open(&hub);
    assert_eq!(bridge.state(), SessionState::Active);
}

#[test]
fn bridge_subscribes_when_it_opens() {
    let (hub, _rx) = Broadcast::new();
    hub.publish(message(0)).expect("cannot publish");
    let (_bridge, mut subscription) = SessionBridge::open(&hub);
    assert!(next_event(&mut subscription).is_none());
    hub.publish(message(1)).expect("cannot publish");
    match next_event(&mut subscription) {
        Some(SessionEvent::Published(payload)) => assert_eq!(payload, message(1)),
        other => panic!("expected an event, but got {:?}", other),
    }
}

#[test]
fn active_bridge_forwards_in_order() {
    let (hub, _rx) = Broadcast::new();
    let (mut bridge, mut subscription) = SessionBridge::open(&hub);
    for index in 0..20 {
        hub.publish(message(index)).expect("cannot publish");
    }
    let mut written: Vec<BroadcastPayload> = Vec::new();
    while let Some(event) = next_event(&mut subscription) {
        written.push(forwarded(bridge.handle(event)));
        assert!(matches!(
            bridge.handle(SessionEvent::Written),
            SessionAction::Wait
        ));
    }
    assert_eq!(written, (0..20).map(message).collect::<Vec<_>>());
    assert_eq!(bridge.state(), SessionState::Active);
}

#[test]
fn other_frames_are_ignored() {
    let (hub, _rx) = Broadcast::new();
    let (mut bridge, _subscription) = SessionBridge::open(&hub);
    for frame in [Frame::Text, Frame::Binary, Frame::Ping, Frame::Pong] {
        assert!(matches!(
            bridge.handle(SessionEvent::Inbound(frame)),
            SessionAction::Wait
        ));
        assert_eq!(bridge.state(), SessionState::Active);
    }
}

#[test]
fn missed_events_do_not_end_the_bridge() {
    let (hub, _rx) = Broadcast::new();
    let (mut bridge, mut subscription) = SessionBridge::open(&hub);
    for index in 0..3000 {
        hub.publish(message(index)).expect("cannot publish");
    }
    let missed = match next_event(&mut subscription) {
        Some(SessionEvent::Faulted(RecvFault::Lagged(missed))) => missed as usize,
        other => panic!("expected a backlog overrun, but got {:?}", other),
    };
    assert!(matches!(
        bridge.handle(SessionEvent::Faulted(RecvFault::Lagged(missed as u64))),
        SessionAction::Wait
    ));
    assert_eq!(bridge.state(), SessionState::Active);
    let mut index = missed;
    while let Some(event) = next_event(&mut subscription) {
        assert_eq!(forwarded(bridge.handle(event)), message(index));
        index += 1;
    }
    assert_eq!(index, 3000);
    assert_eq!(bridge.state(), SessionState::Active);
}

#[test]
fn closed_hub_does_not_end_the_bridge() {
    let (hub, _rx) = Broadcast::new();
    let (mut bridge, _subscription) = SessionBridge::open(&hub);
    assert!(matches!(
        bridge.handle(SessionEvent::Faulted(RecvFault::Closed)),
        SessionAction::Wait
    ));
    assert_eq!(bridge.state(), SessionState::Active);
}

#[test]
fn close_frame_ends_the_bridge() {
    let (hub, _rx) = Broadcast::new();
    let (mut bridge, subscription) = SessionBridge::open(&hub);
    assert!(matches!(
        bridge.handle(SessionEvent::Inbound(Frame::Close)),
        SessionAction::Release
    ));
    assert_eq!(bridge.state(), SessionState::Closing);
    drop(subscription);
    assert!(matches!(
        bridge.handle(SessionEvent::Released),
        SessionAction::Stop
    ));
    assert_eq!(bridge.state(), SessionState::Closed);
}

#[test]
fn end_of_stream_ends_the_bridge() {
    let (hub, _rx) = Broadcast::new();
    let (mut bridge, _subscription) = SessionBridge::open(&hub);
    assert!(matches!(
        bridge.handle(SessionEvent::Disconnected),
        SessionAction::Release
    ));
    assert_eq!(bridge.state(), SessionState::Closing);
}

#[test]
fn read_failure_ends_the_bridge() {
    let (hub, _rx) = Broadcast::new();
    let (mut bridge, _subscription) = SessionBridge::open(&hub);
    assert!(matches!(
        bridge.handle(SessionEvent::ReadFailed),
        SessionAction::Release
    ));
    assert_eq!(bridge.state(), SessionState::Closing);
}

#[test]
fn write_failure_ends_the_bridge() {
    let (hub, _rx) = Broadcast::new();
    let (mut bridge, _subscription) = SessionBridge::open(&hub);
    assert_eq!(forwarded(bridge.handle(SessionEvent::Published(message(0)))), message(0));
    assert!(matches!(
        bridge.handle(SessionEvent::WriteFailed),
        SessionAction::Release
    ));
    assert_eq!(bridge.state(), SessionState::Closing);
}

#[test]
fn closed_bridge_stays_closed_and_releases_only_once() {
    let (hub, _rx) = Broadcast::new();
    let (mut bridge, _subscription) = SessionBridge::open(&hub);
    let mut releases = 0;
    let events = vec![
        SessionEvent::Published(message(0)),
        SessionEvent::Written,
        SessionEvent::Disconnected,
        SessionEvent::Released,
        SessionEvent::Published(message(1)),
        SessionEvent::Inbound(Frame::Close),
        SessionEvent::Disconnected,
        SessionEvent::WriteFailed,
        SessionEvent::Faulted(RecvFault::Lagged(2)),
    ];
    let mut forwards = 0;
    for event in events {
        match bridge.handle(event) {
            SessionAction::Release => releases += 1,
            SessionAction::Forward(_) => forwards += 1,
            _ => {}
        }
    }
    assert_eq!(releases, 1);
    assert_eq!(forwards, 1);
    assert_eq!(bridge.state(), SessionState::Closed);
}

#[test]
fn ending_one_bridge_leaves_the_others() {
    let (hub, _rx) = Broadcast::new();
    let (mut first, first_subscription) = SessionBridge::open(&hub);
    let (mut second, mut second_subscription) = SessionBridge::open(&hub);
    hub.publish(message(0)).expect("cannot publish");
    assert!(matches!(
        first.handle(SessionEvent::Disconnected),
        SessionAction::Release
    ));
    drop(first_subscription);
    assert!(matches!(
        first.handle(SessionEvent::Released),
        SessionAction::Stop
    ));
    hub.publish(message(1)).expect("cannot publish");
    assert_eq!(second.state(), SessionState::Active);
    let event = next_event(&mut second_subscription).expect("cannot get next message");
    assert_eq!(forwarded(second.handle(event)), message(0));
    let event = next_event(&mut second_subscription).expect("cannot get next message");
    assert_eq!(forwarded(second.handle(event)), message(1));
    assert_eq!(first.state(), SessionState::Closed);
    assert_eq!(second.state(), SessionState::Active);
}

#[test]
fn subscription_of_a_bridge_keeps_a_thousand_events() {
    let (hub, _rx) = Broadcast::new();
    let (mut bridge, mut subscription) = SessionBridge::open(&hub);
    for index in 0..1000 {
        hub.publish(message(index)).expect("cannot publish");
    }
    let mut index = 0;
    while let Some(event) = next_event(&mut subscription) {
        assert_eq!(forwarded(bridge.handle(event)), message(index));
        index += 1;
    }
    assert_eq!(index, 1000);
}
