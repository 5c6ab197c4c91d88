use chat_relay::dispatch::{server_cycle, session_step, Cycle, OutboundPoll, SessionAction, SessionEvent, SessionState};
use chat_relay::frame::Frame;
use chat_relay::input::{read_command, Command};
use chat_relay::receiver::{step, ReadOutcome, ReceiverAction, ReceiverState, StopCause};
use chat_relay::roster::Roster;
use chat_relay::MSG_SIZE;

/// One end of a connection as the tests see it: what was written to it, and
/// whether writes to it still succeed.
struct Wire {
    name: &'static str,
    open: bool,
}

/// What a client types becomes the frame that its session writes.
fn typed(line: &str) -> Option<Frame> {
    match read_command(line) {
        Command::Quit => None,
        Command::Send(message) => {
            let event = SessionEvent::Polled(OutboundPoll::Message(message));
            match session_step(SessionState::Open, event, MSG_SIZE) {
                (SessionState::Open, SessionAction::Write(frame)) => Some(frame),
                other => panic!("unexpected step {:?}", other),
            }
        }
    }
}

/// The server's receiver for a connection reads a frame and hands on its text.
fn received(frame: Frame) -> String {
    match step(ReceiverState::Connected, ReadOutcome::Complete(frame)) {
        (ReceiverState::Connected, ReceiverAction::Emit(text)) => text,
        other => panic!("unexpected step {:?}", other),
    }
}

/// One cycle of the server with a pending message: returns the roster it
/// leaves and, for each write that succeeded, who got which frame.
fn relay(roster: Roster<Wire>, message: &str) -> (Roster<Wire>, Vec<(&'static str, Frame)>) {
    match server_cycle(roster, None, Some(message.to_string()), MSG_SIZE) {
        Cycle::Relay(mut pass) => {
            let mut deliveries = Vec::new();
            loop {
                let delivered = match pass.target() {
                    Some(wire) => {
                        if wire.open {
                            deliveries.push((wire.name, pass.frame().clone()));
                        }
                        wire.open
                    }
                    None => break,
                };
                pass.settle(delivered);
            }
            (pass.finish(), deliveries)
        }
        Cycle::Idle(_) => panic!("a message is pending"),
    }
}

fn names(roster: &Roster<Wire>) -> Vec<&'static str> {
    roster.as_slice().iter().map(|wire| wire.name).collect()
}

fn server_with(clients: &[&'static str]) -> Roster<Wire> {
    let mut roster = Roster::new();
    for name in clients {
        roster = match server_cycle(roster, Some(Wire { name, open: true }), None, MSG_SIZE) {
            Cycle::Idle(roster) => roster,
            Cycle::Relay(_) => panic!("nothing to relay"),
        };
    }
    roster
}

#[test]
fn message_from_one_client_reaches_every_client() {
    let roster = server_with(&["a", "b", "c"]);
    let sent = typed("good morning\n").unwrap();
    let message = received(sent);
    assert_eq!(message, "good morning");
    let (roster, deliveries) = relay(roster, &message);
    let receivers: Vec<&str> = deliveries.iter().map(|(name, _)| *name).collect();
    assert_eq!(receivers, vec!["a", "b", "c"]);
    for (_, frame) in deliveries {
        assert_eq!(received(frame), "good morning");
    }
    assert_eq!(names(&roster), vec!["a", "b", "c"]);
}

#[test]
fn closed_connection_is_pruned_and_the_others_are_served() {
    let mut roster = server_with(&["a", "b", "c"]);
    let mut wires = Roster::new();
    for wire in roster.as_slice() {
        wires.register(Wire { name: wire.name, open: wire.name != "b" });
    }
    roster = wires;
    let (roster, deliveries) = relay(roster, "first");
    let receivers: Vec<&str> = deliveries.iter().map(|(name, _)| *name).collect();
    assert_eq!(receivers, vec!["a", "c"]);
    assert_eq!(names(&roster), vec!["a", "c"]);
    let (roster, deliveries) = relay(roster, "second");
    let receivers: Vec<&str> = deliveries.iter().map(|(name, _)| *name).collect();
    assert_eq!(receivers, vec!["a", "c"]);
    for (_, frame) in deliveries {
        assert_eq!(received(frame), "second");
    }
    assert_eq!(names(&roster), vec!["a", "c"]);
}

#[test]
fn hello_from_client_one_reaches_client_two() {
    let roster = server_with(&["client1", "client2"]);
    let sent = typed("hello\n").unwrap();
    let message = received(sent);
    let (_, deliveries) = relay(roster, &message);
    let to_client_two: Vec<&Frame> =
        deliveries.iter().filter(|(name, _)| *name == "client2").map(|(_, frame)| frame).collect();
    assert_eq!(to_client_two.len(), 1);
    assert_eq!(received(to_client_two[0].clone()), "hello");
    let to_client_one = deliveries.iter().filter(|(name, _)| *name == "client1").count();
    assert_eq!(to_client_one, 1);
}

#[test]
fn quit_sends_no_frame() {
    assert_eq!(typed(":quit\n"), None);
    assert_eq!(typed(":quit"), None);
    assert!(typed("quit\n").is_some());
}

#[test]
fn messages_are_relayed_in_the_order_taken() {
    let mut roster = server_with(&["a", "b"]);
    let mut seen = Vec::new();
    for line in ["one\n", "two\n", "three\n"] {
        let message = received(typed(line).unwrap());
        let (after, deliveries) = relay(roster, &message);
        roster = after;
        for (name, frame) in deliveries {
            seen.push((name, received(frame)));
        }
    }
    let expected: Vec<(&str, String)> = vec![
        ("a", "one".to_string()),
        ("b", "one".to_string()),
        ("a", "two".to_string()),
        ("b", "two".to_string()),
        ("a", "three".to_string()),
        ("b", "three".to_string()),
    ];
    assert_eq!(seen, expected);
}

#[test]
fn long_message_arrives_cut_to_one_frame() {
    let roster = server_with(&["a"]);
    let line = "this message is longer than thirty-two bytes\n";
    let message = received(typed(line).unwrap());
    assert_eq!(message, "this message is longer than thir");
    let (_, deliveries) = relay(roster, &message);
    assert_eq!(received(deliveries[0].1.clone()), "this message is longer than thir");
}

#[test]
fn garbage_from_a_client_ends_its_receiver_only() {
    let roster = server_with(&["a", "b"]);
    let mut bytes = vec![0xc3u8];
    bytes.resize(32, 0);
    let (state, action) = step(ReceiverState::Connected, ReadOutcome::Complete(Frame::from_bytes(bytes)));
    assert_eq!(state, ReceiverState::Terminated(StopCause::ProtocolViolation));
    assert_eq!(action, ReceiverAction::Stop(StopCause::ProtocolViolation));
    let (roster, deliveries) = relay(roster, "still here");
    assert_eq!(deliveries.len(), 2);
    assert_eq!(names(&roster), vec!["a", "b"]);
}
