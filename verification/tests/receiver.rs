use chat_relay::frame::{encode, Frame};
use chat_relay::receiver::{step, ReadOutcome, ReceiverAction, ReceiverState, StopCause};

fn bad_frame() -> Frame {
    let mut bytes = vec![0xffu8, 0xfe];
    bytes.resize(32, 0);
    Frame::from_bytes(bytes)
}

#[test]
fn complete_frame_is_emitted() {
    let (state, action) = step(ReceiverState::Connected, ReadOutcome::Complete(encode("hello")));
    assert_eq!(state, ReceiverState::Connected);
    assert_eq!(action, ReceiverAction::Emit("hello".to_string()));
}

#[test]
fn empty_frame_is_emitted_as_empty_text() {
    let frame = Frame::from_bytes(vec![0u8; 32]);
    let (state, action) = step(ReceiverState::Connected, ReadOutcome::Complete(frame));
    assert_eq!(state, ReceiverState::Connected);
    assert_eq!(action, ReceiverAction::Emit(String::new()));
}

#[test]
fn would_block_means_retry() {
    let (state, action) = step(ReceiverState::Connected, ReadOutcome::WouldBlock);
    assert_eq!(state, ReceiverState::Connected);
    assert_eq!(action, ReceiverAction::Retry);
}

#[test]
fn failed_read_terminates() {
    let (state, action) = step(ReceiverState::Connected, ReadOutcome::Failed);
    assert_eq!(state, ReceiverState::Terminated(StopCause::ConnectionFailure));
    assert_eq!(action, ReceiverAction::Stop(StopCause::ConnectionFailure));
}

#[test]
fn frame_that_is_not_text_terminates() {
    let (state, action) = step(ReceiverState::Connected, ReadOutcome::Complete(bad_frame()));
    assert_eq!(state, ReceiverState::Terminated(StopCause::ProtocolViolation));
    assert_eq!(action, ReceiverAction::Stop(StopCause::ProtocolViolation));
}

#[test]
fn terminated_receiver_stays_terminated() {
    for cause in [StopCause::ConnectionFailure, StopCause::ProtocolViolation] {
        let outcomes = [
            ReadOutcome::Complete(encode("hello")),
            ReadOutcome::Complete(bad_frame()),
            ReadOutcome::WouldBlock,
            ReadOutcome::Failed,
        ];
        for outcome in outcomes {
            let (state, action) = step(ReceiverState::Terminated(cause), outcome);
            assert_eq!(state, ReceiverState::Terminated(cause));
            assert_eq!(action, ReceiverAction::Stop(cause));
        }
    }
}

#[test]
fn receiver_emits_frames_in_the_order_read() {
    let outcomes = vec![
        ReadOutcome::Complete(encode("one")),
        ReadOutcome::WouldBlock,
        ReadOutcome::Complete(encode("two")),
        ReadOutcome::WouldBlock,
        ReadOutcome::WouldBlock,
        ReadOutcome::Complete(encode("three")),
        ReadOutcome::Failed,
        ReadOutcome::Complete(encode("four")),
    ];
    let mut state = ReceiverState::Connected;
    let mut texts = Vec::new();
    for outcome in outcomes {
        let (after, action) = step(state, outcome);
        state = after;
        if let ReceiverAction::Emit(text) = action {
            texts.push(text);
        }
    }
    assert_eq!(texts, vec!["one".to_string(), "two".to_string(), "three".to_string()]);
    assert_eq!(state, ReceiverState::Terminated(StopCause::ConnectionFailure));
}
