use wavrec::session::{
    is_stop_command, menu_action, recording_step, CaptureBuffer, MenuAction, RecordingAction,
    SessionState,
};

#[test]
fn stop_fires_on_lowercase_q() {
    assert!(is_stop_command("q".as_bytes()));
}

#[test]
fn stop_fires_on_uppercase_q() {
    assert!(is_stop_command("Q".as_bytes()));
}

#[test]
fn stop_fires_on_padded_q() {
    assert!(is_stop_command(" Q ".as_bytes()));
    assert!(is_stop_command("\tq\n".as_bytes()));
    assert!(is_stop_command("q\r\n".as_bytes()));
}

#[test]
fn stop_rejects_other_tokens() {
    assert!(!is_stop_command("".as_bytes()));
    assert!(!is_stop_command("   ".as_bytes()));
    assert!(!is_stop_command("x".as_bytes()));
    assert!(!is_stop_command("qq".as_bytes()));
    assert!(!is_stop_command("q x".as_bytes()));
    assert!(!is_stop_command("quit".as_bytes()));
}

#[test]
fn recording_stops_once_per_stop_line() {
    for line in ["q", "Q", " Q "] {
        let (state, action) = recording_step(SessionState::Recording, line.as_bytes());
        assert_eq!(state, SessionState::Stopped);
        assert_eq!(action, RecordingAction::PauseStream);
    }
}

#[test]
fn recording_reprompts_on_other_input() {
    for line in ["", "stop", "Q!", "q q"] {
        let (state, action) = recording_step(SessionState::Recording, line.as_bytes());
        assert_eq!(state, SessionState::Recording);
        assert_eq!(action, RecordingAction::Reprompt);
    }
}

#[test]
fn menu_actions_by_index() {
    assert_eq!(menu_action(0), MenuAction::SelectInputDevice);
    assert_eq!(menu_action(1), MenuAction::SelectOutputDevice);
    assert_eq!(menu_action(2), MenuAction::RecordAudio);
    assert_eq!(menu_action(3), MenuAction::PlayAudio);
    assert_eq!(menu_action(7), MenuAction::NotAvailable);
}

#[test]
fn capture_buffer_accumulates_blocks_in_order() {
    let mut buffer = CaptureBuffer::new();
    assert_eq!(buffer.len(), 0);
    buffer.push_block(&[1, 2, 3, 4]);
    buffer.push_block(&[5, 6, 7, 8]);
    buffer.push_block(&[9, 10]);
    assert_eq!(buffer.len(), 10);
    assert_eq!(buffer.samples().as_slice(), &[1, 2, 3, 4, 5, 6, 7, 8, 9, 10]);
}

#[test]
fn capture_buffer_keeps_partial_final_block() {
    let mut buffer = CaptureBuffer::new();
    buffer.push_block(&[-1, 0, 1]);
    buffer.push_block(&[]);
    buffer.push_block(&[i16::MIN, i16::MAX]);
    assert_eq!(buffer.len(), 5);
    assert_eq!(buffer.samples().as_slice(), &[-1, 0, 1, i16::MIN, i16::MAX]);
}
