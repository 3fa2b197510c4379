use gif_relay::session::{Action, Phase, Session, SessionError, Signal};
use gif_relay::source::DecodeError;

fn two_frame_gif() -> Vec<u8> {
    let mut bytes: Vec<u8> = Vec::new();
    bytes.extend_from_slice(b"GIF89a");
    bytes.extend_from_slice(&[1, 0, 1, 0, 0x80, 0, 0]);
    bytes.extend_from_slice(&[0, 0, 0, 255, 255, 255]);
    for _ in 0..2 {
        bytes.extend_from_slice(&[0x2C, 0, 0, 0, 0, 1, 0, 1, 0, 0]);
        bytes.extend_from_slice(&[2, 2, 0x44, 0x01, 0]);
    }
    bytes.push(0x3B);
    bytes
}

/// Sends until the session wants to read again; returns the chunks sent.
fn deliver(session: &mut Session, first: Action) -> Vec<Vec<u8>> {
    let mut chunks: Vec<Vec<u8>> = Vec::new();
    let mut action = first;
    loop {
        match action {
            Action::Send(bytes) => {
                assert_eq!(session.phase(), Phase::Sending);
                chunks.push(bytes);
                action = session.on_signal(Signal::Sent);
            },
            Action::ReadOutput => {
                assert_eq!(session.phase(), Phase::Reading);
                return chunks;
            },
            other => panic!("unexpected action: {:?}", other),
        }
    }
}

#[test]
fn new_session_reads() {
    let session = Session::new();
    assert_eq!(session.phase(), Phase::Reading);
    assert_eq!(session.seen(), 0);
    assert!(session.failure().is_none());
    assert_eq!(session.stream().cursor(), 0);
    let narrow = Session::with_cap(64);
    assert_eq!(narrow.stream().window_cap(), 64);
}

#[test]
fn process_exit_lets_the_copy_drain_without_a_kill() {
    let gif = two_frame_gif();
    let mut session = Session::new();
    let mut sent: Vec<Vec<u8>> = Vec::new();
    let action = session.on_output(&gif[..30]);
    sent.extend(deliver(&mut session, action));
    assert!(matches!(session.on_signal(Signal::ProcessExited), Action::Resume));
    assert_eq!(session.phase(), Phase::Reading);
    let action = session.on_output(&gif[30..]);
    sent.extend(deliver(&mut session, action));
    let last = session.on_signal(Signal::OutputEnded);
    assert!(matches!(last, Action::Close));
    assert_eq!(session.phase(), Phase::Closed);
    assert!(session.failure().is_none());
    assert_eq!(sent.len(), 3);
    assert_eq!(sent[0], &gif[..20]);
    assert_eq!(sent[1], &gif[20..33]);
    assert_eq!(sent[2], &gif[33..48]);
    assert_eq!(session.seen(), 48);
}

#[test]
fn process_exit_while_sending_is_remembered() {
    let gif = two_frame_gif();
    let mut session = Session::new();
    let action = session.on_output(&gif);
    assert!(matches!(action, Action::Send(_)));
    assert!(matches!(session.on_signal(Signal::ProcessExited), Action::Resume));
    assert_eq!(session.phase(), Phase::Sending);
    let action = session.on_signal(Signal::Sent);
    let rest = deliver(&mut session, action);
    assert_eq!(rest.len(), 2);
    assert!(matches!(session.on_signal(Signal::OutputEnded), Action::Close));
    assert!(session.failure().is_none());
}

#[test]
fn client_disconnect_kills_and_reaps_without_an_error() {
    let gif = two_frame_gif();
    let mut session = Session::new();
    let action = session.on_output(&gif);
    match action {
        Action::Send(bytes) => assert_eq!(bytes, &gif[..20]),
        other => panic!("unexpected action: {:?}", other),
    }
    assert!(matches!(session.on_signal(Signal::SendFailed), Action::Kill));
    assert_eq!(session.phase(), Phase::Killing);
    assert!(matches!(session.on_signal(Signal::KillRequested), Action::AwaitExit));
    assert_eq!(session.phase(), Phase::Reaping);
    assert!(matches!(session.on_signal(Signal::ProcessExited), Action::Close));
    assert_eq!(session.phase(), Phase::Closed);
    assert!(session.failure().is_none());
}

#[test]
fn end_of_output_kills_the_running_process() {
    let mut session = Session::new();
    assert!(matches!(session.on_signal(Signal::OutputEnded), Action::Kill));
    assert!(matches!(session.on_signal(Signal::KillRequested), Action::AwaitExit));
    assert!(matches!(session.on_signal(Signal::ProcessExited), Action::Close));
    assert!(session.failure().is_none());
}

#[test]
fn failed_read_ends_the_session_with_an_error() {
    let mut session = Session::new();
    assert!(matches!(session.on_signal(Signal::OutputFailed), Action::Kill));
    assert!(matches!(session.on_signal(Signal::KillRequested), Action::AwaitExit));
    assert!(matches!(session.on_signal(Signal::ProcessExited), Action::Close));
    assert!(matches!(session.failure(), Some(SessionError::Output)));
}

#[test]
fn malformed_output_ends_the_session_with_an_error() {
    let mut session = Session::new();
    let action = session.on_output(b"this is no image at all");
    assert!(matches!(action, Action::Kill));
    assert_eq!(session.phase(), Phase::Killing);
    assert!(matches!(session.on_signal(Signal::KillRequested), Action::AwaitExit));
    assert!(matches!(session.on_signal(Signal::ProcessExited), Action::Close));
    match session.failure() {
        Some(SessionError::Decode(DecodeError::Malformed(text))) => {
            assert_eq!(text, "malformed GIF header")
        },
        other => panic!("unexpected failure: {:?}", other),
    }
}

#[test]
fn malformed_output_after_process_exit_is_not_held_against_the_session() {
    let mut session = Session::new();
    assert!(matches!(session.on_signal(Signal::ProcessExited), Action::Resume));
    let action = session.on_output(b"this is no image at all");
    assert!(matches!(action, Action::Close));
    assert_eq!(session.phase(), Phase::Closed);
    assert!(session.failure().is_none());
}

#[test]
fn failed_kill_ends_the_session_with_an_error() {
    let mut session = Session::new();
    assert!(matches!(session.on_signal(Signal::OutputEnded), Action::Kill));
    assert!(matches!(session.on_signal(Signal::KillFailed), Action::Close));
    assert_eq!(session.phase(), Phase::Closed);
    assert!(matches!(session.failure(), Some(SessionError::Kill)));
}

#[test]
fn failed_wait_after_kill_ends_the_session_with_an_error() {
    let mut session = Session::new();
    assert!(matches!(session.on_signal(Signal::OutputEnded), Action::Kill));
    assert!(matches!(session.on_signal(Signal::KillRequested), Action::AwaitExit));
    assert!(matches!(session.on_signal(Signal::WaitFailed), Action::Close));
    assert!(matches!(session.failure(), Some(SessionError::Wait)));
}

#[test]
fn first_error_stays() {
    let mut session = Session::new();
    assert!(matches!(session.on_signal(Signal::OutputFailed), Action::Kill));
    assert!(matches!(session.on_signal(Signal::KillFailed), Action::Close));
    assert!(matches!(session.failure(), Some(SessionError::Output)));
}

#[test]
fn failed_wait_while_streaming_is_reported_after_the_drain() {
    let gif = two_frame_gif();
    let mut session = Session::new();
    assert!(matches!(session.on_signal(Signal::WaitFailed), Action::Resume));
    let action = session.on_output(&gif);
    let sent = deliver(&mut session, action);
    assert_eq!(sent.len(), 3);
    assert!(matches!(session.on_signal(Signal::OutputEnded), Action::Close));
    assert!(matches!(session.failure(), Some(SessionError::Wait)));
}

#[test]
fn unexpected_signals_change_nothing() {
    let gif = two_frame_gif();
    let mut session = Session::new();
    assert!(matches!(session.on_signal(Signal::Sent), Action::Resume));
    assert!(matches!(session.on_signal(Signal::SendFailed), Action::Resume));
    assert!(matches!(session.on_signal(Signal::KillRequested), Action::Resume));
    assert!(matches!(session.on_signal(Signal::KillFailed), Action::Resume));
    assert_eq!(session.phase(), Phase::Reading);
    let action = session.on_output(&gif);
    assert!(matches!(action, Action::Send(_)));
    assert!(matches!(session.on_signal(Signal::OutputEnded), Action::Resume));
    assert!(matches!(session.on_output(&gif), Action::Resume));
    assert_eq!(session.phase(), Phase::Sending);
    assert_eq!(session.seen(), 20);
    assert_eq!(session.stream().cursor(), 48);
}

#[test]
fn closed_session_stays_closed() {
    let mut session = Session::new();
    assert!(matches!(session.on_signal(Signal::OutputEnded), Action::Kill));
    assert!(matches!(session.on_signal(Signal::KillFailed), Action::Close));
    assert!(matches!(session.on_signal(Signal::Sent), Action::Close));
    assert!(matches!(session.on_signal(Signal::ProcessExited), Action::Close));
    assert!(matches!(session.on_output(b"GIF89a"), Action::Resume));
    assert_eq!(session.phase(), Phase::Closed);
    assert!(matches!(session.failure(), Some(SessionError::Kill)));
}

#[test]
fn write_outcomes_decide_the_next_action() {
    let mut session = Session::new();
    assert!(matches!(session.on_written(Ok(())), Action::ReadOutput));
    assert_eq!(session.phase(), Phase::Reading);
    assert!(matches!(session.on_written(Err(DecodeError::Stalled)), Action::Kill));
    assert!(matches!(session.failure(), Some(SessionError::Decode(DecodeError::Stalled))));
    let mut other = Session::new();
    assert!(matches!(other.on_written(Err(DecodeError::TooLong)), Action::Kill));
    assert!(matches!(other.failure(), Some(SessionError::Decode(DecodeError::TooLong))));
}

#[test]
fn nothing_new_means_read_again() {
    let gif = two_frame_gif();
    let mut session = Session::new();
    assert!(matches!(session.on_output(&gif[..5]), Action::ReadOutput));
    assert_eq!(session.seen(), 0);
    let action = session.on_output(&gif[5..12]);
    match action {
        Action::Send(bytes) => assert_eq!(bytes, &gif[..12]),
        other => panic!("unexpected action: {:?}", other),
    }
    assert_eq!(session.seen(), 12);
    assert!(matches!(session.on_signal(Signal::Sent), Action::ReadOutput));
}
