use cmdrelay::codec::{compress, decompress};
use cmdrelay::command::MessageClass;
use cmdrelay::controller::{
    build_reply, build_spawn_failed_reply, exec_outcome, exit_code, handle_transport_error,
    handle_wire_message, peer_disconnect_code, reply_for, resolve_event, select_output,
    session_step, ErrorDisposition, EventTarget, ExitReason, MessageOutcome, SessionAction,
    SessionEvent,
};
use cmdrelay::errors::{ExecError, TransportError};
use cmdrelay::registry::{Registry, SessionState, LISTENER_TOKEN};

#[test]
fn exit_codes_are_fixed_and_distinct() {
    let reasons = [
        ExitReason::AddressParse,
        ExitReason::PortBound,
        ExitReason::ConnectionReset,
        ExitReason::KillVerb,
        ExitReason::MissingPort,
        ExitReason::MissingCallbackAddress,
        ExitReason::ConnectFailed,
        ExitReason::OtherFailure,
    ];
    let codes: Vec<i32> = reasons.iter().map(|r| exit_code(*r)).collect();
    for (n, c) in codes.iter().enumerate() {
        assert_ne!(*c, 0);
        for c2 in codes.iter().skip(n + 1) {
            assert_ne!(c, c2);
        }
    }
    assert_eq!(exit_code(ExitReason::PortBound), 98);
    assert_eq!(exit_code(ExitReason::ConnectionReset), 104);
    assert_eq!(exit_code(ExitReason::AddressParse), 8);
}

#[test]
fn events_route_by_token() {
    let mut reg = Registry::new();
    let a = reg.accept();
    assert_eq!(resolve_event(&reg, LISTENER_TOKEN), EventTarget::Listener);
    assert_eq!(resolve_event(&reg, a), EventTarget::Session(a));
    assert_eq!(resolve_event(&reg, a + 1), EventTarget::Stale(a + 1));
    reg.remove(a);
    assert_eq!(resolve_event(&reg, a), EventTarget::Stale(a));
}

#[test]
fn state_machine_happy_path() {
    let (s, a) = session_step(SessionState::Established, SessionEvent::Registered);
    assert_eq!(s, SessionState::AwaitingMessage);
    assert!(matches!(a, SessionAction::ReadMessage));

    let (s, a) = session_step(
        s,
        SessionEvent::Arrived {
            class: MessageClass::Command {
                tokens: vec![b"echo".to_vec(), b"hi".to_vec()],
            },
        },
    );
    assert_eq!(s, SessionState::Dispatching);
    match a {
        SessionAction::RunCommand { tokens } => {
            assert_eq!(tokens, vec![b"echo".to_vec(), b"hi".to_vec()])
        }
        _ => panic!("expected a command run"),
    }

    let (s, a) = session_step(s, SessionEvent::ResultReady);
    assert_eq!(s, SessionState::Replying);
    assert!(matches!(a, SessionAction::SendReply));

    let (s, a) = session_step(s, SessionEvent::ReplyWritten);
    assert_eq!(s, SessionState::AwaitingMessage);
    assert!(matches!(a, SessionAction::ReadMessage));
}

#[test]
fn state_machine_kill_terminates_process() {
    let (s, a) = session_step(
        SessionState::AwaitingMessage,
        SessionEvent::Arrived { class: MessageClass::Kill },
    );
    assert_eq!(s, SessionState::Closed);
    match a {
        SessionAction::TerminateProcess { code } => {
            assert_eq!(code, exit_code(ExitReason::KillVerb));
            assert_ne!(code, 0);
        }
        _ => panic!("expected process termination"),
    }
}

#[test]
fn state_machine_quit_closes_session_only() {
    let (s, a) = session_step(
        SessionState::AwaitingMessage,
        SessionEvent::Arrived { class: MessageClass::Quit },
    );
    assert_eq!(s, SessionState::Closed);
    assert!(matches!(a, SessionAction::DropSession));
}

#[test]
fn state_machine_empty_message_keeps_waiting() {
    let (s, a) = session_step(
        SessionState::AwaitingMessage,
        SessionEvent::Arrived { class: MessageClass::Empty },
    );
    assert_eq!(s, SessionState::AwaitingMessage);
    assert!(matches!(a, SessionAction::ReadMessage));
}

#[test]
fn state_machine_would_block_is_transient() {
    let (s, a) = session_step(
        SessionState::AwaitingMessage,
        SessionEvent::TransportFailed { error: TransportError::WouldBlock },
    );
    assert_eq!(s, SessionState::AwaitingMessage);
    assert!(matches!(a, SessionAction::Idle));
}

#[test]
fn state_machine_reset_closes() {
    let (s, a) = session_step(
        SessionState::AwaitingMessage,
        SessionEvent::TransportFailed { error: TransportError::Reset },
    );
    assert_eq!(s, SessionState::Closed);
    assert!(matches!(a, SessionAction::DropSession));
    // Closed is terminal
    let (s, a) = session_step(s, SessionEvent::ReplyWritten);
    assert_eq!(s, SessionState::Closed);
    assert!(matches!(a, SessionAction::Idle));
}

#[test]
fn kill_verb_over_the_wire() {
    let mut reg = Registry::new();
    let a = reg.accept();
    let wire = compress(&b"kill\n".to_vec());
    match handle_wire_message(&mut reg, a, &wire) {
        MessageOutcome::Terminate { code } => {
            assert_eq!(code, exit_code(ExitReason::KillVerb))
        }
        _ => panic!("expected termination"),
    }
}

#[test]
fn quit_on_one_session_leaves_the_other_operational() {
    let mut reg = Registry::new();
    let a = reg.accept();
    let b = reg.accept();
    reg.set_state(b, SessionState::AwaitingMessage);
    let wire = compress(&b"quit\n".to_vec());
    assert!(matches!(
        handle_wire_message(&mut reg, a, &wire),
        MessageOutcome::CloseSession
    ));
    assert!(!reg.contains(a));
    // session b is untouched — entry, state and all — and still serves
    assert!(reg.contains(b));
    assert_eq!(reg.state_of(b), Some(SessionState::AwaitingMessage));
    let wire2 = compress(&b"echo hi\n".to_vec());
    assert!(matches!(
        handle_wire_message(&mut reg, b, &wire2),
        MessageOutcome::Execute { .. }
    ));
    assert!(reg.contains(b));
}

#[test]
fn whitespace_only_message_produces_no_reply() {
    let mut reg = Registry::new();
    let a = reg.accept();
    let wire = compress(&b" \t \n".to_vec());
    assert!(matches!(
        handle_wire_message(&mut reg, a, &wire),
        MessageOutcome::NoReply
    ));
    assert!(reg.contains(a));
}

#[test]
fn non_text_payload_is_session_terminal() {
    // a valid zlib stream that does not decode to text is treated like a
    // corrupt payload: the session closes, others are untouched
    let mut reg = Registry::new();
    let a = reg.accept();
    let b = reg.accept();
    let wire = compress(&vec![0xC0, 0xAF, 0xFE]);
    assert!(matches!(
        handle_wire_message(&mut reg, a, &wire),
        MessageOutcome::CloseSession
    ));
    assert!(!reg.contains(a));
    assert!(reg.contains(b));
}

#[test]
fn corrupt_payload_is_session_terminal() {
    let mut reg = Registry::new();
    let a = reg.accept();
    let b = reg.accept();
    let garbage = vec![0xde, 0xad, 0xbe, 0xef];
    assert!(matches!(
        handle_wire_message(&mut reg, a, &garbage),
        MessageOutcome::CloseSession
    ));
    assert!(!reg.contains(a));
    assert!(reg.contains(b));
}

#[test]
fn echo_round_trip_scenario() {
    // the peer sends `echo hi`; the listener classifies it, the executor
    // reports success with stdout `hi\n`, and the peer sees exactly `hi\n`
    let mut reg = Registry::new();
    let session = reg.accept();
    let wire = compress(&b"echo hi\n".to_vec());
    let tokens = match handle_wire_message(&mut reg, session, &wire) {
        MessageOutcome::Execute { tokens } => tokens,
        _ => panic!("expected a command"),
    };
    assert_eq!(tokens, vec![b"echo".to_vec(), b"hi".to_vec()]);
    let result = select_output(true, b"hi\n".to_vec(), Vec::new());
    let reply = build_reply(&result);
    assert_eq!(decompress(&reply).unwrap(), b"hi\n".to_vec());
}

#[test]
fn nonexistent_executable_scenario() {
    // the spawn fails: the listener replies with the fixed text and the
    // session stays open for further commands
    let mut reg = Registry::new();
    let session = reg.accept();
    let wire = compress(&b"no_such_binary_anywhere\n".to_vec());
    assert!(matches!(
        handle_wire_message(&mut reg, session, &wire),
        MessageOutcome::Execute { .. }
    ));
    let reply = build_spawn_failed_reply();
    assert_eq!(
        decompress(&reply).unwrap(),
        b"No such file or directory".to_vec()
    );
    assert!(reg.contains(session));
    let wire2 = compress(&b"echo still here\n".to_vec());
    assert!(matches!(
        handle_wire_message(&mut reg, session, &wire2),
        MessageOutcome::Execute { .. }
    ));
}

#[test]
fn spawn_failure_is_recoverable_and_fixed() {
    let outcome = exec_outcome(false, false, Vec::new(), Vec::new());
    assert!(matches!(outcome, Err(ExecError::SpawnFailed)));
    let reply = reply_for(&outcome);
    assert_eq!(
        decompress(&reply).unwrap(),
        b"No such file or directory".to_vec()
    );
}

#[test]
fn completed_command_travels_in_the_result() {
    let outcome = exec_outcome(true, true, b"hi\n".to_vec(), Vec::new());
    let reply = reply_for(&outcome);
    assert_eq!(decompress(&reply).unwrap(), b"hi\n".to_vec());
    // a command that ran and failed is not a channel error: stderr travels
    let outcome = exec_outcome(true, false, b"unused".to_vec(), b"denied\n".to_vec());
    assert!(outcome.as_ref().is_ok_and(|r| !r.success));
    let reply = reply_for(&outcome);
    assert_eq!(decompress(&reply).unwrap(), b"denied\n".to_vec());
}

#[test]
fn command_failure_selects_stderr() {
    let result = select_output(false, b"ignored".to_vec(), b"oops\n".to_vec());
    assert!(!result.success);
    assert_eq!(result.output, b"oops\n".to_vec());
    let reply = build_reply(&result);
    assert_eq!(decompress(&reply).unwrap(), b"oops\n".to_vec());
}

#[test]
fn transport_errors_dispose_correctly() {
    let mut reg = Registry::new();
    let a = reg.accept();
    assert_eq!(
        handle_transport_error(&mut reg, a, TransportError::WouldBlock),
        ErrorDisposition::Wait
    );
    assert!(reg.contains(a));
    assert_eq!(
        handle_transport_error(&mut reg, a, TransportError::Reset),
        ErrorDisposition::Drop
    );
    assert!(!reg.contains(a));
    let b = reg.accept();
    assert_eq!(
        handle_transport_error(&mut reg, b, TransportError::Other(5)),
        ErrorDisposition::Drop
    );
    assert!(!reg.contains(b));
}

#[test]
fn peer_exit_codes() {
    assert_eq!(peer_disconnect_code(TransportError::Reset), 104);
    assert_eq!(peer_disconnect_code(TransportError::Other(32)), 32);
}
