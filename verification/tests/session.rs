use asciidesk::host::{ClientHandshakeInfo, HandshakeState};
use asciidesk::protocol::{ClientToHost, HostToClient};
use asciidesk::session::{
    default_shell, preferred_shell, session_audit, shell_report, PtySession, SessionAction,
    SessionEvent,
};

#[test]
fn session_relays_output_and_input() {
    let mut s = PtySession::new(false);
    match s.step(SessionEvent::PtyOutput(b"ls\r\n".to_vec())).as_slice() {
        [SessionAction::Send(HostToClient::PtyOutput { bytes })] => assert_eq!(bytes, b"ls\r\n"),
        other => panic!("unexpected {:?}", other),
    }
    match s.step(SessionEvent::Message(ClientToHost::PtyInput { bytes: b"x".to_vec() })).as_slice() {
        [SessionAction::WritePty(b)] => assert_eq!(b, b"x"),
        other => panic!("unexpected {:?}", other),
    }
    match s.step(SessionEvent::Message(ClientToHost::PtyResize { cols: 120, rows: 40 })).as_slice() {
        [SessionAction::ResizePty { cols: 120, rows: 40 }] => {}
        other => panic!("unexpected {:?}", other),
    }
    assert_eq!((s.cols, s.rows), (120, 40));
}

#[test]
fn session_answers_ping_and_ends() {
    let mut s = PtySession::new(false);
    match s.step(SessionEvent::Message(ClientToHost::Ping)).as_slice() {
        [SessionAction::Send(HostToClient::Pong)] => {}
        other => panic!("unexpected {:?}", other),
    }
    assert!(matches!(s.step(SessionEvent::Message(ClientToHost::Close)).as_slice(), [SessionAction::End]));
    assert!(matches!(s.step(SessionEvent::ReceiveFailed).as_slice(), [SessionAction::End]));
    assert!(matches!(s.step(SessionEvent::TimedOut).as_slice(), [SessionAction::End]));
    assert!(s.step(SessionEvent::Message(ClientToHost::ConsentResponseAck)).is_empty());
}

#[test]
fn desktop_stream_starts_once_and_stops() {
    let mut s = PtySession::new(false);
    assert!(matches!(
        s.step(SessionEvent::Message(ClientToHost::StartDesktopStream)).as_slice(),
        [SessionAction::StartDesktopStream]
    ));
    assert!(s.streaming);
    assert!(s.step(SessionEvent::Message(ClientToHost::StartDesktopStream)).is_empty());
    match s.step(SessionEvent::DesktopFrame("frame".to_string())).as_slice() {
        [SessionAction::Send(HostToClient::DesktopFrame { frame_text })] => assert_eq!(frame_text, "frame"),
        other => panic!("unexpected {:?}", other),
    }
    assert!(matches!(
        s.step(SessionEvent::Message(ClientToHost::StopDesktopStream)).as_slice(),
        [SessionAction::StopDesktopStream]
    ));
    assert!(!s.streaming);
    assert!(s.step(SessionEvent::Message(ClientToHost::StopDesktopStream)).is_empty());
}

#[test]
fn headless_session_never_captures() {
    let mut s = PtySession::new(true);
    assert!(s.step(SessionEvent::Message(ClientToHost::StartDesktopStream)).is_empty());
    assert!(!s.streaming);
}

fn accepted(fp: &str) -> HandshakeState {
    HandshakeState::Accepted {
        client: ClientHandshakeInfo {
            version: "1.0".to_string(),
            name: "c".to_string(),
            public_key: vec![],
            capabilities: vec![],
            fingerprint: fp.to_string(),
        },
    }
}

#[test]
fn audit_records() {
    let a = session_audit(&accepted("AB12"), true);
    assert_eq!((a.fingerprint.as_str(), a.decision.as_str(), a.with_duration), ("AB12", "Completed", true));
    let a = session_audit(&accepted("AB12"), false);
    assert_eq!(a.decision, "Error");
    let a = session_audit(&HandshakeState::Denied { fingerprint: None }, false);
    assert_eq!((a.fingerprint.as_str(), a.decision.as_str(), a.with_duration), ("UNKNOWN", "Denied", false));
    let a = session_audit(&HandshakeState::Denied { fingerprint: Some("CD34".to_string()) }, false);
    assert_eq!((a.fingerprint.as_str(), a.decision.as_str()), ("CD34", "Denied"));
    let a = session_audit(&HandshakeState::Failed { reason: "x".to_string(), fingerprint: None }, false);
    assert_eq!((a.fingerprint.as_str(), a.decision.as_str()), ("UNKNOWN", "Handshake Error"));
    let a = session_audit(
        &HandshakeState::Failed { reason: "x".to_string(), fingerprint: Some("EF56".to_string()) },
        false,
    );
    assert_eq!((a.fingerprint.as_str(), a.decision.as_str(), a.with_duration), ("EF56", "Handshake Error", false));
}

#[test]
fn shells() {
    assert_eq!(preferred_shell(true), "powershell.exe");
    assert_eq!(preferred_shell(false), "/bin/bash");
    assert_eq!(default_shell(false, true), "/bin/bash");
    assert_eq!(default_shell(false, false), "/bin/sh");
    assert_eq!(default_shell(true, true), "powershell.exe");
    assert_eq!(default_shell(true, false), "cmd.exe");
}

#[test]
fn shell_reports() {
    assert_eq!(shell_report(false, true, true), "/bin/bash (Active)");
    assert_eq!(shell_report(false, false, true), "/bin/sh (Active)");
    assert_eq!(shell_report(true, false, true), "cmd.exe (Active)");
    assert_eq!(shell_report(true, true, false), "powershell.exe (Active)");
    assert_eq!(shell_report(true, false, false), "None found");
}
