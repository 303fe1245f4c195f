use asciidesk::rendezvous::RendezvousMessage;
use asciidesk::signaling::{
    candidates_reply, host_candidates, host_registration, host_signal, listen_port, pairing_request,
    HostSignal, ResolveEvent, ResolveState, ResolveStep,
};

#[test]
fn listen_ports() {
    assert_eq!(listen_port("0.0.0.0:7373"), "7373");
    assert_eq!(listen_port("[::1]:9000"), "9000");
    assert_eq!(listen_port("localhost"), "localhost");
    assert_eq!(listen_port("host:"), "");
}

#[test]
fn candidates_in_order() {
    assert_eq!(
        host_candidates(Some("192.168.1.5"), "0.0.0.0:7373", Some(" 203.0.113.9\n")),
        vec![
            "ws://192.168.1.5:7373".to_string(),
            "ws://127.0.0.1:7373".to_string(),
            "ws://203.0.113.9:7373".to_string(),
        ]
    );
    assert_eq!(host_candidates(None, "0.0.0.0:8000", Some("  \n")), vec!["ws://127.0.0.1:8000".to_string()]);
    assert_eq!(host_candidates(None, "0.0.0.0:8000", None), vec!["ws://127.0.0.1:8000".to_string()]);
}

#[test]
fn host_reacts_to_broker() {
    match host_signal(RendezvousMessage::HostRegistered { pairing_code: "123456".to_string() }) {
        HostSignal::ShowPairingCode { pairing_code } => assert_eq!(pairing_code, "123456"),
        _ => panic!("expected the code"),
    }
    match host_signal(RendezvousMessage::ClientMatched {
        client_name: "c".to_string(),
        client_public_key: "CK".to_string(),
    }) {
        HostSignal::OfferCandidates { client_name, client_public_key } => {
            assert_eq!(client_name, "c");
            assert_eq!(client_public_key, "CK");
        }
        _ => panic!("expected an offer"),
    }
    assert!(matches!(
        host_signal(RendezvousMessage::Error { message: "x".to_string() }),
        HostSignal::Ignore
    ));
    match candidates_reply("CK".to_string(), None, "0.0.0.0:7373", None) {
        RendezvousMessage::SendCandidates { target_public_key, candidates } => {
            assert_eq!(target_public_key, "CK");
            assert_eq!(candidates, vec!["ws://127.0.0.1:7373".to_string()]);
        }
        other => panic!("unexpected {:?}", other),
    }
    match host_registration("host", "HK") {
        RendezvousMessage::RegisterHost { name, public_key } => {
            assert_eq!((name.as_str(), public_key.as_str()), ("host", "HK"))
        }
        other => panic!("unexpected {:?}", other),
    }
    match pairing_request("123456", "me", "CK") {
        RendezvousMessage::RequestPairing { code, name, public_key } => {
            assert_eq!((code.as_str(), name.as_str(), public_key.as_str()), ("123456", "me", "CK"))
        }
        other => panic!("unexpected {:?}", other),
    }
}

fn fail_text(step: ResolveStep) -> String {
    match step {
        ResolveStep::Fail { message } => message,
        _ => panic!("expected a failure"),
    }
}

#[test]
fn client_follows_the_matched_host() {
    let mut state = ResolveState::new();
    match state.step(ResolveEvent::Message(RendezvousMessage::PairingMatched {
        host_name: "Remote Host".to_string(),
        host_public_key: "HK".to_string(),
    })) {
        ResolveStep::Matched { host_name } => assert_eq!(host_name, "Remote Host"),
        _ => panic!("expected a match"),
    }
    assert_eq!(state.host_public_key.as_deref(), Some("HK"));
    match state.step(ResolveEvent::Message(RendezvousMessage::CandidatesReceived {
        from_public_key: "HK".to_string(),
        candidates: vec!["ws://1.2.3.4:7373".to_string()],
    })) {
        ResolveStep::TryCandidates { candidates } => {
            assert_eq!(candidates, vec!["ws://1.2.3.4:7373".to_string()])
        }
        _ => panic!("expected candidates"),
    }
    assert_eq!(
        fail_text(state.step(ResolveEvent::CandidatesExhausted)),
        "Could not connect to any resolved direct host candidates"
    );
}

#[test]
fn client_rejects_candidates_from_strangers() {
    let mut state = ResolveState::new();
    assert_eq!(
        fail_text(state.step(ResolveEvent::Message(RendezvousMessage::CandidatesReceived {
            from_public_key: "HK".to_string(),
            candidates: vec![],
        }))),
        "Could not connect to any resolved direct host candidates"
    );
    state.host_public_key = Some("HK".to_string());
    assert!(matches!(
        state.step(ResolveEvent::Message(RendezvousMessage::CandidatesReceived {
            from_public_key: "EVIL".to_string(),
            candidates: vec![],
        })),
        ResolveStep::Fail { .. }
    ));
}

#[test]
fn client_resolution_errors() {
    let mut state = ResolveState::new();
    assert_eq!(
        fail_text(state.step(ResolveEvent::Message(RendezvousMessage::Error {
            message: "Invalid pairing code or expired".to_string()
        }))),
        "Rendezvous error: Invalid pairing code or expired"
    );
    assert_eq!(
        fail_text(state.step(ResolveEvent::Ended)),
        "Rendezvous matchmaking failed to resolve host"
    );
    assert!(matches!(
        state.step(ResolveEvent::Message(RendezvousMessage::HostRegistered {
            pairing_code: "1".to_string()
        })),
        ResolveStep::Wait
    ));
}
