use asciidesk::client::{
    initial_size, key_event_to_bytes, react, Client, ClientAction, ClientEvent, ClientFailure,
    ClientHandshake, ClientOptions, KeyCode, KeyInput, SessionInput, SessionOutput,
};
use asciidesk::config::{config_from_key, Config, ConfigManager, TrustedDevice};
use asciidesk::host::{HandshakeEvent, HandshakeState, Host, HostAction, HostOptions};
use asciidesk::keys::{get_fingerprint, SigningKey};
use asciidesk::protocol::{Capability, ClientToHost, HostToClient};

fn key(code: KeyCode, ctrl: bool) -> KeyInput {
    KeyInput { code, ctrl, press: true }
}

fn client_options(code: Option<&str>, name: Option<&str>) -> ClientOptions {
    ClientOptions {
        connect_url: "ws://127.0.0.1:7373".to_string(),
        pairing_code: code.map(|c| c.to_string()),
        name: name.map(|n| n.to_string()),
        config_path: None,
        rendezvous: None,
    }
}

fn host_options() -> HostOptions {
    HostOptions {
        listen_addr: "127.0.0.1:7373".to_string(),
        name: None,
        shell: None,
        headless: false,
        allow_trusted: true,
        config_path: None,
        rendezvous: None,
    }
}

#[test]
fn keys_to_bytes() {
    assert_eq!(key_event_to_bytes(key(KeyCode::Char('a'), false)), Some(b"a".to_vec()));
    assert_eq!(key_event_to_bytes(key(KeyCode::Char('é'), false)), Some("é".as_bytes().to_vec()));
    assert_eq!(key_event_to_bytes(key(KeyCode::Char('c'), true)), Some(vec![3]));
    assert_eq!(key_event_to_bytes(key(KeyCode::Char('C'), true)), Some(vec![3]));
    assert_eq!(key_event_to_bytes(key(KeyCode::Char('1'), true)), None);
    assert_eq!(key_event_to_bytes(key(KeyCode::Enter, false)), Some(vec![b'\r']));
    assert_eq!(key_event_to_bytes(key(KeyCode::Backspace, false)), Some(vec![127]));
    assert_eq!(key_event_to_bytes(key(KeyCode::Tab, false)), Some(vec![b'\t']));
    assert_eq!(key_event_to_bytes(key(KeyCode::Esc, false)), Some(vec![27]));
    assert_eq!(key_event_to_bytes(key(KeyCode::Up, false)), Some(b"\x1b[A".to_vec()));
    assert_eq!(key_event_to_bytes(key(KeyCode::Down, false)), Some(b"\x1b[B".to_vec()));
    assert_eq!(key_event_to_bytes(key(KeyCode::Right, false)), Some(b"\x1b[C".to_vec()));
    assert_eq!(key_event_to_bytes(key(KeyCode::Left, false)), Some(b"\x1b[D".to_vec()));
    assert_eq!(key_event_to_bytes(key(KeyCode::Home, false)), Some(b"\x1b[H".to_vec()));
    assert_eq!(key_event_to_bytes(key(KeyCode::End, false)), Some(b"\x1b[F".to_vec()));
    assert_eq!(key_event_to_bytes(key(KeyCode::Delete, false)), Some(b"\x1b[3~".to_vec()));
    assert_eq!(key_event_to_bytes(key(KeyCode::Other, false)), None);
}

#[test]
fn session_reactions() {
    match react(SessionInput::Tick { secs_since_pong: 16 }).as_slice() {
        [SessionOutput::Exit { exit_code: None }] => {}
        other => panic!("unexpected {:?}", other),
    }
    match react(SessionInput::Tick { secs_since_pong: 15 }).as_slice() {
        [SessionOutput::Send(ClientToHost::Ping)] => {}
        other => panic!("unexpected {:?}", other),
    }
    match react(SessionInput::Key(key(KeyCode::Char('x'), false))).as_slice() {
        [SessionOutput::Send(ClientToHost::PtyInput { bytes })] => assert_eq!(bytes, b"x"),
        other => panic!("unexpected {:?}", other),
    }
    let release = KeyInput { code: KeyCode::Char('x'), ctrl: false, press: false };
    assert!(react(SessionInput::Key(release)).is_empty());
    match react(SessionInput::Resize { cols: 100, rows: 30 }).as_slice() {
        [SessionOutput::Send(ClientToHost::PtyResize { cols: 100, rows: 30 })] => {}
        other => panic!("unexpected {:?}", other),
    }
    match react(SessionInput::Host(HostToClient::PtyOutput { bytes: b"hi".to_vec() })).as_slice() {
        [SessionOutput::Display(b)] => assert_eq!(b, b"hi"),
        other => panic!("unexpected {:?}", other),
    }
    match react(SessionInput::Host(HostToClient::PtyExit { exit_code: 2 })).as_slice() {
        [SessionOutput::Exit { exit_code: Some(2) }] => {}
        other => panic!("unexpected {:?}", other),
    }
    match react(SessionInput::Host(HostToClient::Pong)).as_slice() {
        [SessionOutput::ResetPongTimer] => {}
        other => panic!("unexpected {:?}", other),
    }
    match react(SessionInput::HostFailed).as_slice() {
        [SessionOutput::Exit { exit_code: None }] => {}
        other => panic!("unexpected {:?}", other),
    }
    assert!(react(SessionInput::Host(HostToClient::AuthAccepted)).is_empty());
}

#[test]
fn initial_terminal_size() {
    assert_eq!(initial_size(Some((120, 40))), (120, 40));
    assert_eq!(initial_size(None), (80, 24));
}

#[test]
fn client_hello_announces_itself() {
    let config = config_from_key(&SigningKey::generate(), Some("box"));
    let client = Client::new(client_options(None, None), ConfigManager::at("/tmp/c"), config.clone());
    match client.hello().unwrap() {
        ClientToHost::Hello { protocol_version, client_name, client_public_key, capabilities } => {
            assert_eq!(protocol_version, "1.0");
            assert_eq!(client_name, "asciidesk-box");
            assert_eq!(client_public_key.len(), 32);
            assert_eq!(capabilities, vec![Capability::TerminalPty, Capability::TerminalResize]);
        }
        other => panic!("unexpected {:?}", other),
    }
    let named = Client::new(client_options(None, Some("me")), ConfigManager::at("/tmp/c"), config);
    assert_eq!(named.display_name(), "me");
}

#[test]
fn client_refuses_bad_first_message() {
    let config = config_from_key(&SigningKey::generate(), None);
    let client = Client::new(client_options(None, None), ConfigManager::at("/tmp/c"), config);
    let (state, actions) =
        client.handshake_step(ClientHandshake::AwaitHelloAck, ClientEvent::Message(HostToClient::Pong));
    assert!(matches!(state, ClientHandshake::Failed(ClientFailure::ExpectedHelloAck(HostToClient::Pong))));
    assert!(actions.is_empty());
    let (state, _) = client.handshake_step(
        ClientHandshake::AwaitAuthResult,
        ClientEvent::Message(HostToClient::AuthDenied { reason: "no".to_string() }),
    );
    match state {
        ClientHandshake::Failed(ClientFailure::AuthDenied(r)) => assert_eq!(r, "no"),
        other => panic!("unexpected {:?}", other),
    }
}

fn run_handshake(client: &Client, host: &mut Host, host_public: &[u8], typed_code: Option<&str>) -> (ClientHandshake, HandshakeState) {
    let mut cstate = ClientHandshake::AwaitHelloAck;
    let mut hstate = HandshakeState::AwaitHello;
    let mut to_host = vec![client.hello().unwrap()];
    let mut consent_needed = false;
    for _round in 0..10 {
        let mut to_client = Vec::new();
        for msg in to_host.drain(..) {
            let (s, actions) = host.handshake_step(hstate, HandshakeEvent::Message(msg), "host", host_public);
            hstate = s;
            for a in actions {
                match a {
                    HostAction::Send(m) => to_client.push(m),
                    HostAction::PromptConsent { .. } => consent_needed = true,
                    HostAction::SaveConfig => {}
                }
            }
        }
        if consent_needed {
            consent_needed = false;
            let (s, actions) = host.handshake_step(hstate, HandshakeEvent::Consent { approved: true }, "host", host_public);
            hstate = s;
            for a in actions {
                if let HostAction::Send(m) = a {
                    to_client.push(m);
                }
            }
        }
        if to_client.is_empty() {
            break;
        }
        for msg in to_client {
            let (s, actions) = client.handshake_step(cstate, ClientEvent::Message(msg));
            cstate = s;
            for a in actions {
                match a {
                    ClientAction::Send(m) => to_host.push(m),
                    ClientAction::PromptPairingCode => {
                        let code = typed_code.unwrap().to_string();
                        let (s2, more) = client.handshake_step(cstate, ClientEvent::PairingCodeEntered(code));
                        cstate = s2;
                        for b in more {
                            if let ClientAction::Send(m) = b {
                                to_host.push(m);
                            }
                        }
                    }
                    _ => {}
                }
            }
        }
    }
    (cstate, hstate)
}

#[test]
fn trusted_client_and_host_complete_the_handshake() {
    let client_key = SigningKey::generate();
    let client_config = config_from_key(&client_key, Some("laptop"));
    let host_key = SigningKey::generate();
    let host_public = host_key.verifying_key().to_bytes();
    let mut host_config = config_from_key(&host_key, Some("server"));
    host_config.trusted_devices.push(TrustedDevice {
        name: "laptop".to_string(),
        fingerprint: get_fingerprint(&client_config.public_key),
        public_key: client_config.public_key.clone(),
    });
    let client = Client::new(client_options(None, None), ConfigManager::at("/tmp/c"), client_config);
    let mut host = Host::from_parts(host_options(), ConfigManager::at("/tmp/h"), host_config, 1);
    let (c, h) = run_handshake(&client, &mut host, &host_public, None);
    assert!(matches!(c, ClientHandshake::Established));
    assert!(matches!(h, HandshakeState::Accepted { .. }));
}

#[test]
fn new_client_pairs_with_typed_code() {
    let client_config: Config = config_from_key(&SigningKey::generate(), Some("laptop"));
    let host_key = SigningKey::generate();
    let host_public = host_key.verifying_key().to_bytes();
    let host_config = config_from_key(&host_key, Some("server"));
    let client = Client::new(client_options(None, None), ConfigManager::at("/tmp/c"), client_config);
    let mut host = Host::from_parts(host_options(), ConfigManager::at("/tmp/h"), host_config, 314159);
    let (c, h) = run_handshake(&client, &mut host, &host_public, Some("314159"));
    assert!(matches!(c, ClientHandshake::Established));
    assert!(matches!(h, HandshakeState::Accepted { .. }));
    assert_eq!(host.config().trusted_devices.len(), 1);
}

#[test]
fn new_client_with_wrong_code_is_denied() {
    let client_config: Config = config_from_key(&SigningKey::generate(), Some("laptop"));
    let host_key = SigningKey::generate();
    let host_public = host_key.verifying_key().to_bytes();
    let host_config = config_from_key(&host_key, Some("server"));
    let client = Client::new(client_options(Some("000000"), None), ConfigManager::at("/tmp/c"), client_config);
    let mut host = Host::from_parts(host_options(), ConfigManager::at("/tmp/h"), host_config, 314159);
    let (c, h) = run_handshake(&client, &mut host, &host_public, None);
    match c {
        ClientHandshake::Failed(ClientFailure::AuthDenied(reason)) => assert_eq!(reason, "Invalid pairing code"),
        other => panic!("unexpected {:?}", other),
    }
    assert!(matches!(h, HandshakeState::Denied { .. }));
}
