use asciidesk::config::{Config, ConfigManager, TrustedDevice};
use asciidesk::host::{
    consent_approved, format_pairing_code, HandshakeEvent, HandshakeState, Host, HostAction,
    HostOptions,
};
use asciidesk::keys::{get_fingerprint, SigningKey};
use asciidesk::protocol::{Capability, ClientToHost, HostToClient};

fn base64_encode(bytes: &[u8]) -> String {
    base64::Engine::encode(&base64::engine::general_purpose::STANDARD, bytes)
}

fn options(headless: bool, allow_trusted: bool) -> HostOptions {
    HostOptions {
        listen_addr: "127.0.0.1:7373".to_string(),
        name: None,
        shell: None,
        headless,
        allow_trusted,
        config_path: None,
        rendezvous: None,
    }
}

fn host_config(trusted: Vec<TrustedDevice>) -> (Config, Vec<u8>) {
    let host_key = SigningKey::generate();
    let host_public = host_key.verifying_key().to_bytes();
    (
        Config {
            device_name: "test-host".to_string(),
            private_key: base64_encode(&host_key.to_bytes()),
            public_key: base64_encode(&host_public),
            trusted_devices: trusted,
        },
        host_public,
    )
}

fn hello(name: &str, key: &[u8]) -> HandshakeEvent {
    HandshakeEvent::Message(ClientToHost::Hello {
        protocol_version: "1.0".to_string(),
        client_name: name.to_string(),
        client_public_key: key.to_vec(),
        capabilities: vec![Capability::TerminalPty, Capability::TerminalResize],
    })
}

fn sent(actions: &[HostAction]) -> Vec<&HostToClient> {
    actions
        .iter()
        .filter_map(|a| match a {
            HostAction::Send(m) => Some(m),
            _ => None,
        })
        .collect()
}

#[test]
fn test_cryptographic_trusted_auth_flow() {
    // 1. Generate client keypair
    let client_signing_key = SigningKey::generate();
    let client_verifying_key = client_signing_key.verifying_key();
    let client_public_b64 = base64_encode(&client_verifying_key.to_bytes());
    let client_fp = get_fingerprint(&client_public_b64);

    // 2-3. Host keypair and a configuration that trusts the client
    let (host_config, host_public) = host_config(vec![TrustedDevice {
        name: "test-client".to_string(),
        fingerprint: client_fp,
        public_key: client_public_b64,
    }]);

    // 4. The host
    let mut host = Host::from_parts(
        options(false, true),
        ConfigManager::at("/tmp/asciidesk_integration_test"),
        host_config,
        150,
    );

    // 6. Hello
    let (state, actions) = host.handshake_step(
        HandshakeState::AwaitHello,
        hello("test-client", &client_verifying_key.to_bytes()),
        "test-host",
        &host_public,
    );

    // 7. Expect HelloAck
    let msgs = sent(&actions);
    match msgs[0] {
        HostToClient::HelloAck { protocol_version, host_name, .. } => {
            assert_eq!(protocol_version, "1.0");
            assert_eq!(host_name, "test-host");
        }
        other => panic!("Expected HelloAck, got {:?}", other),
    }

    // 8. Expect AuthRequired (with challenge)
    let challenge = match msgs[1] {
        HostToClient::AuthRequired { challenge } => {
            assert_eq!(challenge.len(), 32, "Challenge should be 32 bytes for cryptographic auth");
            challenge.clone()
        }
        other => panic!("Expected AuthRequired, got {:?}", other),
    };

    // 9. Sign challenge and send ChallengeResponse
    let signature = client_signing_key.sign(&challenge);
    let (state, actions) = host.handshake_step(
        state,
        HandshakeEvent::Message(ClientToHost::ChallengeResponse { signature }),
        "test-host",
        &host_public,
    );

    // 10. Expect AuthAccepted
    match sent(&actions)[0] {
        HostToClient::AuthAccepted => {}
        other => panic!("Expected AuthAccepted, got {:?}", other),
    }
    assert!(matches!(state, HandshakeState::Accepted { .. }));
}

#[test]
fn forged_signature_is_denied() {
    let client = SigningKey::generate();
    let client_b64 = base64_encode(&client.verifying_key().to_bytes());
    let (config, host_public) = host_config(vec![TrustedDevice {
        name: "c".to_string(),
        fingerprint: get_fingerprint(&client_b64),
        public_key: client_b64,
    }]);
    let mut host = Host::from_parts(options(false, true), ConfigManager::at("/tmp/x"), config, 1);
    let (state, actions) =
        host.handshake_step(HandshakeState::AwaitHello, hello("c", &client.verifying_key().to_bytes()), "h", &host_public);
    assert!(matches!(state, HandshakeState::AwaitChallengeResponse { .. }));
    assert_eq!(actions.len(), 2);
    let other = SigningKey::generate();
    let (state, actions) = host.handshake_step(
        state,
        HandshakeEvent::Message(ClientToHost::ChallengeResponse { signature: other.sign(b"anything") }),
        "h",
        &host_public,
    );
    assert!(matches!(state, HandshakeState::Denied { .. }));
    match sent(&actions)[0] {
        HostToClient::AuthDenied { reason } => {
            assert_eq!(reason, "Cryptographic signature verification failed")
        }
        other => panic!("unexpected {:?}", other),
    }
}

#[test]
fn pairing_code_and_consent_make_device_trusted() {
    let (config, host_public) = host_config(vec![]);
    let mut host = Host::from_parts(options(false, true), ConfigManager::at("/tmp/x"), config, 4321);
    assert_eq!(host.pairing_code(), "004321");
    let client = SigningKey::generate();
    let client_pub = client.verifying_key().to_bytes();
    let (state, actions) =
        host.handshake_step(HandshakeState::AwaitHello, hello("laptop", &client_pub), "h", &host_public);
    match sent(&actions)[1] {
        HostToClient::AuthRequired { challenge } => assert!(challenge.is_empty()),
        other => panic!("unexpected {:?}", other),
    }
    let (state, actions) = host.handshake_step(
        state,
        HandshakeEvent::Message(ClientToHost::PairingCode { code: "004321".to_string() }),
        "h",
        &host_public,
    );
    let fp = get_fingerprint(&base64_encode(&client_pub));
    match &actions[0] {
        HostAction::PromptConsent { client_name, fingerprint } => {
            assert_eq!(client_name, "laptop");
            assert_eq!(fingerprint, &fp);
        }
        other => panic!("unexpected {:?}", other),
    }
    let (state, actions) =
        host.handshake_step(state, HandshakeEvent::Consent { approved: true }, "h", &host_public);
    assert!(matches!(state, HandshakeState::Accepted { .. }));
    assert!(matches!(actions[0], HostAction::SaveConfig));
    assert!(matches!(actions[1], HostAction::Send(HostToClient::AuthAccepted)));
    assert!(host.config().is_trusted(&fp));
    assert_eq!(host.config().trusted_devices[0].name, "laptop");
}

#[test]
fn wrong_pairing_code_is_denied() {
    let (config, host_public) = host_config(vec![]);
    let mut host = Host::from_parts(options(false, true), ConfigManager::at("/tmp/x"), config, 111111);
    let client = SigningKey::generate();
    let (state, _) = host.handshake_step(
        HandshakeState::AwaitHello,
        hello("c", &client.verifying_key().to_bytes()),
        "h",
        &host_public,
    );
    let (state, actions) = host.handshake_step(
        state,
        HandshakeEvent::Message(ClientToHost::PairingCode { code: "111112".to_string() }),
        "h",
        &host_public,
    );
    assert!(matches!(state, HandshakeState::Denied { .. }));
    match sent(&actions)[0] {
        HostToClient::AuthDenied { reason } => assert_eq!(reason, "Invalid pairing code"),
        other => panic!("unexpected {:?}", other),
    }
    assert!(host.config().trusted_devices.is_empty());
}

#[test]
fn headless_host_denies_untrusted_device() {
    let (config, host_public) = host_config(vec![]);
    let mut host = Host::from_parts(options(true, true), ConfigManager::at("/tmp/x"), config, 5);
    let client = SigningKey::generate();
    let (state, _) = host.handshake_step(
        HandshakeState::AwaitHello,
        hello("c", &client.verifying_key().to_bytes()),
        "h",
        &host_public,
    );
    let (state, actions) = host.handshake_step(
        state,
        HandshakeEvent::Message(ClientToHost::PairingCode { code: "000005".to_string() }),
        "h",
        &host_public,
    );
    assert!(matches!(state, HandshakeState::Denied { .. }));
    match sent(&actions)[0] {
        HostToClient::AuthDenied { reason } => {
            assert_eq!(reason, "Host is headless and this device is not trusted.")
        }
        other => panic!("unexpected {:?}", other),
    }
}

#[test]
fn operator_refusal_is_denied() {
    let (config, host_public) = host_config(vec![]);
    let mut host = Host::from_parts(options(false, true), ConfigManager::at("/tmp/x"), config, 7);
    let client = SigningKey::generate();
    let (state, _) = host.handshake_step(
        HandshakeState::AwaitHello,
        hello("c", &client.verifying_key().to_bytes()),
        "h",
        &host_public,
    );
    let (state, _) = host.handshake_step(
        state,
        HandshakeEvent::Message(ClientToHost::PairingCode { code: "000007".to_string() }),
        "h",
        &host_public,
    );
    let (state, actions) =
        host.handshake_step(state, HandshakeEvent::Consent { approved: false }, "h", &host_public);
    assert!(matches!(state, HandshakeState::Denied { .. }));
    match sent(&actions)[0] {
        HostToClient::AuthDenied { reason } => assert_eq!(reason, "Denied by host operator"),
        other => panic!("unexpected {:?}", other),
    }
}

#[test]
fn trusted_device_without_allow_trusted_uses_pairing_code() {
    let client = SigningKey::generate();
    let client_b64 = base64_encode(&client.verifying_key().to_bytes());
    let (config, host_public) = host_config(vec![TrustedDevice {
        name: "c".to_string(),
        fingerprint: get_fingerprint(&client_b64),
        public_key: client_b64,
    }]);
    let mut host = Host::from_parts(options(false, false), ConfigManager::at("/tmp/x"), config, 9);
    let (state, _) = host.handshake_step(
        HandshakeState::AwaitHello,
        hello("c", &client.verifying_key().to_bytes()),
        "h",
        &host_public,
    );
    assert!(matches!(state, HandshakeState::AwaitPairingCode { .. }));
}

#[test]
fn first_message_must_be_hello() {
    let (config, host_public) = host_config(vec![]);
    let mut host = Host::from_parts(options(false, true), ConfigManager::at("/tmp/x"), config, 9);
    let (state, actions) = host.handshake_step(
        HandshakeState::AwaitHello,
        HandshakeEvent::Message(ClientToHost::Ping),
        "h",
        &host_public,
    );
    assert!(matches!(state, HandshakeState::Denied { .. }));
    assert!(actions.is_empty());
}

#[test]
fn pairing_codes_are_six_digits() {
    assert_eq!(format_pairing_code(0), "000000");
    assert_eq!(format_pairing_code(42), "000042");
    assert_eq!(format_pairing_code(999999), "999999");
    let (config, _) = host_config(vec![]);
    let host = Host::new(options(false, true), ConfigManager::at("/tmp/x"), config);
    let code = host.pairing_code();
    assert_eq!(code.len(), 6);
    assert!(code.chars().all(|c| c.is_ascii_digit()));
}

#[test]
fn host_display_name_prefers_option() {
    let (config, _) = host_config(vec![]);
    let mut opts = options(false, true);
    let host = Host::new(opts.clone(), ConfigManager::at("/tmp/x"), config.clone());
    assert_eq!(host.display_name(), "test-host");
    opts.name = Some("studio".to_string());
    let host = Host::new(opts, ConfigManager::at("/tmp/x"), config);
    assert_eq!(host.display_name(), "studio");
}

#[test]
fn consent_answers() {
    assert!(consent_approved("y\n"));
    assert!(consent_approved("  Y \r\n"));
    assert!(!consent_approved("yes\n"));
    assert!(!consent_approved("n\n"));
    assert!(!consent_approved("\n"));
}

fn pairing_attempt(host: &mut Host, host_public: &[u8], code: &str, now_nanos: u128) -> (HandshakeState, Vec<HostAction>) {
    let client = SigningKey::generate();
    let (state, _) = host.handshake_transition(
        HandshakeState::AwaitHello,
        hello("c", &client.verifying_key().to_bytes()),
        "h",
        host_public,
        &[0u8; 32],
        now_nanos,
    );
    host.handshake_transition(
        state,
        HandshakeEvent::Message(ClientToHost::PairingCode { code: code.to_string() }),
        "h",
        host_public,
        &[0u8; 32],
        now_nanos,
    )
}

#[test]
fn pairing_code_is_single_use() {
    let (config, host_public) = host_config(vec![]);
    let mut host = Host::from_parts(options(false, true), ConfigManager::at("/tmp/x"), config, 123456);
    let (state, _) = pairing_attempt(&mut host, &host_public, "123456", 1_000);
    assert!(matches!(state, HandshakeState::AwaitConsent { .. }));
    // The same right code a second time is refused.
    let (state, actions) = pairing_attempt(&mut host, &host_public, "123456", 2_000);
    assert!(matches!(state, HandshakeState::Denied { fingerprint: Some(_) }));
    match sent(&actions)[0] {
        HostToClient::AuthDenied { reason } => assert_eq!(reason, "Invalid pairing code"),
        other => panic!("unexpected {:?}", other),
    }
}

#[test]
fn wrong_code_uses_up_the_pairing_code() {
    let (config, host_public) = host_config(vec![]);
    let mut host = Host::from_parts(options(false, true), ConfigManager::at("/tmp/x"), config, 42);
    let (state, _) = pairing_attempt(&mut host, &host_public, "000043", 1_000);
    assert!(matches!(state, HandshakeState::Denied { .. }));
    let (state, _) = pairing_attempt(&mut host, &host_public, "000042", 2_000);
    assert!(matches!(state, HandshakeState::Denied { .. }));
}

#[test]
fn pairing_code_expires_after_five_minutes() {
    let (config, host_public) = host_config(vec![]);
    let mut host = Host::from_parts(options(false, true), ConfigManager::at("/tmp/x"), config, 7);
    let (state, _) = pairing_attempt(&mut host, &host_public, "000007", 300_000_000_000);
    assert!(matches!(state, HandshakeState::Denied { .. }));
    let (config, host_public) = host_config(vec![]);
    let mut host = Host::from_parts(options(false, true), ConfigManager::at("/tmp/x"), config, 7);
    let (state, _) = pairing_attempt(&mut host, &host_public, "000007", 299_999_999_999);
    assert!(matches!(state, HandshakeState::AwaitConsent { .. }));
}

#[test]
fn denial_records_the_client_fingerprint() {
    let (config, host_public) = host_config(vec![]);
    let mut host = Host::from_parts(options(false, true), ConfigManager::at("/tmp/x"), config, 7);
    let client = SigningKey::generate();
    let client_pub = client.verifying_key().to_bytes();
    let (state, _) = host.handshake_step(HandshakeState::AwaitHello, hello("c", &client_pub), "h", &host_public);
    let (state, _) = host.handshake_step(
        state,
        HandshakeEvent::Message(ClientToHost::PairingCode { code: "999999".to_string() }),
        "h",
        &host_public,
    );
    match state {
        HandshakeState::Denied { fingerprint } => {
            assert_eq!(fingerprint, Some(get_fingerprint(&base64_encode(&client_pub))))
        }
        other => panic!("unexpected {:?}", other),
    }
    let broken = HandshakeState::AwaitHello.break_off("gone".to_string());
    assert!(matches!(broken, HandshakeState::Failed { fingerprint: None, .. }));
}
