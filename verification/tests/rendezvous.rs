use asciidesk::keyed::KeyedList;
use asciidesk::rendezvous::{
    handle_message, handle_message_at, peer_disconnected, reply_to_sender, DevicePresence, InMemoryStore, RendezvousError,
    RendezvousMessage, RendezvousStore, SessionOffer, UtcTime,
};
use std::time::{Duration, SystemTime, UNIX_EPOCH};

fn utc_now() -> UtcTime {
    let d = SystemTime::now().duration_since(UNIX_EPOCH).unwrap();
    UtcTime { secs: d.as_secs() as i64, nanos: d.subsec_nanos() }
}

fn device(key: &str, name: &str, addr: &str, last_seen: UtcTime) -> DevicePresence {
    DevicePresence {
        public_key: key.to_string(),
        display_name: name.to_string(),
        address: addr.to_string(),
        last_seen,
    }
}

fn offer(session: &str, host: &str, client: &str, created_at: UtcTime, ttl_secs: u64) -> SessionOffer {
    SessionOffer {
        session_id: session.to_string(),
        host_public_key: host.to_string(),
        client_public_key: client.to_string(),
        host_address_candidates: vec!["ws://1.1.1.1:7373".to_string()],
        client_address_candidates: vec![],
        created_at,
        ttl_secs,
    }
}

#[test]
fn test_in_memory_store_device_presence() {
    let mut store = InMemoryStore::new();
    let dev = device("test-pub-key", "test-device", "127.0.0.1:7373", utc_now());

    store.put_device(dev.copy()).unwrap();
    let loaded = store.get_device("test-pub-key").unwrap();
    assert_eq!(loaded.display_name, "test-device");
    assert_eq!(loaded.address, "127.0.0.1:7373");
}

#[test]
fn test_in_memory_store_pairing_code() {
    let mut store = InMemoryStore::new();
    store.create_pairing_code("123456".to_string(), "host-pub".to_string(), 2).unwrap();

    // Consume pairing code
    let host_pub = store.consume_pairing_code("123456").unwrap();
    assert_eq!(host_pub, "host-pub");

    // Try consuming again (should be single-use)
    assert!(store.consume_pairing_code("123456").is_err());
}

#[test]
fn test_in_memory_store_expiry() {
    let mut store = InMemoryStore::new();
    store.create_pairing_code_at("111222".to_string(), "host-pub".to_string(), 1, 0);

    // Two seconds later the code has expired
    assert!(store.consume_pairing_code_at("111222", 2_000_000_000).is_err());
}

#[test]
fn test_in_memory_store_session_offer() {
    let mut store = InMemoryStore::new();
    let offer = offer("session-1", "host-pub", "client-pub", utc_now(), 10);

    store.put_session_offer(offer).unwrap();
    let loaded = store.get_session_offer("host-pub", "client-pub").unwrap();
    assert_eq!(loaded.session_id, "session-1");
    assert_eq!(loaded.host_address_candidates[0], "ws://1.1.1.1:7373");

    // Second retrieve should fail (single-use or consumed)
    assert!(store.get_session_offer("host-pub", "client-pub").is_err());
}

#[test]
fn unknown_device_is_not_found() {
    let store = InMemoryStore::new();
    assert!(matches!(store.get_device("nobody"), Err(RendezvousError::DeviceNotFound)));
}

#[test]
fn device_presence_is_replaced() {
    let mut store = InMemoryStore::new();
    let t = UtcTime { secs: 100, nanos: 0 };
    store.put_device(device("k", "first", "a:1", t)).unwrap();
    store.put_device(device("k", "second", "b:2", t)).unwrap();
    let loaded = store.get_device("k").unwrap();
    assert_eq!(loaded.display_name, "second");
    assert_eq!(loaded.address, "b:2");
}

#[test]
fn pairing_code_lives_for_its_ttl() {
    let mut store = InMemoryStore::new();
    store.create_pairing_code_at("000001".to_string(), "h".to_string(), 5, 1_000);
    // Just before the expiry the code still names its host.
    assert_eq!(store.consume_pairing_code_at("000001", 5_000_000_999).unwrap(), "h");
    store.create_pairing_code_at("000002".to_string(), "h".to_string(), 5, 1_000);
    // At the expiry it is gone.
    assert!(matches!(
        store.consume_pairing_code_at("000002", 5_000_001_000),
        Err(RendezvousError::InvalidPairingCode)
    ));
    // An expired code is forgotten as well.
    assert!(store.consume_pairing_code_at("000002", 0).is_err());
}

#[test]
fn unknown_pairing_code_is_invalid() {
    let mut store = InMemoryStore::new();
    assert!(matches!(
        store.consume_pairing_code("999999"),
        Err(RendezvousError::InvalidPairingCode)
    ));
}

#[test]
fn offer_for_other_client_is_not_found() {
    let mut store = InMemoryStore::new();
    store.put_session_offer(offer("s", "host-pub", "client-pub", utc_now(), 10)).unwrap();
    assert!(matches!(
        store.get_session_offer("host-pub", "someone-else"),
        Err(RendezvousError::OfferNotFound)
    ));
    // The right pair still finds it.
    assert!(store.get_session_offer("host-pub", "client-pub").is_ok());
}

#[test]
fn stale_offer_is_not_given() {
    let mut store = InMemoryStore::new();
    store.put_session_offer_at(offer("s", "h", "c", UtcTime { secs: 1_000, nanos: 0 }, 10));
    assert!(store.take_session_offer_at("h", "c", UtcTime { secs: 1_010, nanos: 0 }).is_err());
    store.put_session_offer_at(offer("s", "h", "c", UtcTime { secs: 1_000, nanos: 0 }, 10));
    assert!(store.take_session_offer_at("h", "c", UtcTime { secs: 1_009, nanos: 999_999_999 }).is_ok());
}

#[test]
fn cleanup_drops_old_devices_and_expired_entries() {
    let mut store = InMemoryStore::new();
    store.put_device(device("old", "o", "a", UtcTime { secs: 0, nanos: 0 })).unwrap();
    store.put_device(device("new", "n", "b", UtcTime { secs: 95, nanos: 0 })).unwrap();
    store.create_pairing_code_at("111111".to_string(), "h".to_string(), 1, 0);
    store.create_pairing_code_at("222222".to_string(), "h".to_string(), 100, 0);
    store.put_session_offer_at(offer("s1", "h", "c1", UtcTime { secs: 0, nanos: 0 }, 10));
    store.put_session_offer_at(offer("s2", "h", "c2", UtcTime { secs: 95, nanos: 0 }, 10));
    store.cleanup_expired_at(60_000_000_000, UtcTime { secs: 100, nanos: 0 }, 50_000_000_000);
    assert!(store.get_device("old").is_err());
    assert!(store.get_device("new").is_ok());
    assert!(store.consume_pairing_code_at("111111", 0).is_err());
    assert!(store.consume_pairing_code_at("222222", 0).is_ok());
    assert!(store.take_session_offer_at("h", "c1", UtcTime { secs: 0, nanos: 0 }).is_err());
    assert!(store.take_session_offer_at("h", "c2", UtcTime { secs: 100, nanos: 0 }).is_ok());
}

#[test]
fn cleanup_through_the_store_interface() {
    let mut store = InMemoryStore::new();
    store.put_device(device("k", "n", "a", utc_now())).unwrap();
    store.cleanup_expired(Duration::from_secs(3600)).unwrap();
    assert!(store.get_device("k").is_ok());
}

#[test]
fn cleanup_drops_devices_older_than_the_age_limit() {
    let now = utc_now();
    let old = UtcTime { secs: now.secs - 600, nanos: now.nanos };
    let mut store = InMemoryStore::new();
    store.put_device(device("stale", "n", "a", old)).unwrap();
    store.put_device(device("fresh", "n", "a", now)).unwrap();
    store.cleanup_expired(Duration::from_secs(300)).unwrap();
    assert!(store.get_device("stale").is_err());
    assert!(store.get_device("fresh").is_ok());
}

fn register(
    store: &mut InMemoryStore,
    peers: &mut KeyedList<u64>,
    key: &mut Option<String>,
    sender: u64,
    name: &str,
    public_key: &str,
    code: u32,
) -> Option<RendezvousMessage> {
    let outcome = handle_message_at(
        RendezvousMessage::RegisterHost { name: name.to_string(), public_key: public_key.to_string() },
        store,
        peers,
        sender,
        key,
        code,
        0,
    );
    assert!(outcome.forward.is_empty());
    outcome.reply.unwrap()
}

#[test]
fn broker_registers_host_with_padded_code() {
    let mut store = InMemoryStore::new();
    let mut peers = KeyedList::new();
    let mut key = None;
    let reply = register(&mut store, &mut peers, &mut key, 1, "host", "HK", 42);
    match reply {
        Some(RendezvousMessage::HostRegistered { pairing_code }) => assert_eq!(pairing_code, "000042"),
        other => panic!("unexpected {:?}", other),
    }
    assert_eq!(key.as_deref(), Some("HK"));
    assert_eq!(peers.get("HK"), Some(&1));
}

#[test]
fn broker_matches_client_to_host() {
    let mut store = InMemoryStore::new();
    let mut peers = KeyedList::new();
    let mut host_key = None;
    register(&mut store, &mut peers, &mut host_key, 1, "host", "HK", 123456);

    let mut client_key = None;
    let outcome = handle_message_at(
        RendezvousMessage::RequestPairing {
            code: "123456".to_string(),
            name: "laptop".to_string(),
            public_key: "CK".to_string(),
        },
        &mut store,
        &mut peers,
        2,
        &mut client_key,
        0,
        1,
    );
    match outcome.reply {
        Ok(Some(RendezvousMessage::PairingMatched { host_name, host_public_key })) => {
            assert_eq!(host_name, "Remote Host");
            assert_eq!(host_public_key, "HK");
        }
        other => panic!("unexpected {:?}", other),
    }
    assert_eq!(outcome.forward.len(), 1);
    assert_eq!(outcome.forward[0].0, 1);
    match &outcome.forward[0].1 {
        RendezvousMessage::ClientMatched { client_name, client_public_key } => {
            assert_eq!(client_name, "laptop");
            assert_eq!(client_public_key, "CK");
        }
        other => panic!("unexpected {:?}", other),
    }

    // The host answers with candidates, forwarded to the client.
    let outcome = handle_message_at(
        RendezvousMessage::SendCandidates {
            target_public_key: "CK".to_string(),
            candidates: vec!["ws://10.0.0.2:7373".to_string()],
        },
        &mut store,
        &mut peers,
        1,
        &mut host_key,
        0,
        2,
    );
    assert!(matches!(outcome.reply, Ok(None)));
    assert_eq!(outcome.forward.len(), 1);
    assert_eq!(outcome.forward[0].0, 2);
    match &outcome.forward[0].1 {
        RendezvousMessage::CandidatesReceived { from_public_key, candidates } => {
            assert_eq!(from_public_key, "HK");
            assert_eq!(candidates, &vec!["ws://10.0.0.2:7373".to_string()]);
        }
        other => panic!("unexpected {:?}", other),
    }

    // The code was used up.
    let mut other_key = None;
    let outcome = handle_message_at(
        RendezvousMessage::RequestPairing {
            code: "123456".to_string(),
            name: "x".to_string(),
            public_key: "XK".to_string(),
        },
        &mut store,
        &mut peers,
        3,
        &mut other_key,
        0,
        3,
    );
    assert_eq!(outcome.reply.unwrap_err(), "Invalid pairing code or expired");
}

#[test]
fn broker_errors() {
    let mut store = InMemoryStore::new();
    let mut peers = KeyedList::new();
    let mut key = None;
    let outcome = handle_message(
        RendezvousMessage::SendCandidates { target_public_key: "X".to_string(), candidates: vec![] },
        &mut store,
        &mut peers,
        1,
        &mut key,
    );
    assert_eq!(outcome.reply.unwrap_err(), "Not registered");

    register(&mut store, &mut peers, &mut key, 1, "host", "HK", 1);
    let outcome = handle_message(
        RendezvousMessage::SendCandidates { target_public_key: "X".to_string(), candidates: vec![] },
        &mut store,
        &mut peers,
        1,
        &mut key,
    );
    assert_eq!(outcome.reply.unwrap_err(), "Target peer is offline");

    let outcome = handle_message(
        RendezvousMessage::Error { message: "x".to_string() },
        &mut store,
        &mut peers,
        1,
        &mut key,
    );
    assert_eq!(outcome.reply.unwrap_err(), "Invalid command sent to signaling server");
}

#[test]
fn broker_reports_offline_host() {
    let mut store = InMemoryStore::new();
    store.create_pairing_code_at("777777".to_string(), "GONE".to_string(), 300, 0);
    let mut peers = KeyedList::new();
    let mut key = None;
    let outcome = handle_message_at(
        RendezvousMessage::RequestPairing {
            code: "777777".to_string(),
            name: "c".to_string(),
            public_key: "CK".to_string(),
        },
        &mut store,
        &mut peers,
        5,
        &mut key,
        0,
        1,
    );
    assert_eq!(outcome.reply.unwrap_err(), "Matched host is currently offline");
}

#[test]
fn refusals_reach_the_sender_as_error_messages() {
    match reply_to_sender(Err("Invalid pairing code".to_string())) {
        Some(RendezvousMessage::Error { message }) => assert_eq!(message, "Invalid pairing code"),
        other => panic!("unexpected {:?}", other),
    }
    assert!(reply_to_sender(Ok(None)).is_none());
    match reply_to_sender(Ok(Some(RendezvousMessage::Error { message: "x".to_string() }))) {
        Some(RendezvousMessage::Error { message }) => assert_eq!(message, "x"),
        other => panic!("unexpected {:?}", other),
    }
}

#[test]
fn closing_a_connection_forgets_its_peer() {
    let mut peers: KeyedList<u64> = KeyedList::new();
    peers.insert("host-key".to_string(), 1);
    peers.insert("other".to_string(), 2);
    peer_disconnected(&mut peers, &None);
    assert_eq!(peers.len(), 2);
    peer_disconnected(&mut peers, &Some("host-key".to_string()));
    assert_eq!(peers.len(), 1);
    assert!(peers.get("host-key").is_none());
    assert_eq!(peers.get("other"), Some(&2));
}
