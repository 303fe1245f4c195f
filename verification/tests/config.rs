use asciidesk::config::{config_from_key, normalize_fingerprint, AuditLogger, Config, ConfigManager, TrustedDevice};
use asciidesk::keys::{get_fingerprint, parse_signing_key, CoreError, SigningKey};

fn base64_encode(bytes: &[u8]) -> String {
    base64::Engine::encode(&base64::engine::general_purpose::STANDARD, bytes)
}

fn device(name: &str, fp: &str) -> TrustedDevice {
    TrustedDevice { name: name.to_string(), fingerprint: fp.to_string(), public_key: "k".to_string() }
}

#[test]
fn trust_list_add_remove_clear() {
    let mut config = config_from_key(&SigningKey::generate(), Some("h"));
    assert!(!config.is_trusted("AA11BB22CC33DD44"));
    config.add_trusted(device("test-client", "AA11BB22CC33DD44"));
    config.add_trusted(device("other", "0000000000000000"));
    assert!(config.is_trusted("AA11BB22CC33DD44"));
    assert!(config.remove_trusted("AA11BB22CC33DD44"));
    assert!(!config.is_trusted("AA11BB22CC33DD44"));
    assert!(config.is_trusted("0000000000000000"));
    assert!(!config.remove_trusted("AA11BB22CC33DD44"));
    config.clear_trusted();
    assert!(config.trusted_devices.is_empty());
}

#[test]
fn remove_drops_every_entry_with_the_fingerprint() {
    let mut config = config_from_key(&SigningKey::generate(), None);
    config.add_trusted(device("a", "F1"));
    config.add_trusted(device("b", "F2"));
    config.add_trusted(device("c", "F1"));
    assert!(config.remove_trusted("F1"));
    assert_eq!(config.trusted_devices.len(), 1);
    assert_eq!(config.trusted_devices[0].name, "b");
}

#[test]
fn trust_device_checks_the_key() {
    let mut config = config_from_key(&SigningKey::generate(), None);
    let key_b64 = base64_encode(&SigningKey::generate().verifying_key().to_bytes());
    let fp = config.trust_device("laptop".to_string(), key_b64.clone()).unwrap();
    assert_eq!(fp, get_fingerprint(&key_b64));
    assert_eq!(config.trusted_devices[0].public_key, key_b64);
    assert!(config.is_trusted(&fp));
    assert!(matches!(
        config.trust_device("bad".to_string(), "some-key".to_string()),
        Err(CoreError::InvalidKey(_))
    ));
    assert_eq!(config.trusted_devices.len(), 1);
}

#[test]
fn fresh_configuration() {
    let manager = ConfigManager::at("/tmp/asciidesk_cfg");
    assert_eq!(manager.config_dir(), "/tmp/asciidesk_cfg");
    assert_eq!(manager.config_path(), "/tmp/asciidesk_cfg/config.json");
    let config: Config = manager.generate_default_config(Some("test-client"));
    assert_eq!(config.device_name, "asciidesk-test-client");
    assert!(config.trusted_devices.is_empty());
    let key = parse_signing_key(&config.private_key).unwrap();
    assert_eq!(config.public_key, base64_encode(&key.verifying_key().to_bytes()));
    let unnamed = manager.generate_default_config(None);
    assert_eq!(unnamed.device_name, "asciidesk-Unknown Device");
}

#[test]
fn custom_directory_is_used() {
    let manager = ConfigManager::new(Some("/srv/asciidesk")).unwrap();
    assert_eq!(manager.config_dir(), "/srv/asciidesk");
}

fn outcome_label() -> String {
    ['V', 'e', 'r', 'd', 'i', 'c', 't'].iter().collect()
}

#[test]
fn audit_lines() {
    let label = outcome_label();
    let logger = AuditLogger::new("/tmp/asciidesk_cfg");
    assert_eq!(logger.log_path(), "/tmp/asciidesk_cfg/session_audit.log");
    assert_eq!(
        AuditLogger::format_entry("2024-01-01T00:00:00+00:00", "AB", "1.2.3.4:5", "Completed", "PTY", Some(42)),
        format!("[2024-01-01T00:00:00+00:00] Fingerprint: AB | IP: 1.2.3.4:5 | {}: Completed | Mode: PTY | Duration: 42s\n", label)
    );
    assert_eq!(
        AuditLogger::format_entry("t", "UNKNOWN", "ip", "Denied", "PTY", None),
        format!("[t] Fingerprint: UNKNOWN | IP: ip | {}: Denied | Mode: PTY | Duration: N/A\n", label)
    );
}

#[test]
fn typed_fingerprints_are_normalized() {
    assert_eq!(normalize_fingerprint("  aa11bb22cc33dd44 \n"), "AA11BB22CC33DD44");
    assert_eq!(normalize_fingerprint("AB"), "AB");
}

#[test]
fn joined_paths() {
    assert_eq!(ConfigManager::at("/etc/asciidesk/").config_path(), "/etc/asciidesk/config.json");
    assert_eq!(ConfigManager::at("").config_path(), "config.json");
}

#[test]
fn joined_paths_put_a_separator_between() {
    let m = ConfigManager::new(Some("/tmp/asciidesk_x")).unwrap();
    assert_eq!(m.config_dir(), "/tmp/asciidesk_x");
    assert_eq!(m.config_path(), "/tmp/asciidesk_x/config.json");
    assert_eq!(AuditLogger::new("/tmp/asciidesk_x").log_path(), "/tmp/asciidesk_x/session_audit.log");
}

#[test]
fn user_config_lives_in_asciidesk() {
    let m = ConfigManager::below_user_dir("/home/u/.config");
    assert_eq!(m.config_dir(), "/home/u/.config/ASCIIDesk");
    assert_eq!(m.config_path(), "/home/u/.config/ASCIIDesk/config.json");
    let m = ConfigManager::below_user_dir("/home/u/.config/");
    assert_eq!(m.config_dir(), "/home/u/.config/ASCIIDesk");
}
