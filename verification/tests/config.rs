use voice_core::config::{device_name_for, Config, ConfigData, SyncConfig, ThemeColours, Themes};
use voice_core::error::VoiceError;

fn fresh() -> Config {
    Config::new("/tmp/voice-test", None)
}

#[test]
fn test_default_config() {
    let config = fresh();
    assert!(!config.device_id_hex().is_empty());
    assert!(!config.device_name().is_empty());
    assert!(!config.is_sync_enabled());
    assert_eq!(config.sync_server_port(), 8384);
}

#[test]
fn test_add_peer() {
    let mut config = fresh();
    let peer_id = "0".repeat(32);
    config
        .add_peer(&peer_id, "Test Peer", "https://example.com:8384", None, false)
        .unwrap();
    let peer = config.get_peer(&peer_id).unwrap();
    assert_eq!(peer.peer_name, "Test Peer");
    assert_eq!(peer.peer_url, "https://example.com:8384");
}

#[test]
fn test_remove_peer() {
    let mut config = fresh();
    let peer_id = "0".repeat(32);
    config
        .add_peer(&peer_id, "Test Peer", "https://example.com:8384", None, false)
        .unwrap();
    let removed = config.remove_peer(&peer_id);
    assert!(removed);
    assert!(config.get_peer(&peer_id).is_none());
}

#[test]
fn test_invalid_peer_id() {
    let mut config = fresh();
    let result = config.add_peer("invalid", "Test", "https://example.com", None, false);
    assert!(result.is_err());
}

#[test]
fn test_config_persistence() {
    let stored = {
        let mut config = fresh();
        config.set_device_name("Test Device");
        config.set_sync_enabled(true);
        config.into_stored()
    };
    {
        let config = Config::new("/tmp/voice-test", Some(stored));
        assert_eq!(config.device_name(), "Test Device");
        assert!(config.is_sync_enabled());
    }
}

#[test]
fn defaults() {
    let config = fresh();
    assert_eq!(config.config_dir(), "/tmp/voice-test");
    assert_eq!(config.database_file(), "/tmp/voice-test/notes.db");
    assert_eq!(config.certs_dir(), "/tmp/voice-test/certs");
    assert_eq!(config.device_id_hex().len(), 32);
    assert!(config.device_id_hex().chars().all(|c| c.is_ascii_hexdigit()));
    assert_eq!(format!("{:032x}", config.device_id().unwrap()), config.device_id_hex());
    assert_eq!(config.tui_colors(), ("green", "blue"));
    assert_eq!(config.warning_color("dark"), "#FFFF00");
    assert_eq!(config.warning_color("light"), "#FFFF00");
    assert!(config.peers().is_empty());
    assert_eq!(config.sync_config().server_port, 8384);
    assert_eq!(device_name_for(Some("box")), "Voice on box");
    assert_eq!(device_name_for(None), "Voice Device");
    let colours = ThemeColours::default();
    assert_eq!(colours.warnings, "#FFFF00");
    assert_eq!(Themes::default().colours.tui_border_focused, "green");
    assert!(!SyncConfig::default().enabled);
    assert_eq!(ConfigData::default().sync.server_port, 8384);
    assert_ne!(ConfigData::default().device_id, ConfigData::default().device_id);
}

#[test]
fn warning_colours_by_theme() {
    let mut data = ConfigData::fresh("0".repeat(32), "desk".to_string());
    data.themes.colours.warnings_dark = Some("red".to_string());
    data.themes.colours.warnings_light = Some("navy".to_string());
    let config = Config::new("/c", Some(data));
    assert_eq!(config.warning_color("light"), "navy");
    assert_eq!(config.warning_color("dark"), "red");
    assert_eq!(config.warning_color("anything"), "red");
    assert_eq!(config.database_file(), "");
}

#[test]
fn peers_are_added_updated_and_removed() {
    let mut config = fresh();
    let a = "a".repeat(32);
    let b = "B".repeat(32);
    config.add_peer(&a, "one", "u1", Some("F1"), false).unwrap();
    config.add_peer(&b, "two", "u2", None, false).unwrap();
    match config.add_peer(&a, "again", "u3", None, false) {
        Err(VoiceError::Validation { field, message }) => {
            assert_eq!(field, "peer_id");
            assert_eq!(message, "peer already exists");
        }
        other => panic!("expected a refusal, got {:?}", other),
    }
    match config.add_peer(&"g".repeat(32), "x", "u", None, true) {
        Err(VoiceError::Validation { field, message }) => {
            assert_eq!(field, "peer_id");
            assert_eq!(message, "must be 32 hex characters");
        }
        other => panic!("expected a refusal, got {:?}", other),
    }
    config.add_peer(&a, "renamed", "u3", None, true).unwrap();
    let peer = config.get_peer(&a).unwrap();
    assert_eq!(peer.peer_name, "renamed");
    assert_eq!(peer.peer_url, "u3");
    assert_eq!(peer.certificate_fingerprint.as_deref(), Some("F1"));
    config.add_peer(&a, "renamed", "u3", Some("F2"), true).unwrap();
    assert_eq!(config.get_peer(&a).unwrap().certificate_fingerprint.as_deref(), Some("F2"));
    assert_eq!(config.peers().len(), 2);
    assert!(config.update_peer_certificate(&b, "F9"));
    assert_eq!(config.get_peer(&b).unwrap().certificate_fingerprint.as_deref(), Some("F9"));
    assert!(!config.update_peer_certificate(&"c".repeat(32), "F9"));
    assert!(!config.remove_peer(&"c".repeat(32)));
    assert!(config.remove_peer(&a));
    assert_eq!(config.peers().len(), 1);
    assert_eq!(config.peers()[0].peer_id, b);
}

#[test]
fn keys_are_read_and_set() {
    let mut config = fresh();
    assert_eq!(config.get("database_file").as_deref(), Some("/tmp/voice-test/notes.db"));
    assert_eq!(config.get("default_interface"), None);
    assert_eq!(config.get("device_id").as_deref(), Some(config.device_id_hex()));
    assert_eq!(config.get("nothing"), None);
    config.set("database_file", "/x.db").unwrap();
    config.set("default_interface", "tui").unwrap();
    config.set("device_name", "lap").unwrap();
    config.set("server_certificate_fingerprint", "SHA256:00").unwrap();
    assert_eq!(config.database_file(), "/x.db");
    assert_eq!(config.get("default_interface").as_deref(), Some("tui"));
    assert_eq!(config.device_name(), "lap");
    assert_eq!(config.get("server_certificate_fingerprint").as_deref(), Some("SHA256:00"));
    match config.set("device_id", "1") {
        Err(VoiceError::Config(m)) => assert_eq!(m, "Unknown config key: device_id"),
        other => panic!("expected a configuration error, got {:?}", other),
    }
    config.set_sync_server_port(9000);
    assert_eq!(config.sync_server_port(), 9000);
    assert_eq!(config.stored().sync.server_port, 9000);
    let broken = Config::new("/c", Some(ConfigData::fresh("zz".to_string(), "d".to_string())));
    match broken.device_id() {
        Err(VoiceError::Config(m)) => assert!(m.starts_with("Invalid device_id: ")),
        other => panic!("expected a configuration error, got {:?}", other),
    }
    let braced = ConfigData::fresh("{936da01f-9abd-4d9d-80c7-02af85c822a8}".to_string(), "d".to_string());
    assert_eq!(
        Config::new("/c", Some(braced)).device_id().unwrap(),
        0x936da01f_9abd_4d9d_80c7_02af85c822a8u128
    );
}
