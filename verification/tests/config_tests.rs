use nostr_mcp::config::{AuthMode, Config, RelayConfig};

#[test]
fn test_default_config() {
    let config = Config::default();
    assert!(!config.relays.is_empty());
    assert!(config.privatekey.is_none());
}

#[test]
fn test_relay_filtering() {
    let config = Config::default();
    let read_relays = config.read_relays();
    let search_relays = config.search_relays();

    assert!(!read_relays.is_empty());
    assert!(!search_relays.is_empty());
}

#[test]
fn test_default_relay_sets_exactly() {
    let config = Config::default();
    let read = config.read_relays();
    let write = config.write_relays();
    let search = config.search_relays();
    assert_eq!(read.len(), 5);
    assert_eq!(
        write,
        vec![
            "wss://relay.damus.io".to_string(),
            "wss://nos.lol".to_string(),
            "wss://relay.nostr.band".to_string(),
            "wss://relay.snort.social".to_string(),
        ]
    );
    assert_eq!(
        search,
        vec!["wss://relay.nostr.band".to_string(), "wss://nostr.wine".to_string()]
    );
}

#[test]
fn test_relay_config_default() {
    let rc = RelayConfig::default();
    assert!(rc.read);
    assert!(rc.write);
    assert!(!rc.search);
}

#[test]
fn test_effective_auth_mode() {
    let mut config = Config::default();
    assert_eq!(config.effective_auth_mode(), AuthMode::Local);

    config.bunker_uri = Some("bunker://abc".to_string());
    assert_eq!(config.effective_auth_mode(), AuthMode::Bunker);

    config.auth_mode = Some(AuthMode::Nip46);
    assert_eq!(config.effective_auth_mode(), AuthMode::Nip46);
}
