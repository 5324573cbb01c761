use nostr_mcp::identity::{local_identity_for, Identity, IdentityGate, IdentitySource, SignerHandle};
use nostr_mcp::pairing::{
    monitor_cap, MonitorAction, MonitorEvent, PairingController, PairingError, PairingPhase,
};

// the x coordinate of the secp256k1 generator: a valid public key
const PK: &str = "79be667ef9dcbbac55a06295ce870b07029bfcdb2dce28d959f2815b16f81798";
// the metadata and connection secret a client-issued URI must carry
const METADATA: &str = "{\"name\":\"pairing-tests\"}";
const SECRET: &str = "0f1e2d3c4b5a6978";

fn ident(hex: &str) -> Identity {
    Identity { hex: hex.to_string() }
}

#[test]
fn test_session_initial_state() {
    let ctl = PairingController::new(None);
    let status = ctl.status();
    assert_eq!(status.pairing_state, PairingPhase::Disconnected);
}

#[test]
fn test_status_json_disconnected() {
    let ctl = PairingController::new(None);
    let status = ctl.status();
    assert_eq!(status.pairing_state, PairingPhase::Disconnected);
    assert!(status.bootstrap_uri.is_none());
    assert!(status.identity.is_none());
    assert!(!status.signer_active);
}

#[test]
fn test_gate_invariant_over_activate_deactivate() {
    let mut gate = IdentityGate::new(None);
    assert_eq!(gate.current_identity().is_some(), gate.has_write_access());
    gate.activate(ident("aa"), SignerHandle { id: 1 });
    assert_eq!(gate.current_identity().is_some(), gate.has_write_access());
    assert!(gate.has_write_access());
    gate.activate(ident("bb"), SignerHandle { id: 2 });
    assert_eq!(gate.current_identity().is_some(), gate.has_write_access());
    gate.deactivate();
    assert_eq!(gate.current_identity().is_some(), gate.has_write_access());
    assert!(!gate.has_write_access());
    gate.deactivate();
    assert_eq!(gate.current_identity().is_some(), gate.has_write_access());
}

#[test]
fn test_gate_deactivate_falls_back_to_local_key() {
    let mut gate = IdentityGate::new(Some(ident("10caf")));
    assert!(gate.has_write_access());
    assert_eq!(gate.source(), IdentitySource::Local);
    gate.activate(ident("fee1"), SignerHandle { id: 7 });
    assert_eq!(gate.source(), IdentitySource::Remote);
    gate.deactivate();
    assert!(gate.has_write_access());
    assert_eq!(gate.source(), IdentitySource::Local);
    assert_eq!(gate.current_identity().unwrap().hex, "10caf");
}

#[test]
fn test_require_write_access() {
    let gate = IdentityGate::new(None);
    assert!(gate.require_write_access().is_err());
    let gate = IdentityGate::new(Some(ident("ab")));
    assert!(gate.require_write_access().is_ok());
}

#[test]
fn test_end_pairing_idempotent_when_nothing_active() {
    let mut ctl = PairingController::new(None);
    ctl.end_pairing();
    let s1 = ctl.status();
    assert_eq!(s1.pairing_state, PairingPhase::Disconnected);
    assert!(!s1.signer_active);
    assert!(s1.identity.is_none());
    ctl.end_pairing();
    let s2 = ctl.status();
    assert_eq!(s2.pairing_state, PairingPhase::Disconnected);
    assert!(!s2.signer_active);
    assert!(s2.identity.is_none());
}

#[test]
fn test_generate_flow_confirm_and_teardown() {
    // a local key is configured at startup
    let mut ctl = PairingController::new(Some(ident("10caf")));
    let relays = vec!["wss://relay.damus.io".to_string()];
    let boot = ctl
        .begin_generate(PK, &relays, METADATA, SECRET, None, SignerHandle { id: 42 })
        .expect("bootstrap");
    assert!(boot.bootstrap_uri.starts_with("nostrconnect://"));
    assert!(!boot.visual_encoding.is_empty());
    assert_eq!(ctl.status().pairing_state, PairingPhase::AwaitingConfirmation);
    assert_eq!(ctl.status().bootstrap_uri.unwrap(), boot.bootstrap_uri);

    // the remote signer confirms
    let act = ctl.monitor_tick(
        boot.attempt_token,
        MonitorEvent::Confirmed { identity: ident("fee1") },
    );
    assert_eq!(act, MonitorAction::Stop);
    let st = ctl.status();
    assert_eq!(st.pairing_state, PairingPhase::Connected);
    assert!(st.signer_active);
    assert_eq!(st.identity.unwrap(), "fee1");

    // teardown reverts to the local key, not to no access
    ctl.end_pairing();
    let st = ctl.status();
    assert_eq!(st.pairing_state, PairingPhase::Disconnected);
    assert!(!st.signer_active);
    assert!(ctl.gate.has_write_access());
    assert_eq!(st.identity.unwrap(), "10caf");
}

#[test]
fn test_stale_monitor_never_activates() {
    let mut ctl = PairingController::new(None);
    let relays = vec!["wss://relay.damus.io".to_string()];
    let boot = ctl
        .begin_generate(PK, &relays, METADATA, SECRET, None, SignerHandle { id: 1 })
        .expect("bootstrap");
    let stale = boot.attempt_token;

    // the user tears the attempt down before the monitor's next tick
    ctl.end_pairing();

    // a delayed confirmation from the superseded attempt must do nothing
    let act = ctl.monitor_tick(stale, MonitorEvent::Confirmed { identity: ident("bad") });
    assert_eq!(act, MonitorAction::Stop);
    let st = ctl.status();
    assert!(!st.signer_active);
    assert!(st.identity.is_none());
    assert_eq!(st.pairing_state, PairingPhase::Disconnected);

    // likewise after a fresh attempt raised the token
    let boot2 = ctl
        .begin_generate(PK, &relays, METADATA, SECRET, None, SignerHandle { id: 2 })
        .expect("bootstrap");
    let act = ctl.monitor_tick(stale, MonitorEvent::Confirmed { identity: ident("bad") });
    assert_eq!(act, MonitorAction::Stop);
    assert!(!ctl.status().signer_active);
    assert_eq!(ctl.status().pairing_state, PairingPhase::AwaitingConfirmation);
    assert!(boot2.attempt_token != stale);
}

#[test]
fn test_generate_timeout_goes_to_failed() {
    let mut ctl = PairingController::new(None);
    let relays = vec!["wss://relay.damus.io".to_string()];
    let boot = ctl
        .begin_generate(PK, &relays, METADATA, SECRET, None, SignerHandle { id: 1 })
        .expect("bootstrap");
    let act = ctl.monitor_tick(boot.attempt_token, MonitorEvent::StillWaiting);
    assert_eq!(act, MonitorAction::KeepPolling);
    let act = ctl.monitor_tick(boot.attempt_token, MonitorEvent::TimedOut);
    assert_eq!(act, MonitorAction::Stop);
    let st = ctl.status();
    assert_eq!(st.pairing_state, PairingPhase::Failed);
    assert!(!st.signer_active);
}

#[test]
fn test_direct_mode_handshake_error_leaves_gate_alone() {
    let mut ctl = PairingController::new(None);
    let uri = format!("bunker://{}?relay=wss://relay.damus.io", PK);
    let token = ctl.begin_direct_start(&uri).expect("parseable URI");
    // the probe could not reach the signer
    let out = ctl.finish_direct(
        token,
        Err("connection refused".to_string()),
        SignerHandle { id: 9 },
    );
    match out {
        Err(PairingError::Handshake { message }) => assert_eq!(message, "connection refused"),
        _ => panic!("expected a handshake error"),
    }
    let st = ctl.status();
    assert_eq!(st.pairing_state, PairingPhase::Failed);
    assert!(!st.signer_active);
    assert!(st.identity.is_none());
    assert!(!ctl.gate.has_write_access());
}

#[test]
fn test_direct_mode_success_binds_synchronously() {
    let mut ctl = PairingController::new(None);
    let uri = format!("bunker://{}?relay=wss://relay.damus.io", PK);
    let token = ctl.begin_direct_start(&uri).expect("parseable URI");
    let out = ctl.finish_direct(token, Ok(ident("fee1")), SignerHandle { id: 9 });
    assert_eq!(out.unwrap().hex, "fee1");
    let st = ctl.status();
    assert_eq!(st.pairing_state, PairingPhase::Connected);
    assert!(st.signer_active);
    assert!(ctl.gate.has_write_access());
}

#[test]
fn test_direct_mode_malformed_uri_is_config_error() {
    let mut ctl = PairingController::new(None);
    let out = ctl.begin_direct_start("not a connection uri");
    match out {
        Err(PairingError::Config { .. }) => {},
        _ => panic!("expected a config error"),
    }
    assert_eq!(ctl.status().pairing_state, PairingPhase::Disconnected);
}

#[test]
fn test_generate_bad_relay_is_config_error() {
    let mut ctl = PairingController::new(None);
    let relays = vec!["not a relay url".to_string()];
    let out = ctl.begin_generate(PK, &relays, METADATA, SECRET, None, SignerHandle { id: 1 });
    match out {
        Err(PairingError::Config { .. }) => {},
        _ => panic!("expected a config error"),
    }
    assert_eq!(ctl.status().pairing_state, PairingPhase::Disconnected);
}

#[test]
fn test_nip46_config_default_relays() {
    // an empty relay list falls back to the two default pairing relays
    let mut ctl = PairingController::new(None);
    let boot = ctl
        .begin_generate(PK, &Vec::new(), METADATA, SECRET, None, SignerHandle { id: 1 })
        .expect("bootstrap");
    assert!(boot.bootstrap_uri.contains("relay.nsec.app"));
    assert!(boot.bootstrap_uri.contains("relay.damus.io"));
}

#[test]
fn test_nip46_config_custom_relays() {
    let mut ctl = PairingController::new(None);
    let relays = vec!["wss://custom.relay.example".to_string()];
    let boot = ctl
        .begin_generate(PK, &relays, METADATA, SECRET, None, SignerHandle { id: 1 })
        .expect("bootstrap");
    assert!(boot.bootstrap_uri.contains("custom.relay.example"));
    assert!(!boot.bootstrap_uri.contains("relay.nsec.app"));
}

#[test]
fn test_generate_with_perms_embeds_scope() {
    let mut ctl = PairingController::new(None);
    let relays = vec!["wss://relay.damus.io".to_string()];
    let boot = ctl
        .begin_generate(PK, &relays, METADATA, SECRET, Some("sign_event:1"), SignerHandle { id: 1 })
        .expect("bootstrap");
    assert!(boot.bootstrap_uri.contains("perms=sign_event%3a1"));
}

#[test]
fn test_monitor_cap_derivation() {
    assert_eq!(monitor_cap(120, 2), 60);
    assert_eq!(monitor_cap(7, 3), 3);
    assert_eq!(monitor_cap(6, 3), 2);
    assert_eq!(monitor_cap(0, 5), 0);
}

#[test]
fn test_stale_finish_direct_changes_nothing() {
    let mut ctl = PairingController::new(None);
    let uri = format!("bunker://{}?relay=wss://relay.damus.io", PK);
    let token = ctl.begin_direct_start(&uri).expect("parseable URI");
    // the attempt is superseded before the probe reports back
    ctl.end_pairing();
    let out = ctl.finish_direct(token, Ok(ident("late")), SignerHandle { id: 5 });
    assert!(matches!(out, Err(PairingError::Handshake { .. })));
    assert!(!ctl.status().signer_active);
    assert!(ctl.status().identity.is_none());
}

#[test]
fn test_bootstrap_uri_parses_in_protocol_library() {
    // the artifact must be consumable by the signer side: the pinned
    // protocol library accepts a client URI only with metadata and secret
    let mut ctl = PairingController::new(None);
    let relays = vec!["wss://relay.damus.io".to_string()];
    let boot = ctl
        .begin_generate(PK, &relays, METADATA, SECRET, None, SignerHandle { id: 1 })
        .expect("bootstrap");
    let parsed = nostr_sdk::prelude::NostrConnectURI::parse(&boot.bootstrap_uri);
    assert!(parsed.is_ok(), "the bootstrap URI must parse: {:?}", parsed.err());
    match parsed.unwrap() {
        nostr_sdk::prelude::NostrConnectURI::Client { public_key, relays: rs, secret, .. } => {
            assert_eq!(public_key.to_hex(), PK);
            assert_eq!(rs.len(), 1);
            assert_eq!(secret, SECRET);
        },
        _ => panic!("expected a client-issued URI"),
    }
}

#[test]
fn test_local_identity_for_secret_keys() {
    // the secret key with value one derives the generator's x coordinate
    let hex_one = "0000000000000000000000000000000000000000000000000000000000000001";
    let id = local_identity_for(hex_one).expect("valid hex key");
    assert_eq!(id.hex, PK);
    // white space around the key is tolerated
    let padded = format!("  {}\n", hex_one);
    assert_eq!(local_identity_for(&padded).unwrap().hex, PK);
    // an nsec prefix routes to the bech32 decoder
    assert!(local_identity_for("nsec1notavalidkey").is_none());
    assert!(local_identity_for("zz").is_none());
    assert!(local_identity_for("").is_none());
}
