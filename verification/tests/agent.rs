use nm_file_secret_agent::agent::{
    cancel_get_secrets, delete_secrets, fetch_secrets, save_secrets, verify_access,
    IdentityAction, IdentitySet,
};
use nm_file_secret_agent::config::{AgentConfig, MappingEntry};
use nm_file_secret_agent::error::AgentError;
use nm_file_secret_agent::ordered_map::OrderedMap;
use nm_file_secret_agent::protocol::{
    agent_registration, asks_for_new_secrets, confirm_registration, GetSecretsFlags,
    SecretAgentCapabilities,
    AGENT_IDENTIFIER, AGENT_INTERFACE, AGENT_MANAGER_PATH, AGENT_PATH, NM_BUS_NAME,
};
use nm_file_secret_agent::settings::{NestedSettingsMap, PropMap, SettingValue};
use std::cell::RefCell;

fn seeded(owner: &str) -> IdentitySet {
    let mut set = IdentitySet::new();
    assert_eq!(set.seed(Some(owner.to_string())), Ok(()));
    set
}

fn profile() -> NestedSettingsMap {
    let mut connection: PropMap = OrderedMap::new();
    for (k, v) in [("id", "home"), ("uuid", "u"), ("type", "wifi")] {
        connection.insert(k.to_string(), SettingValue::Text(v.to_string()));
    }
    let mut profile: NestedSettingsMap = OrderedMap::new();
    profile.insert("connection".to_string(), connection);
    profile
}

fn config() -> AgentConfig {
    AgentConfig {
        entries: vec![MappingEntry {
            match_id: None,
            match_uuid: None,
            match_type: None,
            match_iface: None,
            match_setting: Some("wifi-sec".to_string()),
            key: "psk".to_string(),
            file: "/s/psk".to_string(),
        }],
    }
}

#[test]
fn new_identity_set_knows_nobody() {
    let set = IdentitySet::new();
    assert_eq!(set.len(), 0);
    assert!(!set.contains(NM_BUS_NAME));
    assert!(!set.contains(""));
}

#[test]
fn seed_knows_the_name_and_its_owner() {
    let set = seeded(":1.7");
    assert!(set.contains(":1.7"));
    assert!(set.contains("org.freedesktop.NetworkManager"));
    assert!(!set.contains(":1.8"));
    assert_eq!(set.len(), 2);
}

#[test]
fn seed_starts_over() {
    let mut set = seeded(":1.7");
    assert_eq!(set.seed(Some(":1.9".to_string())), Ok(()));
    assert!(!set.contains(":1.7"));
    assert!(set.contains(":1.9"));
    assert!(set.contains(NM_BUS_NAME));
    assert_eq!(set.len(), 2);
    assert_eq!(set.seed(Some(NM_BUS_NAME.to_string())), Ok(()));
    assert_eq!(set.len(), 1);
}

#[test]
fn seed_without_an_answer_fails_and_keeps_the_names() {
    let mut set = IdentitySet::new();
    assert_eq!(set.seed(None), Err(AgentError::IdentityQueryFailed));
    assert_eq!(set.len(), 0);
    let mut set = seeded(":1.7");
    assert_eq!(set.seed(None), Err(AgentError::IdentityQueryFailed));
    assert!(set.contains(":1.7"));
    assert!(set.contains(NM_BUS_NAME));
    assert_eq!(set.len(), 2);
}

#[test]
fn clone_of_identity_set_is_a_snapshot() {
    let mut set = seeded(":1.7");
    let snapshot = set.clone();
    set.on_identity_change(Some(":1.7"), Some(":1.42"), NM_BUS_NAME);
    assert!(snapshot.contains(":1.7"));
    assert!(!snapshot.contains(":1.42"));
    assert!(snapshot.contains(NM_BUS_NAME));
    assert_eq!(snapshot.len(), 2);
    assert!(!set.contains(":1.7"));
}

#[test]
fn verify_access_denies_a_call_without_sender() {
    assert_eq!(
        verify_access(&seeded(":1.7"), None),
        Err(AgentError::AccessDenied)
    );
}

#[test]
fn verify_access_denies_a_stranger() {
    let set = seeded(":1.7");
    assert_eq!(
        verify_access(&set, Some(":1.8")),
        Err(AgentError::AccessDenied)
    );
    assert_eq!(verify_access(&set, Some("")), Err(AgentError::AccessDenied));
    assert_eq!(
        verify_access(&set, Some("org.freedesktop.networkmanager")),
        Err(AgentError::AccessDenied)
    );
    assert_eq!(
        verify_access(&IdentitySet::new(), Some(NM_BUS_NAME)),
        Err(AgentError::AccessDenied)
    );
}

#[test]
fn verify_access_allows_the_daemon() {
    let set = seeded(":1.7");
    assert_eq!(verify_access(&set, Some(":1.7")), Ok(()));
    assert_eq!(verify_access(&set, Some(NM_BUS_NAME)), Ok(()));
}

#[test]
fn restart_replaces_the_old_owner_by_the_new() {
    let mut set = seeded(":1.7");
    let action = set.on_identity_change(Some(":1.7"), Some(":1.42"), NM_BUS_NAME);
    assert_eq!(action, IdentityAction::Reregister);
    assert!(!set.contains(":1.7"));
    assert!(set.contains(":1.42"));
    assert!(set.contains(NM_BUS_NAME));
    assert_eq!(set.len(), 2);
    assert_eq!(
        verify_access(&set, Some(":1.7")),
        Err(AgentError::AccessDenied)
    );
    assert_eq!(verify_access(&set, Some(":1.42")), Ok(()));
}

#[test]
fn changes_of_other_names_are_ignored() {
    let mut set = seeded(":1.7");
    let action = set.on_identity_change(Some(":1.7"), Some(":1.42"), "org.freedesktop.Other");
    assert_eq!(action, IdentityAction::Nothing);
    assert!(set.contains(":1.7"));
    assert!(!set.contains(":1.42"));
    assert_eq!(set.len(), 2);
}

#[test]
fn daemon_going_away_removes_its_owner_only() {
    let mut set = seeded(":1.7");
    let action = set.on_identity_change(Some(":1.7"), Some(""), NM_BUS_NAME);
    assert_eq!(action, IdentityAction::Nothing);
    assert!(!set.contains(":1.7"));
    assert!(set.contains(NM_BUS_NAME));
    assert_eq!(set.len(), 1);
    let action = set.on_identity_change(None, None, NM_BUS_NAME);
    assert_eq!(action, IdentityAction::Nothing);
    assert_eq!(set.len(), 1);
}

#[test]
fn daemon_coming_up_adds_its_owner() {
    let mut set = IdentitySet::new();
    let action = set.on_identity_change(Some(""), Some(":1.5"), NM_BUS_NAME);
    assert_eq!(action, IdentityAction::Reregister);
    assert!(set.contains(":1.5"));
    assert_eq!(set.len(), 1);
    let action = set.on_identity_change(None, Some(":1.6"), NM_BUS_NAME);
    assert_eq!(action, IdentityAction::Reregister);
    assert!(set.contains(":1.5"));
    assert!(set.contains(":1.6"));
    assert_eq!(set.len(), 2);
}

#[test]
fn same_old_and_new_owner_stays_known() {
    let mut set = seeded(":1.7");
    let action = set.on_identity_change(Some(":1.7"), Some(":1.7"), NM_BUS_NAME);
    assert_eq!(action, IdentityAction::Reregister);
    assert!(set.contains(":1.7"));
    assert_eq!(set.len(), 2);
}

#[test]
fn fetch_secrets_denies_strangers_before_any_work() {
    let set = seeded(":1.7");
    let mut cfg = config();
    let reads = RefCell::new(0);
    let p = profile();
    for sender in [None, Some(":1.8")] {
        let result = fetch_secrets(&set, &mut cfg, sender, (&p, "wifi-sec", &[], 0), |_| {
            *reads.borrow_mut() += 1;
            Some("X".to_string())
        });
        assert_eq!(result.err(), Some(AgentError::AccessDenied));
    }
    let broken: NestedSettingsMap = OrderedMap::new();
    let result = fetch_secrets(&set, &mut cfg, None, (&broken, "wifi-sec", &[], 0x2), |_| {
        *reads.borrow_mut() += 1;
        None
    });
    assert_eq!(result.err(), Some(AgentError::AccessDenied));
    assert_eq!(*reads.borrow(), 0);
    assert_eq!(cfg, config());
}

#[test]
fn fetch_secrets_answers_the_daemon() {
    let set = seeded(":1.7");
    let mut cfg = config();
    let p = profile();
    let reply = fetch_secrets(
        &set,
        &mut cfg,
        Some(":1.7"),
        (&p, "wifi-sec", &[], 0),
        |_| Some("X".to_string()),
    )
    .unwrap();
    let props = reply.secrets.get("wifi-sec").unwrap();
    assert_eq!(props.get("psk").and_then(|v| v.as_str()), Some("X"));
    assert_eq!(props.len(), 1);
    assert_eq!(reply.secrets.len(), 1);
    let result = fetch_secrets(
        &set,
        &mut cfg,
        Some(NM_BUS_NAME),
        (&p, "wifi-sec", &[], 0),
        |_| None,
    );
    assert_eq!(result.err(), Some(AgentError::SourceUnreadable));
}

#[test]
fn cancel_save_and_delete_always_succeed() {
    assert_eq!(cancel_get_secrets("/org/x/1", "wifi-sec"), Ok(()));
    assert_eq!(cancel_get_secrets("", ""), Ok(()));
    assert_eq!(save_secrets(&profile(), "/org/x/1"), Ok(()));
    assert_eq!(save_secrets(&OrderedMap::new(), ""), Ok(()));
    assert_eq!(delete_secrets(&profile(), "/org/x/1"), Ok(()));
    assert_eq!(delete_secrets(&OrderedMap::new(), ""), Ok(()));
}

#[test]
fn flags_have_their_bits() {
    assert_eq!(GetSecretsFlags::NoFlags.bits(), 0x0);
    assert_eq!(GetSecretsFlags::AllowInteraction.bits(), 0x1);
    assert_eq!(GetSecretsFlags::RequestNew.bits(), 0x2);
    assert_eq!(GetSecretsFlags::UserRequested.bits(), 0x4);
    assert_eq!(GetSecretsFlags::WbsPbcActive.bits(), 0x8);
    assert_eq!(SecretAgentCapabilities::NoCapabilities.bits(), 0);
    assert_eq!(SecretAgentCapabilities::VpnHints.bits(), 1);
}

#[test]
fn request_new_is_seen_among_other_flags() {
    assert!(asks_for_new_secrets(0x2));
    assert!(asks_for_new_secrets(0x3));
    assert!(asks_for_new_secrets(0xffff_ffff));
    assert!(!asks_for_new_secrets(0x0));
    assert!(!asks_for_new_secrets(0x1));
    assert!(!asks_for_new_secrets(0xd));
    assert!(!asks_for_new_secrets(0xffff_fffd));
}

#[test]
fn registration_declares_no_capability() {
    let call = agent_registration();
    assert_eq!(call.identifier, "nm-file-secret-agent");
    assert_eq!(call.capabilities, 0);
    assert_eq!(AGENT_IDENTIFIER, "nm-file-secret-agent");
    assert_eq!(NM_BUS_NAME, "org.freedesktop.NetworkManager");
    assert_eq!(AGENT_INTERFACE, "org.freedesktop.NetworkManager.SecretAgent");
    assert_eq!(AGENT_PATH, "/org/freedesktop/NetworkManager/SecretAgent");
    assert_eq!(
        AGENT_MANAGER_PATH,
        "/org/freedesktop/NetworkManager/AgentManager"
    );
}

#[test]
fn refused_registration_is_a_failure() {
    assert_eq!(confirm_registration(true), Ok(()));
    assert_eq!(
        confirm_registration(false),
        Err(AgentError::RegistrationFailed)
    );
}

#[test]
fn every_error_has_its_message() {
    assert_eq!(AgentError::AccessDenied.message(), "Access Denied");
    assert_eq!(
        AgentError::MalformedRequest.message(),
        "Connection profile lacks a text property that is required"
    );
    assert_eq!(
        AgentError::UnsupportedFlag.message(),
        "NetworkManager requested new credentials which cannot be provided by this agent"
    );
    assert_eq!(
        AgentError::SourceUnreadable.message(),
        "Could not read secret content from configured files"
    );
    assert_eq!(
        AgentError::IdentityQueryFailed.message(),
        "Could not query owner of name org.freedesktop.NetworkManager"
    );
    assert_eq!(
        AgentError::RegistrationFailed.message(),
        "Could not register as secret agent with NetworkManager"
    );
}
