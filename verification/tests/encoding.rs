use nm_file_secret_agent::encoding::{
    build_generic_secrets, build_wireguard_secrets, encode, encode_generic_secrets,
    encode_wireguard_secrets, Secret,
};
use nm_file_secret_agent::ordered_map::OrderedMap;
use nm_file_secret_agent::settings::{PropMap, SettingValue};
use nm_file_secret_agent::string_set::StringSet;
use std::collections::HashSet;

fn secret(key: &str, value: &str) -> Secret {
    Secret {
        key: key.to_string(),
        value: value.to_string(),
    }
}

fn members(set: &StringSet) -> HashSet<String> {
    (0..set.len()).map(|i| set.member_at(i).clone()).collect()
}

fn names(list: &[&str]) -> HashSet<String> {
    list.iter().map(|s| s.to_string()).collect()
}

fn text(props: &PropMap, key: &str) -> Option<String> {
    props.get(key).and_then(|v| v.as_str()).map(|s| s.to_string())
}

fn keys(props: &PropMap) -> Vec<String> {
    (0..props.len()).map(|i| props.key_at(i).clone()).collect()
}

fn peer_keys(peer: &OrderedMap<String>) -> Vec<String> {
    (0..peer.len()).map(|i| peer.key_at(i).clone()).collect()
}

fn peers(props: &PropMap) -> &Vec<OrderedMap<String>> {
    match props.get("peers") {
        Some(SettingValue::Peers(list)) => list,
        other => panic!("no list of peers: {:?}", other),
    }
}

#[test]
fn encode_generic_secret() {
    let (secrets, inserted_keys) = encode_generic_secrets(&[
        Secret {
            key: "psk".into(),
            value: "FOO_BAR".into(),
        },
        Secret {
            key: "secret2".into(),
            value: "FOO_BAR2".into(),
        },
    ]);

    assert_eq!(secrets.signature(), String::from("a{sv}"));
    assert!(secrets.contains_key("psk"));
    assert!(secrets.contains_key("secret2"));
    assert_eq!(
        members(&inserted_keys),
        ["psk".to_string(), "secret2".to_string()]
            .into_iter()
            .collect()
    )
}

#[test]
fn encode_wireguard_secret_with_preshared_key() {
    let (secrets, inserted_keys) = encode_wireguard_secrets(&[
        Secret {
            key: "private-key".into(),
            value: "PRIV_KEY_FOOR".into(),
        },
        Secret {
            key: "peers.PUB_KEY_BAR.preshared-key".into(),
            value: "PRESHARED_KEY_FOOR_BAR".into(),
        },
    ]);

    assert!(secrets.contains_key("private-key"));
    assert!(secrets.contains_key("peers"));
    assert_eq!(secrets.signature(), String::from("a{sv}"));

    assert!(inserted_keys.contains("private-key"));
    assert!(inserted_keys.contains("peers.PUB_KEY_BAR.preshared-key"));
}

#[test]
fn build_wireguard_secret_with_preshared_key() {
    let (secrets, inserted_keys) = build_wireguard_secrets(&[
        ("private-key".into(), "PRIV_KEY_FOO".into()),
        (
            "peers.PUB_KEY_BAR.preshared-key".into(),
            "PRESHARED_KEY_FOO_BAR".into(),
        ),
    ]);

    assert!(secrets.contains_key("private-key"));
    assert!(secrets.contains_key("peers"));
    assert_eq!(secrets.signature(), String::from("a{sv}"));

    assert!(inserted_keys.contains("private-key"));
    assert!(inserted_keys.contains("peers.PUB_KEY_BAR.preshared-key"));
}

#[test]
fn generic_encoding_keeps_keys_and_values() {
    let (props, inserted) = encode_generic_secrets(&[secret("psk", "X")]);
    assert_eq!(keys(&props), vec!["psk".to_string()]);
    assert_eq!(text(&props, "psk"), Some("X".to_string()));
    assert_eq!(members(&inserted), names(&["psk"]));
}

#[test]
fn generic_encoding_does_not_split_dotted_keys() {
    let (props, inserted) =
        encode_generic_secrets(&[secret("peers.PUBKEY.preshared-key", "S")]);
    assert_eq!(keys(&props), vec!["peers.PUBKEY.preshared-key".to_string()]);
    assert_eq!(
        text(&props, "peers.PUBKEY.preshared-key"),
        Some("S".to_string())
    );
    assert!(!props.contains_key("peers"));
    assert_eq!(members(&inserted), names(&["peers.PUBKEY.preshared-key"]));
}

#[test]
fn generic_encoding_of_nothing_is_empty() {
    let (props, inserted) = encode_generic_secrets(&[]);
    assert!(props.is_empty());
    assert_eq!(props.len(), 0);
    assert!(inserted.is_empty());
}

#[test]
fn generic_encoding_later_secret_replaces_earlier() {
    let (props, inserted) = encode_generic_secrets(&[
        secret("psk", "first"),
        secret("other", "o"),
        secret("psk", "second"),
    ]);
    assert_eq!(keys(&props), vec!["psk".to_string(), "other".to_string()]);
    assert_eq!(text(&props, "psk"), Some("second".to_string()));
    assert_eq!(text(&props, "other"), Some("o".to_string()));
    assert_eq!(members(&inserted), names(&["psk", "other"]));
    assert_eq!(inserted.len(), 2);
}

#[test]
fn wireguard_encoding_builds_one_peer() {
    let (props, inserted) = encode_wireguard_secrets(&[
        secret("private-key", "P"),
        secret("peers.PUBKEY.preshared-key", "S"),
    ]);
    assert_eq!(
        keys(&props),
        vec!["private-key".to_string(), "peers".to_string()]
    );
    assert_eq!(text(&props, "private-key"), Some("P".to_string()));
    let list = peers(&props);
    assert_eq!(list.len(), 1);
    assert_eq!(list[0].len(), 2);
    assert_eq!(list[0].get("public-key"), Some(&"PUBKEY".to_string()));
    assert_eq!(list[0].get("preshared-key"), Some(&"S".to_string()));
    assert_eq!(
        members(&inserted),
        names(&["private-key", "peers.PUBKEY.preshared-key"])
    );
}

#[test]
fn wireguard_encoding_without_peers_has_no_peer_list() {
    let (props, inserted) = encode_wireguard_secrets(&[secret("private-key", "P")]);
    assert_eq!(keys(&props), vec!["private-key".to_string()]);
    assert!(!props.contains_key("peers"));
    assert_eq!(members(&inserted), names(&["private-key"]));
}

#[test]
fn wireguard_encoding_groups_by_public_key_in_order_of_first_use() {
    let (props, inserted) = encode_wireguard_secrets(&[
        secret("peers.B.preshared-key", "b1"),
        secret("peers.A.preshared-key", "a1"),
        secret("peers.B.endpoint", "b2"),
        secret("peers.B.preshared-key", "b3"),
    ]);
    assert_eq!(keys(&props), vec!["peers".to_string()]);
    let list = peers(&props);
    assert_eq!(list.len(), 2);
    assert_eq!(list[0].get("public-key"), Some(&"B".to_string()));
    assert_eq!(list[0].get("preshared-key"), Some(&"b3".to_string()));
    assert_eq!(list[0].get("endpoint"), Some(&"b2".to_string()));
    assert_eq!(list[0].len(), 3);
    assert_eq!(list[1].get("public-key"), Some(&"A".to_string()));
    assert_eq!(list[1].get("preshared-key"), Some(&"a1".to_string()));
    assert_eq!(list[1].len(), 2);
    assert_eq!(
        members(&inserted),
        names(&[
            "peers.B.preshared-key",
            "peers.A.preshared-key",
            "peers.B.endpoint"
        ])
    );
}

#[test]
fn wireguard_encoding_keeps_other_dotted_keys_at_top_level() {
    let (props, inserted) = encode_wireguard_secrets(&[
        secret("peers.A", "two parts"),
        secret("peers.A.b.c", "four parts"),
        secret("peer.A.b", "other word"),
        secret("a.b.c", "three parts"),
        secret("peers", "no dot"),
    ]);
    assert_eq!(
        keys(&props),
        vec![
            "peers.A".to_string(),
            "peers.A.b.c".to_string(),
            "peer.A.b".to_string(),
            "a.b.c".to_string(),
            "peers".to_string()
        ]
    );
    assert_eq!(text(&props, "peers.A"), Some("two parts".to_string()));
    assert_eq!(text(&props, "peers.A.b.c"), Some("four parts".to_string()));
    assert_eq!(text(&props, "peer.A.b"), Some("other word".to_string()));
    assert_eq!(text(&props, "a.b.c"), Some("three parts".to_string()));
    assert_eq!(text(&props, "peers"), Some("no dot".to_string()));
    assert_eq!(inserted.len(), 5);
}

#[test]
fn wireguard_encoding_peer_list_replaces_a_secret_named_peers() {
    let (props, inserted) = encode_wireguard_secrets(&[
        secret("peers", "plain"),
        secret("peers.A.preshared-key", "a"),
    ]);
    assert_eq!(keys(&props), vec!["peers".to_string()]);
    assert_eq!(text(&props, "peers"), None);
    let list = peers(&props);
    assert_eq!(list.len(), 1);
    assert_eq!(list[0].get("public-key"), Some(&"A".to_string()));
    assert_eq!(members(&inserted), names(&["peers", "peers.A.preshared-key"]));
}

#[test]
fn wireguard_encoding_public_key_is_the_one_of_the_peer_key() {
    let (props, _) = encode_wireguard_secrets(&[
        secret("peers.REAL.public-key", "FAKE"),
        secret("peers.REAL.preshared-key", "s"),
    ]);
    let list = peers(&props);
    assert_eq!(list.len(), 1);
    assert_eq!(list[0].get("public-key"), Some(&"REAL".to_string()));
    assert_eq!(list[0].get("preshared-key"), Some(&"s".to_string()));
    assert_eq!(list[0].len(), 2);
}

#[test]
fn wireguard_encoding_takes_empty_parts_of_a_peer_key() {
    let (props, _) = encode_wireguard_secrets(&[secret("peers..", "v")]);
    let list = peers(&props);
    assert_eq!(list.len(), 1);
    assert_eq!(list[0].get("public-key"), Some(&"".to_string()));
    assert_eq!(list[0].get(""), Some(&"v".to_string()));
}

#[test]
fn build_generic_secrets_encodes_pairs() {
    let (props, inserted) = build_generic_secrets(&[
        ("psk".to_string(), "FOO_BAR".to_string()),
        ("secret2".to_string(), "FOO_BAR2".to_string()),
    ]);
    assert_eq!(keys(&props), vec!["psk".to_string(), "secret2".to_string()]);
    assert_eq!(text(&props, "psk"), Some("FOO_BAR".to_string()));
    assert_eq!(text(&props, "secret2"), Some("FOO_BAR2".to_string()));
    assert_eq!(members(&inserted), names(&["psk", "secret2"]));
}

#[test]
fn build_wireguard_secrets_encodes_pairs() {
    let (props, inserted) = build_wireguard_secrets(&[
        ("private-key".to_string(), "PRIV_KEY_FOO".to_string()),
        (
            "peers.PUB_KEY_BAR.preshared-key".to_string(),
            "PRESHARED_KEY_FOO_BAR".to_string(),
        ),
    ]);
    assert_eq!(text(&props, "private-key"), Some("PRIV_KEY_FOO".to_string()));
    let list = peers(&props);
    assert_eq!(list.len(), 1);
    assert_eq!(list[0].get("public-key"), Some(&"PUB_KEY_BAR".to_string()));
    assert_eq!(
        list[0].get("preshared-key"),
        Some(&"PRESHARED_KEY_FOO_BAR".to_string())
    );
    assert_eq!(inserted.len(), 2);
}

#[test]
fn encode_builds_peers_for_wireguard() {
    let (props, inserted) = encode(
        "wireguard",
        &[
            secret("private-key", "P"),
            secret("peers.PUBKEY.preshared-key", "S"),
        ],
    );
    assert_eq!(
        keys(&props),
        vec!["private-key".to_string(), "peers".to_string()]
    );
    assert_eq!(text(&props, "private-key"), Some("P".to_string()));
    let list = peers(&props);
    assert_eq!(list.len(), 1);
    assert_eq!(
        peer_keys(&list[0]),
        vec!["preshared-key".to_string(), "public-key".to_string()]
    );
    assert_eq!(list[0].get("public-key"), Some(&"PUBKEY".to_string()));
    assert_eq!(list[0].get("preshared-key"), Some(&"S".to_string()));
    assert_eq!(
        members(&inserted),
        names(&["private-key", "peers.PUBKEY.preshared-key"])
    );
}

#[test]
fn encode_is_flat_for_every_other_setting() {
    let (props, inserted) = encode("802-11-wireless-security", &[secret("psk", "X")]);
    assert_eq!(keys(&props), vec!["psk".to_string()]);
    assert_eq!(text(&props, "psk"), Some("X".to_string()));
    assert_eq!(members(&inserted), names(&["psk"]));

    let (props, _) = encode("wireguards", &[secret("peers.PUBKEY.preshared-key", "S")]);
    assert_eq!(keys(&props), vec!["peers.PUBKEY.preshared-key".to_string()]);
    let (props, _) = encode("", &[secret("peers.PUBKEY.preshared-key", "S")]);
    assert_eq!(keys(&props), vec!["peers.PUBKEY.preshared-key".to_string()]);
}
