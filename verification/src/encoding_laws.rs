//! What the encodings hold, said of each key by itself.

use crate::encoding::{
    generic_props, group_of, peer_entry, peer_groups, peer_list, peer_order, secret_keys,
    top_level_props, wireguard_props, SecretView,
};
use crate::peer_key::{lemma_peer_parts_injective, peer_parts};
use crate::settings::SettingValueView;
use vstd::prelude::*;

verus! {

/// No later secret has the name of the secret at index `i`.
pub open spec fn is_last_of_its_name(secrets: Seq<SecretView>, i: int) -> bool {
    &&& 0 <= i < secrets.len()
    &&& forall|j: int| i < j < secrets.len() ==> (#[trigger] secrets[j]).key != secrets[i].key
}

/// The secret at index `i` is addressed to the peer `pubkey`.
pub open spec fn names_peer(secrets: Seq<SecretView>, i: int, pubkey: Seq<char>) -> bool {
    &&& 0 <= i < secrets.len()
    &&& peer_parts(secrets[i].key) matches Some(parts)
    &&& parts.0 == pubkey
}

/// The names of a list and of the list without its last secret.
proof fn lemma_keys_step(secrets: Seq<SecretView>)
    requires
        secrets.len() > 0,
    ensures
        forall|k: Seq<char>|
            secret_keys(secrets).contains(k) <==> (k == secrets.last().key || secret_keys(
                secrets.drop_last(),
            ).contains(k)),
{
    let rest = secrets.drop_last();
    assert forall|k: Seq<char>|
        secret_keys(secrets).contains(k) <==> (k == secrets.last().key || secret_keys(
            rest,
        ).contains(k)) by {
        if secret_keys(rest).contains(k) {
            let j = choose|j: int| 0 <= j < rest.len() && (#[trigger] rest[j]).key == k;
            assert(secrets[j].key == k);
        }
        if k == secrets.last().key {
            assert(secrets[secrets.len() - 1].key == k);
        }
        if secret_keys(secrets).contains(k) && k != secrets.last().key {
            let j = choose|j: int| 0 <= j < secrets.len() && (#[trigger] secrets[j]).key == k;
            assert(rest[j].key == k);
        }
    }
}

/// The flat encoding has a property for each name among the secrets, and no
/// other.
pub proof fn lemma_generic_props_keys(secrets: Seq<SecretView>)
    ensures
        generic_props(secrets).dom() == secret_keys(secrets),
    decreases secrets.len(),
{
    if secrets.len() > 0 {
        lemma_generic_props_keys(secrets.drop_last());
        lemma_keys_step(secrets);
    }
    assert(generic_props(secrets).dom() =~= secret_keys(secrets));
}

/// In the flat encoding a name holds the content of the last secret of that
/// name, as a text.
pub proof fn lemma_generic_props_value(secrets: Seq<SecretView>, i: int)
    requires
        is_last_of_its_name(secrets, i),
    ensures
        generic_props(secrets).contains_key(secrets[i].key),
        generic_props(secrets)[secrets[i].key] == SettingValueView::Text(secrets[i].value),
    decreases secrets.len(),
{
    if i < secrets.len() - 1 {
        let rest = secrets.drop_last();
        assert(secrets[secrets.len() - 1].key != secrets[i].key);
        assert(is_last_of_its_name(rest, i)) by {
            assert forall|j: int| i < j < rest.len() implies (#[trigger] rest[j]).key
                != rest[i].key by {
                assert(secrets[j].key != secrets[i].key);
            }
        }
        lemma_generic_props_value(rest, i);
    }
}

/// The top level of the WireGuard encoding, before the peers are added, has
/// a property for each name among the secrets that is no peer key, and no
/// other.
pub proof fn lemma_top_level_props_keys(secrets: Seq<SecretView>)
    ensures
        forall|k: Seq<char>|
            top_level_props(secrets).contains_key(k) <==> (secret_keys(secrets).contains(k)
                && peer_parts(k) is None),
    decreases secrets.len(),
{
    if secrets.len() > 0 {
        let rest = secrets.drop_last();
        lemma_top_level_props_keys(rest);
        lemma_keys_step(secrets);
        assert forall|k: Seq<char>|
            top_level_props(secrets).contains_key(k) <==> (secret_keys(secrets).contains(k)
                && peer_parts(k) is None) by {
            assert(top_level_props(rest).contains_key(k) <==> (secret_keys(rest).contains(k)
                && peer_parts(k) is None));
        }
    } else {
        assert forall|k: Seq<char>| !secret_keys(secrets).contains(k) by {}
    }
}

/// At the top level of the WireGuard encoding a name that is no peer key
/// holds the content of the last secret of that name, as a text.
pub proof fn lemma_top_level_props_value(secrets: Seq<SecretView>, i: int)
    requires
        is_last_of_its_name(secrets, i),
        peer_parts(secrets[i].key) is None,
    ensures
        top_level_props(secrets).contains_key(secrets[i].key),
        top_level_props(secrets)[secrets[i].key] == SettingValueView::Text(secrets[i].value),
    decreases secrets.len(),
{
    if i < secrets.len() - 1 {
        let rest = secrets.drop_last();
        assert(secrets[secrets.len() - 1].key != secrets[i].key);
        assert(is_last_of_its_name(rest, i)) by {
            assert forall|j: int| i < j < rest.len() implies (#[trigger] rest[j]).key
                != rest[i].key by {
                assert(secrets[j].key != secrets[i].key);
            }
        }
        lemma_top_level_props_value(rest, i);
    }
}

/// The order of the peers names each public key once, and names exactly the
/// public keys to which a secret is addressed.
pub proof fn lemma_peer_order(secrets: Seq<SecretView>)
    ensures
        peer_order(secrets).no_duplicates(),
        forall|pubkey: Seq<char>|
            peer_order(secrets).contains(pubkey) <==> exists|i: int|
                names_peer(secrets, i, pubkey),
    decreases secrets.len(),
{
    if secrets.len() > 0 {
        let rest = secrets.drop_last();
        let earlier = peer_order(rest);
        lemma_peer_order(rest);
        assert forall|pubkey: Seq<char>|
            peer_order(secrets).contains(pubkey) <==> exists|i: int|
                names_peer(secrets, i, pubkey) by {
            if earlier.contains(pubkey) {
                let i = choose|i: int| names_peer(rest, i, pubkey);
                assert(names_peer(secrets, i, pubkey));
                let at = earlier.index_of(pubkey);
                assert(peer_order(secrets)[at] == pubkey);
            }
            if names_peer(secrets, secrets.len() - 1, pubkey) {
                if !earlier.contains(pubkey) {
                    assert(peer_order(secrets)[earlier.len() as int] == pubkey);
                }
            }
            if exists|i: int| names_peer(secrets, i, pubkey) {
                let i = choose|i: int| names_peer(secrets, i, pubkey);
                if i < secrets.len() - 1 {
                    assert(names_peer(rest, i, pubkey));
                }
            }
            if peer_order(secrets).contains(pubkey) && !earlier.contains(pubkey) {
                let at = peer_order(secrets).index_of(pubkey);
                if at < earlier.len() {
                    assert(earlier[at] == pubkey);
                }
                assert(names_peer(secrets, secrets.len() - 1, pubkey));
            }
        }
    }
}

/// Properties are collected for exactly the peers that the order names.
pub proof fn lemma_peer_groups_keys(secrets: Seq<SecretView>)
    ensures
        forall|pubkey: Seq<char>|
            peer_groups(secrets).contains_key(pubkey) <==> peer_order(secrets).contains(pubkey),
    decreases secrets.len(),
{
    if secrets.len() > 0 {
        let rest = secrets.drop_last();
        let earlier = peer_order(rest);
        lemma_peer_groups_keys(rest);
        assert forall|pubkey: Seq<char>|
            peer_groups(secrets).contains_key(pubkey) <==> peer_order(secrets).contains(
                pubkey,
            ) by {
            if earlier.contains(pubkey) {
                let at = earlier.index_of(pubkey);
                assert(peer_order(secrets)[at] == pubkey);
            }
            if let Some((p, _)) = peer_parts(secrets.last().key) {
                if p == pubkey && !earlier.contains(pubkey) {
                    assert(peer_order(secrets)[earlier.len() as int] == pubkey);
                }
            }
            if peer_order(secrets).contains(pubkey) && !earlier.contains(pubkey) {
                let at = peer_order(secrets).index_of(pubkey);
                if at < earlier.len() {
                    assert(earlier[at] == pubkey);
                }
            }
        }
    }
}

/// For a peer a property is collected exactly where a secret is addressed to
/// that peer and names that property.
pub proof fn lemma_peer_group_props(secrets: Seq<SecretView>, pubkey: Seq<char>)
    ensures
        forall|subkey: Seq<char>|
            group_of(peer_groups(secrets), pubkey).contains_key(subkey) <==> exists|i: int|
                0 <= i < secrets.len() && peer_parts((#[trigger] secrets[i]).key) == Some(
                    (pubkey, subkey),
                ),
    decreases secrets.len(),
{
    if secrets.len() > 0 {
        let rest = secrets.drop_last();
        lemma_peer_group_props(rest, pubkey);
        assert forall|subkey: Seq<char>|
            group_of(peer_groups(secrets), pubkey).contains_key(subkey) <==> exists|i: int|
                0 <= i < secrets.len() && peer_parts((#[trigger] secrets[i]).key) == Some(
                    (pubkey, subkey),
                ) by {
            let wanted = Some((pubkey, subkey));
            if group_of(peer_groups(rest), pubkey).contains_key(subkey) {
                let i = choose|i: int|
                    0 <= i < rest.len() && peer_parts((#[trigger] rest[i]).key) == wanted;
                assert(peer_parts(secrets[i].key) == wanted);
            }
            if peer_parts(secrets.last().key) == wanted {
                assert(peer_parts(secrets[secrets.len() - 1].key) == wanted);
            }
            if exists|i: int|
                0 <= i < secrets.len() && peer_parts((#[trigger] secrets[i]).key) == wanted {
                let i = choose|i: int|
                    0 <= i < secrets.len() && peer_parts((#[trigger] secrets[i]).key) == wanted;
                if i < secrets.len() - 1 {
                    assert(peer_parts(rest[i].key) == wanted);
                }
            }
        }
    }
}

/// A property collected for a peer holds the content of the last secret
/// that is addressed to that peer and names that property.
pub proof fn lemma_peer_group_value(secrets: Seq<SecretView>, i: int)
    requires
        is_last_of_its_name(secrets, i),
        peer_parts(secrets[i].key) is Some,
    ensures
        ({
            let (pubkey, subkey) = peer_parts(secrets[i].key)->Some_0;
            &&& peer_groups(secrets).contains_key(pubkey)
            &&& peer_groups(secrets)[pubkey].contains_key(subkey)
            &&& peer_groups(secrets)[pubkey][subkey] == secrets[i].value
        }),
    decreases secrets.len(),
{
    if i < secrets.len() - 1 {
        let rest = secrets.drop_last();
        let last = secrets[secrets.len() - 1];
        assert(last.key != secrets[i].key);
        assert(is_last_of_its_name(rest, i)) by {
            assert forall|j: int| i < j < rest.len() implies (#[trigger] rest[j]).key
                != rest[i].key by {
                assert(secrets[j].key != secrets[i].key);
            }
        }
        lemma_peer_group_value(rest, i);
        if peer_parts(last.key) == peer_parts(secrets[i].key) {
            lemma_peer_parts_injective(secrets[i].key, last.key);
        }
    }
}

/// The list of peers has one map for each public key of the order, at the
/// same place, and that map holds the public key as its `public-key`.
pub proof fn lemma_peer_list(secrets: Seq<SecretView>, at: int)
    requires
        0 <= at < peer_order(secrets).len(),
    ensures
        peer_list(secrets).len() == peer_order(secrets).len(),
        peer_list(secrets)[at] == peer_entry(peer_groups(secrets), peer_order(secrets)[at]),
        peer_list(secrets)[at].contains_key("public-key"@),
        peer_list(secrets)[at]["public-key"@] == peer_order(secrets)[at],
        forall|subkey: Seq<char>|
            subkey != "public-key"@ ==> (peer_list(secrets)[at].contains_key(subkey)
                <==> peer_groups(secrets)[peer_order(secrets)[at]].contains_key(subkey)),
        forall|subkey: Seq<char>|
            subkey != "public-key"@ && peer_list(secrets)[at].contains_key(subkey) ==> peer_list(
                secrets,
            )[at][subkey] == peer_groups(secrets)[peer_order(secrets)[at]][subkey],
{
    lemma_peer_groups_keys(secrets);
    let pubkey = peer_order(secrets)[at];
    assert(peer_order(secrets).contains(pubkey));
}

/// The WireGuard encoding holds the list of peers under `peers` exactly
/// where a secret is addressed to a peer; every other name holds what the
/// top level holds.
pub proof fn lemma_wireguard_props(secrets: Seq<SecretView>)
    ensures
        (exists|i: int, pubkey: Seq<char>| names_peer(secrets, i, pubkey)) ==> wireguard_props(
            secrets,
        ).contains_key("peers"@) && wireguard_props(secrets)["peers"@]
            == SettingValueView::Peers(peer_list(secrets)),
        !(exists|i: int, pubkey: Seq<char>| names_peer(secrets, i, pubkey)) ==> wireguard_props(
            secrets,
        ) == top_level_props(secrets),
        forall|k: Seq<char>|
            k != "peers"@ ==> (wireguard_props(secrets).contains_key(k) <==> top_level_props(
                secrets,
            ).contains_key(k)),
        forall|k: Seq<char>|
            k != "peers"@ && wireguard_props(secrets).contains_key(k) ==> wireguard_props(
                secrets,
            )[k] == top_level_props(secrets)[k],
{
    lemma_peer_order(secrets);
    if exists|i: int, pubkey: Seq<char>| names_peer(secrets, i, pubkey) {
        let (i, pubkey) = choose|i: int, pubkey: Seq<char>| names_peer(secrets, i, pubkey);
        assert(peer_order(secrets).contains(pubkey));
    }
    if peer_order(secrets).len() > 0 {
        let pubkey = peer_order(secrets)[0];
        assert(peer_order(secrets).contains(pubkey));
        let i = choose|i: int| names_peer(secrets, i, pubkey);
        assert(names_peer(secrets, i, pubkey));
    }
}

} // verus!
