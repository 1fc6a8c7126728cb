//! Shaping a flat list of secrets into the property map of a setting.

use crate::ordered_map::OrderedMap;
use crate::peer_key::{peer_parts, split_peer_key};
use crate::settings::{peer_views, PropMap, SettingValue, SettingValueView};
use crate::string_set::StringSet;
use vstd::prelude::*;

verus! {

/// A secret as it was read: its name within the setting, and its content.
#[derive(Debug, PartialEq, Eq)]
pub struct Secret {
    pub key: String,
    pub value: String,
}

/// The texts of a secret.
pub struct SecretView {
    pub key: Seq<char>,
    pub value: Seq<char>,
}

impl View for Secret {
    type V = SecretView;

    open spec fn view(&self) -> SecretView {
        SecretView { key: self.key@, value: self.value@ }
    }
}

impl Clone for Secret {
    fn clone(&self) -> (copy: Self)
        ensures
            copy == *self,
    {
        Secret { key: self.key.clone(), value: self.value.clone() }
    }
}

/// The texts of a list of secrets, in order.
pub open spec fn secret_views(secrets: Seq<Secret>) -> Seq<SecretView> {
    secrets.map_values(|s: Secret| s@)
}

/// The texts of a list of name and content pairs, in order.
pub open spec fn pair_views(pairs: Seq<(String, String)>) -> Seq<SecretView> {
    pairs.map_values(|p: (String, String)| SecretView { key: p.0@, value: p.1@ })
}

/// The names that occur among `secrets`.
pub open spec fn secret_keys(secrets: Seq<SecretView>) -> Set<Seq<char>> {
    Set::new(|k: Seq<char>| exists|i: int| 0 <= i < secrets.len() && (#[trigger] secrets[i]).key == k)
}

/// The flat encoding: every secret under its name, as a text. Of two
/// secrets with one name the later one stays.
pub open spec fn generic_props(secrets: Seq<SecretView>) -> Map<Seq<char>, SettingValueView>
    decreases secrets.len(),
{
    if secrets.len() == 0 {
        Map::empty()
    } else {
        generic_props(secrets.drop_last()).insert(
            secrets.last().key,
            SettingValueView::Text(secrets.last().value),
        )
    }
}

/// The top level of the WireGuard encoding before the peers are added: the
/// flat encoding of the secrets whose name is no peer key.
pub open spec fn top_level_props(secrets: Seq<SecretView>) -> Map<Seq<char>, SettingValueView>
    decreases secrets.len(),
{
    if secrets.len() == 0 {
        Map::empty()
    } else {
        let earlier = top_level_props(secrets.drop_last());
        let secret = secrets.last();
        if peer_parts(secret.key) is Some {
            earlier
        } else {
            earlier.insert(secret.key, SettingValueView::Text(secret.value))
        }
    }
}

/// The properties collected for `pubkey` so far; none for an unknown peer.
pub open spec fn group_of(
    groups: Map<Seq<char>, Map<Seq<char>, Seq<char>>>,
    pubkey: Seq<char>,
) -> Map<Seq<char>, Seq<char>> {
    if groups.contains_key(pubkey) {
        groups[pubkey]
    } else {
        Map::empty()
    }
}

/// The secrets whose name is a peer key, by public key and then by property.
/// Of two secrets with one name the later one stays.
pub open spec fn peer_groups(secrets: Seq<SecretView>) -> Map<Seq<char>, Map<Seq<char>, Seq<char>>>
    decreases secrets.len(),
{
    if secrets.len() == 0 {
        Map::empty()
    } else {
        let earlier = peer_groups(secrets.drop_last());
        let secret = secrets.last();
        match peer_parts(secret.key) {
            Some((pubkey, subkey)) => earlier.insert(
                pubkey,
                group_of(earlier, pubkey).insert(subkey, secret.value),
            ),
            None => earlier,
        }
    }
}

/// The public keys that the peer keys among `secrets` name, each once, in the
/// order in which they first occur.
pub open spec fn peer_order(secrets: Seq<SecretView>) -> Seq<Seq<char>>
    decreases secrets.len(),
{
    if secrets.len() == 0 {
        Seq::empty()
    } else {
        let earlier = peer_order(secrets.drop_last());
        match peer_parts(secrets.last().key) {
            Some((pubkey, _)) => if earlier.contains(pubkey) {
                earlier
            } else {
                earlier.push(pubkey)
            },
            None => earlier,
        }
    }
}

/// The map that stands for one peer: the properties collected for it, and its
/// public key under the name `public-key`, whatever was collected under that
/// name.
pub open spec fn peer_entry(
    groups: Map<Seq<char>, Map<Seq<char>, Seq<char>>>,
    pubkey: Seq<char>,
) -> Map<Seq<char>, Seq<char>> {
    group_of(groups, pubkey).insert("public-key"@, pubkey)
}

/// The list of peers of the WireGuard encoding.
pub open spec fn peer_list(secrets: Seq<SecretView>) -> Seq<Map<Seq<char>, Seq<char>>> {
    peer_order(secrets).map_values(|pubkey: Seq<char>| peer_entry(peer_groups(secrets), pubkey))
}

/// The WireGuard encoding: the secrets whose name is no peer key at the top
/// level, and, where any peer key occurs, the list of peers under the name
/// `peers`, whatever else had that name.
pub open spec fn wireguard_props(secrets: Seq<SecretView>) -> Map<Seq<char>, SettingValueView> {
    if peer_order(secrets).len() == 0 {
        top_level_props(secrets)
    } else {
        top_level_props(secrets).insert("peers"@, SettingValueView::Peers(peer_list(secrets)))
    }
}

/// Taking one more secret: the first `i + 1` are the first `i` and the one
/// at index `i`.
proof fn lemma_take_next(secrets: Seq<Secret>, i: int)
    requires
        0 <= i < secrets.len(),
    ensures
        secret_views(secrets).take(i + 1).drop_last() == secret_views(secrets).take(i),
        secret_views(secrets).take(i + 1).last() == secrets[i]@,
        secret_keys(secret_views(secrets).take(i + 1)) == secret_keys(
            secret_views(secrets).take(i),
        ).insert(secrets[i].key@),
{
    let views = secret_views(secrets);
    let before = views.take(i);
    let after = views.take(i + 1);
    assert(after.drop_last() =~= before);
    assert forall|k: Seq<char>| #[trigger]
        secret_keys(after).contains(k) == secret_keys(before).insert(secrets[i].key@).contains(
            k,
        ) by {
        if secret_keys(before).contains(k) {
            let j = choose|j: int| 0 <= j < before.len() && (#[trigger] before[j]).key == k;
            assert(after[j].key == k);
        }
        if k == secrets[i].key@ {
            assert(after[i].key == k);
        }
        if secret_keys(after).contains(k) {
            let j = choose|j: int| 0 <= j < after.len() && (#[trigger] after[j]).key == k;
            if j < i {
                assert(before[j].key == k);
            }
        }
    }
    assert(secret_keys(after) =~= secret_keys(before).insert(secrets[i].key@));
}

/// Encodes secrets for a setting without structure of its own: one property
/// for each name, holding the content as a text. Also gives the set of names
/// that went in.
pub fn encode_generic_secrets(secrets: &[Secret]) -> (encoded: (PropMap, StringSet))
    ensures
        encoded.0@ == generic_props(secret_views(secrets@)),
        encoded.1@ == secret_keys(secret_views(secrets@)),
{
    let ghost views = secret_views(secrets@);
    let mut props: PropMap = OrderedMap::new();
    let mut inserted = StringSet::new();
    let mut i: usize = 0;
    proof {
        assert(secret_keys(views.take(0)) =~= Set::<Seq<char>>::empty());
    }
    while i < secrets.len()
        invariant
            i <= secrets.len(),
            views == secret_views(secrets@),
            props@ == generic_props(views.take(i as int)),
            inserted@ == secret_keys(views.take(i as int)),
        decreases secrets.len() - i,
    {
        let secret = &secrets[i];
        proof {
            lemma_take_next(secrets@, i as int);
        }
        props.insert(secret.key.clone(), SettingValue::Text(secret.value.clone()));
        inserted.insert(secret.key.clone());
        i = i + 1;
    }
    proof {
        assert(views.take(i as int) =~= views);
    }
    (props, inserted)
}

/// A copy of the properties collected for one peer, with the peer's public
/// key set as its `public-key`.
fn peer_with_public_key(values: &OrderedMap<String>, pubkey: &String) -> (peer: OrderedMap<String>)
    ensures
        peer@ == values@.insert("public-key"@, pubkey@),
{
    let mut peer: OrderedMap<String> = OrderedMap::new();
    let count: usize = values.len();
    let mut j: usize = 0;
    while j < count
        invariant
            j <= count,
            count == values.keys().len(),
            forall|k: Seq<char>| peer@.contains_key(k) <==> values.keys().take(j as int).contains(k),
            forall|k: Seq<char>| peer@.contains_key(k) ==> peer@[k] == values@[k],
        decreases count - j,
    {
        let name = values.key_at(j);
        let value = values.value_at(j);
        let ghost before = peer@;
        peer.insert(name.clone(), value.clone());
        proof {
            let done = values.keys().take(j as int);
            let next = values.keys().take(j + 1);
            assert(next =~= done.push(name@));
            assert forall|k: Seq<char>| peer@.contains_key(k) <==> next.contains(k) by {
                if done.contains(k) {
                    let at = done.index_of(k);
                    assert(next[at] == k);
                }
                if k == name@ {
                    assert(next[j as int] == k);
                }
                if next.contains(k) && k != name@ {
                    let at = next.index_of(k);
                    assert(done[at] == k);
                }
            }
        }
        j = j + 1;
    }
    proof {
        assert(values.keys().take(j as int) =~= values.keys());
        values.lemma_dom_is_keys();
        assert(peer@ =~= values@);
    }
    peer.insert("public-key".to_owned(), pubkey.clone());
    peer
}

/// Encodes secrets for a WireGuard setting. A secret named
/// `peers.<public key>.<property>` goes into the map of that peer, which also
/// gets the public key as its `public-key`; the peers form a list under the
/// name `peers`, in the order in which their public keys first occur. Every
/// other secret goes to the top level under its name. Also gives the set of
/// names that went in.
pub fn encode_wireguard_secrets(secrets: &[Secret]) -> (encoded: (PropMap, StringSet))
    ensures
        encoded.0@ == wireguard_props(secret_views(secrets@)),
        encoded.1@ == secret_keys(secret_views(secrets@)),
{
    let ghost views = secret_views(secrets@);
    let mut props: PropMap = OrderedMap::new();
    let mut inserted = StringSet::new();
    let mut groups: OrderedMap<OrderedMap<String>> = OrderedMap::new();
    let mut i: usize = 0;
    proof {
        assert(secret_keys(views.take(0)) =~= Set::<Seq<char>>::empty());
    }
    while i < secrets.len()
        invariant
            i <= secrets.len(),
            views == secret_views(secrets@),
            props@ == top_level_props(views.take(i as int)),
            groups@ == peer_groups(views.take(i as int)),
            groups.keys() == peer_order(views.take(i as int)),
            inserted@ == secret_keys(views.take(i as int)),
        decreases secrets.len() - i,
    {
        let secret = &secrets[i];
        proof {
            lemma_take_next(secrets@, i as int);
            groups.lemma_dom_is_keys();
        }
        let ghost earlier = groups@;
        match split_peer_key(secret.key.as_str()) {
            Some((pubkey, subkey)) => {
                let collected = groups.insert(pubkey.clone(), OrderedMap::new());
                let mut peer: OrderedMap<String> = match collected {
                    Some(p) => p,
                    None => OrderedMap::new(),
                };
                peer.insert(subkey, secret.value.clone());
                groups.insert(pubkey, peer);
                proof {
                    assert(groups@ =~= earlier.insert(
                        pubkey@,
                        group_of(earlier, pubkey@).insert(subkey@, secret.value@),
                    ));
                }
            },
            None => {
                props.insert(secret.key.clone(), SettingValue::Text(secret.value.clone()));
            },
        }
        inserted.insert(secret.key.clone());
        i = i + 1;
    }
    proof {
        assert(views.take(i as int) =~= views);
    }
    let count: usize = groups.len();
    if count > 0 {
        let mut peers: Vec<OrderedMap<String>> = Vec::new();
        let mut at: usize = 0;
        while at < count
            invariant
                at <= count,
                count == groups.keys().len(),
                groups@ == peer_groups(views),
                groups.keys() == peer_order(views),
                peers.len() == at,
                peer_views(peers@) == peer_list(views).take(at as int),
            decreases count - at,
        {
            let pubkey = groups.key_at(at);
            let values = groups.value_at(at);
            let peer = peer_with_public_key(values, pubkey);
            let ghost listed = peers@;
            let ghost entry = peer@;
            peers.push(peer);
            proof {
                let wanted = peer_list(views).take(at + 1);
                assert(entry == peer_entry(groups@, groups.keys()[at as int]));
                assert(wanted[at as int] == entry);
                assert forall|j: int| 0 <= j < at + 1 implies peer_views(peers@)[j]
                    == wanted[j] by {
                    if j < at {
                        assert(peer_views(listed)[j] == peer_list(views).take(at as int)[j]);
                        assert(peers@[j] == listed[j]);
                    }
                }
                assert(peer_views(peers@) =~= wanted);
            }
            at = at + 1;
        }
        proof {
            assert(peer_list(views).take(at as int) =~= peer_list(views));
        }
        props.insert("peers".to_owned(), SettingValue::Peers(peers));
    }
    (props, inserted)
}

/// The property map of a setting: the WireGuard encoding for the setting
/// `wireguard`, the flat encoding for every other.
pub open spec fn encoded_props(setting_name: Seq<char>, secrets: Seq<SecretView>) -> Map<
    Seq<char>,
    SettingValueView,
> {
    if setting_name == "wireguard"@ {
        wireguard_props(secrets)
    } else {
        generic_props(secrets)
    }
}

/// Encodes secrets in the way of the setting they are for: as peers and
/// their properties for the setting `wireguard`, flat for every other. Also
/// gives the set of names that went in.
pub fn encode(setting_name: &str, secrets: &[Secret]) -> (encoded: (PropMap, StringSet))
    ensures
        encoded.0@ == encoded_props(setting_name@, secret_views(secrets@)),
        encoded.1@ == secret_keys(secret_views(secrets@)),
{
    let wireguard: String = "wireguard".to_owned();
    let wanted: String = setting_name.to_owned();
    if wanted == wireguard {
        encode_wireguard_secrets(secrets)
    } else {
        encode_generic_secrets(secrets)
    }
}

/// As `encode_generic_secrets`, for secrets given as pairs of name and
/// content.
pub fn build_generic_secrets(secrets: &[(String, String)]) -> (encoded: (PropMap, StringSet))
    ensures
        encoded.0@ == generic_props(pair_views(secrets@)),
        encoded.1@ == secret_keys(pair_views(secrets@)),
{
    let list = secrets_from_pairs(secrets);
    encode_generic_secrets(list.as_slice())
}

/// As `encode_wireguard_secrets`, for secrets given as pairs of name and
/// content.
pub fn build_wireguard_secrets(secrets: &[(String, String)]) -> (encoded: (PropMap, StringSet))
    ensures
        encoded.0@ == wireguard_props(pair_views(secrets@)),
        encoded.1@ == secret_keys(pair_views(secrets@)),
{
    let list = secrets_from_pairs(secrets);
    encode_wireguard_secrets(list.as_slice())
}

/// The secrets that a list of pairs stands for.
fn secrets_from_pairs(pairs: &[(String, String)]) -> (secrets: Vec<Secret>)
    ensures
        secret_views(secrets@) == pair_views(pairs@),
{
    let mut secrets: Vec<Secret> = Vec::new();
    let mut i: usize = 0;
    while i < pairs.len()
        invariant
            i <= pairs.len(),
            secrets.len() == i,
            forall|j: int| 0 <= j < i ==> (#[trigger] secrets[j])@ == pair_views(pairs@)[j],
        decreases pairs.len() - i,
    {
        let pair = &pairs[i];
        secrets.push(Secret { key: pair.0.clone(), value: pair.1.clone() });
        i = i + 1;
    }
    proof {
        assert(secret_views(secrets@) =~= pair_views(pairs@));
    }
    secrets
}

} // verus!
