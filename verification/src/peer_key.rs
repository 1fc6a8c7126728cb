//! Secret names of the form `peers.<public key>.<property>`, by which a secret
//! is addressed to one peer of a WireGuard setting.

use vstd::prelude::*;
use vstd::string::StrSliceExecFns;

verus! {

/// `key` is the word `peers`, a dot, `pubkey`, a dot and `subkey`, where
/// neither `pubkey` nor `subkey` holds a dot. Either of the two may be empty.
pub open spec fn is_peer_key(key: Seq<char>, pubkey: Seq<char>, subkey: Seq<char>) -> bool {
    &&& !pubkey.contains('.')
    &&& !subkey.contains('.')
    &&& key == "peers"@ + seq!['.'] + pubkey + seq!['.'] + subkey
}

/// The public key and the property that a peer key names; `None` for every
/// other key.
pub open spec fn peer_parts(key: Seq<char>) -> Option<(Seq<char>, Seq<char>)> {
    if exists|p: Seq<char>, s: Seq<char>| is_peer_key(key, p, s) {
        Some(choose|p: Seq<char>, s: Seq<char>| is_peer_key(key, p, s))
    } else {
        None
    }
}

/// Where the dots of a peer key are: the first at index 5, the second right
/// after the public key, and none elsewhere.
pub proof fn lemma_peer_key_shape(key: Seq<char>, pubkey: Seq<char>, subkey: Seq<char>)
    requires
        is_peer_key(key, pubkey, subkey),
    ensures
        key.len() == 7 + pubkey.len() + subkey.len(),
        key.subrange(0, 5) == "peers"@,
        key[5] == '.',
        key[6 + pubkey.len() as int] == '.',
        pubkey == key.subrange(6, 6 + pubkey.len() as int),
        subkey == key.subrange(7 + pubkey.len() as int, key.len() as int),
        forall|i: int| 0 <= i < key.len() && i != 5 && i != 6 + pubkey.len() ==> key[i] != '.',
{
    reveal_strlit("peers");
    let word = "peers"@;
    assert(word.len() == 5);
    assert(key.subrange(0, 5) =~= word);
    assert(pubkey =~= key.subrange(6, 6 + pubkey.len() as int));
    assert(subkey =~= key.subrange(7 + pubkey.len() as int, key.len() as int));
    assert forall|i: int| 0 <= i < key.len() && i != 5 && i != 6 + pubkey.len() implies key[i]
        != '.' by {
        if i < 5 {
            assert(key[i] == word[i]);
        } else if i < 6 + pubkey.len() {
            assert(key[i] == pubkey[i - 6]);
            assert(pubkey.contains(pubkey[i - 6]));
        } else {
            assert(key[i] == subkey[i - 7 - pubkey.len()]);
            assert(subkey.contains(subkey[i - 7 - pubkey.len()]));
        }
    }
}

/// A key is a peer key in at most one way.
pub proof fn lemma_peer_parts_unique(
    key: Seq<char>,
    pubkey_a: Seq<char>,
    subkey_a: Seq<char>,
    pubkey_b: Seq<char>,
    subkey_b: Seq<char>,
)
    requires
        is_peer_key(key, pubkey_a, subkey_a),
        is_peer_key(key, pubkey_b, subkey_b),
    ensures
        pubkey_a == pubkey_b,
        subkey_a == subkey_b,
{
    lemma_peer_key_shape(key, pubkey_a, subkey_a);
    lemma_peer_key_shape(key, pubkey_b, subkey_b);
    if pubkey_a.len() != pubkey_b.len() {
        if pubkey_a.len() < pubkey_b.len() {
            assert(key[6 + pubkey_a.len() as int] == '.');
        } else {
            assert(key[6 + pubkey_b.len() as int] == '.');
        }
    }
}

/// What `peer_parts` gives for a key that is known to be a peer key.
pub proof fn lemma_peer_parts_of(key: Seq<char>, pubkey: Seq<char>, subkey: Seq<char>)
    requires
        is_peer_key(key, pubkey, subkey),
    ensures
        peer_parts(key) == Some((pubkey, subkey)),
{
    let (p, s) = choose|p: Seq<char>, s: Seq<char>| is_peer_key(key, p, s);
    lemma_peer_parts_unique(key, p, s, pubkey, subkey);
}

/// `peer_parts` gives a pair exactly for the keys that are peer keys with
/// these parts.
pub proof fn lemma_peer_parts_iff(key: Seq<char>, pubkey: Seq<char>, subkey: Seq<char>)
    ensures
        peer_parts(key) == Some((pubkey, subkey)) <==> is_peer_key(key, pubkey, subkey),
{
    if is_peer_key(key, pubkey, subkey) {
        lemma_peer_parts_of(key, pubkey, subkey);
    }
    if peer_parts(key) == Some((pubkey, subkey)) {
        let (p, s) = choose|p: Seq<char>, s: Seq<char>| is_peer_key(key, p, s);
        assert(is_peer_key(key, p, s));
    }
}

/// Two keys that name the same peer and the same property are one key.
pub proof fn lemma_peer_parts_injective(key1: Seq<char>, key2: Seq<char>)
    requires
        peer_parts(key1) is Some,
        peer_parts(key1) == peer_parts(key2),
    ensures
        key1 == key2,
{
    let (p, s) = peer_parts(key1)->Some_0;
    lemma_peer_parts_iff(key1, p, s);
    lemma_peer_parts_iff(key2, p, s);
}

/// The characters of `text`, in order.
fn chars_of(text: &str) -> (chars: Vec<char>)
    ensures
        chars@ == text@,
{
    broadcast use vstd::string::group_string_axioms;

    let mut chars: Vec<char> = Vec::new();
    for c in it: text.chars()
        invariant
            it.seq() == text@,
            chars@ == it.seq().take(it.index() as int),
    {
        chars.push(c);
        proof {
            assert(it.seq().take(it.index() + 1) =~= it.seq().take(it.index() as int).push(c));
        }
    }
    proof {
        assert(text@.take(text@.len() as int) =~= text@);
    }
    chars
}

/// The index of the first dot at or after `from`, or the length where there
/// is none.
fn find_dot(chars: &Vec<char>, from: usize) -> (at: usize)
    requires
        from <= chars.len(),
    ensures
        from <= at <= chars.len(),
        at < chars.len() ==> chars[at as int] == '.',
        forall|i: int| from <= i < at ==> chars[i] != '.',
{
    let mut i: usize = from;
    while i < chars.len()
        invariant
            from <= i <= chars.len(),
            forall|j: int| from <= j < i ==> chars[j] != '.',
        decreases chars.len() - i,
    {
        if chars[i] == '.' {
            return i;
        }
        i = i + 1;
    }
    chars.len()
}

/// Splits a peer key into its public key and its property. Every key that
/// has another shape gives `None`.
pub fn split_peer_key(key: &str) -> (parts: Option<(String, String)>)
    ensures
        match parts {
            Some((pubkey, subkey)) => is_peer_key(key@, pubkey@, subkey@) && peer_parts(key@)
                == Some((pubkey@, subkey@)),
            None => peer_parts(key@) is None,
        },
{
    let chars = chars_of(key);
    let len: usize = chars.len();
    proof {
        if let Some((p, s)) = peer_parts(key@) {
            lemma_peer_key_shape(key@, p, s);
        }
    }
    let first: usize = find_dot(&chars, 0);
    if first == len {
        return None;
    }
    let second: usize = find_dot(&chars, first + 1);
    if second == len {
        return None;
    }
    let third: usize = find_dot(&chars, second + 1);
    if third != len {
        return None;
    }
    let head: String = key.substring_char(0, first).to_owned();
    let word: String = "peers".to_owned();
    if head != word {
        proof {
            if let Some((p, s)) = peer_parts(key@) {
                assert(first == 5);
            }
        }
        return None;
    }
    let pubkey: String = key.substring_char(first + 1, second).to_owned();
    let subkey: String = key.substring_char(second + 1, len).to_owned();
    proof {
        assert(!pubkey@.contains('.')) by {
            if pubkey@.contains('.') {
                let j = pubkey@.index_of('.');
                assert(key@[first + 1 + j] == '.');
            }
        }
        assert(!subkey@.contains('.')) by {
            if subkey@.contains('.') {
                let j = subkey@.index_of('.');
                assert(key@[second + 1 + j] == '.');
            }
        }
        assert(key@ =~= "peers"@ + seq!['.'] + pubkey@ + seq!['.'] + subkey@);
        lemma_peer_parts_of(key@, pubkey@, subkey@);
    }
    Some((pubkey, subkey))
}

} // verus!
