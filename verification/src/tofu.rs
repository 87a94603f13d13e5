//! Trust on first use: how two peers come to a common key, and how it is kept.
//!
//! Each side makes an X25519 key pair and sends the public half. Both compute
//! the same shared secret, from which the transport key is derived. The key is
//! stored under the peer's id, in hexadecimal, in a JSON object.
use crate::crypto::key_array;
use crate::error::Error;
use crate::primitives::{
    blake3_derive_key, blake3_derived_key, blake3_digest, blake3_hash, hex_bytes, hex_decode,
    hex_encode, hex_text, hex_value, is_hex_text, json_object, pairs_map, parse_json_object,
    write_json_object, x25519_agree, x25519_public, x25519_public_key, x25519_random_secret,
    x25519_shared,
};
use crate::text::{same_text, texts};
use vstd::prelude::*;
use vstd::slice::slice_subrange;

verus! {

/// The keys that a store holds; an unreadable store holds none.
pub open spec fn stored(text: Option<Seq<char>>) -> Map<Seq<char>, Seq<char>> {
    match text {
        None => Map::empty(),
        Some(t) => match json_object(t) {
            None => Map::empty(),
            Some(m) => m,
        },
    }
}

/// The text of a store that was read, or not.
pub open spec fn opt_str(text: Option<&str>) -> Option<Seq<char>> {
    match text {
        None => None,
        Some(t) => Some(t@),
    }
}

/// The key that is written in hexadecimal, if it has 32 bytes.
pub open spec fn key_of_hex(hex: Seq<char>) -> Option<Seq<u8>> {
    if is_hex_text(hex) && hex_bytes(hex).len() == 32 {
        Some(hex_bytes(hex))
    } else {
        None
    }
}

/// The key of a peer in a store.
pub open spec fn key_in(store: Map<Seq<char>, Seq<char>>, peer_id: Seq<char>) -> Option<Seq<u8>> {
    if store.dom().contains(peer_id) {
        key_of_hex(store[peer_id])
    } else {
        None
    }
}

/// What is written in hexadecimal is read back.
pub proof fn law_hex_round_trip(data: Seq<u8>)
    ensures
        is_hex_text(hex_text(data)),
        hex_bytes(hex_text(data)) == data,
{
    let t = hex_text(data);
    assert forall|i: int| 0 <= i < t.len() implies (#[trigger] hex_value(t[i])) is Some by {
        assert(0 <= data[i / 2] as int / 16 < 16);
        assert(0 <= data[i / 2] as int % 16 < 16);
    }
    assert forall|i: int| 0 <= i < data.len() implies hex_bytes(t)[i] == data[i] by {
        let b = data[i] as int;
        assert(t[2 * i] == crate::primitives::hex_digit(b / 16));
        assert(t[2 * i + 1] == crate::primitives::hex_digit(b % 16));
        assert(hex_value(t[2 * i]) == Some(b / 16));
        assert(hex_value(t[2 * i + 1]) == Some(b % 16));
        assert(16 * (b / 16) + b % 16 == b);
    }
    assert(hex_bytes(t) =~= data);
}

/// A key that was stored for a peer is found for it, and the keys of all other
/// peers are as before.
pub proof fn law_stored_key_is_found(
    store: Map<Seq<char>, Seq<char>>,
    peer_id: Seq<char>,
    key: Seq<u8>,
    other: Seq<char>,
)
    requires
        key.len() == 32,
    ensures
        key_in(store.insert(peer_id, hex_text(key)), peer_id) == Some(key),
        other != peer_id ==> key_in(store.insert(peer_id, hex_text(key)), other) == key_in(
            store,
            other,
        ),
        key_in(store.remove(peer_id), peer_id) is None,
        other != peer_id ==> key_in(store.remove(peer_id), other) == key_in(store, other),
{
    law_hex_round_trip(key);
}

fn load_store(text: Option<&str>) -> (r: Vec<(String, String)>)
    ensures
        pairs_map(r@) == stored(opt_str(text)),
{
    match text {
        Some(t) => match parse_json_object(t) {
            Some(pairs) => pairs,
            None => Vec::new(),
        },
        None => Vec::new(),
    }
}

/// The key of a peer among the pairs of a store.
pub fn key_among(pairs: &Vec<(String, String)>, peer_id: &str) -> (r: Option<[u8; 32]>)
    ensures
        match r {
            Some(key) => key_in(pairs_map(pairs@), peer_id@) == Some(key@),
            None => key_in(pairs_map(pairs@), peer_id@) is None,
        },
{
    let mut i: usize = pairs.len();
    assert(pairs@.take(i as int) =~= pairs@);
    while i > 0
        invariant
            i <= pairs@.len(),
            pairs_map(pairs@.take(i as int)).dom().contains(peer_id@) == pairs_map(
                pairs@,
            ).dom().contains(peer_id@),
            pairs_map(pairs@.take(i as int)).dom().contains(peer_id@) ==> pairs_map(
                pairs@.take(i as int),
            )[peer_id@] == pairs_map(pairs@)[peer_id@],
        decreases i,
    {
        i = i - 1;
        proof {
            assert(pairs@.take(i + 1).drop_last() =~= pairs@.take(i as int));
            assert(pairs@.take(i + 1).last() == pairs@[i as int]);
        }
        if same_text(pairs[i].0.as_str(), peer_id) {
            let bytes = match hex_decode(pairs[i].1.as_str()) {
                Some(b) => b,
                None => {
                    return None;
                },
            };
            if bytes.len() != 32 {
                return None;
            }
            assert(bytes@.take(32) =~= bytes@);
            return Some(key_array(bytes.as_slice()));
        }
    }
    assert(pairs@.take(0) =~= Seq::empty());
    None
}

/// The key of a peer in the store whose text was read.
pub fn get_peer_key(store: Option<&str>, peer_id: &str) -> (r: Option<[u8; 32]>)
    ensures
        match r {
            Some(key) => key_in(stored(opt_str(store)), peer_id@) == Some(key@),
            None => key_in(stored(opt_str(store)), peer_id@) is None,
        },
{
    let pairs = load_store(store);
    key_among(&pairs, peer_id)
}

/// Whether the store holds a key of a peer.
pub fn has_peer_key(store: Option<&str>, peer_id: &str) -> (r: bool)
    ensures
        r == key_in(stored(opt_str(store)), peer_id@) is Some,
{
    get_peer_key(store, peer_id).is_some()
}

proof fn lemma_pairs_push(pairs: Seq<(String, String)>, pair: (String, String))
    ensures
        pairs_map(pairs.push(pair)) == pairs_map(pairs).insert(pair.0@, pair.1@),
{
    assert(pairs.push(pair).drop_last() =~= pairs);
}

/// The text of the store with the key of a peer in it.
pub fn store_peer_key(store: Option<&str>, peer_id: &str, key: &[u8; 32]) -> (r: Option<String>)
    ensures
        r is Some,
        r matches Some(text) ==> stored(Some(text@)) == stored(opt_str(store)).insert(
            peer_id@,
            hex_text(key@),
        ),
        r matches Some(text) ==> key_in(stored(Some(text@)), peer_id@) == Some(key@),
{
    let mut pairs = load_store(store);
    let pair = (peer_id.to_owned(), hex_encode(key.as_slice()));
    proof {
        lemma_pairs_push(pairs@, pair);
        law_stored_key_is_found(stored(opt_str(store)), peer_id@, key@, peer_id@);
    }
    pairs.push(pair);
    write_json_object(&pairs)
}

/// The text of the store without the key of a peer.
pub fn revoke_peer_key(store: Option<&str>, peer_id: &str) -> (r: Option<String>)
    ensures
        r is Some,
        r matches Some(text) ==> stored(Some(text@)) == stored(opt_str(store)).remove(peer_id@),
{
    let pairs = load_store(store);
    let mut kept: Vec<(String, String)> = Vec::new();
    let mut i: usize = 0;
    assert(pairs@.take(0) =~= Seq::empty());
    assert(pairs_map(kept@) =~= pairs_map(pairs@.take(0)).remove(peer_id@));
    while i < pairs.len()
        invariant
            i <= pairs@.len(),
            pairs_map(kept@) == pairs_map(pairs@.take(i as int)).remove(peer_id@),
        decreases pairs.len() - i,
    {
        proof {
            assert(pairs@.take(i + 1).drop_last() =~= pairs@.take(i as int));
            assert(pairs@.take(i + 1).last() == pairs@[i as int]);
        }
        if !same_text(pairs[i].0.as_str(), peer_id) {
            let pair = (pairs[i].0.clone(), pairs[i].1.clone());
            proof {
                lemma_pairs_push(kept@, pair);
            }
            kept.push(pair);
        }
        i = i + 1;
        assert(pairs_map(kept@) =~= pairs_map(pairs@.take(i as int)).remove(peer_id@));
    }
    assert(pairs@.take(i as int) =~= pairs@);
    write_json_object(&kept)
}

/// The ids of all peers in the store.
pub fn list_trusted_peers(store: Option<&str>) -> (r: Vec<String>)
    ensures
        forall|id: Seq<char>|
            #[trigger] texts(r@).contains(id) <==> stored(opt_str(store)).dom().contains(id),
{
    let pairs = load_store(store);
    let mut out: Vec<String> = Vec::new();
    let mut i: usize = 0;
    assert(pairs@.take(0) =~= Seq::empty());
    while i < pairs.len()
        invariant
            i <= pairs@.len(),
            forall|id: Seq<char>|
                #[trigger] texts(out@).contains(id) <==> pairs_map(
                    pairs@.take(i as int),
                ).dom().contains(id),
        decreases pairs.len() - i,
    {
        let ghost before = texts(out@);
        let id = pairs[i].0.clone();
        let ghost added = id@;
        out.push(id);
        proof {
            let now = texts(out@);
            assert(now =~= before.push(added));
            assert(pairs@.take(i + 1).drop_last() =~= pairs@.take(i as int));
            assert(pairs@.take(i + 1).last() == pairs@[i as int]);
            assert forall|x: Seq<char>| #[trigger] now.contains(x) <==> pairs_map(
                pairs@.take(i + 1),
            ).dom().contains(x) by {
                assert(before.contains(x) <==> pairs_map(pairs@.take(i as int)).dom().contains(x));
                if now.contains(x) {
                    let w = choose|w: int| 0 <= w < now.len() && now[w] == x;
                    if w < before.len() {
                        assert(before[w] == x);
                        assert(before.contains(x));
                    }
                }
                if before.contains(x) {
                    let w = choose|w: int| 0 <= w < before.len() && before[w] == x;
                    assert(now[w] == x);
                }
                assert(now[before.len() as int] == added);
            }
        }
        i = i + 1;
    }
    assert(pairs@.take(i as int) =~= pairs@);
    out
}

/// Makes a fresh X25519 key pair: the secret and the public key.
pub fn generate_keypair() -> (r: ([u8; 32], [u8; 32]))
    ensures
        r.1@ == x25519_public(r.0@),
{
    let secret = x25519_random_secret();
    let public = x25519_public_key(&secret);
    (secret, public)
}

/// The transport key that a secret and a public key lead to.
pub open spec fn shared_key(secret: Seq<u8>, public: Seq<u8>) -> Seq<u8> {
    blake3_derived_key("vitruvius 2024 tofu key derivation v1"@, x25519_shared(secret, public))
}

/// Derives the transport key from our secret and the other side's public key.
/// The other side arrives at the same key.
pub fn derive_shared_key(our_secret_bytes: &[u8; 32], their_public_bytes: &[u8; 32]) -> (r: Result<
    [u8; 32],
    Error,
>)
    ensures
        r is Ok,
        r matches Ok(key) ==> key@ == shared_key(our_secret_bytes@, their_public_bytes@),
        r matches Ok(key) ==> forall|theirs: Seq<u8>|
            #![trigger x25519_public(theirs)]
            theirs.len() == 32 && their_public_bytes@ == x25519_public(theirs) ==> key@
                == shared_key(theirs, x25519_public(our_secret_bytes@)),
{
    let shared = x25519_agree(our_secret_bytes, their_public_bytes);
    Ok(blake3_derive_key("vitruvius 2024 tofu key derivation v1", shared.as_slice()))
}

/// Four groups of eight hexadecimal digits by which users compare a key.
pub open spec fn group_fingerprint(key: Seq<u8>) -> Seq<char> {
    let d = blake3_digest(key);
    hex_text(d.subrange(0, 4)) + ":"@ + hex_text(d.subrange(4, 8)) + ":"@ + hex_text(
        d.subrange(8, 12),
    ) + ":"@ + hex_text(d.subrange(12, 16))
}

/// The fingerprint of a transport key that is shown to users.
pub fn key_fingerprint(key: &[u8; 32]) -> (r: String)
    ensures
        r@ == group_fingerprint(key@),
{
    let d = blake3_hash(key.as_slice());
    let mut out = hex_encode(slice_subrange(d.as_slice(), 0, 4));
    out.append(":");
    out.append(hex_encode(slice_subrange(d.as_slice(), 4, 8)).as_str());
    out.append(":");
    out.append(hex_encode(slice_subrange(d.as_slice(), 8, 12)).as_str());
    out.append(":");
    out.append(hex_encode(slice_subrange(d.as_slice(), 12, 16)).as_str());
    out
}

/// A missing or unreadable store holds no keys; what is stored for a peer counts only if
/// it is a key of 32 bytes.
pub proof fn law_bad_stores_hold_no_keys(text: Seq<char>, peer_id: Seq<char>)
    ensures
        key_in(stored(None), peer_id) is None,
        json_object(text) is None ==> key_in(stored(Some(text)), peer_id) is None,
        key_in(stored(Some(text)), peer_id) matches Some(key) ==> key.len() == 32 && (json_object(
            text,
        ) matches Some(m) && m.dom().contains(peer_id) && is_hex_text(m[peer_id]) && key
            == hex_bytes(m[peer_id])),
        json_object(text) matches Some(m) ==> stored(Some(text)) == m,
{
}

/// How the common key follows from the two halves, and how a key is shown to users: four
/// groups of the first bytes of its hash.
pub proof fn law_how_keys_are_made_and_shown(secret: Seq<u8>, public: Seq<u8>, key: Seq<u8>)
    ensures
        shared_key(secret, public) == blake3_derived_key(
            "vitruvius 2024 tofu key derivation v1"@,
            x25519_shared(secret, public),
        ),
        ({
            let d = blake3_digest(key);
            group_fingerprint(key) == hex_text(d.subrange(0, 4)) + ":"@ + hex_text(
                d.subrange(4, 8),
            ) + ":"@ + hex_text(d.subrange(8, 12)) + ":"@ + hex_text(d.subrange(12, 16))
        }),
{
}

} // verus!
