use vitruvius::peer::{has_short_id, short_id, PeerId};
use vitruvius::tofu::{
    derive_shared_key, generate_keypair, get_peer_key, has_peer_key, key_fingerprint,
    list_trusted_peers, revoke_peer_key, store_peer_key,
};

fn random_id() -> String {
    libp2p::identity::Keypair::generate_ed25519().public().to_peer_id().to_string()
}

#[test]
fn both_sides_agree_on_a_key() {
    let (a, pa) = generate_keypair();
    let (b, pb) = generate_keypair();
    let ka = derive_shared_key(&a, &pb).unwrap();
    let kb = derive_shared_key(&b, &pa).unwrap();
    assert_eq!(ka, kb);
    assert_ne!(ka, [0u8; 32]);
    let (c, _) = generate_keypair();
    assert_ne!(derive_shared_key(&c, &pb).unwrap(), ka);
}

#[test]
fn public_keys_are_curve_points_of_the_secrets() {
    let (secret, public) = generate_keypair();
    let expected = x25519_dalek::PublicKey::from(&x25519_dalek::StaticSecret::from(secret));
    assert_eq!(&public, expected.as_bytes());
    let (other, other_public) = generate_keypair();
    let shared = x25519_dalek::StaticSecret::from(secret)
        .diffie_hellman(&x25519_dalek::PublicKey::from(other_public));
    assert_ne!(derive_shared_key(&other, &public).unwrap(), *shared.as_bytes());
}

#[test]
fn fingerprints_are_the_first_eight_bytes() {
    let key = [0x0fu8; 32];
    assert_eq!(key_fingerprint(&key), key_fingerprint(&[0x0fu8; 32]));
    assert_ne!(key_fingerprint(&key), key_fingerprint(&[0x10u8; 32]));
}

#[test]
fn a_stored_key_is_found_and_others_stay() {
    let a = [1u8; 32];
    let b = [2u8; 32];
    let store = store_peer_key(None, "peer-a", &a).unwrap();
    let store = store_peer_key(Some(&store), "peer-b", &b).unwrap();
    assert_eq!(get_peer_key(Some(&store), "peer-a"), Some(a));
    assert_eq!(get_peer_key(Some(&store), "peer-b"), Some(b));
    assert_eq!(get_peer_key(Some(&store), "peer-c"), None);
    assert!(has_peer_key(Some(&store), "peer-a"));
    assert_eq!(list_trusted_peers(Some(&store)), vec!["peer-a", "peer-b"]);
    let parsed: std::collections::BTreeMap<String, String> = serde_json::from_str(&store).unwrap();
    assert_eq!(parsed["peer-a"], hex::encode(a));
    let store = revoke_peer_key(Some(&store), "peer-a").unwrap();
    assert!(!has_peer_key(Some(&store), "peer-a"));
    assert_eq!(get_peer_key(Some(&store), "peer-b"), Some(b));
}

#[test]
fn broken_stores_hold_no_keys() {
    assert_eq!(get_peer_key(None, "p"), None);
    assert_eq!(get_peer_key(Some("not json"), "p"), None);
    assert_eq!(get_peer_key(Some("{\"p\": \"abc\"}"), "p"), None);
    assert_eq!(get_peer_key(Some("{\"p\": \"00ff\"}"), "p"), None);
    assert_eq!(list_trusted_peers(Some("[]")).len(), 0);
}

#[test]
fn peer_ids_are_read_in_their_notation() {
    let text = random_id();
    let id = PeerId::parse(&text).unwrap();
    assert_eq!(id.as_str(), text);
    assert_eq!(id.to_text(), text);
    assert!(PeerId::parse("no such id").is_none());
    let fault = PeerId::read("no such id").unwrap_err();
    assert_eq!(fault, "no such id".parse::<libp2p::PeerId>().unwrap_err().to_string());
}

#[test]
fn short_ids_leave_out_the_common_prefix() {
    assert_eq!(short_id("12D3KooWabcdefghij"), "abcdefgh");
    assert_eq!(short_id("abc"), "abc");
    assert_eq!(short_id("0123456789"), "01234567");
    assert!(has_short_id("12D3KooWabcdefghij"));
    assert!(!has_short_id("1234567\u{e9}"));
    let text = random_id();
    let id = PeerId::parse(&text).unwrap();
    assert_eq!(id.short(), &text[8..16]);
}
