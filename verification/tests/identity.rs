use libp2p::identity::Keypair;
use vitruvius::identity::{
    identity_found, load_or_create_keypair, new_identity, IdentityStep,
};

#[test]
fn an_identity_is_kept() {
    let (first, write) = load_or_create_keypair(None);
    assert!(write);
    let (second, write) = load_or_create_keypair(Some(Ok(first.clone())));
    assert!(!write);
    assert_eq!(first, second);
    let id = Keypair::from_protobuf_encoding(&first).unwrap().public().to_peer_id();
    assert_eq!(Keypair::from_protobuf_encoding(&second).unwrap().public().to_peer_id(), id);
    assert_ne!(new_identity(), first);
}

#[test]
fn key_pairs_of_the_network_library_are_used() {
    let pair = Keypair::generate_ed25519();
    let encoded = pair.to_protobuf_encoding().unwrap();
    match identity_found(Some(Ok(encoded.clone()))) {
        IdentityStep::Use { key } => assert_eq!(key, encoded),
        other => panic!("{:?}", other),
    }
    // The fields in the other order.
    let mut turned = encoded[2..].to_vec();
    turned.extend_from_slice(&encoded[..2]);
    match identity_found(Some(Ok(turned.clone()))) {
        IdentityStep::Use { key } => {
            assert_eq!(key, encoded);
            assert_ne!(key, turned);
        }
        other => panic!("{:?}", other),
    }
}

#[test]
fn bad_key_files_are_replaced() {
    assert!(matches!(identity_found(None), IdentityStep::Make { complaint: None }));
    match identity_found(Some(Err("not allowed".to_string()))) {
        IdentityStep::Make { complaint } => assert_eq!(complaint.as_deref(), Some("not allowed")),
        other => panic!("{:?}", other),
    }
    let mut broken = new_identity();
    broken[20] ^= 1;
    for bytes in [vec![], b"garbage".to_vec(), broken] {
        let fault = Keypair::from_protobuf_encoding(&bytes).unwrap_err().to_string();
        match identity_found(Some(Ok(bytes.clone()))) {
            IdentityStep::Make { complaint } => assert_eq!(complaint, Some(fault)),
            other => panic!("{:?}", other),
        }
        let (key, write) = load_or_create_keypair(Some(Ok(bytes.clone())));
        assert!(write);
        assert_ne!(key, bytes);
    }
}
