use vitruvius::collections::Assoc;
use vitruvius::crypto::{blind_chunk_hash, blind_filename, chunk_aad, decrypt_with_aad};
use vitruvius::error::Error;
use vitruvius::gui::types::{GuiCommand, GuiEvent};
use vitruvius::gui::ws::snapshot;
use vitruvius::listing::compute_file_metadata_plain;
use vitruvius::network::{EncryptedFileEntry, EncryptedManifestPayload, FileEntry, SyncMessage};
use vitruvius::peer::PeerId;
use vitruvius::state::AppState;
use vitruvius::storage::{FileMetadata, PendingFile};
use vitruvius::sync::commands::{
    key_revoked, on_command, on_command_with, try_command, vault_key_looked_up, vault_key_made,
    CommandStep, VaultKeyOutcome,
};
use vitruvius::sync::connection::{on_swarm_event_with, Discovery, SwarmNews};
use vitruvius::sync::download::{check_stalls, next_queued, queue_offers, start_file, PeerDownload};
use vitruvius::sync::effect::{Effect, Outbox};
use vitruvius::sync::requests::{
    encrypted_chunk_ready, encrypted_manifest_ready, on_request, plain_chunk_ready,
    plain_manifest_ready, RequestStep,
};
use vitruvius::sync::responses::{
    assemble_transfer, file_written, files_checked, manifest_parsed, on_response,
    places_to_check, Offer, ResponseStep,
};
use vitruvius::tofu::{derive_shared_key, generate_keypair};
use vitruvius::transfer::{
    build_chunk_index, decrypt_manifest, get_chunk_modal, get_encrypted_chunk, get_manifest,
    process_chunk, read_local_chunk_plain, verify_chunk, verify_chunk_blinded,
};

fn peer() -> PeerId {
    let id = libp2p::identity::Keypair::generate_ed25519().public().to_peer_id().to_string();
    PeerId::parse(&id).unwrap()
}

fn two_peers() -> (PeerId, PeerId) {
    let (a, b) = (peer(), peer());
    if a.as_str() < b.as_str() {
        (a, b)
    } else {
        (b, a)
    }
}

fn node() -> AppState {
    AppState::new("node".to_string())
}

fn requests(out: &Outbox) -> Vec<&SyncMessage> {
    out.effects
        .iter()
        .filter_map(|e| match e {
            Effect::Request { message, .. } => Some(message),
            _ => None,
        })
        .collect()
}

fn answers(out: &Outbox) -> Vec<&SyncMessage> {
    out.effects
        .iter()
        .filter_map(|e| match e {
            Effect::Respond { message } => Some(message),
            _ => None,
        })
        .collect()
}

fn hash(data: &[u8]) -> [u8; 32] {
    *blake3::hash(data).as_bytes()
}

fn pending(name: &str, chunks: &[&[u8]]) -> PendingFile {
    PendingFile {
        file_name: name.to_string(),
        total_chunks: chunks.len(),
        file_size: chunks.iter().map(|c| c.len() as u64).sum(),
        chunk_hashes: chunks.iter().map(|c| hash(c)).collect(),
        file_id: None,
    }
}

#[test]
fn exactly_one_side_proposes_a_key() {
    let (a, b) = two_peers();
    let mut proposals = 0;
    for (local, remote) in [(&a, &b), (&b, &a)] {
        let (secret, public) = generate_keypair();
        let mut state = node();
        let mut transfers = Assoc::new();
        let mut out = Outbox::new();
        on_swarm_event_with(
            SwarmNews::Established { peer: remote.clone() },
            local,
            None,
            &secret,
            &public,
            &mut state,
            &mut transfers,
            &mut out,
        );
        assert!(state.connected_peers.contains(remote));
        proposals += requests(&out)
            .iter()
            .filter(|m| matches!(m, SyncMessage::KeyExchangePropose { public_key } if *public_key == public))
            .count();
    }
    assert_eq!(proposals, 1);
}

#[test]
fn a_stored_key_makes_an_exchange_needless() {
    let (a, b) = two_peers();
    for (local, remote) in [(&a, &b), (&b, &a)] {
        let (secret, public) = generate_keypair();
        let mut state = node();
        let mut transfers = Assoc::new();
        let mut out = Outbox::new();
        on_swarm_event_with(
            SwarmNews::Established { peer: remote.clone() },
            local,
            Some([4u8; 32]),
            &secret,
            &public,
            &mut state,
            &mut transfers,
            &mut out,
        );
        assert_eq!(state.key_for_peer(remote), Some([4u8; 32]));
        assert!(!format!("{:?}", out.effects).contains("KeyExchangePropose"));
    }
}

#[test]
fn without_a_key_no_manifest_is_asked_for() {
    let (a, b) = two_peers();
    let (secret, public) = generate_keypair();
    for stored in [None, Some([4u8; 32])] {
        let mut state = node();
        state.sync_path = Some("/sync".to_string());
        let mut transfers = Assoc::new();
        let mut out = Outbox::new();
        on_swarm_event_with(
            SwarmNews::Established { peer: b.clone() },
            &a,
            stored,
            &secret,
            &public,
            &mut state,
            &mut transfers,
            &mut out,
        );
        let asked = requests(&out).iter().any(|m| matches!(m, SyncMessage::ManifestRequest));
        assert_eq!(asked, stored.is_some());
    }
}

#[test]
fn keyed_peers_get_encrypted_manifests() {
    let them = peer();
    let (secret, public) = generate_keypair();
    let mut state = node();
    state.sync_path = Some("/sync".to_string());
    for (stored, encrypted) in [(None, false), (Some([4u8; 32]), true)] {
        let mut out = Outbox::new();
        let step = on_request(
            SyncMessage::ManifestRequest,
            &them,
            stored,
            &mut state,
            &mut out,
        );
        match step {
            RequestStep::ListEncrypted { path, key, .. } => {
                assert!(encrypted);
                assert_eq!((path.as_str(), key), ("/sync", [4u8; 32]));
            }
            RequestStep::ListPlain { path } => {
                assert!(!encrypted);
                assert_eq!(path, "/sync");
            }
            other => panic!("{:?}", other),
        }
    }
}

#[test]
fn manifests_are_sealed_for_keyed_peers() {
    let them = peer();
    let key = [4u8; 32];
    let mut state = node();
    let mut out = Outbox::new();
    let mut ids = Assoc::new();
    ids.insert([1u8; 16], "a.txt".to_string());
    let manifest = Ok(Some((b"serialised".to_vec(), ids)));
    encrypted_manifest_ready(&them, manifest, &key, &mut state, &mut out);
    match answers(&out)[0] {
        SyncMessage::EncryptedManifest { ciphertext } => {
            assert_eq!(decrypt_manifest(&key, ciphertext).unwrap(), b"serialised");
            assert!(decrypt_manifest(&[5u8; 32], ciphertext).is_err());
        }
        other => panic!("{:?}", other),
    }
    let told = state.outbound_file_ids.get(&them).unwrap();
    assert_eq!(told.get(&[1u8; 16]), Some(&"a.txt".to_string()));

    let mut out = Outbox::new();
    encrypted_manifest_ready(&them, Err("manifest cbor".to_string()), &key, &mut state, &mut out);
    assert!(matches!(
        answers(&out)[0],
        SyncMessage::Error { message } if message == "manifest cbor"
    ));
    assert!(state.outbound_file_ids.get(&them).unwrap().contains_key(&[1u8; 16]));

    let mut out = Outbox::new();
    encrypted_manifest_ready(&them, Ok(None), &key, &mut state, &mut out);
    assert!(matches!(answers(&out)[0], SyncMessage::Empty));
    assert!(!state.outbound_file_ids.get(&them).unwrap().contains_key(&[1u8; 16]));
}

#[test]
fn discovered_peers_are_remembered_until_they_expire() {
    let (a, b) = two_peers();
    let (secret, public) = generate_keypair();
    let mut state = node();
    let mut transfers = Assoc::new();
    let mut out = Outbox::new();
    let found = Discovery { peer: b.clone(), addr: "/ip4/10.0.0.1/tcp/4001".to_string() };
    on_swarm_event_with(
        SwarmNews::Discovered { peers: vec![found] },
        &a,
        None,
        &secret,
        &public,
        &mut state,
        &mut transfers,
        &mut out,
    );
    assert_eq!(state.known_addrs.get(&b.to_text()).unwrap(), "/ip4/10.0.0.1/tcp/4001");
    on_swarm_event_with(
        SwarmNews::Expired { peers: vec![b.clone()] },
        &a,
        None,
        &secret,
        &public,
        &mut state,
        &mut transfers,
        &mut out,
    );
    assert!(state.known_addrs.get(&b.to_text()).is_none());
}

#[test]
fn an_approved_proposal_gives_both_sides_one_key() {
    let (a, b) = two_peers();
    let (sa, pa) = generate_keypair();
    let (sb, pb) = generate_keypair();
    let mut state_b = node();
    let mut out = Outbox::new();
    let step = on_request(
        SyncMessage::KeyExchangePropose { public_key: pa },
        &a,
        None,
        &mut state_b,
        &mut out,
    );
    assert!(matches!(step, RequestStep::Done));
    assert_eq!(answers(&out).len(), 1);
    assert_eq!(state_b.key_for_peer(&a), None);
    let mut out = Outbox::new();
    on_command_with(
        GuiCommand::ApprovePeer { peer_id: a.to_text() },
        &sb,
        &pb,
        &mut state_b,
        &mut out,
    );
    let key_b = state_b.key_for_peer(&a);
    assert_eq!(key_b, Some(derive_shared_key(&sa, &pb).unwrap()));
    let mut state_a = node();
    state_a.pending_exchanges.insert(b.clone(), sa);
    let mut transfers = Assoc::new();
    let mut out = Outbox::new();
    on_response(
        SyncMessage::KeyExchangeAccept { public_key: pb },
        &b,
        None,
        0,
        &mut state_a,
        &mut transfers,
        &mut out,
    );
    assert_eq!(state_a.key_for_peer(&b), key_b);
}

#[test]
fn bad_addresses_are_reported() {
    let mut state = node();
    let mut out = Outbox::new();
    let step = on_command(
        GuiCommand::DialPeer {
            peer_id: peer().to_text(),
            addr: Some("not an address".to_string()),
        },
        &mut state,
        &mut out,
    );
    assert!(matches!(step, CommandStep::Done));
    let fault = "not an address".parse::<libp2p::Multiaddr>().unwrap_err().to_string();
    assert!(format!("{:?}", out.effects).contains(&fault));
    let mut out = Outbox::new();
    on_command(
        GuiCommand::DialPeer {
            peer_id: peer().to_text(),
            addr: Some("/ip4/10.0.0.1/tcp/4001".to_string()),
        },
        &mut state,
        &mut out,
    );
    assert!(out
        .effects
        .iter()
        .any(|e| matches!(e, Effect::Dial { addr } if addr == "/ip4/10.0.0.1/tcp/4001")));
}

#[test]
fn commands_that_cannot_be_handled_change_nothing() {
    let mut state = node();
    let mut out = Outbox::new();
    let dial = |addr: Option<&str>| GuiCommand::DialPeer {
        peer_id: "1234567\u{e9}".to_string(),
        addr: addr.map(|a| a.to_string()),
    };
    assert!(try_command(dial(None), &mut state, &mut out).is_none());
    assert!(try_command(dial(Some("/ip4/10.0.0.1/tcp/1")), &mut state, &mut out).is_none());
    assert_eq!(out.effects.len(), 0);
    assert!(try_command(dial(Some("nowhere")), &mut state, &mut out).is_some());
    assert_eq!(out.effects.len(), 1);
}

#[test]
fn a_folder_is_prepared_outside() {
    let mut state = node();
    let mut out = Outbox::new();
    let step =
        on_command(GuiCommand::SetFolder { path: "/sync".to_string() }, &mut state, &mut out);
    assert!(matches!(step, CommandStep::PrepareFolder { path } if path == "/sync"));
}

#[test]
fn vault_mode_needs_a_key() {
    let mut state = node();
    let mut out = Outbox::new();
    let step = on_command(GuiCommand::SetVaultMode { enabled: true }, &mut state, &mut out);
    assert!(matches!(step, CommandStep::FindVaultKey));
    let step = vault_key_looked_up(None, &mut state, &mut out);
    assert!(matches!(step, CommandStep::MakeVaultKey));
    assert!(!state.vault_mode);
    vault_key_made(
        VaultKeyOutcome::Made { key: [6u8; 32], path: "/k".to_string() },
        &mut state,
        &mut out,
    );
    assert!(state.vault_mode);
    assert_eq!(state.vault_key, Some([6u8; 32]));
}

#[test]
fn a_vault_key_that_is_there_is_used() {
    let mut state = node();
    let mut out = Outbox::new();
    let step = vault_key_looked_up(Some(Err("short".to_string())), &mut state, &mut out);
    assert!(matches!(step, CommandStep::Done));
    assert!(!state.vault_mode);
    assert!(format!("{:?}", out.effects).contains("Failed to load vault key: short"));
    let step = vault_key_looked_up(Some(Ok([6u8; 32])), &mut state, &mut out);
    assert!(matches!(step, CommandStep::Done));
    assert!(state.vault_mode);
    assert_eq!(state.vault_key, Some([6u8; 32]));
}

#[test]
fn trusted_keys_are_not_replaced() {
    let them = peer();
    let (_, public_key) = generate_keypair();
    let mut state = node();
    let mut out = Outbox::new();
    let step = on_request(
        SyncMessage::KeyExchangePropose { public_key },
        &them,
        Some([4u8; 32]),
        &mut state,
        &mut out,
    );
    assert!(matches!(step, RequestStep::Done));
    assert_eq!(state.key_for_peer(&them), Some([4u8; 32]));
    assert!(matches!(answers(&out)[..], [SyncMessage::Ack]));
    assert!(matches!(
        &out.effects[0],
        Effect::Event { event: GuiEvent::Log { level, .. } } if level == "WARN"
    ));
    assert!(!out.effects.iter().any(|e| matches!(e, Effect::PersistKey { .. })));
    let mut out = Outbox::new();
    key_revoked(&them, them.to_text(), Ok(vec![]), &mut state, &mut out);
    assert_eq!(state.key_for_peer(&them), None);
}

#[test]
fn offered_files_are_looked_for_where_they_would_be() {
    let mut offer = Offer {
        peer_name: "them".to_string(),
        files: vec![pending("d/f", &[b"x"]), pending("..", &[b"x"])],
        encrypted: true,
    };
    assert_eq!(
        places_to_check(&offer, "/sync", true),
        vec![vec!["/sync/d/f", "/sync/d/f.vit"], vec!["/sync/.."]]
    );
    assert_eq!(places_to_check(&offer, "/sync", false)[0], vec!["/sync/d/f"]);
    offer.encrypted = false;
    assert_eq!(places_to_check(&offer, "/sync", true)[0], vec!["/sync/d/f"]);
}

#[test]
fn an_empty_file_is_fetched_like_any_other() {
    let them = peer();
    let m = compute_file_metadata_plain("/theirs", "/theirs/e", b"").unwrap();
    assert_eq!(m.total_chunks, 1);
    assert_eq!(m.chunk_hashes, vec![hash(b"")]);
    let mut dl = PeerDownload::new();
    let mut out = Outbox::new();
    start_file(pending("e", &[b""]), vec![None], "/sync", &them, 0, &mut dl, &mut out);
    let mut transfers = Assoc::new();
    transfers.insert(them.clone(), dl);
    let mut state = node();
    state.sync_path = Some("/sync".to_string());
    let plain = read_local_chunk_plain(b"", "e", 0, None);
    let response = get_chunk_modal("e", 0, plain, None).unwrap();
    let step = on_response(response, &them, None, 1, &mut state, &mut transfers, &mut out);
    assert!(matches!(step, ResponseStep::Write { .. }));
    let order = assemble_transfer(&them, &"e".to_string(), &state, &transfers).unwrap().unwrap();
    assert_eq!(order.data, b"");
}

#[test]
fn without_a_folder_the_manifest_is_empty() {
    let mut state = node();
    let mut out = Outbox::new();
    let step = on_request(
        SyncMessage::ManifestRequest,
        &peer(),
        None,
        &mut state,
        &mut out,
    );
    assert!(matches!(step, RequestStep::Done));
    assert_eq!(answers(&out).len(), 1);
}

fn metadata(name: &str, chunks: &[&[u8]]) -> FileMetadata {
    FileMetadata {
        file_name: name.to_string(),
        total_chunks: chunks.len(),
        file_size: chunks.iter().map(|c| c.len() as u64).sum(),
        chunk_hashes: chunks.iter().map(|c| hash(c)).collect(),
        is_vault: false,
    }
}

#[test]
fn a_plain_manifest_lists_the_files() {
    let files = vec![metadata("a", &[b"one"])];
    match get_manifest(&files, "node") {
        SyncMessage::Manifest { node_name, files } => {
            assert_eq!(node_name, "node");
            assert_eq!(files[0].file_name, "a");
            assert_eq!(files[0].chunk_hashes, vec![hash(b"one")]);
        }
        other => panic!("{:?}", other),
    }
    let mut out = Outbox::new();
    plain_manifest_ready(Ok(vec![]), "node", &mut out);
    assert!(matches!(answers(&out)[..], [SyncMessage::Empty]));
    let mut out = Outbox::new();
    plain_manifest_ready(Err("disk".to_string()), "node", &mut out);
    assert!(matches!(answers(&out)[..], [SyncMessage::Error { message }] if message.contains("disk")));
}

#[test]
fn served_chunks_can_be_opened_and_verified() {
    let key = [9u8; 32];
    let id = blind_filename(&key, "a.txt");
    match get_encrypted_chunk(id, 3, Ok(b"chunk".to_vec()), &key).unwrap() {
        SyncMessage::EncryptedChunkResponse { file_id, chunk_index, data, blinded_hash } => {
            assert_eq!((file_id, chunk_index), (id, 3));
            let plain = decrypt_with_aad(&key, &data, &chunk_aad(&id, 3)).unwrap();
            assert_eq!(plain, b"chunk");
            assert_eq!(blinded_hash, blind_chunk_hash(&key, &hash(b"chunk")));
            assert!(verify_chunk_blinded(&plain, &blinded_hash, &key));
            assert!(!verify_chunk_blinded(b"other", &blinded_hash, &key));
        }
        other => panic!("{:?}", other),
    }
    match get_chunk_modal("a.txt", 0, Ok(b"chunk".to_vec()), None).unwrap() {
        SyncMessage::ChunkResponse { data, hash: h, .. } => {
            assert_eq!(data, b"chunk");
            assert!(verify_chunk(&data, &h));
        }
        other => panic!("{:?}", other),
    }
    assert!(matches!(
        get_encrypted_chunk(id, 3, Err(Error::BadMagic), &key),
        Err(Error::BadMagic)
    ));
}

#[test]
fn chunks_that_cannot_be_read_are_answered_with_an_error() {
    let mut out = Outbox::new();
    plain_chunk_ready(&peer(), &"a".to_string(), 0, Err(Error::BadMagic), None, &mut out);
    assert!(matches!(answers(&out)[..], [SyncMessage::Error { .. }]));
    let mut out = Outbox::new();
    encrypted_chunk_ready(&peer(), [0; 16], 0, Err(Error::BadMagic), &[1; 32], &mut out);
    assert!(matches!(answers(&out)[..], [SyncMessage::Error { .. }]));
}

fn offered(state: &mut AppState, from: &PeerId) -> (Assoc<PeerId, PeerDownload>, Outbox) {
    state.sync_path = Some("/sync".to_string());
    let mut transfers = Assoc::new();
    let mut out = Outbox::new();
    let step = on_response(
        SyncMessage::Manifest {
            node_name: "them".to_string(),
            files: vec![FileEntry {
                file_name: "f".to_string(),
                file_size: 6,
                total_chunks: 2,
                chunk_hashes: vec![hash(b"abc"), hash(b"def")],
            }],
        },
        from,
        None,
        0,
        state,
        &mut transfers,
        &mut out,
    );
    match step {
        ResponseStep::CheckFiles { offer, .. } => {
            assert!(files_checked(&offer, &vec![false], from, &mut transfers, &mut out));
        }
        other => panic!("{:?}", other),
    }
    (transfers, out)
}

fn chunk(index: usize, data: &[u8]) -> SyncMessage {
    SyncMessage::ChunkResponse {
        file_name: "f".to_string(),
        chunk_index: index,
        data: data.to_vec(),
        hash: hash(data),
    }
}

#[test]
fn a_file_is_fetched_checked_and_assembled() {
    let them = peer();
    let mut state = node();
    let (mut transfers, _) = offered(&mut state, &them);
    let mut out = Outbox::new();
    let place = transfers.place(&them).unwrap();
    let dl = transfers.value_at_mut(place);
    let pf = next_queued(dl).unwrap();
    assert!(start_file(pf, vec![None, None], "/sync", &them, 0, dl, &mut out).is_none());
    assert_eq!(requests(&out).len(), 2);

    let mut out = Outbox::new();
    let step = on_response(chunk(0, b"bad"), &them, None, 1, &mut state, &mut transfers, &mut out);
    assert!(matches!(step, ResponseStep::Done));
    assert!(matches!(
        requests(&out)[..],
        [SyncMessage::ChunkRequest { chunk_index: 0, .. }]
    ));

    let mut out = Outbox::new();
    on_response(chunk(0, b"abc"), &them, None, 2, &mut state, &mut transfers, &mut out);
    let step = on_response(chunk(1, b"def"), &them, None, 3, &mut state, &mut transfers, &mut out);
    assert!(matches!(step, ResponseStep::Write { encrypted: false, .. }));
    let order = assemble_transfer(&them, &"f".to_string(), &state, &transfers).unwrap().unwrap();
    assert_eq!(order.path, "/sync/f");
    assert_eq!(order.data, b"abcdef");
    let mut out = Outbox::new();
    file_written(&them, &"f".to_string(), order.path, "/sync", &mut transfers, &mut out);
    assert!(out
        .effects
        .iter()
        .any(|e| matches!(e, Effect::Event { event: GuiEvent::TransferComplete { .. } })));
    assert_eq!(transfers.value_at(0).active.len(), 0);
}

#[test]
fn silent_transfers_are_asked_for_again() {
    let them = peer();
    let mut state = node();
    let (mut transfers, _) = offered(&mut state, &them);
    let mut out = Outbox::new();
    let dl = transfers.value_at_mut(0);
    let pf = next_queued(dl).unwrap();
    start_file(pf, vec![None, None], "/sync", &them, 0, dl, &mut out);
    let mut out = Outbox::new();
    check_stalls(&mut transfers, 19_999_999_999, &mut out);
    assert_eq!(out.effects.len(), 0);
    check_stalls(&mut transfers, 20_000_000_000, &mut out);
    assert_eq!(requests(&out).len(), 2);
    let mut out = Outbox::new();
    check_stalls(&mut transfers, 20_000_000_001, &mut out);
    assert_eq!(out.effects.len(), 0);
}

#[test]
fn files_wait_while_three_are_active() {
    let them = peer();
    let mut dl = PeerDownload::new();
    let offers: Vec<PendingFile> =
        ["a", "b", "c", "d", "a"].iter().map(|n| pending(n, &[b"x"])).collect();
    let n = queue_offers(&mut dl, &offers, &vec![false, false, false, false, false]);
    assert_eq!(n, 4);
    let mut out = Outbox::new();
    for name in ["a", "b", "c"] {
        let pf = next_queued(&mut dl).unwrap();
        assert_eq!(pf.file_name, name);
        start_file(pf, vec![None], "/sync", &them, 0, &mut dl, &mut out);
    }
    assert!(next_queued(&mut dl).is_none());
    assert_eq!(dl.active.len(), 3);
    assert_eq!(dl.queue.len(), 1);
}

#[test]
fn no_more_chunks_are_asked_for_than_fit_the_window() {
    let them = peer();
    let mut dl = PeerDownload::new();
    let chunks: Vec<&[u8]> = vec![b"0", b"1", b"2", b"3", b"4", b"5"];
    let local = vec![None, Some(b"1".to_vec()), None, None, None, None];
    let mut out = Outbox::new();
    start_file(pending("f", &chunks), local, "/sync", &them, 0, &mut dl, &mut out);
    let asked: Vec<usize> = requests(&out)
        .iter()
        .map(|m| match m {
            SyncMessage::ChunkRequest { chunk_index, .. } => *chunk_index,
            other => panic!("{:?}", other),
        })
        .collect();
    assert_eq!(asked, vec![0, 2, 3, 4]);
}

#[test]
fn a_file_that_is_here_in_pieces_needs_no_transfer() {
    let them = peer();
    let mut dl = PeerDownload::new();
    let mut out = Outbox::new();
    let order = start_file(
        pending("f", &[b"ab", b"cd"]),
        vec![Some(b"ab".to_vec()), Some(b"cd".to_vec())],
        "/sync",
        &them,
        0,
        &mut dl,
        &mut out,
    );
    assert_eq!(order.unwrap().unwrap().data, b"abcd");
    assert_eq!(requests(&out).len(), 0);
}

#[test]
fn the_index_finds_chunks_by_their_hash() {
    let files = vec![metadata("a", &[b"one", b"two"]), metadata("b", &[b"two"])];
    let index = build_chunk_index(&files);
    let place = index.get(&hash(b"one")).unwrap();
    assert_eq!((place.file_name.as_str(), place.chunk_index), ("a", 0));
    assert!(index.get(&hash(b"two")).is_some());
    assert!(index.get(&hash(b"six")).is_none());
}

#[test]
fn encrypted_offers_are_known_by_their_ids() {
    let them = peer();
    let key = [5u8; 32];
    let id = blind_filename(&key, "f");
    let mut state = node();
    state.sync_path = Some("/sync".to_string());
    state.encrypted_protocol = true;
    let mut out = Outbox::new();
    state.set_peer_key(&them, key, &mut out);
    let step = manifest_parsed(
        &them,
        Ok(EncryptedManifestPayload {
            node_name: "them".to_string(),
            files: vec![EncryptedFileEntry {
                file_name: "f".to_string(),
                file_id: id,
                file_size: 3,
                total_chunks: 1,
                blinded_chunk_hashes: vec![blind_chunk_hash(&key, &hash(b"abc"))],
            }],
        }),
        &mut state,
        &mut out,
    );
    let mut transfers = Assoc::new();
    match step {
        ResponseStep::CheckFiles { offer, .. } => {
            assert!(files_checked(&offer, &vec![false], &them, &mut transfers, &mut out));
        }
        other => panic!("{:?}", other),
    }
    let mut out = Outbox::new();
    let dl = transfers.value_at_mut(0);
    let pf = next_queued(dl).unwrap();
    start_file(pf, vec![None], "/sync", &them, 0, dl, &mut out);
    assert!(matches!(
        requests(&out)[..],
        [SyncMessage::EncryptedChunkRequest { file_id, chunk_index: 0 }] if *file_id == id
    ));
    let response = get_encrypted_chunk(id, 0, Ok(b"abc".to_vec()), &key).unwrap();
    let step = on_response(response, &them, None, 1, &mut state, &mut transfers, &mut out);
    assert!(matches!(step, ResponseStep::Write { encrypted: true, .. }));
    let order = assemble_transfer(&them, &"f".to_string(), &state, &transfers).unwrap().unwrap();
    assert_eq!(order.data, b"abc");
}

#[test]
fn tampered_chunks_are_asked_for_again() {
    let them = peer();
    let key = [5u8; 32];
    let id = blind_filename(&key, "f");
    let mut state = node();
    state.sync_path = Some("/sync".to_string());
    let mut out = Outbox::new();
    state.set_peer_key(&them, key, &mut out);
    manifest_parsed(
        &them,
        Ok(EncryptedManifestPayload {
            node_name: "them".to_string(),
            files: vec![EncryptedFileEntry {
                file_name: "f".to_string(),
                file_id: id,
                file_size: 3,
                total_chunks: 1,
                blinded_chunk_hashes: vec![blind_chunk_hash(&key, &hash(b"abc"))],
            }],
        }),
        &mut state,
        &mut out,
    );
    let mut transfers = Assoc::new();
    let moved = match get_encrypted_chunk(id, 1, Ok(b"abc".to_vec()), &key).unwrap() {
        SyncMessage::EncryptedChunkResponse { file_id, data, blinded_hash, .. } => {
            SyncMessage::EncryptedChunkResponse { file_id, chunk_index: 0, data, blinded_hash }
        }
        other => panic!("{:?}", other),
    };
    let mut out = Outbox::new();
    let step = on_response(moved, &them, None, 1, &mut state, &mut transfers, &mut out);
    assert!(matches!(step, ResponseStep::Done));
    assert!(matches!(
        requests(&out)[..],
        [SyncMessage::EncryptedChunkRequest { file_id, chunk_index: 0 }] if *file_id == id
    ));
    let mut out = Outbox::new();
    on_response(chunk(0, b"not sealed"), &them, None, 1, &mut state, &mut transfers, &mut out);
    assert!(matches!(requests(&out)[..], [SyncMessage::ChunkRequest { chunk_index: 0, .. }]));
}

#[test]
fn chunks_are_processed_one_by_one() {
    let mut ts = vitruvius::storage::FileTransferState::new("/sync".to_string(), 0);
    assert!(matches!(process_chunk(0, b"one".to_vec(), &mut ts), Err(Error::NoMetadata)));
    let mut ts = vitruvius::storage::FileTransferState::new("/sync".to_string(), 0);
    ts.metadata = Some(metadata("f", &[b"one", b"two"]));
    assert!(process_chunk(0, b"one".to_vec(), &mut ts).unwrap().is_none());
    let order = process_chunk(1, b"two".to_vec(), &mut ts).unwrap().unwrap();
    assert_eq!(order.data, b"onetwo");
    assert_eq!(order.path, "/sync/f");
}

#[test]
fn a_new_page_is_told_who_we_are() {
    let state = node();
    let events = snapshot(&state, "12D3KooWabcdefgh", "node", None);
    assert!(matches!(
        &events[0],
        GuiEvent::Identity { peer_id, node_name } if peer_id == "12D3KooWabcdefgh" && node_name == "node"
    ));
}
