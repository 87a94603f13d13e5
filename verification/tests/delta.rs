use vitruvius::collections::Assoc;
use vitruvius::delta::backend::{read_target, start_backend, FolderOutcome};
use vitruvius::delta::chunk::{
    chunk_file, create_file_version, create_file_version_from_parent, detect_changed_chunks,
};
use vitruvius::delta::effect::{DeltaEffect, DeltaOutbox, UiCommand, UiEvent};
use vitruvius::delta::engine::{on_closed, on_connected, on_discovered, Engine};
use vitruvius::delta::files::{
    on_content_changed, on_path_changed, on_path_removed, ChangeStep, PathKind,
};
use vitruvius::delta::messages::SyncMessage;
use vitruvius::delta::metadata::{FileMetadata, FileVersion};
use vitruvius::delta::operations::{
    delete_file, list_name, process_received_chunk, reassemble_file, temp_path, verify_chunk,
};
use vitruvius::delta::requests::{
    chunk_file_ready, directory_done, file_removed, files_listed, get_file_list,
    get_file_metadata, get_versioned_metadata, keep_file, metadata_ready, on_request,
    DiskOutcome, FileOutcome, RequestStep,
};
use vitruvius::delta::responses::{
    assemble, file_written, on_response, write_failed, ResponseStep,
};
use vitruvius::delta::session::SyncSession;
use vitruvius::delta::transfer::FileTransferState;
use vitruvius::delta::ui::VitruviusApp;
use vitruvius::delta::ws::{log_to_gui, GuiEvent};
use vitruvius::error::Error;
use vitruvius::peer::PeerId;

const CHUNK: usize = 16777216;

fn peer() -> PeerId {
    PeerId::parse(&libp2p::PeerId::random().to_string()).unwrap()
}

fn hash(data: &[u8]) -> [u8; 32] {
    *blake3::hash(data).as_bytes()
}

fn text(words: &str) -> String {
    words.to_string()
}

fn requests(out: &DeltaOutbox) -> Vec<&SyncMessage> {
    out.effects
        .iter()
        .filter_map(|e| match e {
            DeltaEffect::Request { message, .. } => Some(message),
            _ => None,
        })
        .collect()
}

fn answer(out: &DeltaOutbox) -> &SyncMessage {
    let all: Vec<&SyncMessage> = out
        .effects
        .iter()
        .filter_map(|e| match e {
            DeltaEffect::Respond { message } => Some(message),
            _ => None,
        })
        .collect();
    assert_eq!(all.len(), 1);
    all[0]
}

fn connected(target: &PeerId, window: bool) -> Engine {
    let mut e = Engine::new(text("/sync"), text("me"), Some(target.clone()), window);
    let mut out = DeltaOutbox::new();
    on_connected(&mut e, target, &mut out);
    assert!(matches!(requests(&out)[..], [SyncMessage::ListFiles]));
    e
}

#[test]
fn an_empty_file_has_one_empty_chunk() {
    let (chunks, m) = chunk_file("/sync/a.txt", b"");
    assert_eq!(chunks.len(), 1);
    assert_eq!(chunks[0].hash, hash(b""));
    assert_eq!((m.file_name.as_str(), m.total_chunks, m.file_size), ("a.txt", 1, 0));
}

#[test]
fn only_changed_chunks_are_listed() {
    let a = vec![hash(b"0"), hash(b"1"), hash(b"2")];
    let b = vec![hash(b"0"), hash(b"x"), hash(b"2"), hash(b"3")];
    assert_eq!(detect_changed_chunks(&a, &b), vec![1, 3]);
    assert_eq!(detect_changed_chunks(&b, &a), vec![1]);
    assert_eq!(detect_changed_chunks(&a, &a), Vec::<usize>::new());
}

#[test]
fn versions_follow_their_parents() {
    let (chunks, m) = chunk_file("f", b"one");
    let v1 = create_file_version(&chunks, m, text("me"), 10);
    assert_eq!(v1.file_hash, hash(b"one"));
    assert_eq!(v1.parent_hash, None);
    assert_eq!(v1.changed_chunks, vec![0]);
    let (chunks, m) = chunk_file("f", b"two");
    let v2 = create_file_version_from_parent(&chunks, m, text("me"), &v1, 11);
    assert_eq!(v2.parent_hash, Some(hash(b"one")));
    assert_eq!(v2.changed_chunks, vec![0]);
    assert_eq!(v2.timestamp, 11);
}

#[test]
fn a_session_syncs_a_few_files_at_a_time() {
    let mut s = SyncSession::new(vec![text("a"), text("b"), text("c")], 2);
    assert_eq!(s.start_next(), Some(text("c")));
    assert_eq!(s.start_next(), Some(text("b")));
    assert_eq!(s.start_next(), None);
    assert_eq!(s.remaining(), 3);
    s.mark_complete("c");
    assert_eq!(s.completed(), 1);
    assert!(s.can_start_more());
    assert_eq!(s.start_next(), Some(text("a")));
    s.mark_complete("a");
    assert!(!s.is_done());
    s.mark_complete("b");
    assert!(s.is_done());
}

fn big(changes: &[(usize, u8)]) -> Vec<u8> {
    let mut data = vec![0u8; 2 * CHUNK + 3];
    data[CHUNK] = 1;
    data[2 * CHUNK] = 2;
    for (at, b) in changes {
        data[*at] = *b;
    }
    data
}

#[test]
fn a_changed_file_is_rebuilt_from_the_old_one() {
    let old = big(&[]);
    let new = big(&[(CHUNK + 5, 9)]);
    let (old_chunks, old_m) = chunk_file("f", &old);
    let v1 = create_file_version(&old_chunks, old_m, text("them"), 1);
    let (new_chunks, new_m) = chunk_file("f", &new);
    let v2 = create_file_version_from_parent(&new_chunks, new_m.clone(), text("them"), &v1, 2);
    assert_eq!(v2.changed_chunks, vec![1]);
    let mut ts = FileTransferState::new(text("/sync"));
    ts.metadata = Some(new_m);
    ts.current_version = Some(v2);
    ts.previous_version = Some(v1);
    ts.set_required_chunks();
    assert_eq!(ts.chunks_expected, 1);
    assert!(!ts.is_transfer_complete());
    assert!(!process_received_chunk(1, vec![1, 2, 3], &mut ts));
    assert!(ts.failed_chunks.contains(&1));
    assert!(process_received_chunk(1, new_chunks[1].data.clone(), &mut ts));
    assert!(!ts.failed_chunks.contains(&1));
    assert_eq!(ts.progress(), (1, 1));
    let rebuilt = reassemble_file(&ts, Some(&old)).unwrap();
    assert_eq!(rebuilt.path, "/sync/f");
    assert_eq!(rebuilt.temp_path, "/sync/f.tmp");
    assert!(rebuilt.data == new);
    assert!(matches!(reassemble_file(&ts, None), Err(Error::LostDeltaChunk { index: 0 })));
    assert!(matches!(
        reassemble_file(&ts, Some(&vec![0u8; 4])),
        Err(Error::LostBlendChunk { index: 2 })
    ));
}

#[test]
fn without_metadata_nothing_is_rebuilt() {
    let ts = FileTransferState::new(text("/sync"));
    assert!(matches!(reassemble_file(&ts, None), Err(Error::NoMetadataAvailable)));
    assert_eq!(ts.progress(), (0, 0));
    assert!(!ts.is_transfer_complete());
}

#[test]
fn small_rules() {
    assert!(list_name("a/b.txt"));
    assert!(!list_name(".hidden"));
    assert!(!list_name("a.tmp"));
    assert_eq!(temp_path("/sync/a.tar.gz"), "/sync/a.tar.tmp");
    assert_eq!(temp_path("/sync/a"), "/sync/a.tmp");
    assert_eq!(temp_path("/sync/.a"), "/sync/.a.tmp");
    assert!(verify_chunk(b"x", &hash(b"x")));
    assert!(!verify_chunk(b"y", &hash(b"x")));
    assert!(matches!(delete_file("/sync", None), Ok(false)));
    assert!(matches!(delete_file("/sync", Some("/sync/a")), Ok(true)));
    assert!(matches!(delete_file("/sync", Some("/etc/a")), Err(Error::InvalidFilePath)));
    assert_eq!(
        get_file_list(&vec![text("a"), text(".b"), text("c.tmp"), text("d/e")]),
        vec!["a", "d/e"]
    );
}

#[test]
fn metadata_are_answered_or_refused() {
    let data = FileOutcome::Content { data: b"abc".to_vec() };
    assert!(matches!(
        get_file_metadata("d/f", &data),
        SyncMessage::Metadata { file_name, total_chunks: 1, file_size: 3, chunk_hashes }
            if file_name == "d/f" && chunk_hashes == vec![hash(b"abc")]
    ));
    let cases = [
        (FileOutcome::NotFound, "File 'f' not found"),
        (FileOutcome::Outside, "Invalid file path"),
        (FileOutcome::Failed { error: text("disk") }, "Failed to get metadata: disk"),
    ];
    for (outcome, words) in cases {
        assert!(matches!(
            get_file_metadata("f", &outcome),
            SyncMessage::Error { message } if message == words
        ));
    }
}

#[test]
fn the_version_on_record_is_told_while_it_holds() {
    let (chunks, m) = chunk_file("f", b"one");
    let v1 = create_file_version(&chunks, m, text("me"), 10);
    let (chunks, m) = chunk_file("f", b"two");
    let v2 = create_file_version_from_parent(&chunks, m, text("me"), &v1, 20);
    let mut versions: Assoc<String, FileVersion> = Assoc::new();
    versions.insert(text("f"), v2);
    let same = FileOutcome::Content { data: b"two".to_vec() };
    assert!(matches!(
        get_versioned_metadata("f", &same, "me", &versions, 99),
        SyncMessage::VersionedMetadata { parent_hash, changed_chunks, timestamp: 20, .. }
            if parent_hash == Some(hash(b"one")) && changed_chunks == vec![0]
    ));
    let other = FileOutcome::Content { data: b"three".to_vec() };
    assert!(matches!(
        get_versioned_metadata("f", &other, "me", &versions, 99),
        SyncMessage::VersionedMetadata { parent_hash, timestamp: 99, .. }
            if parent_hash == Some(hash(b"two"))
    ));
}

#[test]
fn the_target_is_dialled_and_asked() {
    let target = peer();
    let e = Engine::new(text("/sync"), text("me"), Some(target.clone()), false);
    let mut out = DeltaOutbox::new();
    on_discovered(&e, &peer(), "/ip4/1.2.3.4/tcp/1", &mut out);
    assert_eq!(out.effects.len(), 0);
    on_discovered(&e, &target, "/ip4/1.2.3.4/tcp/1", &mut out);
    assert!(matches!(&out.effects[..], [DeltaEffect::Dial { .. }]));
    let mut e = connected(&target, false);
    assert!(e.sync.sync_target_peer.is_some());
    on_closed(&mut e, &target, &mut out);
    assert!(e.sync.sync_target_peer.is_none());
    assert_eq!(e.sync.connected_peers.len(), 0);
}

#[test]
fn files_are_listed_and_served() {
    let them = peer();
    let mut e = connected(&them, false);
    let mut out = DeltaOutbox::new();
    assert!(matches!(on_request(&mut e, &them, SyncMessage::ListFiles, &mut out), RequestStep::ListFiles));
    files_listed(&vec![text("f"), text(".x")], &mut out);
    assert!(matches!(answer(&out), SyncMessage::FileList { file_names } if file_names == &vec![text("f")]));

    let mut out = DeltaOutbox::new();
    let step = on_request(
        &mut e,
        &them,
        SyncMessage::MetaDataRequest { file_name: text("f") },
        &mut out,
    );
    assert!(matches!(step, RequestStep::ReadMetadata { path, .. } if path == "/sync/f"));
    let content = FileOutcome::Content { data: b"abc".to_vec() };
    let step = metadata_ready(&e, "f", &content, 5, &mut out);
    assert!(matches!(
        answer(&out),
        SyncMessage::VersionedMetadata { timestamp: 5, author, .. } if author == "me"
    ));
    assert!(matches!(step, RequestStep::ReadForCache { path, .. } if path == "/sync/f"));
    keep_file(&mut e, text("f"), b"abc");

    let mut out = DeltaOutbox::new();
    let ask = SyncMessage::ChunkRequest { file_name: text("f"), chunk_index: 0 };
    on_request(&mut e, &them, ask, &mut out);
    assert!(matches!(
        answer(&out),
        SyncMessage::ChunkResponse { chunk_index: 0, data, .. } if data == b"abc"
    ));
    let mut out = DeltaOutbox::new();
    let ask = SyncMessage::ChunkRequest { file_name: text("f"), chunk_index: 1 };
    on_request(&mut e, &them, ask, &mut out);
    assert!(matches!(answer(&out), SyncMessage::Error { message } if message == "Chunk 1 out of range"));
    let mut out = DeltaOutbox::new();
    let gone = FileOutcome::Failed { error: text("gone") };
    chunk_file_ready(&mut e, text("g"), 0, &gone, &mut out);
    assert!(matches!(answer(&out), SyncMessage::Error { message } if message == "Failed to read file: gone"));
    let mut out = DeltaOutbox::new();
    let read = FileOutcome::Content { data: b"g".to_vec() };
    chunk_file_ready(&mut e, text("g"), 0, &read, &mut out);
    assert!(matches!(answer(&out), SyncMessage::ChunkResponse { .. }));
    assert!(e.cached.contains_key(&text("g")));
}

#[test]
fn unexpected_requests_are_refused() {
    let them = peer();
    for window in [false, true] {
        let mut e = connected(&them, window);
        let mut out = DeltaOutbox::new();
        on_request(&mut e, &them, SyncMessage::Empty, &mut out);
        assert!(matches!(
            answer(&out),
            SyncMessage::Error { message } if message == "Unexpected request type"
        ));
    }
}

fn change(file_hash: [u8; 32], timestamp: u64) -> SyncMessage {
    SyncMessage::FileChangedWithVersion {
        file_name: text("f"),
        file_hash,
        changed_chunk_count: 1,
        timestamp,
    }
}

#[test]
fn the_later_version_wins() {
    let them = peer();
    let mut e = connected(&them, false);
    e.sync.is_initial_sync_complete = true;
    let mut out = DeltaOutbox::new();
    on_content_changed(&mut e, text("f"), b"ours", 1055, &mut out);
    assert!(matches!(
        requests(&out)[..],
        [SyncMessage::FileChangedWithVersion { timestamp: 1055, changed_chunk_count: 1, .. }]
    ));
    let mut out = DeltaOutbox::new();
    on_request(&mut e, &them, change(hash(b"theirs"), 1050), &mut out);
    assert!(matches!(answer(&out), SyncMessage::TransferComplete));
    assert_eq!(requests(&out).len(), 0);
    let mut out = DeltaOutbox::new();
    on_request(&mut e, &them, change(hash(b"theirs"), 1060), &mut out);
    assert!(matches!(answer(&out), SyncMessage::TransferComplete));
    assert!(matches!(requests(&out)[..], [SyncMessage::MetaDataRequest { .. }]));
}

#[test]
fn who_asks_learns_what_changed() {
    let them = peer();
    let mut e = connected(&them, false);
    let mut out = DeltaOutbox::new();
    on_content_changed(&mut e, text("f"), b"one", 1, &mut out);
    on_content_changed(&mut e, text("f"), b"two", 2, &mut out);
    let mut out = DeltaOutbox::new();
    let content = FileOutcome::Content { data: b"two".to_vec() };
    metadata_ready(&e, "f", &content, 9, &mut out);
    assert!(matches!(
        answer(&out),
        SyncMessage::VersionedMetadata { parent_hash, changed_chunks, timestamp: 2, .. }
            if *parent_hash == Some(hash(b"one")) && changed_chunks == &vec![0]
    ));
}

fn version_message(data: &[u8], changed_chunks: Vec<usize>) -> SyncMessage {
    SyncMessage::VersionedMetadata {
        file_name: text("f"),
        file_hash: hash(data),
        parent_hash: None,
        total_chunks: 1,
        file_size: data.len() as u64,
        chunk_hashes: vec![hash(data)],
        changed_chunks,
        timestamp: 7,
        author: text("them"),
    }
}

fn chunk_message(data: &[u8]) -> SyncMessage {
    SyncMessage::ChunkResponse {
        chunk_index: 0,
        data: data.to_vec(),
        hash: hash(data),
        file_name: text("f"),
    }
}

#[test]
fn a_file_is_fetched_with_its_version() {
    let them = peer();
    let mut e = connected(&them, false);
    let mut out = DeltaOutbox::new();
    on_response(&mut e, &them, SyncMessage::FileList { file_names: vec![text("f")] }, &mut out);
    assert!(matches!(requests(&out)[..], [SyncMessage::MetaDataRequest { .. }]));
    let mut out = DeltaOutbox::new();
    on_response(&mut e, &them, version_message(b"abc", vec![0]), &mut out);
    assert!(matches!(requests(&out)[..], [SyncMessage::ChunkRequest { chunk_index: 0, .. }]));

    let mut out = DeltaOutbox::new();
    let step = on_response(&mut e, &them, chunk_message(b"bad"), &mut out);
    assert!(matches!(step, ResponseStep::Done));
    assert!(matches!(requests(&out)[..], [SyncMessage::ChunkRequest { chunk_index: 0, .. }]));

    let mut out = DeltaOutbox::new();
    let step = on_response(&mut e, &them, chunk_message(b"abc"), &mut out);
    assert!(matches!(step, ResponseStep::Assemble { existing: None, chunk_index: 0, .. }));
    let rebuilt = assemble(&e, &text("f"), None).unwrap();
    assert_eq!(rebuilt.data, b"abc");
    file_written(&mut e, &text("f"), &mut out);
    assert!(e.sync.is_initial_sync_complete);
    assert!(e.sync.current_session.is_none());
    assert_eq!(e.local_versions.get(&text("f")).unwrap().file_hash, hash(b"abc"));
    assert_eq!(e.local_versions.get(&text("f")).unwrap().timestamp, 7);

    let mut out = DeltaOutbox::new();
    on_request(&mut e, &them, change(hash(b"abc"), 99), &mut out);
    assert_eq!(requests(&out).len(), 0);
}

#[test]
fn eight_chunks_are_asked_for_at_first() {
    let them = peer();
    let mut e = connected(&them, true);
    let mut out = DeltaOutbox::new();
    on_response(
        &mut e,
        &them,
        SyncMessage::Metadata {
            file_name: text("f"),
            total_chunks: 20,
            file_size: 9,
            chunk_hashes: vec![],
        },
        &mut out,
    );
    assert_eq!(requests(&out).len(), 8);
    assert!(matches!(
        &out.effects[0],
        DeltaEffect::Ui { event: UiEvent::Log(words) }
            if words == "Received metadata for 'f' (20 chunks, 9 bytes)"
    ));
    let mut out = DeltaOutbox::new();
    write_failed(&e, 3, "disk", &mut out);
    assert!(matches!(
        &out.effects[..],
        [DeltaEffect::Ui { event: UiEvent::Error(words) }] if words == "Chunk 3 error: disk"
    ));
}

#[test]
fn what_peers_change_is_not_sent_back() {
    let them = peer();
    let mut e = connected(&them, false);
    let mut out = DeltaOutbox::new();
    on_response(&mut e, &them, SyncMessage::Empty, &mut out);
    assert!(e.sync.is_initial_sync_complete);
    let step = on_request(
        &mut e,
        &them,
        SyncMessage::DirectoryCreated { path: text("d") },
        &mut out,
    );
    assert!(matches!(step, RequestStep::MakeDirectory { target, .. } if target == "/sync/d"));
    directory_done(&mut e, text("d"), &DiskOutcome::Changed, &mut out);
    let mut out = DeltaOutbox::new();
    on_path_changed(&mut e, "/sync/d", PathKind::Directory, &mut out);
    assert_eq!(out.effects.len(), 0);
    on_path_changed(&mut e, "/sync/d", PathKind::Directory, &mut out);
    assert!(matches!(requests(&out)[..], [SyncMessage::DirectoryCreated { .. }]));
}

#[test]
fn deleted_files_have_no_version() {
    let them = peer();
    let mut e = connected(&them, false);
    e.sync.is_initial_sync_complete = true;
    let mut out = DeltaOutbox::new();
    let step = on_path_changed(&mut e, "/sync/f", PathKind::File, &mut out);
    assert!(matches!(step, ChangeStep::ReadChanged { .. }));
    on_content_changed(&mut e, text("f"), b"x", 1, &mut out);
    assert!(e.local_versions.contains_key(&text("f")));
    let mut out = DeltaOutbox::new();
    on_path_removed(&mut e, "/sync/f", false, &mut out);
    assert!(matches!(requests(&out)[..], [SyncMessage::FileDeleted { .. }]));
    assert!(!e.local_versions.contains_key(&text("f")));

    let (chunks, m) = chunk_file("f", b"one");
    e.remote_versions.insert(text("f"), create_file_version(&chunks, m, text("them"), 1));
    let mut out = DeltaOutbox::new();
    file_removed(&mut e, text("f"), &DiskOutcome::Changed, &mut out);
    assert!(!e.remote_versions.contains_key(&text("f")));
    assert!(e.recently_remote.contains(&text("f")));
}

#[test]
fn requests_stay_in_the_folder() {
    let them = peer();
    let mut e = connected(&them, false);
    for name in ["/etc/x", "/sync/../x", "/syncing", "../x", "a/../../x", "a/..", "", "."] {
        let all = [
            SyncMessage::FileDeleted { file_name: text(name) },
            SyncMessage::DirectoryDeleted { path: text(name) },
            SyncMessage::DirectoryCreated { path: text(name) },
            SyncMessage::MetaDataRequest { file_name: text(name) },
            SyncMessage::ChunkRequest { file_name: text(name), chunk_index: 0 },
            SyncMessage::FileChanged { file_name: text(name) },
        ];
        for request in all {
            let mut out = DeltaOutbox::new();
            let step = on_request(&mut e, &them, request, &mut out);
            assert!(matches!(step, RequestStep::Done));
            assert!(matches!(
                answer(&out),
                SyncMessage::Error { message } if message == "Invalid file path"
            ));
            assert_eq!(out.effects.len(), 1);
        }
    }
    for (name, path) in [("/sync/f", "/sync/f"), ("a/../f", "/sync/a/../f"), ("./f", "/sync/./f")] {
        let mut out = DeltaOutbox::new();
        let request = SyncMessage::MetaDataRequest { file_name: text(name) };
        let step = on_request(&mut e, &them, request, &mut out);
        assert!(matches!(step, RequestStep::ReadMetadata { path: p, .. } if p == path));
        assert!(out.effects.is_empty());
    }
    let mut out = DeltaOutbox::new();
    let request = SyncMessage::FileDeleted { file_name: text("d/a..b") };
    let step = on_request(&mut e, &them, request, &mut out);
    assert!(matches!(step, RequestStep::RemoveFile { target, .. } if target == "/sync/d/a..b"));
    file_removed(&mut e, text("d/a..b"), &DiskOutcome::Outside, &mut out);
    assert!(matches!(answer(&out), SyncMessage::Error { .. }));
    assert!(!e.recently_remote.contains(&text("d/a..b")));
}

#[test]
fn nothing_is_rebuilt_outside_the_folder() {
    let (chunks, mut m) = chunk_file("f", b"x");
    m.file_name = text("../f");
    let mut ts = FileTransferState::new(text("/sync"));
    ts.metadata = Some(m);
    ts.require_all_chunks(1);
    assert!(process_received_chunk(0, chunks[0].data.clone(), &mut ts));
    assert!(matches!(reassemble_file(&ts, None), Err(Error::InvalidFilePath)));
}

#[test]
fn chunks_without_a_hash_are_refused() {
    let mut ts = FileTransferState::new(text("/sync"));
    assert!(!process_received_chunk(0, b"x".to_vec(), &mut ts));
    assert_eq!(ts.received_count(), 0);
    assert!(ts.failed_chunks.contains(&0));
    let (_, m) = chunk_file("f", b"x");
    ts.metadata = Some(m);
    assert!(!process_received_chunk(1, b"x".to_vec(), &mut ts));
    assert_eq!(ts.received_count(), 0);
}

#[test]
fn a_plain_transfer_ends() {
    let them = peer();
    for window in [false, true] {
        let mut e = connected(&them, window);
        let mut out = DeltaOutbox::new();
        let metadata = SyncMessage::Metadata {
            file_name: text("f"),
            total_chunks: 1,
            file_size: 3,
            chunk_hashes: vec![hash(b"abc")],
        };
        on_response(&mut e, &them, metadata, &mut out);
        assert!(matches!(requests(&out)[..], [SyncMessage::ChunkRequest { chunk_index: 0, .. }]));
        let step = on_response(&mut e, &them, chunk_message(b"abc"), &mut out);
        assert!(matches!(step, ResponseStep::Assemble { .. }));
        assert_eq!(assemble(&e, &text("f"), None).unwrap().data, b"abc");
    }
}

#[test]
fn only_the_parent_is_built_upon() {
    let them = peer();
    let mut e = connected(&them, false);
    let mut out = DeltaOutbox::new();
    on_content_changed(&mut e, text("f"), b"ours", 1, &mut out);
    let (_, m) = chunk_file("f", &big(&[]));
    let message = |parent: &[u8]| SyncMessage::VersionedMetadata {
        file_name: text("f"),
        file_hash: hash(b"theirs"),
        parent_hash: Some(hash(parent)),
        total_chunks: 3,
        file_size: m.file_size,
        chunk_hashes: m.chunk_hashes.clone(),
        changed_chunks: vec![1],
        timestamp: 7,
        author: text("them"),
    };
    let mut out = DeltaOutbox::new();
    on_response(&mut e, &them, message(b"another"), &mut out);
    assert_eq!(requests(&out).len(), 3);
    let mut out = DeltaOutbox::new();
    on_response(&mut e, &them, message(b"ours"), &mut out);
    assert!(matches!(requests(&out)[..], [SyncMessage::ChunkRequest { chunk_index: 1, .. }]));
}

#[test]
fn needed_chunks_are_asked_for_first() {
    let them = peer();
    let mut e = connected(&them, false);
    let mut out = DeltaOutbox::new();
    on_response(&mut e, &them, version_message(b"abc", vec![]), &mut out);
    assert!(matches!(requests(&out)[..], [SyncMessage::ChunkRequest { chunk_index: 0, .. }]));
}

#[test]
fn a_file_that_was_not_announced_is_not_written() {
    let old = big(&[]);
    let new = big(&[(CHUNK + 5, 9)]);
    let (chunks, m) = chunk_file("f", &old);
    let v1 = create_file_version(&chunks, m, text("them"), 1);
    let (new_chunks, new_m) = chunk_file("f", &new);
    let v2 = create_file_version_from_parent(&new_chunks, new_m.clone(), text("them"), &v1, 2);
    let mut ts = FileTransferState::new(text("/sync"));
    ts.metadata = Some(new_m);
    ts.current_version = Some(v2);
    ts.previous_version = Some(v1);
    ts.set_required_chunks();
    assert!(process_received_chunk(1, new_chunks[1].data.clone(), &mut ts));
    let other = big(&[(3, 7)]);
    let e = reassemble_file(&ts, Some(&other)).unwrap_err();
    assert_eq!(e.message(), "File hash mismatch for f");
    assert!(reassemble_file(&ts, Some(&old)).unwrap().data == new);
}

#[test]
fn no_file_of_a_session_is_lost() {
    let mut s = SyncSession::new(vec![text("a"), text("b"), text("c")], 2);
    let mut active = vec![s.start_next().unwrap(), s.start_next().unwrap()];
    while let Some(name) = active.pop() {
        assert_eq!(s.remaining() + s.completed(), 3);
        s.mark_complete(&name);
        assert_eq!(s.remaining() + s.completed(), 3);
        if let Some(next) = s.start_next() {
            active.push(next);
        }
        assert_eq!(s.is_done(), s.remaining() == 0);
    }
    assert!(s.is_done());
}

#[test]
fn the_backend_starts_with_a_folder() {
    assert!(matches!(read_target("  "), Ok(None)));
    let id = peer();
    let padded = format!(" {} ", id.as_str());
    assert_eq!(read_target(&padded).unwrap().unwrap().as_str(), id.as_str());
    let fault = "nobody".parse::<libp2p::PeerId>().unwrap_err().to_string();
    assert!(matches!(
        read_target("nobody"),
        Err(UiEvent::Error(words)) if words == format!("Invalid Peer ID: {}", fault)
    ));
    let mut out = DeltaOutbox::new();
    let failed = FolderOutcome::CannotCreate { error: text("no") };
    assert!(start_backend(text("me"), None, failed, &mut out).is_none());
    let failed = FolderOutcome::Invalid { error: text("no") };
    assert!(start_backend(text("me"), None, failed, &mut out).is_none());
    let ready = FolderOutcome::Ready { path: text("/s"), shown: text("\"/s\"") };
    let e = start_backend(text("me"), None, ready, &mut out).unwrap();
    assert_eq!(e.root, "/s");
    assert!(e.window);
    let words: Vec<String> = out.effects.iter().map(|e| format!("{:?}", e)).collect();
    assert!(words[0].contains("Cannot create folder: no"));
    assert!(words[1].contains("Invalid folder path: no"));
    assert!(words[3].contains("Waiting for incoming connections..."));
}

#[test]
fn the_window_shows_what_happens() {
    let mut w = VitruviusApp::new();
    assert_eq!(w.local_peer_id, "Waiting...");
    w.show(UiEvent::LocalPeerId(text("me")));
    assert_eq!(w.local_peer_id, "me");
    w.show(UiEvent::PeerConnected(text("a")));
    w.show(UiEvent::PeerConnected(text("a")));
    assert_eq!(w.connected_peers.len(), 1);
    w.show(UiEvent::PeerDisconnected(text("a")));
    assert_eq!(w.connected_peers.len(), 0);
    w.show(UiEvent::SyncProgress { file_name: text("f"), received: 1, required: 4 });
    w.show(UiEvent::SyncProgress { file_name: text("f"), received: 2, required: 4 });
    assert_eq!(w.active_transfers.len(), 1);
    assert_eq!(w.active_transfers.value_at(0).received, 2);
    w.show(UiEvent::FileComplete(text("f")));
    assert_eq!(w.active_transfers.len(), 0);
    assert_eq!(w.completed_files, vec!["f"]);
    w.show(UiEvent::Error(text("bad")));
    w.show(UiEvent::SyncComplete);
    assert_eq!(
        w.log_messages,
        vec![
            "Connected to a",
            "Connected to a",
            "Disconnected from a",
            "File complete: f",
            "[ERROR] bad",
            "Sync complete!"
        ]
    );
    assert!(w.start().is_none());
    w.folder_path_input = text(" /sync ");
    assert!(matches!(
        w.start(),
        Some(UiCommand::StartSync { folder_path, .. }) if folder_path == " /sync "
    ));
    assert!(!w.can_start());
    assert!(matches!(w.stop(), Some(UiCommand::Stop)));
    assert!(w.stop().is_none());
}

#[test]
fn versions_and_metadata_can_be_copied() {
    let m = FileMetadata {
        file_name: text("f"),
        total_chunks: 2,
        file_size: 1,
        chunk_hashes: vec![[1; 32]],
    };
    let v = FileVersion::new([2; 32], m, text("me"), 3);
    let c = v.clone();
    assert_eq!(c.changed_chunks, vec![0, 1]);
    assert_eq!(c.metadata.chunk_hashes, vec![[1; 32]]);
    let message = version_message(b"abc", vec![0]);
    assert_eq!(format!("{:?}", message.clone()), format!("{:?}", message));
    assert!(matches!(
        log_to_gui("info", "hello"),
        GuiEvent::Log { level, message } if level == "info" && message == "hello"
    ));
}
