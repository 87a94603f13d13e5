use vitruvius::error::Error;
use vitruvius::listing::{compute_file_metadata_plain, compute_file_metadata_vault};
use vitruvius::storage::{FileMetadata, FileTransferState};
use vitruvius::transfer::{
    import_file, local_chunk_path, read_local_chunk_plain, reassemble, reassemble_modal,
};

fn shown(path: &str) -> String {
    format!("{:?}", std::path::Path::new(path))
}

#[test]
fn files_outside_the_root_are_refused() {
    let path = "/other/a \"b\".txt";
    let e = compute_file_metadata_plain("/sync", path, b"x").unwrap_err();
    assert!(matches!(e, Error::NotRelative { .. }));
    assert_eq!(e.message(), format!("Cannot make relative path for {}", shown(path)));
    let e = compute_file_metadata_vault("/sync", "/other/a.vit", b"x").unwrap_err();
    assert!(matches!(e, Error::VaultOutsideRoot { .. }));
    assert_eq!(e.message(), "vault file outside root: \"/other/a.vit\"");
    let e = compute_file_metadata_vault("/sync", "/", b"x").unwrap_err();
    assert!(matches!(e, Error::BadVaultName { .. }));
    assert_eq!(e.message(), "bad vault filename \"/\"");
    let e = compute_file_metadata_vault("/sync", "/sync/a.txt", b"x").unwrap_err();
    assert!(matches!(e, Error::NotVaultFile));
    let e = import_file("/src", "/other/a", "/dst", b"x", &[1; 32]).unwrap_err();
    assert!(matches!(e, Error::RelPathFailed { .. }));
    assert_eq!(e.message(), "rel path failed for \"/other/a\"");
}

#[test]
fn chunks_past_the_end_are_refused() {
    let e = read_local_chunk_plain(b"abc", "a", 1, None).unwrap_err();
    assert!(matches!(&e, Error::ChunkPastEnd { index: 1, name } if name == "a"));
    assert_eq!(e.message(), "chunk 1 past end of a");
}

#[test]
fn the_vault_needs_its_key() {
    let e = local_chunk_path("/sync", "a", true, None).unwrap_err();
    assert!(matches!(e, Error::VaultKeyMissing));
    assert_eq!(e.message(), "vault mode without vault_key");
    assert_eq!(local_chunk_path("/sync", "a", false, None).unwrap(), "/sync/a");
    assert_eq!(local_chunk_path("/sync", "a", true, Some(&[1; 32])).unwrap(), "/sync/a.vit");
    assert!(matches!(
        local_chunk_path("/sync", "../a", true, None),
        Err(Error::UnsafePath { .. })
    ));
}

fn half_done() -> FileTransferState {
    let mut ts = FileTransferState::new("/sync".to_string(), 0);
    ts.metadata = Some(FileMetadata {
        file_name: "f".to_string(),
        total_chunks: 2,
        file_size: 2,
        chunk_hashes: vec![],
        is_vault: false,
    });
    ts.store_chunk(0, vec![1]);
    ts
}

#[test]
fn incomplete_files_are_not_put_together() {
    let ts = half_done();
    let e = reassemble(&ts).unwrap_err();
    assert!(matches!(&e, Error::MissingChunk { index: 1, .. }));
    assert_eq!(e.message(), "Missing chunk 1 during reassembly of f");
    let e = reassemble_modal(&ts, true, Some(&[1; 32])).unwrap_err();
    assert!(matches!(&e, Error::MissingVaultChunk { index: 1, .. }));
    assert_eq!(e.message(), "Missing chunk 1 during vault reassembly of f");
    assert!(matches!(reassemble_modal(&ts, true, None), Err(Error::VaultKeyMissing)));
}

#[test]
fn errors_of_the_disk_are_told_as_they_are() {
    assert_eq!(Error::Io { message: "disk full".to_string() }.message(), "disk full");
    assert_eq!(
        Error::ChunkOutOfRange { index: 3, total: 2 }.message(),
        "chunk 3 >= total 2"
    );
    assert_eq!(
        Error::KeyFileLength { len: 31 }.message(),
        "Key file must be exactly 32 bytes, got 31. Did you generate it with --generate-key?"
    );
}
