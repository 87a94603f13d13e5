use vitruvius::error::Error;
use vitruvius::listing::{
    compute_file_metadata_plain, compute_file_metadata_vault, listed, sort_listing,
};
use vitruvius::network::SyncMessage;
use vitruvius::storage::FileMetadata;
use vitruvius::transfer::{
    can_import, decrypt_manifest, get_encrypted_manifest, import_file,
    import_plaintext_dir_into_vault, read_local_chunk_plain, seal_manifest,
    vault_write_file_from_plaintext_chunks, SourceFile, WriteOrder,
};
use vitruvius::vault::{
    read_vault_chunk_hashes, read_vault_header, seal_new_vault, seal_vault, vault_chunk_aad,
    vault_export_to_plaintext, vault_read_chunk,
};

fn write(name: &str, chunks: &[Vec<u8>], key: &[u8; 32]) -> WriteOrder {
    vault_write_file_from_plaintext_chunks("/sync", name, chunks, key).unwrap()
}

#[test]
fn vault_round_trip_one_chunk() {
    let key = [0x42u8; 32];
    let chunks = vec![b"hello vault world".to_vec()];
    let file = write("hello.txt", &chunks, &key);
    assert_eq!(file.path, "/sync/hello.txt.vit");
    assert!(file.private);
    let pt = vault_read_chunk(&file.data, 0, &key).unwrap();
    assert_eq!(pt, b"hello vault world");
}

#[test]
fn vault_round_trip_multi_chunk() {
    let key = [0x33u8; 32];
    let chunks: Vec<Vec<u8>> = (0..5).map(|i| vec![i as u8; 1234]).collect();
    let file = write("data.bin", &chunks, &key);
    for i in 0..5u32 {
        let pt = vault_read_chunk(&file.data, i, &key).unwrap();
        assert_eq!(pt, vec![i as u8; 1234]);
    }
}

#[test]
fn vault_wrong_key_fails() {
    let k1 = [0xAAu8; 32];
    let k2 = [0xBBu8; 32];
    let chunks = vec![b"secret".to_vec()];
    let file = write("x.txt", &chunks, &k1);
    assert!(vault_read_chunk(&file.data, 0, &k2).is_err());
    assert!(matches!(vault_read_chunk(&file.data, 0, &k2), Err(Error::VaultChunkDecrypt)));
    assert!(matches!(
        vault_export_to_plaintext(&file.data, &k2),
        Err(Error::VaultExportDecrypt)
    ));
}

#[test]
fn vault_listing_recovers_original_metadata() {
    let key = [0x55u8; 32];
    let chunks: Vec<Vec<u8>> = (0..3).map(|i| vec![i as u8; 17]).collect();
    let file = write("report.pdf", &chunks, &key);
    assert!(listed(&file.path, true));
    assert!(!listed(&file.path, false));
    let listing =
        sort_listing(vec![compute_file_metadata_vault("/sync", &file.path, &file.data).unwrap()]);
    assert_eq!(listing.len(), 1);
    assert_eq!(listing[0].file_name, "report.pdf");
    assert_eq!(listing[0].total_chunks, 3);
    assert_eq!(listing[0].file_size, 51);
    assert_eq!(listing[0].chunk_hashes.len(), 3);
    assert_eq!(&listing[0].chunk_hashes[1], blake3::hash(&[1u8; 17]).as_bytes());
    assert!(listing[0].is_vault);
}

#[test]
fn vault_export_round_trip() {
    let key = [0x77u8; 32];
    let chunks = vec![vec![1u8; 100], vec![2u8; 200]];
    let file = write("f.bin", &chunks, &key);
    let (size, out) = vault_export_to_plaintext(&file.data, &key).unwrap();
    assert_eq!(size, 300);
    assert_eq!(out.len(), 300);
    assert_eq!(&out[..100], &vec![1u8; 100][..]);
    assert_eq!(&out[100..], &vec![2u8; 200][..]);
}

#[test]
fn encrypted_manifest_round_trip() {
    let vk = [0x10u8; 32];
    let tk = [0x20u8; 32];
    let chunks = vec![b"abc".to_vec()];
    let file = write("doc.txt", &chunks, &vk);
    let files = vec![compute_file_metadata_vault("/sync", &file.path, &file.data).unwrap()];
    let (payload, id_map) = get_encrypted_manifest(&files, "node", &tk).unwrap();
    assert!(get_encrypted_manifest(&vec![], "node", &tk).is_none());
    let entries: Vec<(String, [u8; 16], u64, u32)> = payload
        .files
        .iter()
        .map(|f| (f.file_name.clone(), f.file_id, f.file_size, f.total_chunks))
        .collect();
    let cbor = serde_cbor::to_vec(&(payload.node_name.clone(), entries)).unwrap();
    let ct = match seal_manifest(&tk, &cbor).unwrap() {
        SyncMessage::EncryptedManifest { ciphertext } => ciphertext,
        _ => panic!("expected EncryptedManifest"),
    };
    let plain = decrypt_manifest(&tk, &ct).unwrap();
    assert_eq!(plain, cbor);
    let (node_name, files): (String, Vec<(String, [u8; 16], u64, u32)>) =
        serde_cbor::from_slice(&plain).unwrap();
    assert_eq!(node_name, "node");
    assert_eq!(files.len(), 1);
    assert_eq!(files[0].0, "doc.txt");
    assert_eq!(id_map.get(&files[0].1).unwrap(), "doc.txt");
    assert!(matches!(decrypt_manifest(&vk, &ct), Err(Error::ManifestDecrypt)));
}

#[test]
fn a_container_is_laid_out_as_documented() {
    let key = [1u8; 32];
    let uuid = [7u8; 16];
    let file = seal_vault(&uuid, &[b"abc".to_vec()], &key).unwrap();
    assert_eq!(&file[..4], b"VITV");
    let (id, total, size) = read_vault_header(&file).unwrap();
    assert_eq!((id, total, size), (uuid, 1, 3));
    let hashes = read_vault_chunk_hashes(&file, total).unwrap();
    assert_eq!(&hashes[0], blake3::hash(b"abc").as_bytes());
    assert_ne!(vault_chunk_aad(&uuid, 0), vault_chunk_aad(&uuid, 1));
}

#[test]
fn new_containers_get_their_own_ids() {
    let key = [1u8; 32];
    let a = seal_new_vault(&[b"abc".to_vec()], &key).unwrap();
    let b = seal_new_vault(&[b"abc".to_vec()], &key).unwrap();
    assert_ne!(read_vault_header(&a).unwrap().0, read_vault_header(&b).unwrap().0);
}

#[test]
fn chunks_cannot_change_places() {
    let key = [1u8; 32];
    let uuid = [7u8; 16];
    let file = seal_vault(&uuid, &[vec![1u8; 8], vec![2u8; 8]], &key).unwrap();
    let header = file.len() - 2 * (32 + 4 + 12 + 8 + 16);
    let record = 32 + 4 + 12 + 8 + 16;
    let mut swapped = file[..header].to_vec();
    swapped.extend_from_slice(&file[header + record..]);
    swapped.extend_from_slice(&file[header..header + record]);
    assert!(matches!(vault_read_chunk(&swapped, 0, &key), Err(Error::VaultChunkDecrypt)));
}

#[test]
fn damaged_containers_are_refused() {
    let key = [1u8; 32];
    let file = seal_new_vault(&[b"abc".to_vec()], &key).unwrap();
    assert!(matches!(read_vault_header(&file[..10]), Err(Error::VaultHeaderRead)));
    let mut other = file.clone();
    other[0] = b'X';
    assert!(matches!(read_vault_header(&other), Err(Error::BadMagic)));
    assert!(matches!(
        vault_read_chunk(&file, 1, &key),
        Err(Error::ChunkOutOfRange { index: 1, total: 1 })
    ));
    assert!(matches!(
        vault_read_chunk(&file[..file.len() - 1], 0, &key),
        Err(Error::UnexpectedEnd)
    ));
}

#[test]
fn nothing_is_written_outside_the_root() {
    let r = vault_write_file_from_plaintext_chunks("/sync", "../x", &[vec![1]], &[0; 32]);
    assert!(matches!(r, Err(Error::UnsafePath { .. })));
}

#[test]
fn plain_files_are_listed_with_their_chunks() {
    let data = vec![5u8; 524288 + 1];
    let m = compute_file_metadata_plain("/sync", "/sync/a/b.bin", &data).unwrap();
    assert_eq!(m.file_name, "a/b.bin");
    assert_eq!(m.total_chunks, 2);
    assert_eq!(m.file_size, 524289);
    assert_eq!(&m.chunk_hashes[1], blake3::hash(&[5u8]).as_bytes());
    assert!(!m.is_vault);
    assert!(compute_file_metadata_plain("/sync", "/other/b.bin", &data).is_err());
}

fn named(name: &str) -> FileMetadata {
    FileMetadata {
        file_name: name.to_string(),
        total_chunks: 0,
        file_size: 0,
        chunk_hashes: vec![],
        is_vault: false,
    }
}

#[test]
fn listings_are_sorted_by_name() {
    let sorted = sort_listing(vec![named("b"), named("a/z"), named("a")]);
    let names: Vec<&str> = sorted.iter().map(|f| f.file_name.as_str()).collect();
    assert_eq!(names, vec!["a", "a/z", "b"]);
}

#[test]
fn imported_files_are_exported_as_they_were() {
    let key = [8u8; 32];
    for data in [vec![], vec![7u8; 524289]] {
        let order = import_file("/src", "/src/n", "/vault", &data, &key).unwrap().unwrap();
        let (size, plain) = vault_export_to_plaintext(&order.data, &key).unwrap();
        assert_eq!(size, data.len() as u64);
        assert!(plain == data);
    }
    assert!(import_file("/src", "/src/n.vit", "/vault", b"", &key).unwrap().is_none());
}

#[test]
fn imported_files_can_be_read_back() {
    let key = [8u8; 32];
    let order = import_file("/src", "/src/a/n.txt", "/vault", b"some text", &key).unwrap().unwrap();
    assert_eq!(order.path, "/vault/a/n.txt.vit");
    assert_eq!(
        read_local_chunk_plain(&order.data, "a/n.txt", 0, Some(&key)).unwrap(),
        b"some text"
    );
}

fn source(path: &str, data: &[u8]) -> SourceFile {
    assert!(can_import("/src", path, "/vault"));
    SourceFile { path: path.to_string(), data: data.to_vec() }
}

#[test]
fn all_plain_files_of_a_folder_are_imported() {
    let key = [8u8; 32];
    let files = vec![
        source("/src/a", b"first"),
        source("/src/old.vit", b"a container"),
        source("/src/d/empty", b""),
        source("/src/d/b.txt", b"last"),
    ];
    let made = import_plaintext_dir_into_vault("/src", &files, "/vault", &key);
    assert!(made.error.is_none());
    let written: Vec<(&str, Vec<u8>)> = made
        .orders
        .iter()
        .map(|o| (o.path.as_str(), vault_export_to_plaintext(&o.data, &key).unwrap().1))
        .collect();
    assert_eq!(
        written,
        vec![
            ("/vault/a.vit", b"first".to_vec()),
            ("/vault/d/empty.vit", vec![]),
            ("/vault/d/b.txt.vit", b"last".to_vec()),
        ]
    );
    let none = import_plaintext_dir_into_vault("/src", &vec![], "/vault", &key);
    assert!(none.error.is_none() && none.orders.is_empty());
}

#[test]
fn an_import_ends_at_the_first_bad_file() {
    let key = [8u8; 32];
    let files = vec![source("/src/a", b"first"), source("/other/b", b"x"), source("/src/c", b"y")];
    let made = import_plaintext_dir_into_vault("/src", &files, "/vault", &key);
    assert_eq!(made.orders.len(), 1);
    assert!(matches!(made.error, Some(Error::RelPathFailed { path }) if path == "/other/b"));
    let files = vec![source("/src/../b", b"x")];
    let made = import_plaintext_dir_into_vault("/src", &files, "/vault", &key);
    assert!(made.orders.is_empty());
    assert!(matches!(made.error, Some(Error::UnsafePath { path }) if path == "../b"));
}
