//! Serving files to peers and putting received files together.
use crate::collections::{has_key, law_put, lookup, put, Assoc, Key};
use crate::crypto::{
    blind_chunk_hash, blind_filename, blinded_hash, blinded_name, chunk_aad, decrypt_with_aad,
    encrypt, encrypt_with_aad, opened_block, position_aad, sealed_block, CHUNK_TAG,
};
use crate::error::{error_text, Error, ErrorView};
use crate::listing::metadata_views;
use crate::network::{
    EncryptedFileEntry, EncryptedFileEntryView, EncryptedManifestPayload,
    EncryptedManifestPayloadView, FileEntry, FileEntryView, SyncMessage, SyncMessageView,
};
use crate::paths::{
    absolute, file_name, has_file_name, has_vault_extension, is_vault_path,
    law_plain_name_names_a_file, leads_out, names, rel_to_abs, rel_to_vault_abs, relative,
    relative_path, trimmed, unsafe_rel_path, vault_path,
};
use crate::primitives::{blake3_digest, blake3_hash, AEAD_MESSAGE_MAX};
use crate::storage::{
    chunk_at, chunk_count, chunk_of, content_hashes, copy_hashes, count_chunks, file_chunks,
    law_chunks_make_up_the_file, law_missing_chunks, missing_below, opt_key_ref, split_chunks,
    transfer_total, FileMetadata, FileMetadataView, FileTransferState, FileTransferStateView,
    MANIFEST_AAD,
};
use crate::text::owned;
use crate::vault::{
    byte_strings, concatenation, hash_strings, is_vault_of, law_vault_gives_back_what_was_stored,
    seal_new_vault, vault_chunk, vault_fault, vault_plaintext, vault_read_chunk,
};
use vstd::prelude::*;
use vstd::slice::slice_to_vec;

verus! {

/// A file that is to be written.
#[derive(Debug)]
pub struct WriteOrder {
    pub path: String,
    pub data: Vec<u8>,
    /// Whether only the owner may read it.
    pub private: bool,
}

/// What a `WriteOrder` holds.
#[verifier::ext_equal]
pub ghost struct WriteOrderView {
    pub path: Seq<char>,
    pub data: Seq<u8>,
    pub private: bool,
}

impl View for WriteOrder {
    type V = WriteOrderView;

    open spec fn view(&self) -> WriteOrderView {
        WriteOrderView {
            path: self.path@,
            data: self.data@,
            private: self.private,
        }
    }
}

/// Where a chunk can be found.
#[derive(Debug)]
pub struct ChunkPlace {
    pub file_name: String,
    pub chunk_index: usize,
}

/// What a `ChunkPlace` holds.
#[verifier::ext_equal]
pub ghost struct ChunkPlaceView {
    pub file_name: Seq<char>,
    pub chunk_index: usize,
}

impl View for ChunkPlace {
    type V = ChunkPlaceView;

    open spec fn view(&self) -> ChunkPlaceView {
        ChunkPlaceView {
            file_name: self.file_name@,
            chunk_index: self.chunk_index,
        }
    }
}

/// The entry of a file in a plain manifest.
pub open spec fn plain_entry(m: FileMetadataView) -> FileEntryView {
    FileEntryView {
        file_name: m.file_name,
        file_size: m.file_size,
        total_chunks: m.total_chunks,
        chunk_hashes: m.chunk_hashes,
    }
}

/// The manifest of a folder, as it is told to peers without a key.
pub open spec fn plain_manifest(
    files: Seq<FileMetadataView>,
    node_name: Seq<char>,
) -> SyncMessageView {
    if files.len() == 0 {
        SyncMessageView::Empty
    } else {
        SyncMessageView::Manifest {
            node_name,
            files: files.map_values(|m: FileMetadataView| plain_entry(m)),
        }
    }
}

/// The manifest of a folder, as it is told to peers without a key.
pub fn get_manifest(files: &Vec<FileMetadata>, node_name: &str) -> (r: SyncMessage)
    ensures
        r@ == plain_manifest(metadata_views(files@), node_name@),
{
    if files.len() == 0 {
        return SyncMessage::Empty;
    }
    let mut entries: Vec<FileEntry> = Vec::new();
    let mut i: usize = 0;
    let ghost want = metadata_views(files@).map_values(|m: FileMetadataView| plain_entry(m));
    while i < files.len()
        invariant
            i <= files@.len(),
            want == metadata_views(files@).map_values(|m: FileMetadataView| plain_entry(m)),
            entries@.map_values(|e: FileEntry| e@) == want.take(i as int),
        decreases files.len() - i,
    {
        let ghost before = entries@.map_values(|e: FileEntry| e@);
        let m = &files[i];
        entries.push(
            FileEntry {
                file_name: m.file_name.clone(),
                file_size: m.file_size,
                total_chunks: m.total_chunks,
                chunk_hashes: copy_hashes(&m.chunk_hashes),
            },
        );
        i = i + 1;
        assert(entries@.map_values(|e: FileEntry| e@) =~= before.push(want[i - 1]));
        assert(want.take(i as int) =~= before.push(want[i - 1]));
    }
    assert(want.take(i as int) =~= want);
    SyncMessage::Manifest { node_name: owned(node_name), files: entries }
}

/// The entry of a file in an encrypted manifest.
pub open spec fn blinded_entry(m: FileMetadataView, key: Seq<u8>) -> EncryptedFileEntryView {
    EncryptedFileEntryView {
        file_name: m.file_name,
        file_id: blinded_name(key, m.file_name),
        file_size: m.file_size,
        total_chunks: m.total_chunks as u32,
        blinded_chunk_hashes: m.chunk_hashes.map_values(|h: Seq<u8>| blinded_hash(key, h)),
    }
}

/// The files behind the opaque ids.
pub open spec fn id_map(files: Seq<FileMetadataView>, key: Seq<u8>) -> Seq<(Seq<u8>, Seq<char>)>
    decreases files.len(),
{
    if files.len() == 0 {
        Seq::empty()
    } else {
        put(
            id_map(files.drop_last(), key),
            blinded_name(key, files.last().file_name),
            files.last().file_name,
        )
    }
}

/// The id of every listed file leads back to a file with that id, and to the
/// file itself where no two files share an id.
pub proof fn law_ids_lead_back(files: Seq<FileMetadataView>, key: Seq<u8>, i: int)
    requires
        0 <= i < files.len(),
    ensures
        lookup(id_map(files, key), blinded_name(key, files[i].file_name)) matches Some(name)
            && blinded_name(key, name) == blinded_name(key, files[i].file_name),
        (forall|j: int|
            i < j < files.len() ==> blinded_name(key, (#[trigger] files[j]).file_name)
                != blinded_name(key, files[i].file_name)) ==> lookup(
            id_map(files, key),
            blinded_name(key, files[i].file_name),
        ) == Some(files[i].file_name),
    decreases files.len(),
{
    let d = files.drop_last();
    let id = blinded_name(key, files[i].file_name);
    let last_id = blinded_name(key, files.last().file_name);
    law_put(id_map(d, key), last_id, files.last().file_name, id);
    if i < d.len() {
        law_ids_lead_back(d, key, i);
        if id == last_id {
            assert(blinded_name(key, files[files.len() - 1].file_name) == id);
        }
        assert(forall|j: int| 0 <= j < d.len() ==> d[j] == files[j]);
    }
}

/// The content of an encrypted manifest.
pub open spec fn manifest_payload(
    files: Seq<FileMetadataView>,
    node_name: Seq<char>,
    key: Seq<u8>,
) -> EncryptedManifestPayloadView {
    EncryptedManifestPayloadView {
        node_name,
        files: files.map_values(|m: FileMetadataView| blinded_entry(m, key)),
    }
}

fn blind_hashes(key: &[u8; 32], hashes: &Vec<[u8; 32]>) -> (r: Vec<[u8; 32]>)
    ensures
        hash_strings(r@) == hash_strings(hashes@).map_values(|h: Seq<u8>| blinded_hash(key@, h)),
{
    let mut out: Vec<[u8; 32]> = Vec::new();
    let ghost want = hash_strings(hashes@).map_values(|h: Seq<u8>| blinded_hash(key@, h));
    let mut i: usize = 0;
    while i < hashes.len()
        invariant
            i <= hashes@.len(),
            want == hash_strings(hashes@).map_values(|h: Seq<u8>| blinded_hash(key@, h)),
            hash_strings(out@) == want.take(i as int),
        decreases hashes.len() - i,
    {
        let ghost before = hash_strings(out@);
        out.push(blind_chunk_hash(key, &hashes[i]));
        i = i + 1;
        assert(hash_strings(out@) =~= before.push(want[i - 1]));
        assert(want.take(i as int) =~= before.push(want[i - 1]));
    }
    assert(want.take(i as int) =~= want);
    out
}

/// What an encrypted manifest tells, and the ids by which its files are spoken of.
/// Without files there is nothing to tell.
pub fn get_encrypted_manifest(
    files: &Vec<FileMetadata>,
    node_name: &str,
    transport_key: &[u8; 32],
) -> (r: Option<(EncryptedManifestPayload, Assoc<[u8; 16], String>)>)
    ensures
        r is None <==> files@.len() == 0,
        r matches Some((payload, ids)) ==> {
            &&& payload@ == manifest_payload(metadata_views(files@), node_name@, transport_key@)
            &&& ids@ == id_map(metadata_views(files@), transport_key@)
        },
{
    if files.len() == 0 {
        return None;
    }
    let mut entries: Vec<EncryptedFileEntry> = Vec::new();
    let mut ids: Assoc<[u8; 16], String> = Assoc::new();
    let ghost all = metadata_views(files@);
    let ghost want = all.map_values(|m: FileMetadataView| blinded_entry(m, transport_key@));
    let mut i: usize = 0;
    assert(all.take(0) =~= Seq::empty());
    while i < files.len()
        invariant
            i <= files@.len(),
            all == metadata_views(files@),
            want == all.map_values(|m: FileMetadataView| blinded_entry(m, transport_key@)),
            entries@.map_values(|e: EncryptedFileEntry| e@) == want.take(i as int),
            ids@ == id_map(all.take(i as int), transport_key@),
        decreases files.len() - i,
    {
        let ghost before = entries@.map_values(|e: EncryptedFileEntry| e@);
        let m = &files[i];
        let file_id = blind_filename(transport_key, m.file_name.as_str());
        entries.push(
            EncryptedFileEntry {
                file_name: m.file_name.clone(),
                file_id,
                file_size: m.file_size,
                total_chunks: m.total_chunks as u32,
                blinded_chunk_hashes: blind_hashes(transport_key, &m.chunk_hashes),
            },
        );
        ids.insert(file_id, m.file_name.clone());
        proof {
            assert(all.take(i + 1).drop_last() =~= all.take(i as int));
            assert(all.take(i + 1).last() == all[i as int]);
            assert(entries@.map_values(|e: EncryptedFileEntry| e@) =~= before.push(
                want[i as int],
            ));
            assert(want.take(i + 1) =~= before.push(want[i as int]));
        }
        i = i + 1;
    }
    assert(want.take(i as int) =~= want);
    assert(all.take(i as int) =~= all);
    Some((EncryptedManifestPayload { node_name: owned(node_name), files: entries }, ids))
}

/// The data is what was sealed, or the plaintext itself where there is no key.
pub open spec fn carries(
    data: Seq<u8>,
    plain: Seq<u8>,
    key: Option<Seq<u8>>,
    aad: Seq<u8>,
) -> bool {
    match key {
        None => data == plain,
        Some(k) => {
            &&& data == sealed_block(k, data.take(12), plain, aad)
            &&& opened_block(k, data, aad) == Some(plain)
        },
    }
}

/// What the receiver makes of transported data.
pub open spec fn received(data: Seq<u8>, key: Option<Seq<u8>>, aad: Seq<u8>) -> Option<Seq<u8>> {
    match key {
        None => Some(data),
        Some(k) => opened_block(k, data, aad),
    }
}

/// The receiver gets back what the sender sealed with the same key for the same
/// place.
pub proof fn law_transport_gives_back(
    data: Seq<u8>,
    plain: Seq<u8>,
    key: Option<Seq<u8>>,
    aad: Seq<u8>,
)
    requires
        carries(data, plain, key, aad),
    ensures
        received(data, key, aad) == Some(plain),
{
}

/// Seals a serialised manifest.
pub fn seal_manifest(transport_key: &[u8; 32], cbor: &[u8]) -> (r: Result<SyncMessage, Error>)
    ensures
        match r {
            Ok(msg) => {
                &&& cbor@.len() <= AEAD_MESSAGE_MAX
                &&& msg@ matches SyncMessageView::EncryptedManifest { ciphertext } && carries(
                    ciphertext,
                    cbor@,
                    Some(transport_key@),
                    MANIFEST_AAD@,
                )
            },
            Err(e) => cbor@.len() > AEAD_MESSAGE_MAX && e@ == ErrorView::ManifestEncrypt,
        },
{
    match encrypt_with_aad(transport_key, cbor, MANIFEST_AAD.as_slice()) {
        Ok(ciphertext) => Ok(SyncMessage::EncryptedManifest { ciphertext }),
        Err(_) => Err(Error::ManifestEncrypt),
    }
}

/// Opens a sealed manifest to its serialised form.
pub fn decrypt_manifest(transport_key: &[u8; 32], ciphertext: &[u8]) -> (r: Result<Vec<u8>, Error>)
    ensures
        match r {
            Ok(cbor) => opened_block(transport_key@, ciphertext@, MANIFEST_AAD@) == Some(cbor@),
            Err(e) => {
                &&& opened_block(transport_key@, ciphertext@, MANIFEST_AAD@) is None
                &&& e@ == ErrorView::ManifestDecrypt
            },
        },
{
    match decrypt_with_aad(transport_key, ciphertext, MANIFEST_AAD.as_slice()) {
        Ok(cbor) => Ok(cbor),
        Err(_) => Err(Error::ManifestDecrypt),
    }
}

/// Where a file that is asked for must be read.
pub open spec fn local_path(
    root: Seq<char>,
    rel: Seq<char>,
    vault_mode: bool,
    vault_key: Option<Seq<u8>>,
) -> Result<Seq<char>, ErrorView> {
    if leads_out(rel) {
        Err(ErrorView::UnsafePath { path: rel })
    } else if vault_mode {
        match vault_key {
            None => Err(ErrorView::VaultKeyMissing),
            Some(_) => Ok(vault_path(absolute(root, rel))),
        }
    } else {
        Ok(absolute(root, rel))
    }
}

/// Where a file that is asked for must be read.
pub fn local_chunk_path(
    sync_root: &str,
    rel_path: &str,
    vault_mode: bool,
    vault_key: Option<&[u8; 32]>,
) -> (r: Result<String, Error>)
    requires
        vault_mode && vault_key is Some && !leads_out(rel_path@) ==> has_file_name(
            absolute(sync_root@, rel_path@),
        ),
    ensures
        match r {
            Ok(path) => local_path(
                sync_root@,
                rel_path@,
                vault_mode,
                opt_key_ref(vault_key),
            ) == Ok::<Seq<char>, ErrorView>(path@),
            Err(e) => local_path(
                sync_root@,
                rel_path@,
                vault_mode,
                opt_key_ref(vault_key),
            ) == Err::<Seq<char>, ErrorView>(e@),
        },
{
    if unsafe_rel_path(rel_path) {
        return Err(Error::UnsafePath { path: owned(rel_path) });
    }
    if vault_mode {
        match vault_key {
            None => Err(Error::VaultKeyMissing),
            Some(_) => Ok(rel_to_vault_abs(sync_root, rel_path)),
        }
    } else {
        Ok(rel_to_abs(sync_root, rel_path))
    }
}

/// One chunk of a file as it was read. An empty file has an empty chunk.
pub open spec fn local_chunk(
    content: Seq<u8>,
    rel: Seq<char>,
    index: usize,
    vault_key: Option<Seq<u8>>,
) -> Result<Seq<u8>, ErrorView> {
    match vault_key {
        Some(key) => vault_chunk(content, index as u32, key),
        None => if index >= chunk_count(content.len()) {
            Err(ErrorView::ChunkPastEnd { index: index as nat, name: rel })
        } else {
            Ok(chunk_of(content, index as nat))
        },
    }
}

/// One chunk of a file as it was read: of a container, if there is a vault key.
pub fn read_local_chunk_plain(
    content: &[u8],
    rel_path: &str,
    chunk_index: usize,
    vault_key: Option<&[u8; 32]>,
) -> (r: Result<Vec<u8>, Error>)
    ensures
        match r {
            Ok(plain) => local_chunk(content@, rel_path@, chunk_index, opt_key_ref(vault_key))
                == Ok::<Seq<u8>, ErrorView>(plain@),
            Err(e) => local_chunk(content@, rel_path@, chunk_index, opt_key_ref(vault_key))
                == Err::<Seq<u8>, ErrorView>(e@),
        },
{
    match vault_key {
        Some(key) => vault_read_chunk(content, chunk_index as u32, key),
        None => {
            if chunk_index as u64 >= count_chunks(content.len() as u64) {
                Err(Error::ChunkPastEnd { index: chunk_index, name: owned(rel_path) })
            } else {
                Ok(chunk_at(content, chunk_index))
            }
        },
    }
}

/// Answers a plain request for a chunk that was read, or not. With a transport
/// key the data is encrypted.
pub fn get_chunk_modal(
    rel_path: &str,
    chunk_index: usize,
    plaintext: Result<Vec<u8>, Error>,
    transport_key: Option<&[u8; 32]>,
) -> (r: Result<SyncMessage, Error>)
    ensures
        match plaintext {
            Err(e) => r matches Ok(msg) && msg@ == (SyncMessageView::Error {
                message: error_text(e@),
            }),
            Ok(plain) => match r {
                Ok(msg) => {
                    &&& transport_key is Some ==> plain@.len() <= AEAD_MESSAGE_MAX
                    &&& msg@ matches SyncMessageView::ChunkResponse {
                        file_name,
                        chunk_index: index,
                        data,
                        hash,
                    } && file_name == rel_path@ && index == chunk_index && hash == blake3_digest(
                        plain@,
                    ) && carries(data, plain@, opt_key_ref(transport_key), seq![])
                },
                Err(e) => {
                    &&& transport_key is Some
                    &&& plain@.len() > AEAD_MESSAGE_MAX
                    &&& e@ == ErrorView::ChunkEncryption
                },
            },
        },
{
    let plain = match plaintext {
        Ok(p) => p,
        Err(e) => {
            return Ok(SyncMessage::Error { message: e.message() });
        },
    };
    let hash = blake3_hash(plain.as_slice());
    let data = match transport_key {
        Some(key) => match encrypt(key, plain.as_slice()) {
            Ok(d) => d,
            Err(_) => {
                return Err(Error::ChunkEncryption);
            },
        },
        None => plain,
    };
    Ok(SyncMessage::ChunkResponse { file_name: owned(rel_path), chunk_index, data, hash })
}

/// Answers an encrypted request for a chunk that was read, or not.
pub fn get_encrypted_chunk(
    file_id: [u8; 16],
    chunk_index: u32,
    plaintext: Result<Vec<u8>, Error>,
    transport_key: &[u8; 32],
) -> (r: Result<SyncMessage, Error>)
    ensures
        match plaintext {
            Err(e) => r matches Err(e2) && e2@ == e@,
            Ok(plain) => match r {
                Ok(msg) => {
                    &&& plain@.len() <= AEAD_MESSAGE_MAX
                    &&& msg@ matches SyncMessageView::EncryptedChunkResponse {
                        file_id: id,
                        chunk_index: index,
                        data,
                        blinded_hash: hash,
                    } && id == file_id@ && index == chunk_index && hash == blinded_hash(
                        transport_key@,
                        blake3_digest(plain@),
                    ) && carries(
                        data,
                        plain@,
                        Some(transport_key@),
                        position_aad(CHUNK_TAG@, file_id@, chunk_index),
                    )
                },
                Err(e) => plain@.len() > AEAD_MESSAGE_MAX && e@ == ErrorView::EncryptedChunkAead,
            },
        },
{
    let plain = match plaintext {
        Ok(p) => p,
        Err(e) => {
            return Err(e);
        },
    };
    let plain_hash = blake3_hash(plain.as_slice());
    let blinded_hash = blind_chunk_hash(transport_key, &plain_hash);
    let aad = chunk_aad(&file_id, chunk_index);
    match encrypt_with_aad(transport_key, plain.as_slice(), aad.as_slice()) {
        Ok(data) => Ok(
            SyncMessage::EncryptedChunkResponse { file_id, chunk_index, data, blinded_hash },
        ),
        Err(_) => Err(Error::EncryptedChunkAead),
    }
}

/// Whether a chunk has the expected hash.
pub fn verify_chunk(data: &[u8], expected: &[u8; 32]) -> (r: bool)
    ensures
        r == (blake3_digest(data@) == expected@),
{
    blake3_hash(data).same(expected)
}

/// Whether a chunk has the expected hash, blinded with the transport key.
pub fn verify_chunk_blinded(
    plaintext: &[u8],
    expected_blinded: &[u8; 32],
    transport_key: &[u8; 32],
) -> (r: bool)
    ensures
        r == (blinded_hash(transport_key@, blake3_digest(plaintext@)) == expected_blinded@),
{
    let plain_hash = blake3_hash(plaintext);
    blind_chunk_hash(transport_key, &plain_hash).same(expected_blinded)
}

/// A chunk that was served encrypted passes the receiver's test against the
/// manifest's entry for it.
pub proof fn law_served_chunk_verifies(m: FileMetadataView, key: Seq<u8>, i: int, plain: Seq<u8>)
    requires
        0 <= i < m.chunk_hashes.len(),
        m.chunk_hashes[i] == blake3_digest(plain),
    ensures
        blinded_entry(m, key).blinded_chunk_hashes[i] == blinded_hash(key, blake3_digest(plain)),
{
}

/// Whether a file name stands at the end of this path.
pub fn names_file(sync_root: &str, rel_path: &str) -> (r: bool)
    ensures
        r == has_file_name(absolute(sync_root@, rel_path@)),
{
    let path = rel_to_abs(sync_root, rel_path);
    file_name(path.as_str()).is_some()
}

/// Makes the container of a file from its chunks, to be written below the
/// folder.
pub fn vault_write_file_from_plaintext_chunks(
    sync_root: &str,
    rel_path: &str,
    plaintext_chunks: &[Vec<u8>],
    vault_key: &[u8; 32],
) -> (r: Result<WriteOrder, Error>)
    requires
        !leads_out(rel_path@) ==> has_file_name(absolute(sync_root@, rel_path@)),
    ensures
        match r {
            Ok(order) => {
                &&& !leads_out(rel_path@)
                &&& vault_fault(byte_strings(plaintext_chunks@)) is None
                &&& order@.path == vault_path(absolute(sync_root@, rel_path@))
                &&& order@.private
                &&& is_vault_of(
                    order@.data,
                    order@.data.subrange(8, 24),
                    byte_strings(plaintext_chunks@),
                    vault_key@,
                )
            },
            Err(e) => if leads_out(rel_path@) {
                e@ == (ErrorView::UnsafePath { path: rel_path@ })
            } else {
                vault_fault(byte_strings(plaintext_chunks@)) == Some(e@)
            },
        },
{
    if unsafe_rel_path(rel_path) {
        return Err(Error::UnsafePath { path: owned(rel_path) });
    }
    let path = rel_to_vault_abs(sync_root, rel_path);
    match seal_new_vault(plaintext_chunks, vault_key) {
        Ok(data) => Ok(WriteOrder { path, data, private: true }),
        Err(e) => Err(e),
    }
}

/// The chunks of a transfer in order.
pub open spec fn chunks_in_order(ts: FileTransferStateView) -> Seq<Seq<u8>> {
    Seq::new(transfer_total(ts) as nat, |i: int| ts.received_chunks[i as usize])
}

/// The chunks of a transfer that did not come.
pub open spec fn transfer_missing(ts: FileTransferStateView) -> Seq<usize> {
    missing_below(ts.received_chunks, transfer_total(ts) as nat)
}

/// What has to hold for a transfer to be assembled: if it becomes a container, that
/// has a name.
pub open spec fn can_assemble(
    ts: FileTransferStateView,
    vault_mode: bool,
    vault_key: Option<Seq<u8>>,
) -> bool {
    match ts.metadata {
        None => true,
        Some(m) => vault_mode && vault_key is Some && transfer_missing(ts).len() == 0
            && !leads_out(m.file_name) ==> has_file_name(absolute(ts.sync_dir, m.file_name)),
    }
}

/// Whether a transfer can be assembled.
pub fn assemblable(
    ts: &FileTransferState,
    vault_mode: bool,
    vault_key: Option<&[u8; 32]>,
) -> (r: bool)
    ensures
        r == can_assemble(ts@, vault_mode, opt_key_ref(vault_key)),
{
    match &ts.metadata {
        None => true,
        Some(m) => {
            let name = m.file_name.as_str();
            !vault_mode || vault_key.is_none() || ts.missing_chunks().len() > 0
                || unsafe_rel_path(name) || names_file(ts.sync_dir.as_str(), name)
        },
    }
}

/// Why a transfer cannot be written, if it cannot.
pub open spec fn assembly_fault(
    ts: FileTransferStateView,
    vault_mode: bool,
    vault_key: Option<Seq<u8>>,
) -> Option<ErrorView> {
    match ts.metadata {
        None => Some(ErrorView::NoMetadata),
        Some(m) => if vault_mode {
            if vault_key is None {
                Some(ErrorView::VaultKeyMissing)
            } else if transfer_missing(ts).len() > 0 {
                Some(
                    ErrorView::MissingVaultChunk {
                        index: transfer_missing(ts)[0] as nat,
                        name: m.file_name,
                    },
                )
            } else if leads_out(m.file_name) {
                Some(ErrorView::UnsafePath { path: m.file_name })
            } else {
                vault_fault(chunks_in_order(ts))
            }
        } else if transfer_missing(ts).len() > 0 {
            Some(
                ErrorView::MissingChunk {
                    index: transfer_missing(ts)[0] as nat,
                    name: m.file_name,
                },
            )
        } else {
            None
        },
    }
}

/// The order writes the transferred file: as a container in vault mode, else as
/// it is.
pub open spec fn assembles(
    order: WriteOrderView,
    ts: FileTransferStateView,
    vault_mode: bool,
    vault_key: Option<Seq<u8>>,
) -> bool {
    &&& ts.metadata is Some
    &&& order.private == vault_mode
    &&& if vault_mode {
        &&& vault_key is Some
        &&& order.path == vault_path(absolute(ts.sync_dir, ts.metadata->0.file_name))
        &&& is_vault_of(
            order.data,
            order.data.subrange(8, 24),
            chunks_in_order(ts),
            vault_key->0,
        )
    } else {
        &&& order.path == absolute(ts.sync_dir, ts.metadata->0.file_name)
        &&& order.data == concatenation(chunks_in_order(ts))
    }
}

proof fn lemma_missing_nonempty(received: Map<usize, Seq<u8>>, n: nat)
    requires
        n <= usize::MAX,
    ensures
        missing_below(received, n).len() == 0 <==> (forall|i: usize|
            i < n ==> #[trigger] received.dom().contains(i)),
    decreases n,
{
    if n > 0 {
        lemma_missing_nonempty(received, (n - 1) as nat);
        assert(received.dom().contains((n - 1) as usize) || !received.dom().contains(
            (n - 1) as usize,
        ));
    }
}

fn gather_chunks(ts: &FileTransferState, total: usize) -> (r: Vec<Vec<u8>>)
    requires
        total == transfer_total(ts@),
        transfer_missing(ts@).len() == 0,
    ensures
        byte_strings(r@) == chunks_in_order(ts@),
{
    proof {
        lemma_missing_nonempty(ts@.received_chunks, total as nat);
        assert(ts@.received_chunks.dom() =~= ts.received_chunks@.dom());
    }
    let mut out: Vec<Vec<u8>> = Vec::new();
    let mut i: usize = 0;
    while i < total
        invariant
            total == transfer_total(ts@),
            ts@.received_chunks.dom() == ts.received_chunks@.dom(),
            forall|j: usize| j < total ==> #[trigger] ts@.received_chunks.dom().contains(j),
            i <= total,
            byte_strings(out@) == chunks_in_order(ts@).take(i as int),
        decreases total - i,
    {
        assert(ts@.received_chunks.dom().contains(i));
        let ghost before = byte_strings(out@);
        match ts.received_chunks.get(&i) {
            Some(c) => {
                out.push(slice_to_vec(c.as_slice()));
            },
            None => {},
        }
        i = i + 1;
        assert(byte_strings(out@) =~= before.push(chunks_in_order(ts@)[i - 1]));
        assert(chunks_in_order(ts@).take(i as int) =~= before.push(chunks_in_order(ts@)[i - 1]));
    }
    assert(byte_strings(out@) =~= chunks_in_order(ts@));
    out
}

fn join_chunks(chunks: &Vec<Vec<u8>>) -> (r: Vec<u8>)
    ensures
        r@ == concatenation(byte_strings(chunks@)),
{
    let mut out: Vec<u8> = Vec::new();
    let mut i: usize = 0;
    let ghost all = byte_strings(chunks@);
    assert(all.take(0) =~= Seq::empty());
    while i < chunks.len()
        invariant
            all == byte_strings(chunks@),
            i <= chunks@.len(),
            out@ == concatenation(all.take(i as int)),
        decreases chunks.len() - i,
    {
        assert(all.take(i + 1).drop_last() =~= all.take(i as int));
        out.extend_from_slice(chunks[i].as_slice());
        i = i + 1;
        assert(out@ =~= concatenation(all.take(i as int)));
    }
    assert(all.take(i as int) =~= all);
    out
}

/// Puts a transferred file together: as a container in vault mode, else as it
/// is.
pub fn reassemble_modal(
    ts: &FileTransferState,
    vault_mode: bool,
    vault_key: Option<&[u8; 32]>,
) -> (r: Result<WriteOrder, Error>)
    requires
        can_assemble(ts@, vault_mode, opt_key_ref(vault_key)),
    ensures
        match r {
            Ok(order) => {
                &&& assembly_fault(ts@, vault_mode, opt_key_ref(vault_key)) is None
                &&& assembles(order@, ts@, vault_mode, opt_key_ref(vault_key))
            },
            Err(e) => assembly_fault(ts@, vault_mode, opt_key_ref(vault_key)) == Some(e@),
        },
{
    let meta = match &ts.metadata {
        Some(m) => m,
        None => {
            return Err(Error::NoMetadata);
        },
    };
    if vault_mode {
        let key = match vault_key {
            Some(k) => k,
            None => {
                return Err(Error::VaultKeyMissing);
            },
        };
        let missing = ts.missing_chunks();
        if missing.len() > 0 {
            return Err(
                Error::MissingVaultChunk { index: missing[0], name: meta.file_name.clone() },
            );
        }
        let chunks = gather_chunks(ts, meta.total_chunks);
        return vault_write_file_from_plaintext_chunks(
            ts.sync_dir.as_str(),
            meta.file_name.as_str(),
            chunks.as_slice(),
            key,
        );
    }
    let missing = ts.missing_chunks();
    if missing.len() > 0 {
        return Err(Error::MissingChunk { index: missing[0], name: meta.file_name.clone() });
    }
    let path = rel_to_abs(ts.sync_dir.as_str(), meta.file_name.as_str());
    let chunks = gather_chunks(ts, meta.total_chunks);
    let data = join_chunks(&chunks);
    Ok(WriteOrder { path, data, private: false })
}

/// Puts a transferred file together as it is.
pub fn reassemble(ts: &FileTransferState) -> (r: Result<WriteOrder, Error>)
    ensures
        match r {
            Ok(order) => {
                &&& assembly_fault(ts@, false, None) is None
                &&& assembles(order@, ts@, false, None)
            },
            Err(e) => assembly_fault(ts@, false, None) == Some(e@),
        },
{
    reassemble_modal(ts, false, None)
}

/// Takes a chunk into a transfer, and puts the file together once as many
/// chunks came as it has.
pub fn process_chunk(chunk_index: usize, data: Vec<u8>, ts: &mut FileTransferState) -> (r: Result<
    Option<WriteOrder>,
    Error,
>)
    ensures
        final(ts)@ == (FileTransferStateView {
            received_chunks: old(ts)@.received_chunks.insert(chunk_index, data@),
            ..old(ts)@
        }),
        final(ts)@.received_chunks.len() < transfer_total(old(ts)@) ==> r matches Ok(None),
        final(ts)@.received_chunks.len() >= transfer_total(old(ts)@) ==> match r {
            Ok(Some(order)) => {
                &&& assembly_fault(final(ts)@, false, None) is None
                &&& assembles(order@, final(ts)@, false, None)
            },
            Ok(None) => false,
            Err(e) => assembly_fault(final(ts)@, false, None) == Some(e@),
        },
{
    ts.store_chunk(chunk_index, data);
    let total = ts.total();
    if ts.received_count() < total {
        return Ok(None);
    }
    match reassemble(ts) {
        Ok(order) => Ok(Some(order)),
        Err(e) => Err(e),
    }
}

/// A file that was cut into chunks and transferred whole is written as it was.
pub proof fn law_transfer_rebuilds_the_file(
    ts: FileTransferStateView,
    order: WriteOrderView,
    data: Seq<u8>,
)
    requires
        assembles(order, ts, false, None),
        chunks_in_order(ts) == file_chunks(data),
    ensures
        order.data == data,
{
    law_chunks_make_up_the_file(data);
}

/// The places of the first `n` hashes added to an index; a hash that is there
/// keeps its place.
pub open spec fn with_hashes(
    index: Seq<(Seq<u8>, ChunkPlaceView)>,
    file_name: Seq<char>,
    hashes: Seq<Seq<u8>>,
    n: nat,
) -> Seq<(Seq<u8>, ChunkPlaceView)>
    decreases n,
{
    if n == 0 {
        index
    } else {
        let before = with_hashes(index, file_name, hashes, (n - 1) as nat);
        if has_key(before, hashes[n - 1]) {
            before
        } else {
            put(before, hashes[n - 1], ChunkPlaceView { file_name, chunk_index: (n - 1) as usize })
        }
    }
}

/// Where the chunks of a folder are found: the first place of every hash.
pub open spec fn chunk_index_of(files: Seq<FileMetadataView>) -> Seq<(Seq<u8>, ChunkPlaceView)>
    decreases files.len(),
{
    if files.len() == 0 {
        Seq::empty()
    } else {
        with_hashes(
            chunk_index_of(files.drop_last()),
            files.last().file_name,
            files.last().chunk_hashes,
            files.last().chunk_hashes.len(),
        )
    }
}

/// A place of a hash among the files.
pub open spec fn is_place_of(
    files: Seq<FileMetadataView>,
    hash: Seq<u8>,
    place: ChunkPlaceView,
) -> bool {
    exists|f: int|
        0 <= f < files.len() && (#[trigger] files[f]).file_name == place.file_name
            && place.chunk_index < files[f].chunk_hashes.len()
            && files[f].chunk_hashes[place.chunk_index as int] == hash
}

proof fn lemma_with_hashes(
    files: Seq<FileMetadataView>,
    index: Seq<(Seq<u8>, ChunkPlaceView)>,
    n: nat,
    hash: Seq<u8>,
)
    requires
        files.len() > 0,
        n <= files.last().chunk_hashes.len(),
        n <= usize::MAX,
        lookup(index, hash) matches Some(place) ==> is_place_of(files, hash, place),
    ensures
        lookup(
            with_hashes(index, files.last().file_name, files.last().chunk_hashes, n),
            hash,
        ) matches Some(place) ==> is_place_of(files, hash, place),
    decreases n,
{
    if n > 0 {
        let name = files.last().file_name;
        let hashes = files.last().chunk_hashes;
        let before = with_hashes(index, name, hashes, (n - 1) as nat);
        lemma_with_hashes(files, index, (n - 1) as nat, hash);
        let place = ChunkPlaceView { file_name: name, chunk_index: (n - 1) as usize };
        law_put(before, hashes[n - 1], place, hash);
        if hash == hashes[n - 1] {
            assert(files[files.len() - 1].file_name == name);
            assert(is_place_of(files, hash, place));
        }
    }
}

/// Whatever place the index gives for a hash, a chunk with that hash is there.
pub proof fn law_index_is_right(files: Seq<FileMetadataView>, hash: Seq<u8>)
    requires
        forall|f: int|
            0 <= f < files.len() ==> (#[trigger] files[f]).chunk_hashes.len() <= usize::MAX,
    ensures
        lookup(chunk_index_of(files), hash) matches Some(place) ==> is_place_of(
            files,
            hash,
            place,
        ),
    decreases files.len(),
{
    if files.len() > 0 {
        let d = files.drop_last();
        assert forall|f: int| 0 <= f < d.len() implies (#[trigger] d[f]).chunk_hashes.len()
            <= usize::MAX by {
            assert(d[f] == files[f]);
        }
        law_index_is_right(d, hash);
        match lookup(chunk_index_of(d), hash) {
            Some(place) => {
                let f = choose|f: int|
                    0 <= f < d.len() && (#[trigger] d[f]).file_name == place.file_name
                        && place.chunk_index < d[f].chunk_hashes.len()
                        && d[f].chunk_hashes[place.chunk_index as int] == hash;
                assert(files[f] == d[f]);
                assert(is_place_of(files, hash, place));
            },
            None => {},
        }
        assert(files[files.len() - 1].chunk_hashes.len() <= usize::MAX);
        lemma_with_hashes(files, chunk_index_of(d), files.last().chunk_hashes.len(), hash);
    }
}

/// Builds the index by which chunks that are already on disk are found.
pub fn build_chunk_index(files: &Vec<FileMetadata>) -> (r: Assoc<[u8; 32], ChunkPlace>)
    ensures
        r@ == chunk_index_of(metadata_views(files@)),
{
    let mut index: Assoc<[u8; 32], ChunkPlace> = Assoc::new();
    let ghost all = metadata_views(files@);
    let mut f: usize = 0;
    assert(all.take(0) =~= Seq::empty());
    while f < files.len()
        invariant
            all == metadata_views(files@),
            f <= files@.len(),
            index@ == chunk_index_of(all.take(f as int)),
        decreases files.len() - f,
    {
        let ghost before = index@;
        let file = &files[f];
        let ghost hashes = hash_strings(file.chunk_hashes@);
        let mut i: usize = 0;
        while i < file.chunk_hashes.len()
            invariant
                i <= file.chunk_hashes@.len(),
                hashes == hash_strings(file.chunk_hashes@),
                index@ == with_hashes(before, file.file_name@, hashes, i as nat),
            decreases file.chunk_hashes.len() - i,
        {
            assert(hashes[i as int] == file.chunk_hashes@[i as int]@);
            if !index.contains_key(&file.chunk_hashes[i]) {
                index.insert(
                    file.chunk_hashes[i],
                    ChunkPlace { file_name: file.file_name.clone(), chunk_index: i },
                );
            }
            i = i + 1;
        }
        assert(all.take(f + 1).drop_last() =~= all.take(f as int));
        assert(all.take(f + 1).last() == file@);
        f = f + 1;
    }
    assert(all.take(f as int) =~= all);
    index
}

/// A container that was made of the chunks of a file, also of an empty one, is
/// exported as the file was.
pub proof fn law_imported_file_is_exported_as_it_was(
    file: Seq<u8>,
    uuid: Seq<u8>,
    data: Seq<u8>,
    key: Seq<u8>,
)
    requires
        is_vault_of(file, uuid, file_chunks(data), key),
    ensures
        vault_plaintext(file, key) == Ok::<(u64, Seq<u8>), ErrorView>((data.len() as u64, data)),
{
    law_chunks_make_up_the_file(data);
    law_vault_gives_back_what_was_stored(file, uuid, file_chunks(data), key);
}

/// What is wrong with a plain file that is imported.
pub open spec fn import_fault(source_root: Seq<char>, path: Seq<char>, data: Seq<u8>) -> Option<
    ErrorView,
> {
    match relative(source_root, path) {
        None => Some(ErrorView::RelPathFailed { path }),
        Some(rel) => if leads_out(rel) {
            Some(ErrorView::UnsafePath { path: rel })
        } else {
            vault_fault(file_chunks(data))
        },
    }
}

/// An order writes the container of a plain file, at its place in the target folder;
/// the container is exported as the file is.
pub open spec fn imports(
    order: WriteOrderView,
    source_root: Seq<char>,
    path: Seq<char>,
    target_root: Seq<char>,
    data: Seq<u8>,
    key: Seq<u8>,
) -> bool {
    &&& relative(source_root, path) matches Some(rel) && order.path == vault_path(
        absolute(target_root, rel),
    )
    &&& order.private
    &&& is_vault_of(order.data, order.data.subrange(8, 24), file_chunks(data), key)
    &&& vault_plaintext(order.data, key) == Ok::<(u64, Seq<u8>), ErrorView>(
        (data.len() as u64, data),
    )
}

/// A file that is imported leads to one with a name, unless it is refused.
pub open spec fn has_place(
    source_root: Seq<char>,
    path: Seq<char>,
    target_root: Seq<char>,
) -> bool {
    !is_vault_path(path) ==> (relative(source_root, path) matches Some(rel) ==> !leads_out(rel)
        ==> has_file_name(absolute(target_root, rel)))
}

/// Whether a file that is imported leads to one with a name, unless it is refused.
pub fn can_import(source_root: &str, path: &str, target_root: &str) -> (r: bool)
    ensures
        r == has_place(source_root@, path@, target_root@),
{
    if has_vault_extension(path) {
        return true;
    }
    match relative_path(source_root, path) {
        Some(rel) => unsafe_rel_path(rel.as_str()) || names_file(target_root, rel.as_str()),
        None => true,
    }
}

/// Makes the container of a plain file that is imported; containers are left
/// alone.
pub fn import_file(
    source_root: &str,
    path: &str,
    target_root: &str,
    data: &[u8],
    vault_key: &[u8; 32],
) -> (r: Result<Option<WriteOrder>, Error>)
    requires
        has_place(source_root@, path@, target_root@),
    ensures
        is_vault_path(path@) ==> r matches Ok(None),
        !is_vault_path(path@) ==> match r {
            Ok(None) => false,
            Ok(Some(order)) => {
                &&& import_fault(source_root@, path@, data@) is None
                &&& imports(order@, source_root@, path@, target_root@, data@, vault_key@)
            },
            Err(e) => import_fault(source_root@, path@, data@) == Some(e@),
        },
{
    if has_vault_extension(path) {
        return Ok(None);
    }
    let rel = match relative_path(source_root, path) {
        Some(rel) => rel,
        None => {
            return Err(Error::RelPathFailed { path: owned(path) });
        },
    };
    let chunks = split_chunks(data);
    match vault_write_file_from_plaintext_chunks(
        target_root,
        rel.as_str(),
        chunks.as_slice(),
        vault_key,
    ) {
        Ok(order) => {
            proof {
                law_imported_file_is_exported_as_it_was(
                    order@.data,
                    order@.data.subrange(8, 24),
                    data@,
                    vault_key@,
                );
            }
            Ok(Some(order))
        },
        Err(e) => Err(e),
    }
}

/// A file of a folder that is imported.
#[derive(Debug)]
pub struct SourceFile {
    pub path: String,
    pub data: Vec<u8>,
}

/// What a `SourceFile` holds.
#[verifier::ext_equal]
pub ghost struct SourceFileView {
    pub path: Seq<char>,
    pub data: Seq<u8>,
}

impl View for SourceFile {
    type V = SourceFileView;

    open spec fn view(&self) -> SourceFileView {
        SourceFileView { path: self.path@, data: self.data@ }
    }
}

/// The views of files.
pub open spec fn source_views(files: Seq<SourceFile>) -> Seq<SourceFileView> {
    Seq::new(files.len(), |i: int| files[i]@)
}

/// The files that have not the extension of a container.
pub open spec fn plain_files(files: Seq<SourceFileView>) -> Seq<SourceFileView>
    decreases files.len(),
{
    if files.len() == 0 {
        files
    } else if is_vault_path(files.last().path) {
        plain_files(files.drop_last())
    } else {
        plain_files(files.drop_last()).push(files.last())
    }
}

/// The containers of imported files.
#[derive(Debug)]
pub struct Import {
    /// The containers to write, in the order of their files.
    pub orders: Vec<WriteOrder>,
    /// What is wrong with the first file that could not be imported; no file after it
    /// is.
    pub error: Option<Error>,
}

/// An order imports a plain file with which nothing is wrong.
pub open spec fn imports_plain(
    order: WriteOrderView,
    source_root: Seq<char>,
    file: SourceFileView,
    target_root: Seq<char>,
    key: Seq<u8>,
) -> bool {
    &&& import_fault(source_root, file.path, file.data) is None
    &&& imports(order, source_root, file.path, target_root, file.data, key)
}

/// Every order imports the plain file at its place in the list.
pub open spec fn imports_all(
    orders: Seq<WriteOrder>,
    source_root: Seq<char>,
    plain: Seq<SourceFileView>,
    target_root: Seq<char>,
    key: Seq<u8>,
) -> bool {
    forall|i: int|
        0 <= i < orders.len() ==> imports_plain(
            (#[trigger] orders[i])@,
            source_root,
            plain[i],
            target_root,
            key,
        )
}

proof fn lemma_plain_files_grow(files: Seq<SourceFileView>, n: int)
    requires
        0 <= n <= files.len(),
    ensures
        plain_files(files.take(n)).len() <= plain_files(files).len(),
        plain_files(files).take(plain_files(files.take(n)).len() as int) == plain_files(
            files.take(n),
        ),
    decreases files.len(),
{
    if n == files.len() {
        assert(files.take(n) =~= files);
    } else {
        let rest = files.drop_last();
        assert(rest.take(n) =~= files.take(n));
        lemma_plain_files_grow(rest, n);
        let k = plain_files(files.take(n)).len() as int;
        assert(plain_files(files).take(k) =~= plain_files(rest).take(k));
    }
}

/// Imports the files of a folder: makes a container of every file that is not one, up to
/// the first that cannot be imported. If there is none, there are as many containers as
/// files without the extension of a container.
pub fn import_plaintext_dir_into_vault(
    source_root: &str,
    files: &Vec<SourceFile>,
    target_root: &str,
    vault_key: &[u8; 32],
) -> (r: Import)
    requires
        forall|i: int|
            0 <= i < files@.len() ==> has_place(
                source_root@,
                #[trigger] source_views(files@)[i].path,
                target_root@,
            ),
    ensures
        imports_all(
            r.orders@,
            source_root@,
            plain_files(source_views(files@)),
            target_root@,
            vault_key@,
        ),
        match r.error {
            None => r.orders@.len() == plain_files(source_views(files@)).len(),
            Some(e) => {
                let plain = plain_files(source_views(files@));
                let n = r.orders@.len() as int;
                &&& n < plain.len()
                &&& import_fault(source_root@, plain[n].path, plain[n].data) == Some(e@)
            },
        },
{
    let ghost all = source_views(files@);
    let ghost plain = plain_files(all);
    let mut orders: Vec<WriteOrder> = Vec::new();
    let mut i: usize = 0;
    assert(all.take(0) =~= Seq::empty());
    while i < files.len()
        invariant
            all == source_views(files@),
            plain == plain_files(all),
            i <= files@.len(),
            orders@.len() == plain_files(all.take(i as int)).len(),
            imports_all(orders@, source_root@, plain, target_root@, vault_key@),
            forall|j: int|
                0 <= j < files@.len() ==> has_place(
                    source_root@,
                    #[trigger] source_views(files@)[j].path,
                    target_root@,
                ),
        decreases files.len() - i,
    {
        let file = &files[i];
        assert(all[i as int] == file@);
        assert(has_place(source_root@, source_views(files@)[i as int].path, target_root@));
        proof {
            let next = all.take(i + 1);
            assert(next.drop_last() =~= all.take(i as int));
            assert(next.last() == file@);
            lemma_plain_files_grow(all, i + 1);
            if !is_vault_path(file@.path) {
                let n = orders@.len() as int;
                assert(plain_files(next)[n] == file@);
                assert(plain.take(n + 1)[n] == plain[n]);
            }
        }
        match import_file(
            source_root,
            file.path.as_str(),
            target_root,
            file.data.as_slice(),
            vault_key,
        ) {
            Ok(None) => {},
            Ok(Some(order)) => {
                orders.push(order);
            },
            Err(e) => {
                return Import { orders, error: Some(e) };
            },
        }
        i = i + 1;
    }
    assert(all.take(i as int) =~= all);
    Import { orders, error: None }
}

/// Every plain file that was imported is exported as it was, also an empty one, and
/// there is a container for each.
pub proof fn law_imported_folder_is_exported_as_it_was(
    orders: Seq<WriteOrder>,
    source_root: Seq<char>,
    files: Seq<SourceFileView>,
    target_root: Seq<char>,
    key: Seq<u8>,
    i: int,
)
    requires
        imports_all(orders, source_root, plain_files(files), target_root, key),
        orders.len() == plain_files(files).len(),
        0 <= i < files.len(),
        !is_vault_path(files[i].path),
    ensures
        exists|n: int|
            0 <= n < orders.len() && #[trigger] vault_plaintext(orders[n]@.data, key) == Ok::<
                (u64, Seq<u8>),
                ErrorView,
            >((files[i].data.len() as u64, files[i].data)) && (relative(
                source_root,
                files[i].path,
            ) matches Some(rel) && orders[n]@.path == vault_path(absolute(target_root, rel))),
{
    lemma_plain_files_grow(files, i + 1);
    let next = files.take(i + 1);
    assert(next.drop_last() =~= files.take(i));
    let n = plain_files(files.take(i)).len() as int;
    assert(plain_files(next)[n] == files[i]);
    assert(plain_files(files).take(n + 1)[n] == plain_files(files)[n]);
    assert(imports_plain(orders[n]@, source_root, plain_files(files)[n], target_root, key));
}

/// A file that is asked for is read at its place in the folder, in vault mode from its
/// container. A name that might lead out is refused, and so is a container without a key.
pub proof fn law_requested_file_is_read_in_the_folder(
    root: Seq<char>,
    rel: Seq<char>,
    vault_mode: bool,
    vault_key: Option<Seq<u8>>,
)
    ensures
        leads_out(rel) ==> local_path(root, rel, vault_mode, vault_key) is Err,
        !leads_out(rel) && !vault_mode ==> local_path(root, rel, vault_mode, vault_key) == Ok::<
            Seq<char>,
            ErrorView,
        >(absolute(root, rel)),
        !leads_out(rel) && vault_mode && vault_key is Some ==> local_path(
            root,
            rel,
            vault_mode,
            vault_key,
        ) == Ok::<Seq<char>, ErrorView>(vault_path(absolute(root, rel))),
        !leads_out(rel) && vault_mode && vault_key is None ==> local_path(
            root,
            rel,
            vault_mode,
            vault_key,
        ) == Err::<Seq<char>, ErrorView>(ErrorView::VaultKeyMissing),
{
}

/// The chunk that is read has the hash under which the file was listed; past the end there
/// is none.
pub proof fn law_read_chunk_is_the_listed_one(
    data: Seq<u8>,
    rel: Seq<char>,
    index: usize,
    container: Seq<u8>,
    uuid: Seq<u8>,
    key: Seq<u8>,
)
    requires
        is_vault_of(container, uuid, file_chunks(data), key),
    ensures
        index < content_hashes(data).len() ==> (local_chunk(data, rel, index, None) matches Ok(
            plain,
        ) && blake3_digest(plain) == content_hashes(data)[index as int] && plain == file_chunks(
            data,
        )[index as int]),
        index >= content_hashes(data).len() ==> local_chunk(data, rel, index, None) is Err,
        index < content_hashes(data).len() ==> local_chunk(container, rel, index, Some(key)) == Ok::<
            Seq<u8>,
            ErrorView,
        >(file_chunks(data)[index as int]),
{
    law_chunks_make_up_the_file(data);
    law_vault_gives_back_what_was_stored(container, uuid, file_chunks(data), key);
    if index < content_hashes(data).len() {
        assert(vault_chunk(container, index as u32, key) == Ok::<Seq<u8>, ErrorView>(
            file_chunks(data)[index as u32 as int],
        ));
    }
}

/// A transfer can be written exactly if every chunk of it came; in vault mode there must
/// be a key, a name that stays in the folder, and chunks that can be stored.
pub proof fn law_complete_transfer_can_be_written(
    ts: FileTransferStateView,
    vault_mode: bool,
    vault_key: Option<Seq<u8>>,
)
    ensures
        ({
            let complete = ts.metadata matches Some(m) && forall|i: usize|
                i < m.total_chunks ==> #[trigger] ts.received_chunks.dom().contains(i);
            &&& assembly_fault(ts, vault_mode, vault_key) is None <==> complete && (vault_mode ==> {
                &&& vault_key is Some
                &&& !leads_out(ts.metadata->0.file_name)
                &&& vault_fault(chunks_in_order(ts)) is None
            })
            &&& ts.metadata matches Some(m) ==> (!vault_mode ==> (assembly_fault(
                ts,
                vault_mode,
                vault_key,
            ) matches Some(e) ==> (e matches ErrorView::MissingChunk { index, name } && index
                < m.total_chunks && !ts.received_chunks.dom().contains(index as usize) && name
                == m.file_name)))
        }),
{
    if let Some(m) = ts.metadata {
        let n = m.total_chunks as nat;
        lemma_missing_nonempty(ts.received_chunks, n);
        law_missing_chunks(ts.received_chunks, n);
        if transfer_missing(ts).len() > 0 {
            assert(transfer_missing(ts).contains(transfer_missing(ts)[0]));
        }
    }
}

/// A complete transfer is written to its place in the folder, chunk after chunk; in vault
/// mode to its container, readable only for the owner, from which the same is read back.
pub proof fn law_transfer_is_written_to_its_place(
    order: WriteOrderView,
    ts: FileTransferStateView,
    m: FileMetadataView,
    vault_mode: bool,
    vault_key: Option<Seq<u8>>,
)
    requires
        ts.metadata == Some(m),
        assembles(order, ts, vault_mode, vault_key),
    ensures
        ({
            let chunks = Seq::new(
                m.total_chunks as nat,
                |i: int| ts.received_chunks[i as usize],
            );
            &&& order.private == vault_mode
            &&& !vault_mode ==> order.path == absolute(ts.sync_dir, m.file_name) && order.data
                == concatenation(chunks)
            &&& vault_mode ==> order.path == vault_path(absolute(ts.sync_dir, m.file_name)) && (
            vault_key matches Some(key) && vault_plaintext(order.data, key) == Ok::<
                (u64, Seq<u8>),
                ErrorView,
            >((concatenation(chunks).len() as u64, concatenation(chunks))))
        }),
{
    let chunks = Seq::new(m.total_chunks as nat, |i: int| ts.received_chunks[i as usize]);
    assert(chunks_in_order(ts) =~= chunks);
    if vault_mode {
        law_vault_gives_back_what_was_stored(
            order.data,
            order.data.subrange(8, 24),
            chunks,
            vault_key->0,
        );
    }
}

proof fn lemma_hashes_stay(
    index: Seq<(Seq<u8>, ChunkPlaceView)>,
    file_name: Seq<char>,
    hashes: Seq<Seq<u8>>,
    n: nat,
    hash: Seq<u8>,
)
    requires
        n <= hashes.len(),
    ensures
        has_key(index, hash) || hashes.take(n as int).contains(hash) ==> has_key(
            with_hashes(index, file_name, hashes, n),
            hash,
        ),
    decreases n,
{
    if n > 0 {
        lemma_hashes_stay(index, file_name, hashes, (n - 1) as nat, hash);
        let before = with_hashes(index, file_name, hashes, (n - 1) as nat);
        law_put(
            before,
            hashes[n - 1],
            ChunkPlaceView { file_name, chunk_index: (n - 1) as usize },
            hash,
        );
        if hashes.take(n as int).contains(hash) && hash != hashes[n - 1] {
            let some = hashes.take(n as int);
            let k = choose|k: int| 0 <= k < some.len() && some[k] == hash;
            assert(hashes.take(n - 1)[k] == hash);
        }
    } else {
        assert(hashes.take(0).len() == 0);
    }
}

/// Every chunk of every listed file is found in the index.
pub proof fn law_index_is_complete(files: Seq<FileMetadataView>, f: int, c: int)
    requires
        0 <= f < files.len(),
        0 <= c < files[f].chunk_hashes.len(),
    ensures
        has_key(chunk_index_of(files), files[f].chunk_hashes[c]),
    decreases files.len(),
{
    let last = files.last();
    let hash = files[f].chunk_hashes[c];
    let n = last.chunk_hashes.len();
    lemma_hashes_stay(
        chunk_index_of(files.drop_last()),
        last.file_name,
        last.chunk_hashes,
        n,
        hash,
    );
    if f < files.len() - 1 {
        assert(files.drop_last()[f] == files[f]);
        law_index_is_complete(files.drop_last(), f, c);
    } else {
        assert(last.chunk_hashes.take(n as int)[c] == hash);
    }
}

/// What is wrong with a file that cannot be imported: it is not in the source folder, its
/// name might lead out, or it cannot be stored. A file of which none holds is imported.
pub proof fn law_what_cannot_be_imported(source_root: Seq<char>, path: Seq<char>, data: Seq<u8>)
    ensures
        import_fault(source_root, path, data) is None <==> (relative(source_root, path) matches
            Some(rel) && !leads_out(rel) && vault_fault(file_chunks(data)) is None),
{
}

/// Of a transfer that is not complete, the first chunk that did not come is named.
pub proof fn law_first_missing_chunk_is_named(
    ts: FileTransferStateView,
    m: FileMetadataView,
    vault_mode: bool,
    vault_key: Option<Seq<u8>>,
    first: usize,
)
    requires
        ts.metadata == Some(m),
        vault_mode ==> vault_key is Some,
        first < m.total_chunks,
        !ts.received_chunks.dom().contains(first),
        forall|i: usize| i < first ==> #[trigger] ts.received_chunks.dom().contains(i),
    ensures
        !vault_mode ==> assembly_fault(ts, vault_mode, vault_key) == Some(
            ErrorView::MissingChunk { index: first as nat, name: m.file_name },
        ),
        vault_mode ==> assembly_fault(ts, vault_mode, vault_key) == Some(
            ErrorView::MissingVaultChunk { index: first as nat, name: m.file_name },
        ),
        assembly_fault(ts, true, None) == Some(ErrorView::VaultKeyMissing),
{
    let missing = transfer_missing(ts);
    law_missing_chunks(ts.received_chunks, m.total_chunks as nat);
    assert(missing.contains(first));
    let at = choose|at: int| 0 <= at < missing.len() && missing[at] == first;
    assert(missing.contains(missing[0]));
    if at > 0 {
        assert(missing[0] < missing[at]);
    }
}

proof fn lemma_known_places_stay(
    index: Seq<(Seq<u8>, ChunkPlaceView)>,
    file_name: Seq<char>,
    hashes: Seq<Seq<u8>>,
    n: nat,
    hash: Seq<u8>,
)
    requires
        n <= hashes.len(),
    ensures
        has_key(index, hash) ==> lookup(with_hashes(index, file_name, hashes, n), hash) == lookup(
            index,
            hash,
        ),
        !has_key(index, hash) ==> (forall|j: int| 0 <= j < n ==> hashes[j] != hash)
            ==> !has_key(with_hashes(index, file_name, hashes, n), hash),
    decreases n,
{
    if n > 0 {
        lemma_known_places_stay(index, file_name, hashes, (n - 1) as nat, hash);
        let before = with_hashes(index, file_name, hashes, (n - 1) as nat);
        let place = ChunkPlaceView { file_name, chunk_index: (n - 1) as usize };
        law_put(before, hashes[n - 1], place, hash);
    }
}

/// A chunk that is found in several places is taken from the first: a further file does
/// not change where a chunk is found, and within a file the first of equal chunks counts.
pub proof fn law_first_place_counts(
    files: Seq<FileMetadataView>,
    further: FileMetadataView,
    hash: Seq<u8>,
    c: int,
)
    ensures
        has_key(chunk_index_of(files), hash) ==> lookup(chunk_index_of(files.push(further)), hash)
            == lookup(chunk_index_of(files), hash),
        !has_key(chunk_index_of(files), hash) && 0 <= c < further.chunk_hashes.len()
            && further.chunk_hashes[c] == hash && (forall|j: int|
            0 <= j < c ==> further.chunk_hashes[j] != hash) ==> lookup(
            chunk_index_of(files.push(further)),
            hash,
        ) == Some(ChunkPlaceView { file_name: further.file_name, chunk_index: c as usize }),
{
    let index = chunk_index_of(files);
    let hashes = further.chunk_hashes;
    let name = further.file_name;
    assert(files.push(further).drop_last() =~= files);
    lemma_known_places_stay(index, name, hashes, hashes.len(), hash);
    if !has_key(index, hash) && 0 <= c < hashes.len() && hashes[c] == hash && (forall|j: int|
        0 <= j < c ==> hashes[j] != hash) {
        lemma_known_places_stay(index, name, hashes, c as nat, hash);
        lemma_place_stays(index, name, hashes, c, hashes.len());
    }
}

proof fn lemma_place_stays(
    index: Seq<(Seq<u8>, ChunkPlaceView)>,
    file_name: Seq<char>,
    hashes: Seq<Seq<u8>>,
    c: int,
    n: nat,
)
    requires
        0 <= c < n <= hashes.len(),
        !has_key(with_hashes(index, file_name, hashes, c as nat), hashes[c]),
    ensures
        lookup(with_hashes(index, file_name, hashes, n), hashes[c]) == Some(
            ChunkPlaceView { file_name, chunk_index: c as usize },
        ),
    decreases n,
{
    let before = with_hashes(index, file_name, hashes, (n - 1) as nat);
    let place = ChunkPlaceView { file_name, chunk_index: (n - 1) as usize };
    law_put(before, hashes[n - 1], place, hashes[c]);
    if n > c + 1 {
        lemma_place_stays(index, file_name, hashes, c, (n - 1) as nat);
    }
}

/// A transfer with a plain name can be assembled in a folder, whatever came of it; a
/// container is passed over by an import, and a file with a plain name has a place.
pub proof fn law_plain_names_have_a_place(
    ts: FileTransferStateView,
    vault_mode: bool,
    vault_key: Option<Seq<u8>>,
    source_root: Seq<char>,
    path: Seq<char>,
    target_root: Seq<char>,
)
    ensures
        ts.metadata is None || !vault_mode ==> can_assemble(ts, vault_mode, vault_key),
        ts.metadata matches Some(m) ==> (ts.sync_dir.len() > 0 && trimmed(ts.sync_dir)
            == ts.sync_dir && ts.sync_dir.last() != '/' && names(m.file_name) ==> can_assemble(
            ts,
            vault_mode,
            vault_key,
        )),
        is_vault_path(path) || relative(source_root, path) is None ==> has_place(
            source_root,
            path,
            target_root,
        ),
        relative(source_root, path) matches Some(rel) ==> (target_root.len() > 0 && trimmed(
            target_root,
        ) == target_root && target_root.last() != '/' && names(rel) ==> has_place(
            source_root,
            path,
            target_root,
        )),
{
    if let Some(m) = ts.metadata {
        if ts.sync_dir.len() > 0 && trimmed(ts.sync_dir) == ts.sync_dir && ts.sync_dir.last() != '/'
            && names(m.file_name) {
            law_plain_name_names_a_file(ts.sync_dir, m.file_name);
        }
    }
    if let Some(rel) = relative(source_root, path) {
        if target_root.len() > 0 && trimmed(target_root) == target_root && target_root.last() != '/'
            && names(rel) {
            law_plain_name_names_a_file(target_root, rel);
        }
    }
}

/// An import writes the container of a file to its place in the target folder, readable
/// only for the owner, and the container is exported as the file is.
pub proof fn law_import_goes_to_its_place(
    order: WriteOrderView,
    source_root: Seq<char>,
    path: Seq<char>,
    target_root: Seq<char>,
    data: Seq<u8>,
    key: Seq<u8>,
    rel: Seq<char>,
)
    requires
        imports(order, source_root, path, target_root, data, key),
        relative(source_root, path) == Some(rel),
    ensures
        order.path == vault_path(absolute(target_root, rel)),
        order.private,
        vault_plaintext(order.data, key) == Ok::<(u64, Seq<u8>), ErrorView>(
            (data.len() as u64, data),
        ),
{
}

/// Why a chunk is not served, a file not imported, or a transfer not written.
pub proof fn law_why_nothing_is_done(
    content: Seq<u8>,
    rel: Seq<char>,
    index: usize,
    source_root: Seq<char>,
    path: Seq<char>,
    ts: FileTransferStateView,
    vault_key: Seq<u8>,
)
    ensures
        index >= file_chunks(content).len() ==> local_chunk(content, rel, index, None) == Err::<
            Seq<u8>,
            ErrorView,
        >(ErrorView::ChunkPastEnd { index: index as nat, name: rel }),
        relative(source_root, path) is None ==> import_fault(source_root, path, content) == Some(
            ErrorView::RelPathFailed { path },
        ),
        relative(source_root, path) matches Some(name) ==> (leads_out(name) ==> import_fault(
            source_root,
            path,
            content,
        ) == Some(ErrorView::UnsafePath { path: name })),
        ts.metadata is None ==> assembly_fault(ts, false, None) == Some(ErrorView::NoMetadata)
            && assembly_fault(ts, true, Some(vault_key)) == Some(ErrorView::NoMetadata),
        ts.metadata matches Some(m) ==> (transfer_missing(ts).len() == 0 && leads_out(m.file_name)
            ==> assembly_fault(ts, true, Some(vault_key)) == Some(
            ErrorView::UnsafePath { path: m.file_name },
        )),
{
}

} // verus!
