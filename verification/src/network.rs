//! The messages that peers exchange.
//!
//! A message travels either in plain form or, where both peers hold a transport
//! key, in a form that hides names, sizes and hashes from everyone else.
use crate::vault::hash_strings;
use vstd::prelude::*;

verus! {

/// One file of a plain manifest.
#[derive(Debug)]
pub struct FileEntry {
    pub file_name: String,
    pub file_size: u64,
    pub total_chunks: usize,
    pub chunk_hashes: Vec<[u8; 32]>,
}

/// What a `FileEntry` holds.
#[verifier::ext_equal]
pub ghost struct FileEntryView {
    pub file_name: Seq<char>,
    pub file_size: u64,
    pub total_chunks: usize,
    pub chunk_hashes: Seq<Seq<u8>>,
}

impl View for FileEntry {
    type V = FileEntryView;

    open spec fn view(&self) -> FileEntryView {
        FileEntryView {
            file_name: self.file_name@,
            file_size: self.file_size,
            total_chunks: self.total_chunks,
            chunk_hashes: hash_strings(self.chunk_hashes@),
        }
    }
}

/// One file of an encrypted manifest.
#[derive(Debug)]
pub struct EncryptedFileEntry {
    /// The relative path, known only inside the encryption.
    pub file_name: String,
    /// The opaque id by which the file is spoken of.
    pub file_id: [u8; 16],
    pub file_size: u64,
    pub total_chunks: u32,
    /// The hashes of the chunks, blinded with the transport key.
    pub blinded_chunk_hashes: Vec<[u8; 32]>,
}

/// What an `EncryptedFileEntry` holds.
#[verifier::ext_equal]
pub ghost struct EncryptedFileEntryView {
    pub file_name: Seq<char>,
    pub file_id: Seq<u8>,
    pub file_size: u64,
    pub total_chunks: u32,
    pub blinded_chunk_hashes: Seq<Seq<u8>>,
}

impl View for EncryptedFileEntry {
    type V = EncryptedFileEntryView;

    open spec fn view(&self) -> EncryptedFileEntryView {
        EncryptedFileEntryView {
            file_name: self.file_name@,
            file_id: self.file_id@,
            file_size: self.file_size,
            total_chunks: self.total_chunks,
            blinded_chunk_hashes: hash_strings(self.blinded_chunk_hashes@),
        }
    }
}

/// What is serialised and encrypted to an `EncryptedManifest`.
#[derive(Debug)]
pub struct EncryptedManifestPayload {
    pub node_name: String,
    pub files: Vec<EncryptedFileEntry>,
}

/// What an `EncryptedManifestPayload` holds.
#[verifier::ext_equal]
pub ghost struct EncryptedManifestPayloadView {
    pub node_name: Seq<char>,
    pub files: Seq<EncryptedFileEntryView>,
}

impl View for EncryptedManifestPayload {
    type V = EncryptedManifestPayloadView;

    open spec fn view(&self) -> EncryptedManifestPayloadView {
        EncryptedManifestPayloadView {
            node_name: self.node_name@,
            files: self.files@.map_values(|e: EncryptedFileEntry| e@),
        }
    }
}

/// A request or a response.
#[allow(inconsistent_fields)]
#[derive(Debug)]
pub enum SyncMessage {
    /// The sender has a folder.
    FolderAnnouncement { node_name: String },
    ManifestRequest,
    ChunkRequest { file_name: String, chunk_index: usize },
    Manifest { node_name: String, files: Vec<FileEntry> },
    ChunkResponse { file_name: String, chunk_index: usize, data: Vec<u8>, hash: [u8; 32] },
    /// A manifest sealed with the transport key.
    EncryptedManifest { ciphertext: Vec<u8> },
    /// A request for a chunk by the opaque id of its file.
    EncryptedChunkRequest { file_id: [u8; 16], chunk_index: u32 },
    /// A chunk sealed with the transport key and tied to its place.
    EncryptedChunkResponse {
        file_id: [u8; 16],
        chunk_index: u32,
        data: Vec<u8>,
        blinded_hash: [u8; 32],
    },
    Empty,
    Ack,
    Error { message: String },
    FileChanged { file_name: String },
    FileDeleted { file_name: String },
    KeyExchangePropose { public_key: [u8; 32] },
    KeyExchangeAccept { public_key: [u8; 32] },
    TransferComplete { file_name: String },
}

/// What a `SyncMessage` says.
#[allow(inconsistent_fields)]
#[verifier::ext_equal]
pub ghost enum SyncMessageView {
    FolderAnnouncement { node_name: Seq<char> },
    ManifestRequest,
    ChunkRequest { file_name: Seq<char>, chunk_index: usize },
    Manifest { node_name: Seq<char>, files: Seq<FileEntryView> },
    ChunkResponse { file_name: Seq<char>, chunk_index: usize, data: Seq<u8>, hash: Seq<u8> },
    EncryptedManifest { ciphertext: Seq<u8> },
    EncryptedChunkRequest { file_id: Seq<u8>, chunk_index: u32 },
    EncryptedChunkResponse {
        file_id: Seq<u8>,
        chunk_index: u32,
        data: Seq<u8>,
        blinded_hash: Seq<u8>,
    },
    Empty,
    Ack,
    Error { message: Seq<char> },
    FileChanged { file_name: Seq<char> },
    FileDeleted { file_name: Seq<char> },
    KeyExchangePropose { public_key: Seq<u8> },
    KeyExchangeAccept { public_key: Seq<u8> },
    TransferComplete { file_name: Seq<char> },
}

impl View for SyncMessage {
    type V = SyncMessageView;

    open spec fn view(&self) -> SyncMessageView {
        match *self {
            SyncMessage::FolderAnnouncement { node_name } => SyncMessageView::FolderAnnouncement {
                node_name: node_name@,
            },
            SyncMessage::ManifestRequest => SyncMessageView::ManifestRequest,
            SyncMessage::ChunkRequest { file_name, chunk_index } => SyncMessageView::ChunkRequest {
                file_name: file_name@,
                chunk_index: chunk_index,
            },
            SyncMessage::Manifest { node_name, files } => SyncMessageView::Manifest {
                node_name: node_name@,
                files: files@.map_values(|e: FileEntry| e@),
            },
            SyncMessage::ChunkResponse {
                file_name,
                chunk_index,
                data,
                hash,
            } => SyncMessageView::ChunkResponse {
                file_name: file_name@,
                chunk_index: chunk_index,
                data: data@,
                hash: hash@,
            },
            SyncMessage::EncryptedManifest { ciphertext } => SyncMessageView::EncryptedManifest {
                ciphertext: ciphertext@,
            },
            SyncMessage::EncryptedChunkRequest {
                file_id,
                chunk_index,
            } => SyncMessageView::EncryptedChunkRequest {
                file_id: file_id@,
                chunk_index: chunk_index,
            },
            SyncMessage::EncryptedChunkResponse {
                file_id,
                chunk_index,
                data,
                blinded_hash,
            } => SyncMessageView::EncryptedChunkResponse {
                file_id: file_id@,
                chunk_index: chunk_index,
                data: data@,
                blinded_hash: blinded_hash@,
            },
            SyncMessage::Empty => SyncMessageView::Empty,
            SyncMessage::Ack => SyncMessageView::Ack,
            SyncMessage::Error { message } => SyncMessageView::Error {
                message: message@,
            },
            SyncMessage::FileChanged { file_name } => SyncMessageView::FileChanged {
                file_name: file_name@,
            },
            SyncMessage::FileDeleted { file_name } => SyncMessageView::FileDeleted {
                file_name: file_name@,
            },
            SyncMessage::KeyExchangePropose { public_key } => SyncMessageView::KeyExchangePropose {
                public_key: public_key@,
            },
            SyncMessage::KeyExchangeAccept { public_key } => SyncMessageView::KeyExchangeAccept {
                public_key: public_key@,
            },
            SyncMessage::TransferComplete { file_name } => SyncMessageView::TransferComplete {
                file_name: file_name@,
            },
        }
    }
}

} // verus!
