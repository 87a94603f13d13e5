//! The messages of the delta protocol.
use crate::delta::metadata::copy_numbers;
use crate::storage::{copy_hashes, opt_key};
use crate::text::{copy_texts, texts};
use crate::vault::hash_strings;
use vstd::prelude::*;
use vstd::slice::slice_to_vec;

verus! {

/// A request or a response.
#[allow(inconsistent_fields)]
#[derive(Debug)]
pub enum SyncMessage {
    MetaDataRequest { file_name: String },
    ListFiles,
    FileList { file_names: Vec<String> },
    Metadata {
        file_name: String,
        total_chunks: usize,
        file_size: u64,
        chunk_hashes: Vec<[u8; 32]>,
    },
    /// Metadata with the version, and with what changed since its parent.
    VersionedMetadata {
        file_name: String,
        file_hash: [u8; 32],
        parent_hash: Option<[u8; 32]>,
        total_chunks: usize,
        file_size: u64,
        chunk_hashes: Vec<[u8; 32]>,
        changed_chunks: Vec<usize>,
        timestamp: u64,
        author: String,
    },
    ChunkRequest { file_name: String, chunk_index: usize },
    ChunkResponse { chunk_index: usize, data: Vec<u8>, hash: [u8; 32], file_name: String },
    FileChanged { file_name: String },
    /// A file changed; who has this version need not ask.
    FileChangedWithVersion {
        file_name: String,
        file_hash: [u8; 32],
        changed_chunk_count: usize,
        timestamp: u64,
    },
    FileDeleted { file_name: String },
    DirectoryCreated { path: String },
    DirectoryDeleted { path: String },
    TransferComplete,
    Empty,
    Error { message: String },
}

/// What a `SyncMessage` says.
#[allow(inconsistent_fields)]
#[verifier::ext_equal]
pub ghost enum SyncMessageView {
    MetaDataRequest { file_name: Seq<char> },
    ListFiles,
    FileList { file_names: Seq<Seq<char>> },
    Metadata {
        file_name: Seq<char>,
        total_chunks: usize,
        file_size: u64,
        chunk_hashes: Seq<Seq<u8>>,
    },
    VersionedMetadata {
        file_name: Seq<char>,
        file_hash: Seq<u8>,
        parent_hash: Option<Seq<u8>>,
        total_chunks: usize,
        file_size: u64,
        chunk_hashes: Seq<Seq<u8>>,
        changed_chunks: Seq<usize>,
        timestamp: u64,
        author: Seq<char>,
    },
    ChunkRequest { file_name: Seq<char>, chunk_index: usize },
    ChunkResponse { chunk_index: usize, data: Seq<u8>, hash: Seq<u8>, file_name: Seq<char> },
    FileChanged { file_name: Seq<char> },
    FileChangedWithVersion {
        file_name: Seq<char>,
        file_hash: Seq<u8>,
        changed_chunk_count: usize,
        timestamp: u64,
    },
    FileDeleted { file_name: Seq<char> },
    DirectoryCreated { path: Seq<char> },
    DirectoryDeleted { path: Seq<char> },
    TransferComplete,
    Empty,
    Error { message: Seq<char> },
}

impl View for SyncMessage {
    type V = SyncMessageView;

    open spec fn view(&self) -> SyncMessageView {
        match *self {
            SyncMessage::MetaDataRequest { file_name } => SyncMessageView::MetaDataRequest {
                file_name: file_name@,
            },
            SyncMessage::ListFiles => SyncMessageView::ListFiles,
            SyncMessage::FileList { file_names } => SyncMessageView::FileList {
                file_names: texts(file_names@),
            },
            SyncMessage::Metadata {
                file_name,
                total_chunks,
                file_size,
                chunk_hashes,
            } => SyncMessageView::Metadata {
                file_name: file_name@,
                total_chunks: total_chunks,
                file_size: file_size,
                chunk_hashes: hash_strings(chunk_hashes@),
            },
            SyncMessage::VersionedMetadata {
                file_name,
                file_hash,
                parent_hash,
                total_chunks,
                file_size,
                chunk_hashes,
                changed_chunks,
                timestamp,
                author,
            } => SyncMessageView::VersionedMetadata {
                file_name: file_name@,
                file_hash: file_hash@,
                parent_hash: opt_key(parent_hash),
                total_chunks: total_chunks,
                file_size: file_size,
                chunk_hashes: hash_strings(chunk_hashes@),
                changed_chunks: changed_chunks@,
                timestamp: timestamp,
                author: author@,
            },
            SyncMessage::ChunkRequest { file_name, chunk_index } => SyncMessageView::ChunkRequest {
                file_name: file_name@,
                chunk_index: chunk_index,
            },
            SyncMessage::ChunkResponse {
                chunk_index,
                data,
                hash,
                file_name,
            } => SyncMessageView::ChunkResponse {
                chunk_index: chunk_index,
                data: data@,
                hash: hash@,
                file_name: file_name@,
            },
            SyncMessage::FileChanged { file_name } => SyncMessageView::FileChanged {
                file_name: file_name@,
            },
            SyncMessage::FileChangedWithVersion {
                file_name,
                file_hash,
                changed_chunk_count,
                timestamp,
            } => SyncMessageView::FileChangedWithVersion {
                file_name: file_name@,
                file_hash: file_hash@,
                changed_chunk_count: changed_chunk_count,
                timestamp: timestamp,
            },
            SyncMessage::FileDeleted { file_name } => SyncMessageView::FileDeleted {
                file_name: file_name@,
            },
            SyncMessage::DirectoryCreated { path } => SyncMessageView::DirectoryCreated {
                path: path@,
            },
            SyncMessage::DirectoryDeleted { path } => SyncMessageView::DirectoryDeleted {
                path: path@,
            },
            SyncMessage::TransferComplete => SyncMessageView::TransferComplete,
            SyncMessage::Empty => SyncMessageView::Empty,
            SyncMessage::Error { message } => SyncMessageView::Error {
                message: message@,
            },
        }
    }
}

impl Clone for SyncMessage {
    fn clone(&self) -> (r: Self)
        ensures
            r@ == self@,
    {
        match self {
            SyncMessage::MetaDataRequest { file_name } => SyncMessage::MetaDataRequest {
                file_name: file_name.clone(),
            },
            SyncMessage::ListFiles => SyncMessage::ListFiles,
            SyncMessage::FileList { file_names } => SyncMessage::FileList {
                file_names: copy_texts(file_names),
            },
            SyncMessage::Metadata {
                file_name,
                total_chunks,
                file_size,
                chunk_hashes,
            } => SyncMessage::Metadata {
                file_name: file_name.clone(),
                total_chunks: *total_chunks,
                file_size: *file_size,
                chunk_hashes: copy_hashes(chunk_hashes),
            },
            SyncMessage::VersionedMetadata {
                file_name,
                file_hash,
                parent_hash,
                total_chunks,
                file_size,
                chunk_hashes,
                changed_chunks,
                timestamp,
                author,
            } => SyncMessage::VersionedMetadata {
                file_name: file_name.clone(),
                file_hash: *file_hash,
                parent_hash: *parent_hash,
                total_chunks: *total_chunks,
                file_size: *file_size,
                chunk_hashes: copy_hashes(chunk_hashes),
                changed_chunks: copy_numbers(changed_chunks),
                timestamp: *timestamp,
                author: author.clone(),
            },
            SyncMessage::ChunkRequest { file_name, chunk_index } => SyncMessage::ChunkRequest {
                file_name: file_name.clone(),
                chunk_index: *chunk_index,
            },
            SyncMessage::ChunkResponse {
                chunk_index,
                data,
                hash,
                file_name,
            } => SyncMessage::ChunkResponse {
                chunk_index: *chunk_index,
                data: slice_to_vec(data.as_slice()),
                hash: *hash,
                file_name: file_name.clone(),
            },
            SyncMessage::FileChanged { file_name } => SyncMessage::FileChanged {
                file_name: file_name.clone(),
            },
            SyncMessage::FileChangedWithVersion {
                file_name,
                file_hash,
                changed_chunk_count,
                timestamp,
            } => SyncMessage::FileChangedWithVersion {
                file_name: file_name.clone(),
                file_hash: *file_hash,
                changed_chunk_count: *changed_chunk_count,
                timestamp: *timestamp,
            },
            SyncMessage::FileDeleted { file_name } => SyncMessage::FileDeleted {
                file_name: file_name.clone(),
            },
            SyncMessage::DirectoryCreated { path } => SyncMessage::DirectoryCreated {
                path: path.clone(),
            },
            SyncMessage::DirectoryDeleted { path } => SyncMessage::DirectoryDeleted {
                path: path.clone(),
            },
            SyncMessage::TransferComplete => SyncMessage::TransferComplete,
            SyncMessage::Empty => SyncMessage::Empty,
            SyncMessage::Error { message } => SyncMessage::Error {
                message: message.clone(),
            },
        }
    }
}

} // verus!
