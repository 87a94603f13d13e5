//! Files and their versions.
use crate::storage::{copy_hashes, opt_key};
use crate::vault::hash_strings;
use vstd::prelude::*;

verus! {

/// What is known of a file.
#[derive(Debug)]
pub struct FileMetadata {
    pub file_name: String,
    pub total_chunks: usize,
    pub file_size: u64,
    pub chunk_hashes: Vec<[u8; 32]>,
}

/// What a `FileMetadata` holds.
#[verifier::ext_equal]
pub ghost struct FileMetadataView {
    pub file_name: Seq<char>,
    pub total_chunks: usize,
    pub file_size: u64,
    pub chunk_hashes: Seq<Seq<u8>>,
}

impl View for FileMetadata {
    type V = FileMetadataView;

    open spec fn view(&self) -> FileMetadataView {
        FileMetadataView {
            file_name: self.file_name@,
            total_chunks: self.total_chunks,
            file_size: self.file_size,
            chunk_hashes: hash_strings(self.chunk_hashes@),
        }
    }
}

/// A version of a file.
#[derive(Debug)]
pub struct FileVersion {
    /// The hash of the whole content.
    pub file_hash: [u8; 32],
    /// The hash of the version before.
    pub parent_hash: Option<[u8; 32]>,
    pub metadata: FileMetadata,
    /// When the version was made, in seconds.
    pub timestamp: u64,
    /// The peer that made it.
    pub author: String,
    /// The chunks that are not as in the version before.
    pub changed_chunks: Vec<usize>,
}

/// What a `FileVersion` holds.
#[verifier::ext_equal]
pub ghost struct FileVersionView {
    pub file_hash: Seq<u8>,
    pub parent_hash: Option<Seq<u8>>,
    pub metadata: FileMetadataView,
    pub timestamp: u64,
    pub author: Seq<char>,
    pub changed_chunks: Seq<usize>,
}

impl View for FileVersion {
    type V = FileVersionView;

    open spec fn view(&self) -> FileVersionView {
        FileVersionView {
            file_hash: self.file_hash@,
            parent_hash: opt_key(self.parent_hash),
            metadata: self.metadata@,
            timestamp: self.timestamp,
            author: self.author@,
            changed_chunks: self.changed_chunks@,
        }
    }
}

/// A copy of a list of numbers.
pub fn copy_numbers(v: &Vec<usize>) -> (r: Vec<usize>)
    ensures
        r@ == v@,
{
    let mut out: Vec<usize> = Vec::new();
    let mut i: usize = 0;
    while i < v.len()
        invariant
            i <= v@.len(),
            out@ == v@.take(i as int),
        decreases v.len() - i,
    {
        out.push(v[i]);
        i = i + 1;
        assert(out@ =~= v@.take(i as int));
    }
    assert(out@ =~= v@);
    out
}

impl Clone for FileMetadata {
    fn clone(&self) -> (r: Self)
        ensures
            r@ == self@,
    {
        FileMetadata {
            file_name: self.file_name.clone(),
            total_chunks: self.total_chunks,
            file_size: self.file_size,
            chunk_hashes: copy_hashes(&self.chunk_hashes),
        }
    }
}

impl Clone for FileVersion {
    fn clone(&self) -> (r: Self)
        ensures
            r@ == self@,
    {
        FileVersion {
            file_hash: self.file_hash,
            parent_hash: self.parent_hash,
            metadata: self.metadata.clone(),
            timestamp: self.timestamp,
            author: self.author.clone(),
            changed_chunks: copy_numbers(&self.changed_chunks),
        }
    }
}

/// The numbers below `n`.
pub open spec fn numbers_below(n: nat) -> Seq<usize> {
    Seq::new(n, |i: int| i as usize)
}

/// The numbers below `n`.
pub fn all_below(n: usize) -> (r: Vec<usize>)
    ensures
        r@ == numbers_below(n as nat),
{
    let mut out: Vec<usize> = Vec::new();
    let mut i: usize = 0;
    while i < n
        invariant
            i <= n,
            out@ == numbers_below(i as nat),
        decreases n - i,
    {
        out.push(i);
        i = i + 1;
        assert(out@ =~= numbers_below(i as nat));
    }
    out
}

/// The first version of a file: all chunks are new.
pub open spec fn first_version(
    file_hash: Seq<u8>,
    metadata: FileMetadataView,
    author: Seq<char>,
    timestamp: u64,
) -> FileVersionView {
    FileVersionView {
        file_hash,
        parent_hash: None,
        metadata,
        timestamp,
        author,
        changed_chunks: numbers_below(metadata.total_chunks as nat),
    }
}

/// A version that follows another one.
pub open spec fn next_version(
    file_hash: Seq<u8>,
    metadata: FileMetadataView,
    author: Seq<char>,
    parent: FileVersionView,
    changed_chunks: Seq<usize>,
    timestamp: u64,
) -> FileVersionView {
    FileVersionView {
        file_hash,
        parent_hash: Some(parent.file_hash),
        metadata,
        timestamp,
        author,
        changed_chunks,
    }
}

impl FileVersion {
    /// The first version of a file, made at `timestamp`.
    pub fn new(file_hash: [u8; 32], metadata: FileMetadata, author: String, timestamp: u64) -> (r:
        Self)
        ensures
            r@ == first_version(file_hash@, metadata@, author@, timestamp),
    {
        let changed_chunks = all_below(metadata.total_chunks);
        FileVersion { file_hash, parent_hash: None, metadata, timestamp, author, changed_chunks }
    }

    /// A version that follows `parent`, made at `timestamp`.
    pub fn from_parent(
        file_hash: [u8; 32],
        metadata: FileMetadata,
        author: String,
        parent: &FileVersion,
        changed_chunks: Vec<usize>,
        timestamp: u64,
    ) -> (r: Self)
        ensures
            r@ == next_version(
                file_hash@,
                metadata@,
                author@,
                parent@,
                changed_chunks@,
                timestamp,
            ),
    {
        FileVersion {
            file_hash,
            parent_hash: Some(parent.file_hash),
            metadata,
            timestamp,
            author,
            changed_chunks,
        }
    }
}

} // verus!
