//! Files cut into chunks, and the differences of their versions.
use crate::collections::Key;
use crate::delta::metadata::{
    first_version, next_version, FileMetadata, FileMetadataView, FileVersion, FileVersionView,
};
use crate::paths::{
    file_name, has_file_name, last_component, law_last_component_can_be_replaced, names, trimmed,
};
use crate::pieces::{cut, law_pieces_make_up_the_whole, pieces};
use crate::primitives::{blake3_digest, blake3_hash};
use crate::text::owned;
use crate::vault::{byte_strings, concatenation, hash_strings};
use vstd::prelude::*;
use vstd::slice::slice_to_vec;

verus! {

/// The length of every chunk but the last.
pub const CHUNK_SIZE: usize = 16777216;

/// A chunk of a file.
#[derive(Debug)]
pub struct Chunk {
    pub index: usize,
    pub data: Vec<u8>,
    pub hash: [u8; 32],
}

/// What a `Chunk` holds.
#[verifier::ext_equal]
pub ghost struct ChunkView {
    pub index: usize,
    pub data: Seq<u8>,
    pub hash: Seq<u8>,
}

impl View for Chunk {
    type V = ChunkView;

    open spec fn view(&self) -> ChunkView {
        ChunkView {
            index: self.index,
            data: self.data@,
            hash: self.hash@,
        }
    }
}

impl Chunk {
    pub fn new(index: usize, data: Vec<u8>, hash: [u8; 32]) -> (r: Self)
        ensures
            r@ == (ChunkView { index, data: data@, hash: hash@ }),
    {
        Chunk { index, data, hash }
    }
}

/// The contents of the chunks of a file; an empty file has one empty chunk.
pub open spec fn chunk_data(data: Seq<u8>) -> Seq<Seq<u8>> {
    if data.len() == 0 {
        seq![Seq::empty()]
    } else {
        pieces(data, CHUNK_SIZE as nat)
    }
}

/// The chunks put one after another are the file.
pub proof fn law_chunk_data_make_up_the_file(data: Seq<u8>)
    ensures
        concatenation(chunk_data(data)) == data,
{
    if data.len() == 0 {
        let one = seq![Seq::<u8>::empty()];
        reveal_with_fuel(concatenation, 2);
        assert(concatenation(one) =~= Seq::empty());
    } else {
        law_pieces_make_up_the_whole(data, CHUNK_SIZE as nat);
    }
}

/// The chunks of a file.
pub open spec fn chunks_of(data: Seq<u8>) -> Seq<ChunkView> {
    Seq::new(
        chunk_data(data).len(),
        |i: int|
            ChunkView {
                index: i as usize,
                data: chunk_data(data)[i],
                hash: blake3_digest(chunk_data(data)[i]),
            },
    )
}

/// The hashes of the chunks of a file.
pub open spec fn hashes_of(data: Seq<u8>) -> Seq<Seq<u8>> {
    chunk_data(data).map_values(|c: Seq<u8>| blake3_digest(c))
}

/// The name of the file at a path.
pub open spec fn name_at(path: Seq<char>) -> Seq<char> {
    if has_file_name(path) {
        last_component(path)
    } else {
        "unknown"@
    }
}

/// What is known of a file from its content.
pub open spec fn metadata_of(path: Seq<char>, data: Seq<u8>) -> FileMetadataView {
    FileMetadataView {
        file_name: name_at(path),
        total_chunks: chunk_data(data).len() as usize,
        file_size: data.len() as u64,
        chunk_hashes: hashes_of(data),
    }
}

/// The views of a list of chunks.
pub open spec fn chunk_views(v: Seq<Chunk>) -> Seq<ChunkView> {
    v.map_values(|c: Chunk| c@)
}

fn raw_chunks(data: &[u8]) -> (r: Vec<Vec<u8>>)
    ensures
        byte_strings(r@) == chunk_data(data@),
{
    if data.len() == 0 {
        let mut out: Vec<Vec<u8>> = Vec::new();
        out.push(Vec::new());
        assert(byte_strings(out@) =~= chunk_data(data@));
        out
    } else {
        cut(data, CHUNK_SIZE)
    }
}

/// Cuts a file into chunks with their hashes.
pub fn chunk_file(path: &str, data: &[u8]) -> (r: (Vec<Chunk>, FileMetadata))
    ensures
        chunk_views(r.0@) == chunks_of(data@),
        r.1@ == metadata_of(path@, data@),
{
    let name = match file_name(path) {
        Some(n) => n,
        None => owned("unknown"),
    };
    let raw = raw_chunks(data);
    let ghost all = chunk_data(data@);
    let mut chunks: Vec<Chunk> = Vec::new();
    let mut chunk_hashes: Vec<[u8; 32]> = Vec::new();
    let mut i: usize = 0;
    while i < raw.len()
        invariant
            all == chunk_data(data@),
            byte_strings(raw@) == all,
            i <= raw@.len(),
            chunk_views(chunks@) == chunks_of(data@).take(i as int),
            hash_strings(chunk_hashes@) == hashes_of(data@).take(i as int),
        decreases raw.len() - i,
    {
        let ghost before = chunk_views(chunks@);
        let ghost before_hashes = hash_strings(chunk_hashes@);
        assert(all[i as int] == raw@[i as int]@);
        let hash = blake3_hash(raw[i].as_slice());
        let chunk = Chunk::new(i, slice_to_vec(raw[i].as_slice()), hash);
        let ghost cv = chunk@;
        chunks.push(chunk);
        chunk_hashes.push(hash);
        i = i + 1;
        proof {
            assert(chunk_views(chunks@) =~= before.push(cv));
            assert(chunks_of(data@).take(i as int) =~= before.push(cv));
            assert(hash_strings(chunk_hashes@) =~= before_hashes.push(hash@));
            assert(hashes_of(data@).take(i as int) =~= before_hashes.push(hash@));
        }
    }
    assert(chunks_of(data@).take(i as int) =~= chunks_of(data@));
    assert(hashes_of(data@).take(i as int) =~= hashes_of(data@));
    let total_chunks: usize = chunks.len();
    (
        chunks,
        FileMetadata {
            file_name: name,
            total_chunks,
            file_size: data.len() as u64,
            chunk_hashes,
        },
    )
}

/// The contents of a list of chunks.
pub open spec fn contents(chunks: Seq<ChunkView>) -> Seq<Seq<u8>> {
    chunks.map_values(|c: ChunkView| c.data)
}

/// The hash of the whole content of a file.
pub fn compute_file_hash(chunks: &Vec<Chunk>) -> (r: [u8; 32])
    ensures
        r@ == blake3_digest(concatenation(contents(chunk_views(chunks@)))),
{
    let ghost all = contents(chunk_views(chunks@));
    let mut whole: Vec<u8> = Vec::new();
    let mut i: usize = 0;
    assert(all.take(0) =~= Seq::empty());
    while i < chunks.len()
        invariant
            all == contents(chunk_views(chunks@)),
            i <= chunks@.len(),
            whole@ == concatenation(all.take(i as int)),
        decreases chunks.len() - i,
    {
        assert(all.take(i + 1).drop_last() =~= all.take(i as int));
        whole.extend_from_slice(chunks[i].data.as_slice());
        i = i + 1;
        assert(whole@ =~= concatenation(all.take(i as int)));
    }
    assert(all.take(i as int) =~= all);
    blake3_hash(whole.as_slice())
}

/// The chunk at `i` is new, or its hash is not as before.
pub open spec fn chunk_changed(old_hashes: Seq<Seq<u8>>, new_hashes: Seq<Seq<u8>>, i: int) -> bool {
    i >= old_hashes.len() || old_hashes[i] != new_hashes[i]
}

/// The chunks below `n` that changed, in order.
pub open spec fn changed_below(
    old_hashes: Seq<Seq<u8>>,
    new_hashes: Seq<Seq<u8>>,
    n: nat,
) -> Seq<usize>
    decreases n,
{
    if n == 0 {
        Seq::empty()
    } else {
        let before = changed_below(old_hashes, new_hashes, (n - 1) as nat);
        if chunk_changed(old_hashes, new_hashes, n - 1) {
            before.push((n - 1) as usize)
        } else {
            before
        }
    }
}

/// The chunks of the new version that changed.
pub open spec fn changes(old_hashes: Seq<Seq<u8>>, new_hashes: Seq<Seq<u8>>) -> Seq<usize> {
    changed_below(old_hashes, new_hashes, new_hashes.len())
}

/// A chunk is listed as changed exactly if it is in the new version and is new
/// there or has another hash.
pub proof fn law_changes_are_exact(old_hashes: Seq<Seq<u8>>, new_hashes: Seq<Seq<u8>>, n: nat)
    requires
        n <= usize::MAX,
    ensures
        forall|i: usize|
            #[trigger] changed_below(old_hashes, new_hashes, n).contains(i) <==> i < n
                && chunk_changed(old_hashes, new_hashes, i as int),
    decreases n,
{
    let now = changed_below(old_hashes, new_hashes, n);
    if n > 0 {
        let before = changed_below(old_hashes, new_hashes, (n - 1) as nat);
        law_changes_are_exact(old_hashes, new_hashes, (n - 1) as nat);
        assert forall|i: usize| #[trigger] now.contains(i) <==> i < n && chunk_changed(
            old_hashes,
            new_hashes,
            i as int,
        ) by {
            if now.contains(i) {
                let w = choose|w: int| 0 <= w < now.len() && now[w] == i;
                if w < before.len() {
                    assert(before[w] == i);
                    assert(before.contains(i));
                }
            }
            if i < n && chunk_changed(old_hashes, new_hashes, i as int) {
                if i < n - 1 {
                    assert(before.contains(i));
                    let w = choose|w: int| 0 <= w < before.len() && before[w] == i;
                    assert(now[w] == i);
                } else {
                    assert(now[now.len() - 1] == i);
                }
            }
        }
    }
}

/// The list of changed chunks is in order, and as long as the file has chunks only
/// if all of them changed.
pub proof fn lemma_changes(old_hashes: Seq<Seq<u8>>, new_hashes: Seq<Seq<u8>>, n: nat)
    requires
        n <= usize::MAX,
    ensures
        ({
            let c = changed_below(old_hashes, new_hashes, n);
            &&& c.len() <= n
            &&& forall|i: int, j: int| #![trigger c[i], c[j]] 0 <= i < j < c.len() ==> c[i] < c[j]
            &&& forall|i: int| 0 <= i < c.len() ==> #[trigger] c[i] < n
            &&& c.len() == n ==> forall|i: int|
                0 <= i < n ==> #[trigger] chunk_changed(old_hashes, new_hashes, i)
        }),
    decreases n,
{
    if n > 0 {
        lemma_changes(old_hashes, new_hashes, (n - 1) as nat);
    }
}

/// The chunks of the new version that changed.
pub fn detect_changed_chunks(old_hashes: &Vec<[u8; 32]>, new_hashes: &Vec<[u8; 32]>) -> (r: Vec<
    usize,
>)
    ensures
        r@ == changes(hash_strings(old_hashes@), hash_strings(new_hashes@)),
{
    let ghost olds = hash_strings(old_hashes@);
    let ghost news = hash_strings(new_hashes@);
    let mut out: Vec<usize> = Vec::new();
    let mut i: usize = 0;
    while i < new_hashes.len()
        invariant
            olds == hash_strings(old_hashes@),
            news == hash_strings(new_hashes@),
            i <= new_hashes@.len(),
            out@ == changed_below(olds, news, i as nat),
        decreases new_hashes.len() - i,
    {
        assert(news[i as int] == new_hashes@[i as int]@);
        let changed = if i < old_hashes.len() {
            assert(olds[i as int] == old_hashes@[i as int]@);
            !old_hashes[i].same(&new_hashes[i])
        } else {
            true
        };
        if changed {
            out.push(i);
        }
        i = i + 1;
    }
    out
}

/// The first version of a file, from its chunks.
pub fn create_file_version(
    chunks: &Vec<Chunk>,
    metadata: FileMetadata,
    author: String,
    timestamp: u64,
) -> (r: FileVersion)
    ensures
        r@ == first_version(
            blake3_digest(concatenation(contents(chunk_views(chunks@)))),
            metadata@,
            author@,
            timestamp,
        ),
{
    let file_hash = compute_file_hash(chunks);
    FileVersion::new(file_hash, metadata, author, timestamp)
}

/// The next version of a file, from its chunks and the version before.
pub fn create_file_version_from_parent(
    chunks: &Vec<Chunk>,
    metadata: FileMetadata,
    author: String,
    parent: &FileVersion,
    timestamp: u64,
) -> (r: FileVersion)
    ensures
        r@ == next_version(
            blake3_digest(concatenation(contents(chunk_views(chunks@)))),
            metadata@,
            author@,
            parent@,
            changes(parent@.metadata.chunk_hashes, metadata@.chunk_hashes),
            timestamp,
        ),
{
    let file_hash = compute_file_hash(chunks);
    let changed = detect_changed_chunks(&parent.metadata.chunk_hashes, &metadata.chunk_hashes);
    FileVersion::from_parent(file_hash, metadata, author, parent, changed, timestamp)
}

/// The version of a file after the version before, if there is one.
pub open spec fn version_of(
    file_hash: Seq<u8>,
    metadata: FileMetadataView,
    author: Seq<char>,
    parent: Option<FileVersionView>,
    timestamp: u64,
) -> FileVersionView {
    match parent {
        None => first_version(file_hash, metadata, author, timestamp),
        Some(p) => next_version(
            file_hash,
            metadata,
            author,
            p,
            changes(p.metadata.chunk_hashes, metadata.chunk_hashes),
            timestamp,
        ),
    }
}

/// The contents of the chunks of a file are the file.
pub proof fn lemma_contents(data: Seq<u8>)
    ensures
        contents(chunks_of(data)) == chunk_data(data),
        concatenation(contents(chunks_of(data))) == data,
{
    assert(contents(chunks_of(data)) =~= chunk_data(data));
    law_chunk_data_make_up_the_file(data);
}

/// What is known of a file from its content, under a given name.
pub open spec fn named_metadata(name: Seq<char>, data: Seq<u8>) -> FileMetadataView {
    FileMetadataView { file_name: name, ..metadata_of(name, data) }
}

/// Cuts a file that is known by a given name into chunks.
pub fn chunk_named_file(name: &str, data: &[u8]) -> (r: (Vec<Chunk>, FileMetadata))
    ensures
        chunk_views(r.0@) == chunks_of(data@),
        r.1@ == named_metadata(name@, data@),
{
    let (chunks, m) = chunk_file(name, data);
    let metadata = FileMetadata {
        file_name: owned(name),
        total_chunks: m.total_chunks,
        file_size: m.file_size,
        chunk_hashes: m.chunk_hashes,
    };
    (chunks, metadata)
}

/// The view of an optional version.
pub open spec fn opt_version(v: Option<&FileVersion>) -> Option<FileVersionView> {
    match v {
        Some(v) => Some(v@),
        None => None,
    }
}

/// Makes the version of a file after the version before, if there is one.
pub fn make_version(
    chunks: &Vec<Chunk>,
    metadata: FileMetadata,
    author: String,
    parent: Option<&FileVersion>,
    timestamp: u64,
) -> (r: FileVersion)
    ensures
        r@ == version_of(
            blake3_digest(concatenation(contents(chunk_views(chunks@)))),
            metadata@,
            author@,
            opt_version(parent),
            timestamp,
        ),
{
    match parent {
        Some(p) => create_file_version_from_parent(chunks, metadata, author, p, timestamp),
        None => create_file_version(chunks, metadata, author, timestamp),
    }
}

/// A file is described under the last part of its path, or under the name it is given.
pub proof fn law_file_goes_by_its_name(dir: Seq<char>, name: Seq<char>, data: Seq<u8>)
    requires
        dir.len() > 0,
        trimmed(dir) == dir,
        names(name),
    ensures
        metadata_of(dir.push('/') + name, data).file_name == name,
        named_metadata(dir.push('/') + name, data).file_name == dir.push('/') + name,
        metadata_of(dir.push('/') + name, data).chunk_hashes == named_metadata(
            name,
            data,
        ).chunk_hashes,
        metadata_of(dir.push('/') + name, data).file_size == data.len() as u64,
{
    law_last_component_can_be_replaced(dir, name, name);
}

} // verus!
