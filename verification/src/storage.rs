//! Files as lists of chunks: what is known of them, how they are served, and
//! how they are put together again.
use crate::network::{FileEntry, FileEntryView};
use crate::primitives::blake3_digest;
use crate::vault::{byte_strings, concatenation, hash_strings};
use std::collections::HashMap;
use vstd::prelude::*;
use vstd::slice::{slice_subrange, slice_to_vec};

verus! {

/// The length of every chunk but the last.
pub const CHUNK_SIZE: u64 = 524288;

/// The associated data of a manifest: `vitv02-manifest`.
pub const MANIFEST_AAD: [u8; 15] = [
    118, 105, 116, 118, 48, 50, 45, 109, 97, 110, 105, 102, 101, 115, 116,
];

/// What is known of a file.
#[derive(Debug)]
pub struct FileMetadata {
    pub file_name: String,
    pub total_chunks: usize,
    pub file_size: u64,
    /// The hashes of the plaintext chunks.
    pub chunk_hashes: Vec<[u8; 32]>,
    /// Whether the file rests encrypted.
    pub is_vault: bool,
}

/// What a `FileMetadata` holds.
#[verifier::ext_equal]
pub ghost struct FileMetadataView {
    pub file_name: Seq<char>,
    pub total_chunks: usize,
    pub file_size: u64,
    pub chunk_hashes: Seq<Seq<u8>>,
    pub is_vault: bool,
}

impl View for FileMetadata {
    type V = FileMetadataView;

    open spec fn view(&self) -> FileMetadataView {
        FileMetadataView {
            file_name: self.file_name@,
            total_chunks: self.total_chunks,
            file_size: self.file_size,
            chunk_hashes: hash_strings(self.chunk_hashes@),
            is_vault: self.is_vault,
        }
    }
}

/// A file that waits for its transfer.
#[derive(Debug)]
pub struct PendingFile {
    pub file_name: String,
    pub total_chunks: usize,
    pub file_size: u64,
    pub chunk_hashes: Vec<[u8; 32]>,
    /// The opaque id of the file, if it is transferred encrypted.
    pub file_id: Option<[u8; 16]>,
}

/// What a `PendingFile` holds.
#[verifier::ext_equal]
pub ghost struct PendingFileView {
    pub file_name: Seq<char>,
    pub total_chunks: usize,
    pub file_size: u64,
    pub chunk_hashes: Seq<Seq<u8>>,
    pub file_id: Option<Seq<u8>>,
}

impl View for PendingFile {
    type V = PendingFileView;

    open spec fn view(&self) -> PendingFileView {
        PendingFileView {
            file_name: self.file_name@,
            total_chunks: self.total_chunks,
            file_size: self.file_size,
            chunk_hashes: hash_strings(self.chunk_hashes@),
            file_id: opt_id(self.file_id),
        }
    }
}

/// A copy of a list of hashes.
pub fn copy_hashes(v: &Vec<[u8; 32]>) -> (r: Vec<[u8; 32]>)
    ensures
        hash_strings(r@) == hash_strings(v@),
        r@ == v@,
{
    let mut out: Vec<[u8; 32]> = Vec::new();
    let mut i: usize = 0;
    while i < v.len()
        invariant
            i <= v@.len(),
            out@ == v@.take(i as int),
        decreases v.len() - i,
    {
        out.push(v[i]);
        i = i + 1;
        assert(out@ =~= v@.take(i as int));
    }
    assert(out@ =~= v@);
    out
}

/// A transfer in progress.
pub struct FileTransferState {
    pub metadata: Option<FileMetadata>,
    /// The chunks that came, as plaintext.
    pub received_chunks: HashMap<usize, Vec<u8>>,
    pub sync_dir: String,
    /// The next chunk to ask for.
    pub next_request: usize,
    /// When a chunk last came, in nanoseconds.
    pub last_activity: u64,
    /// The opaque id of the file, if it is transferred encrypted.
    pub file_id: Option<[u8; 16]>,
}

/// What a `FileTransferState` holds.
#[verifier::ext_equal]
pub ghost struct FileTransferStateView {
    pub metadata: Option<FileMetadataView>,
    pub received_chunks: Map<usize, Seq<u8>>,
    pub sync_dir: Seq<char>,
    pub next_request: usize,
    pub last_activity: u64,
    pub file_id: Option<Seq<u8>>,
}

pub open spec fn opt_metadata(m: Option<FileMetadata>) -> Option<FileMetadataView> {
    match m {
        Some(m) => Some(m@),
        None => None,
    }
}

pub open spec fn opt_id(id: Option<[u8; 16]>) -> Option<Seq<u8>> {
    match id {
        Some(id) => Some(id@),
        None => None,
    }
}

pub open spec fn opt_key(key: Option<[u8; 32]>) -> Option<Seq<u8>> {
    match key {
        Some(key) => Some(key@),
        None => None,
    }
}

pub open spec fn opt_key_ref(key: Option<&[u8; 32]>) -> Option<Seq<u8>> {
    match key {
        Some(key) => Some(key@),
        None => None,
    }
}

/// The bytes of every chunk.
pub open spec fn chunk_contents(m: Map<usize, Vec<u8>>) -> Map<usize, Seq<u8>> {
    m.map_values(|v: Vec<u8>| v@)
}

impl View for FileTransferState {
    type V = FileTransferStateView;

    open spec fn view(&self) -> FileTransferStateView {
        FileTransferStateView {
            metadata: opt_metadata(self.metadata),
            received_chunks: chunk_contents(self.received_chunks@),
            sync_dir: self.sync_dir@,
            next_request: self.next_request,
            last_activity: self.last_activity,
            file_id: opt_id(self.file_id),
        }
    }
}

/// How many chunks a transfer has in all.
pub open spec fn transfer_total(ts: FileTransferStateView) -> usize {
    match ts.metadata {
        Some(m) => m.total_chunks,
        None => 0,
    }
}

/// The chunks below `n` that did not come, in order.
pub open spec fn missing_below(received: Map<usize, Seq<u8>>, n: nat) -> Seq<usize>
    decreases n,
{
    if n == 0 {
        Seq::empty()
    } else {
        let before = missing_below(received, (n - 1) as nat);
        if received.dom().contains((n - 1) as usize) {
            before
        } else {
            before.push((n - 1) as usize)
        }
    }
}

/// A chunk is listed as missing exactly if it is below the bound and did not
/// come; none is listed twice, and they are listed in order.
pub proof fn law_missing_chunks(received: Map<usize, Seq<u8>>, n: nat)
    requires
        n <= usize::MAX,
    ensures
        forall|i: usize|
            #[trigger] missing_below(received, n).contains(i) <==> i < n
                && !received.dom().contains(i),
        forall|a: int, b: int|
            0 <= a < b < missing_below(received, n).len() ==> missing_below(received, n)[a]
                < missing_below(received, n)[b],
    decreases n,
{
    if n > 0 {
        let before = missing_below(received, (n - 1) as nat);
        let now = missing_below(received, n);
        law_missing_chunks(received, (n - 1) as nat);
        let k = (n - 1) as usize;
        assert forall|i: usize| #[trigger] now.contains(i) <==> i < n && !received.dom().contains(
            i,
        ) by {
            if now.contains(i) {
                let w = choose|w: int| 0 <= w < now.len() && now[w] == i;
                if w < before.len() {
                    assert(before[w] == i);
                    assert(before.contains(i));
                }
            }
            if i < n && !received.dom().contains(i) {
                if i < k {
                    assert(before.contains(i));
                    let w = choose|w: int| 0 <= w < before.len() && before[w] == i;
                    assert(now[w] == i);
                } else {
                    assert(now[now.len() - 1] == i);
                }
            }
        }
        assert forall|a: int, b: int| 0 <= a < b < now.len() implies now[a] < now[b] by {
            if b == before.len() {
                assert(before[a] == now[a]);
                assert(before.contains(now[a]));
            }
        }
    }
}

impl FileTransferState {
    pub fn new(sync_dir: String, now: u64) -> (r: Self)
        ensures
            r@ == (FileTransferStateView {
                metadata: None,
                received_chunks: Map::empty(),
                sync_dir: sync_dir@,
                next_request: 0,
                last_activity: now,
                file_id: None,
            }),
    {
        let r = FileTransferState {
            metadata: None,
            received_chunks: HashMap::new(),
            sync_dir,
            next_request: 0,
            last_activity: now,
            file_id: None,
        };
        assert(r@.received_chunks =~= Map::empty());
        r
    }

    /// How many chunks the file has in all.
    pub fn total(&self) -> (r: usize)
        ensures
            r == transfer_total(self@),
    {
        match &self.metadata {
            Some(m) => m.total_chunks,
            None => 0,
        }
    }

    /// Puts a chunk into its place.
    pub fn store_chunk(&mut self, index: usize, data: Vec<u8>)
        ensures
            final(self)@ == (FileTransferStateView {
                received_chunks: old(self)@.received_chunks.insert(index, data@),
                ..old(self)@
            }),
    {
        let ghost bytes = data@;
        self.received_chunks.insert(index, data);
        assert(self@.received_chunks =~= old(self)@.received_chunks.insert(index, bytes));
    }

    /// How many chunks came.
    pub fn received_count(&self) -> (r: usize)
        ensures
            r == self@.received_chunks.len(),
    {
        assert(self@.received_chunks.dom() =~= self.received_chunks@.dom());
        self.received_chunks.len()
    }

    /// The chunks that did not come, in order.
    pub fn missing_chunks(&self) -> (r: Vec<usize>)
        ensures
            r@ == missing_below(self@.received_chunks, transfer_total(self@) as nat),
    {
        let total = self.total();
        let mut out: Vec<usize> = Vec::new();
        let mut i: usize = 0;
        while i < total
            invariant
                i <= total,
                out@ == missing_below(self@.received_chunks, i as nat),
            decreases total - i,
        {
            assert(self@.received_chunks.dom() =~= self.received_chunks@.dom());
            if !self.received_chunks.contains_key(&i) {
                out.push(i);
            }
            i = i + 1;
        }
        out
    }
}

/// A file of a manifest, waiting for its transfer.
pub open spec fn pending_from(fe: FileEntryView) -> PendingFileView {
    PendingFileView {
        file_name: fe.file_name,
        total_chunks: fe.total_chunks,
        file_size: fe.file_size,
        chunk_hashes: fe.chunk_hashes,
        file_id: None,
    }
}

impl PendingFile {
    pub fn from_entry(fe: &FileEntry) -> (r: PendingFile)
        ensures
            r@ == pending_from(fe@),
    {
        PendingFile {
            file_name: fe.file_name.clone(),
            total_chunks: fe.total_chunks,
            file_size: fe.file_size,
            chunk_hashes: copy_hashes(&fe.chunk_hashes),
            file_id: None,
        }
    }
}

/// How many chunks a file of this size has: one at least.
pub open spec fn chunk_count(size: nat) -> nat {
    if size == 0 {
        1
    } else {
        ((size - 1) / CHUNK_SIZE as int + 1) as nat
    }
}

/// The chunk of a file that begins at `index` times the chunk size.
pub open spec fn chunk_of(data: Seq<u8>, index: nat) -> Seq<u8> {
    let from = index * CHUNK_SIZE as nat;
    let to = from + CHUNK_SIZE;
    if from >= data.len() {
        Seq::empty()
    } else if to > data.len() {
        data.skip(from as int)
    } else {
        data.subrange(from as int, to as int)
    }
}

/// The chunks of a file; an empty file has one empty chunk.
pub open spec fn file_chunks(data: Seq<u8>) -> Seq<Seq<u8>> {
    Seq::new(chunk_count(data.len()), |i: int| chunk_of(data, i as nat))
}

/// The hashes of the chunks of a file, one for each.
pub open spec fn content_hashes(data: Seq<u8>) -> Seq<Seq<u8>> {
    file_chunks(data).map_values(|c: Seq<u8>| blake3_digest(c))
}

/// Number of chunks of a file of this size.
pub fn count_chunks(size: u64) -> (r: u64)
    ensures
        r == chunk_count(size as nat),
        r >= 1,
{
    if size == 0 {
        1
    } else {
        (size - 1) / CHUNK_SIZE + 1
    }
}

pub proof fn lemma_chunk_bounds(size: nat, i: nat)
    requires
        size > 0,
    ensures
        i < chunk_count(size) <==> i * CHUNK_SIZE < size,
        chunk_count(size) <= size,
{
    let last = (size - 1) / CHUNK_SIZE as int;
    assert(i <= last <==> i * CHUNK_SIZE <= size - 1) by (nonlinear_arith)
        requires
            last == (size - 1) / 524288,
            CHUNK_SIZE == 524288,
            size > 0,
    ;
    assert(last <= size - 1) by (nonlinear_arith)
        requires
            last == (size - 1) / 524288,
            size > 0,
    ;
}

/// The chunks of a file put one after another are the file. All but the last are
/// full, and only an empty file has an empty one.
pub proof fn law_chunks_make_up_the_file(data: Seq<u8>)
    ensures
        concatenation(file_chunks(data)) == data,
        file_chunks(data).len() == chunk_count(data.len()),
        content_hashes(data).len() == chunk_count(data.len()),
        forall|i: int|
            0 <= i < file_chunks(data).len() - 1 ==> (#[trigger] file_chunks(data)[i]).len()
                == CHUNK_SIZE,
        forall|i: int|
            0 <= i < file_chunks(data).len() ==> (#[trigger] file_chunks(data)[i]).len()
                <= CHUNK_SIZE,
        data.len() > 0 ==> forall|i: int|
            0 <= i < file_chunks(data).len() ==> (#[trigger] file_chunks(data)[i]).len() > 0,
{
    let all = file_chunks(data);
    if data.len() == 0 {
        reveal_with_fuel(concatenation, 2);
        assert(concatenation(all) =~= Seq::empty());
        assert(data =~= Seq::empty());
    } else {
        let n = all.len();
        assert forall|i: int| 0 <= i < n implies 0 < (#[trigger] all[i]).len() <= CHUNK_SIZE by {
            lemma_chunk_bounds(data.len(), i as nat);
        }
        assert forall|i: int| 0 <= i < n - 1 implies (#[trigger] all[i]).len() == CHUNK_SIZE by {
            lemma_chunk_bounds(data.len(), (i + 1) as nat);
        }
        lemma_first_chunks(data, n);
        lemma_chunk_bounds(data.len(), n);
        assert(all.take(n as int) =~= all);
        assert(data.take(data.len() as int) =~= data);
    }
}

proof fn lemma_first_chunks(data: Seq<u8>, n: nat)
    requires
        data.len() > 0,
        n <= chunk_count(data.len()),
    ensures
        concatenation(file_chunks(data).take(n as int)) == data.take(
            if n * CHUNK_SIZE < data.len() {
                n * CHUNK_SIZE
            } else {
                data.len() as int
            },
        ),
    decreases n,
{
    let all = file_chunks(data);
    if n == 0 {
        assert(all.take(0) =~= Seq::empty());
        assert(data.take(0) =~= Seq::empty());
    } else {
        let k = (n - 1) as nat;
        lemma_first_chunks(data, k);
        lemma_chunk_bounds(data.len(), k);
        assert(all.take(n as int).drop_last() =~= all.take(k as int));
        let from = k * CHUNK_SIZE;
        let to = if n * CHUNK_SIZE < data.len() {
            n * CHUNK_SIZE
        } else {
            data.len() as int
        };
        assert(data.take(from) + chunk_of(data, k) =~= data.take(to));
    }
}

/// The piece of a file that begins at `index` times the chunk size.
pub fn chunk_at(data: &[u8], index: usize) -> (r: Vec<u8>)
    ensures
        r@ == chunk_of(data@, index as nat),
{
    let size: u64 = data.len() as u64;
    if index as u64 > size / CHUNK_SIZE {
        assert(index * CHUNK_SIZE >= data@.len()) by (nonlinear_arith)
            requires
                index > size / 524288,
                size == data@.len(),
                CHUNK_SIZE == 524288,
        ;
        return Vec::new();
    }
    assert(index * CHUNK_SIZE <= size) by (nonlinear_arith)
        requires
            index <= size / 524288,
            CHUNK_SIZE == 524288,
    ;
    let from: usize = index * (CHUNK_SIZE as usize);
    if from >= data.len() {
        return Vec::new();
    }
    let to: usize = if data.len() - from > CHUNK_SIZE as usize {
        from + CHUNK_SIZE as usize
    } else {
        data.len()
    };
    let r = slice_to_vec(slice_subrange(data, from, to));
    assert(r@ =~= chunk_of(data@, index as nat));
    r
}

/// Cuts a file into chunks; an empty file has one empty chunk.
pub fn split_chunks(data: &[u8]) -> (r: Vec<Vec<u8>>)
    ensures
        byte_strings(r@) == file_chunks(data@),
{
    let mut out: Vec<Vec<u8>> = Vec::new();
    let n: u64 = count_chunks(data.len() as u64);
    let len: usize = data.len();
    proof {
        if data@.len() > 0 {
            lemma_chunk_bounds(data@.len(), 0);
        }
    }
    let mut i: usize = 0;
    while (i as u64) < n
        invariant
            n == chunk_count(data@.len()),
            n <= usize::MAX,
            i <= n,
            byte_strings(out@) == file_chunks(data@).take(i as int),
        decreases n - i,
    {
        let ghost before = byte_strings(out@);
        out.push(chunk_at(data, i));
        i = i + 1;
        assert(byte_strings(out@) =~= before.push(chunk_of(data@, (i - 1) as nat)));
        assert(byte_strings(out@) =~= file_chunks(data@).take(i as int));
    }
    assert(byte_strings(out@) =~= file_chunks(data@));
    out
}

/// Two nodes cut a file alike: chunk `i` is what stands from `i` times half a mebibyte on,
/// up to the next multiple or the end; an empty file is one empty chunk. A manifest is
/// sealed under a mark of its own.
pub proof fn law_files_are_cut_alike(data: Seq<u8>, i: int)
    requires
        0 <= i,
    ensures
        data.len() == 0 ==> file_chunks(data) == seq![Seq::<u8>::empty()],
        data.len() > 0 ==> (i < file_chunks(data).len() <==> i * 524288 < data.len()),
        0 < data.len() && (i + 1) * 524288 <= data.len() ==> file_chunks(data)[i] == data.subrange(
            i * 524288,
            (i + 1) * 524288,
        ),
        i * 524288 < data.len() < (i + 1) * 524288 ==> file_chunks(data)[i] == data.skip(
            i * 524288,
        ),
        MANIFEST_AAD@ == seq![
            118u8, 105, 116, 118, 48, 50, 45, 109, 97, 110, 105, 102, 101, 115, 116,
        ],
{
    assert(MANIFEST_AAD@ =~= seq![
        118u8, 105, 116, 118, 48, 50, 45, 109, 97, 110, 105, 102, 101, 115, 116,
    ]);
    if data.len() == 0 {
        assert(file_chunks(data) =~= seq![Seq::<u8>::empty()]);
    } else {
        lemma_chunk_bounds(data.len(), i as nat);
    }
}

} // verus!
