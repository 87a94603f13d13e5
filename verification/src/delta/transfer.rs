//! Incoming transfers that need only some chunks.
use crate::collections::{with_element, KeySet};
use crate::delta::metadata::{
    all_below, numbers_below, FileMetadata, FileMetadataView, FileVersion, FileVersionView,
};
use crate::storage::chunk_contents;
use std::collections::HashMap;
use vstd::prelude::*;

verus! {

/// A transfer in progress.
pub struct FileTransferState {
    pub metadata: Option<FileMetadata>,
    /// The version that is transferred.
    pub current_version: Option<FileVersion>,
    /// The version that is here already.
    pub previous_version: Option<FileVersion>,
    pub received_chunks: HashMap<usize, Vec<u8>>,
    /// The folder into which the file goes.
    pub file_path: String,
    pub next_chunk_to_request: usize,
    pub chunks_in_flight: usize,
    pub chunks_expected: usize,
    /// The chunks that did not have their hash.
    pub failed_chunks: KeySet<usize>,
    /// The chunks that are needed.
    pub required_chunks: KeySet<usize>,
}

/// What a `FileTransferState` holds.
#[verifier::ext_equal]
pub ghost struct FileTransferStateView {
    pub metadata: Option<FileMetadataView>,
    pub current_version: Option<FileVersionView>,
    pub previous_version: Option<FileVersionView>,
    pub received_chunks: Map<usize, Seq<u8>>,
    pub file_path: Seq<char>,
    pub next_chunk_to_request: usize,
    pub chunks_in_flight: usize,
    pub chunks_expected: usize,
    pub failed_chunks: Seq<usize>,
    pub required_chunks: Seq<usize>,
}

pub open spec fn opt_metadata(m: Option<FileMetadata>) -> Option<FileMetadataView> {
    match m {
        Some(m) => Some(m@),
        None => None,
    }
}

pub open spec fn opt_owned_version(v: Option<FileVersion>) -> Option<FileVersionView> {
    match v {
        Some(v) => Some(v@),
        None => None,
    }
}

impl View for FileTransferState {
    type V = FileTransferStateView;

    open spec fn view(&self) -> FileTransferStateView {
        FileTransferStateView {
            metadata: opt_metadata(self.metadata),
            current_version: opt_owned_version(self.current_version),
            previous_version: opt_owned_version(self.previous_version),
            received_chunks: chunk_contents(self.received_chunks@),
            file_path: self.file_path@,
            next_chunk_to_request: self.next_chunk_to_request,
            chunks_in_flight: self.chunks_in_flight,
            chunks_expected: self.chunks_expected,
            failed_chunks: self.failed_chunks@,
            required_chunks: self.required_chunks@,
        }
    }
}

/// A transfer of which nothing is known.
pub open spec fn new_transfer(file_path: Seq<char>) -> FileTransferStateView {
    FileTransferStateView {
        metadata: None,
        current_version: None,
        previous_version: None,
        received_chunks: Map::empty(),
        file_path,
        next_chunk_to_request: 0,
        chunks_in_flight: 0,
        chunks_expected: 0,
        failed_chunks: Seq::empty(),
        required_chunks: Seq::empty(),
    }
}

/// The set of the first `n` numbers of a list.
pub open spec fn number_set(numbers: Seq<usize>, n: nat) -> Seq<usize>
    decreases n,
{
    if n == 0 {
        Seq::empty()
    } else {
        with_element(number_set(numbers, (n - 1) as nat), numbers[n - 1])
    }
}

/// A list without duplicates is its own set.
pub proof fn lemma_number_set(numbers: Seq<usize>, n: nat)
    requires
        numbers.no_duplicates(),
        n <= numbers.len(),
    ensures
        number_set(numbers, n) == numbers.take(n as int),
    decreases n,
{
    if n == 0 {
        assert(numbers.take(0) =~= Seq::empty());
    } else {
        lemma_number_set(numbers, (n - 1) as nat);
        let before = numbers.take(n - 1);
        assert(!before.contains(numbers[n - 1]));
        assert(numbers.take(n as int) =~= before.push(numbers[n - 1]));
    }
}

/// The set of all chunks of a file with `n` chunks.
pub open spec fn all_chunks(n: nat) -> Seq<usize> {
    number_set(numbers_below(n), n)
}

/// The set of all chunks has each of them once, in order.
pub proof fn lemma_all_chunks(n: nat)
    requires
        n <= usize::MAX,
    ensures
        all_chunks(n) == numbers_below(n),
{
    lemma_number_set(numbers_below(n), n);
    assert(numbers_below(n).take(n as int) =~= numbers_below(n));
}

/// The chunks that a version needs: those that changed if an earlier version is
/// here, else all.
pub open spec fn needed_chunks(
    version: FileVersionView,
    previous: Option<FileVersionView>,
) -> Seq<usize> {
    let numbers = if previous is Some {
        version.changed_chunks
    } else {
        numbers_below(version.metadata.total_chunks as nat)
    };
    number_set(numbers, numbers.len())
}

/// The transfer with the chunks that its version needs.
pub open spec fn with_required(ts: FileTransferStateView) -> FileTransferStateView {
    match ts.current_version {
        None => ts,
        Some(version) => FileTransferStateView {
            required_chunks: needed_chunks(version, ts.previous_version),
            chunks_expected: needed_chunks(version, ts.previous_version).len() as usize,
            ..ts
        },
    }
}

/// How many of the first `n` required chunks came.
pub open spec fn came(required: Seq<usize>, received: Map<usize, Seq<u8>>, n: nat) -> nat
    decreases n,
{
    if n == 0 {
        0
    } else {
        came(required, received, (n - 1) as nat) + if received.dom().contains(required[n - 1]) {
            1nat
        } else {
            0nat
        }
    }
}

/// All required chunks came, and there were some.
pub open spec fn transfer_complete(ts: FileTransferStateView) -> bool {
    ts.required_chunks.len() > 0 && came(
        ts.required_chunks,
        ts.received_chunks,
        ts.required_chunks.len(),
    ) == ts.required_chunks.len()
}

proof fn lemma_came_bound(required: Seq<usize>, received: Map<usize, Seq<u8>>, n: nat)
    ensures
        came(required, received, n) <= n,
    decreases n,
{
    if n > 0 {
        lemma_came_bound(required, received, (n - 1) as nat);
    }
}

/// A transfer is complete exactly if it needs chunks and every one of them came.
pub proof fn law_complete_means_all_came(ts: FileTransferStateView)
    ensures
        transfer_complete(ts) <==> ts.required_chunks.len() > 0 && forall|i: int|
            0 <= i < ts.required_chunks.len() ==> ts.received_chunks.dom().contains(
                #[trigger] ts.required_chunks[i],
            ),
{
    lemma_came_all(ts.required_chunks, ts.received_chunks, ts.required_chunks.len());
}

proof fn lemma_came_all(required: Seq<usize>, received: Map<usize, Seq<u8>>, n: nat)
    requires
        n <= required.len(),
    ensures
        came(required, received, n) == n <==> forall|i: int|
            0 <= i < n ==> received.dom().contains(#[trigger] required[i]),
    decreases n,
{
    if n > 0 {
        lemma_came_all(required, received, (n - 1) as nat);
        lemma_came_bound(required, received, (n - 1) as nat);
        if came(required, received, n) != n && received.dom().contains(required[n - 1]) {
            let i = choose|i: int|
                0 <= i < n - 1 && !received.dom().contains(#[trigger] required[i]);
            assert(!received.dom().contains(required[i]));
        }
        if came(required, received, n) == n {
            assert(came(required, received, (n - 1) as nat) == n - 1);
        } else if !received.dom().contains(required[n - 1]) {
            assert(!received.dom().contains(required[n - 1]));
        }
    }
}

fn collect_set(numbers: &Vec<usize>) -> (r: KeySet<usize>)
    ensures
        r@ == number_set(numbers@, numbers@.len()),
{
    let mut out: KeySet<usize> = KeySet::new();
    let mut i: usize = 0;
    while i < numbers.len()
        invariant
            i <= numbers@.len(),
            out@ == number_set(numbers@, i as nat),
        decreases numbers.len() - i,
    {
        out.insert(numbers[i]);
        i = i + 1;
    }
    out
}

impl FileTransferState {
    pub fn new(file_path: String) -> (r: Self)
        ensures
            r@ == new_transfer(file_path@),
    {
        let r = FileTransferState {
            metadata: None,
            current_version: None,
            previous_version: None,
            received_chunks: HashMap::new(),
            file_path,
            next_chunk_to_request: 0,
            chunks_in_flight: 0,
            chunks_expected: 0,
            failed_chunks: KeySet::new(),
            required_chunks: KeySet::new(),
        };
        assert(r@.received_chunks =~= Map::empty());
        r
    }

    /// How many of the required chunks came, and how many there are.
    pub fn progress(&self) -> (r: (usize, usize))
        ensures
            r.0 == came(
                self@.required_chunks,
                self@.received_chunks,
                self@.required_chunks.len(),
            ),
            r.1 == self@.required_chunks.len(),
    {
        let n: usize = self.required_chunks.len();
        let mut count: usize = 0;
        let mut i: usize = 0;
        assert(self@.received_chunks.dom() =~= self.received_chunks@.dom());
        while i < n
            invariant
                n == self@.required_chunks.len(),
                self@.received_chunks.dom() == self.received_chunks@.dom(),
                i <= n,
                count <= i,
                count == came(self@.required_chunks, self@.received_chunks, i as nat),
            decreases n - i,
        {
            if self.received_chunks.contains_key(self.required_chunks.at(i)) {
                count = count + 1;
            }
            i = i + 1;
        }
        (count, n)
    }

    /// Makes all chunks of a file with `n` chunks needed.
    pub fn require_all_chunks(&mut self, n: usize)
        ensures
            final(self)@ == (FileTransferStateView {
                required_chunks: all_chunks(n as nat),
                chunks_expected: n,
                ..old(self)@
            }),
    {
        self.required_chunks = collect_set(&all_below(n));
        self.chunks_expected = n;
    }

    /// Determines the chunks that the current version needs.
    pub fn set_required_chunks(&mut self)
        ensures
            final(self)@ == with_required(old(self)@),
    {
        let required = match &self.current_version {
            None => {
                return;
            },
            Some(version) => if self.previous_version.is_some() {
                collect_set(&version.changed_chunks)
            } else {
                collect_set(&all_below(version.metadata.total_chunks))
            },
        };
        self.chunks_expected = required.len();
        self.required_chunks = required;
    }

    /// Whether all required chunks came.
    pub fn is_transfer_complete(&self) -> (r: bool)
        ensures
            r == transfer_complete(self@),
    {
        let (count, n) = self.progress();
        n > 0 && count == n
    }

    /// Whether a chunk came.
    pub fn has_chunk(&self, index: usize) -> (r: bool)
        ensures
            r == self@.received_chunks.dom().contains(index),
    {
        assert(self@.received_chunks.dom() =~= self.received_chunks@.dom());
        self.received_chunks.contains_key(&index)
    }

    /// How many chunks came.
    pub fn received_count(&self) -> (r: usize)
        ensures
            r == self@.received_chunks.len(),
    {
        assert(self@.received_chunks.dom() =~= self.received_chunks@.dom());
        self.received_chunks.len()
    }
}

} // verus!
