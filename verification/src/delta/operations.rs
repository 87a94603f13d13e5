//! Chunks that come, and files that are put together from old and new chunks.
use crate::collections::{with_element, without_element, Key};
use crate::delta::chunk::{
    changes, chunk_changed, chunk_data, chunk_file, chunk_views, chunks_of, hashes_of,
    law_changes_are_exact, law_chunk_data_make_up_the_file, lemma_changes, named_metadata, Chunk,
};
use crate::delta::metadata::FileVersionView;
use crate::delta::transfer::{
    all_chunks, law_complete_means_all_came, lemma_all_chunks, lemma_number_set, needed_chunks,
    transfer_complete, FileTransferState, FileTransferStateView,
};
use crate::error::{Error, ErrorView};
use crate::paths::{
    file_name, has_file_name, is_below, join_path, joined, last_component, remainder,
    rest_of_path, set_file_name, stays_below, with_file_name,
};
use crate::primitives::{blake3_digest, blake3_hash};
use crate::text::{
    concat2, ends_with, from_chars, owned, starts_with, text_ends_with, text_starts_with,
    to_chars,
};
use crate::vault::{concatenation, hash_strings};
use vstd::prelude::*;

verus! {

/// A file that is to be written beside its place and then moved there.
#[derive(Debug)]
pub struct Rebuilt {
    pub path: String,
    pub temp_path: String,
    pub data: Vec<u8>,
}

/// What a `Rebuilt` holds.
#[verifier::ext_equal]
pub ghost struct RebuiltView {
    pub path: Seq<char>,
    pub temp_path: Seq<char>,
    pub data: Seq<u8>,
}

impl View for Rebuilt {
    type V = RebuiltView;

    open spec fn view(&self) -> RebuiltView {
        RebuiltView {
            path: self.path@,
            temp_path: self.temp_path@,
            data: self.data@,
        }
    }
}

/// A file is listed to peers unless it is hidden or temporary.
pub open spec fn is_listed(rel: Seq<char>) -> bool {
    !starts_with(rel, "."@) && !ends_with(rel, ".tmp"@)
}

/// Whether a file is listed to peers.
pub fn list_name(rel: &str) -> (r: bool)
    ensures
        r == is_listed(rel@),
{
    !text_starts_with(rel, ".") && !text_ends_with(rel, ".tmp")
}

/// A name leads to something inside the folder, by its normal form.
pub open spec fn is_safe_name(root: Seq<char>, name: Seq<char>) -> bool {
    stays_below(root, joined(root, name))
}

/// Whether a name leads to something inside the folder, by its normal form.
pub fn safe_name(root: &str, name: &str) -> (r: bool)
    ensures
        r == is_safe_name(root@, name@),
{
    is_below(root, join_path(root, name).as_str())
}

/// Whether a path is inside the folder.
pub fn is_inside(root: &str, canonical: &str) -> (r: bool)
    ensures
        r == remainder(root@, canonical@) is Some,
{
    rest_of_path(root, canonical).is_some()
}

/// Whether a chunk has the hash that it should have.
pub fn verify_chunk(data: &[u8], expected_hash: &[u8; 32]) -> (r: bool)
    ensures
        r == (blake3_digest(data@) == expected_hash@),
{
    blake3_hash(data).same(expected_hash)
}

/// Whether a file is to be deleted: it is, if it is there, unless it is outside
/// the folder. `canonical` is its full path, if it is there.
pub fn delete_file(sync_path: &str, canonical: Option<&str>) -> (r: Result<bool, Error>)
    ensures
        match canonical {
            None => r matches Ok(delete) && !delete,
            Some(path) => if remainder(sync_path@, path@) is Some {
                r matches Ok(delete) && delete
            } else {
                r matches Err(error) && error@ == ErrorView::InvalidFilePath
            },
        },
{
    match canonical {
        None => Ok(false),
        Some(path) => if is_inside(sync_path, path) {
            Ok(true)
        } else {
            Err(Error::InvalidFilePath)
        },
    }
}

/// The hash that the metadata gives for a chunk.
pub open spec fn expected_hash(ts: FileTransferStateView, index: usize) -> Option<Seq<u8>> {
    match ts.metadata {
        None => None,
        Some(m) => if index < m.chunk_hashes.len() {
            Some(m.chunk_hashes[index as int])
        } else {
            None
        },
    }
}

/// A chunk is accepted if it has the hash that the metadata gives for it. Without a
/// hash nothing is accepted.
pub open spec fn acceptable(ts: FileTransferStateView, index: usize, data: Seq<u8>) -> bool {
    match expected_hash(ts, index) {
        Some(h) => blake3_digest(data) == h,
        None => false,
    }
}

/// The transfer after a chunk came: it is kept if it is acceptable, else noted as
/// failed.
pub open spec fn chunk_processed(
    ts: FileTransferStateView,
    index: usize,
    data: Seq<u8>,
) -> FileTransferStateView {
    let ts1 = FileTransferStateView {
        chunks_in_flight: if ts.chunks_in_flight > 0 {
            (ts.chunks_in_flight - 1) as usize
        } else {
            0
        },
        ..ts
    };
    if acceptable(ts, index, data) {
        FileTransferStateView {
            failed_chunks: without_element(ts.failed_chunks, index),
            received_chunks: ts.received_chunks.insert(index, data),
            ..ts1
        }
    } else {
        FileTransferStateView { failed_chunks: with_element(ts.failed_chunks, index), ..ts1 }
    }
}

/// Only acceptable chunks are kept, and what was kept stays.
pub proof fn law_only_acceptable_chunks_are_kept(
    ts: FileTransferStateView,
    index: usize,
    data: Seq<u8>,
)
    ensures
        acceptable(ts, index, data) ==> chunk_processed(ts, index, data).received_chunks
            == ts.received_chunks.insert(index, data),
        !acceptable(ts, index, data) ==> chunk_processed(ts, index, data).received_chunks
            == ts.received_chunks,
{
}

/// Every chunk that came has the hash that it should have.
pub open spec fn all_accepted(ts: FileTransferStateView) -> bool {
    forall|i: usize|
        #[trigger] ts.received_chunks.dom().contains(i) ==> acceptable(
            ts,
            i,
            ts.received_chunks[i],
        )
}

/// A chunk that comes leaves every chunk with its hash, and what is needed as it was.
pub proof fn law_chunks_stay_accepted(ts: FileTransferStateView, index: usize, data: Seq<u8>)
    requires
        all_accepted(ts),
    ensures
        all_accepted(chunk_processed(ts, index, data)),
        chunk_processed(ts, index, data).required_chunks == ts.required_chunks,
        chunk_processed(ts, index, data).metadata == ts.metadata,
        chunk_processed(ts, index, data).current_version == ts.current_version,
{
    let t = chunk_processed(ts, index, data);
    assert forall|i: usize| #[trigger] t.received_chunks.dom().contains(i) implies acceptable(
        t,
        i,
        t.received_chunks[i],
    ) by {
        assert(expected_hash(t, i) == expected_hash(ts, i));
        if ts.received_chunks.dom().contains(i) {
            assert(acceptable(ts, i, ts.received_chunks[i]));
        }
    }
}

/// Takes a chunk into a transfer. The result is whether the file can now be put
/// together.
pub fn process_received_chunk(
    chunk_index: usize,
    data: Vec<u8>,
    transfer_state: &mut FileTransferState,
) -> (r: bool)
    ensures
        final(transfer_state)@ == chunk_processed(old(transfer_state)@, chunk_index, data@),
        r == (acceptable(old(transfer_state)@, chunk_index, data@) && transfer_complete(
            final(transfer_state)@,
        )),
{
    if transfer_state.chunks_in_flight > 0 {
        transfer_state.chunks_in_flight = transfer_state.chunks_in_flight - 1;
    }
    let expected = match &transfer_state.metadata {
        None => None,
        Some(m) => if chunk_index < m.chunk_hashes.len() {
            assert(hash_strings(m.chunk_hashes@)[chunk_index as int]
                == m.chunk_hashes@[chunk_index as int]@);
            Some(m.chunk_hashes[chunk_index])
        } else {
            None
        },
    };
    let verified = match expected {
        Some(h) => verify_chunk(data.as_slice(), &h),
        None => false,
    };
    if !verified {
        transfer_state.failed_chunks.insert(chunk_index);
        return false;
    }
    transfer_state.failed_chunks.remove(&chunk_index);
    let ghost bytes = data@;
    transfer_state.received_chunks.insert(chunk_index, data);
    assert(transfer_state@.received_chunks =~= old(transfer_state)@.received_chunks.insert(
        chunk_index,
        bytes,
    ));
    transfer_state.is_transfer_complete()
}

/// Only part of the chunks is transferred, so that the file on disk is needed.
pub open spec fn is_partial(ts: FileTransferStateView) -> bool {
    match ts.metadata {
        None => false,
        Some(m) => 0 < ts.required_chunks.len() < m.total_chunks,
    }
}

/// Whether the file on disk is needed to put a transfer together.
pub fn needs_existing(ts: &FileTransferState) -> (r: bool)
    ensures
        r == is_partial(ts@),
{
    match &ts.metadata {
        None => false,
        Some(m) => ts.required_chunks.len() > 0 && ts.required_chunks.len() < m.total_chunks,
    }
}

/// The chunk at `i` of the new file: the one that came, else the one on disk.
pub open spec fn blended_chunk(
    received: Map<usize, Seq<u8>>,
    existing: Option<Seq<Seq<u8>>>,
    i: usize,
) -> Result<Seq<u8>, ErrorView> {
    if received.dom().contains(i) {
        Ok(received[i])
    } else {
        match existing {
            Some(chunks) => if i < chunks.len() {
                Ok(chunks[i as int])
            } else {
                Err(ErrorView::LostBlendChunk { index: i as nat })
            },
            None => Err(ErrorView::LostDeltaChunk { index: i as nat }),
        }
    }
}

/// The first `n` chunks of the new file, or the first that is missing.
pub open spec fn blended(
    received: Map<usize, Seq<u8>>,
    existing: Option<Seq<Seq<u8>>>,
    n: nat,
) -> Result<Seq<u8>, ErrorView>
    decreases n,
{
    if n == 0 {
        Ok(Seq::empty())
    } else {
        match blended(received, existing, (n - 1) as nat) {
            Err(e) => Err(e),
            Ok(before) => match blended_chunk(received, existing, (n - 1) as usize) {
                Err(e) => Err(e),
                Ok(c) => Ok(before + c),
            },
        }
    }
}

proof fn lemma_blend_fails(
    received: Map<usize, Seq<u8>>,
    existing: Option<Seq<Seq<u8>>>,
    i: nat,
    n: nat,
)
    requires
        i <= n,
        blended(received, existing, i) is Err,
    ensures
        blended(received, existing, n) == blended(received, existing, i),
    decreases n,
{
    if i < n {
        lemma_blend_fails(received, existing, i, (n - 1) as nat);
    }
}

proof fn lemma_blend_gives(
    received: Map<usize, Seq<u8>>,
    existing: Option<Seq<Seq<u8>>>,
    chunks: Seq<Seq<u8>>,
    n: nat,
)
    requires
        n <= chunks.len() <= usize::MAX,
        forall|i: usize|
            i < chunks.len() ==> #[trigger] blended_chunk(received, existing, i) == Ok::<
                Seq<u8>,
                ErrorView,
            >(chunks[i as int]),
    ensures
        blended(received, existing, n) == Ok::<Seq<u8>, ErrorView>(
            concatenation(chunks.take(n as int)),
        ),
    decreases n,
{
    if n == 0 {
        assert(chunks.take(0) =~= Seq::empty());
    } else {
        lemma_blend_gives(received, existing, chunks, (n - 1) as nat);
        assert(chunks.take(n as int).drop_last() =~= chunks.take(n - 1));
        assert(blended_chunk(received, existing, (n - 1) as usize) == Ok::<Seq<u8>, ErrorView>(
            chunks[n - 1],
        ));
    }
}

/// A file is rebuilt from the old one on disk and the changed chunks alone,
/// provided that no two different chunks in one place have the same hash.
pub proof fn law_delta_rebuilds_the_file(
    old_data: Seq<u8>,
    new_data: Seq<u8>,
    received: Map<usize, Seq<u8>>,
)
    requires
        chunk_data(new_data).len() <= usize::MAX,
        forall|i: usize|
            #[trigger] changes(hashes_of(old_data), hashes_of(new_data)).contains(i)
                ==> received.dom().contains(i),
        forall|i: usize|
            #[trigger] received.dom().contains(i) && i < chunk_data(new_data).len() ==> received[i]
                == chunk_data(new_data)[i as int],
        forall|i: int|
            0 <= i < chunk_data(old_data).len() && i < chunk_data(new_data).len()
                && blake3_digest(#[trigger] chunk_data(old_data)[i]) == blake3_digest(
                chunk_data(new_data)[i],
            ) ==> chunk_data(old_data)[i] == chunk_data(new_data)[i],
    ensures
        blended(received, Some(chunk_data(old_data)), chunk_data(new_data).len()) == Ok::<
            Seq<u8>,
            ErrorView,
        >(new_data),
{
    let olds = chunk_data(old_data);
    let news = chunk_data(new_data);
    law_changes_are_exact(hashes_of(old_data), hashes_of(new_data), news.len());
    assert forall|i: usize| i < news.len() implies #[trigger] blended_chunk(
        received,
        Some(olds),
        i,
    ) == Ok::<Seq<u8>, ErrorView>(news[i as int]) by {
        if !received.dom().contains(i) {
            assert(!changes(hashes_of(old_data), hashes_of(new_data)).contains(i));
            assert(!chunk_changed(hashes_of(old_data), hashes_of(new_data), i as int));
            assert(blake3_digest(olds[i as int]) == blake3_digest(news[i as int]));
        }
    }
    lemma_blend_gives(received, Some(olds), news, news.len());
    assert(news.take(news.len() as int) =~= news);
    law_chunk_data_make_up_the_file(new_data);
}

/// The chunks on disk that a transfer may use.
pub open spec fn usable(ts: FileTransferStateView, existing: Option<Seq<u8>>) -> Option<
    Seq<Seq<u8>>,
> {
    if is_partial(ts) {
        match existing {
            Some(data) => Some(chunk_data(data)),
            None => None,
        }
    } else {
        None
    }
}

/// Where the last dot of a name stands, if it is not its first character.
pub open spec fn stem_len(name: Seq<char>, n: nat) -> nat
    decreases n,
{
    if n <= 1 {
        name.len()
    } else if name[n - 1] == '.' {
        (n - 1) as nat
    } else {
        stem_len(name, (n - 1) as nat)
    }
}

/// The path with the extension of temporary files.
pub open spec fn temporary(path: Seq<char>) -> Seq<char> {
    if has_file_name(path) {
        let name = last_component(path);
        with_file_name(path, name.take(stem_len(name, name.len()) as int) + ".tmp"@)
    } else {
        path
    }
}

/// The path with the extension of temporary files.
pub fn temp_path(path: &str) -> (r: String)
    ensures
        r@ == temporary(path@),
{
    let name = match file_name(path) {
        Some(n) => n,
        None => {
            return owned(path);
        },
    };
    let chars = to_chars(name.as_str());
    let mut n: usize = chars.len();
    while n > 1 && chars[n - 1] != '.'
        invariant
            chars@ == name@,
            n <= chars@.len(),
            stem_len(name@, n as nat) == stem_len(name@, name@.len()),
        decreases n,
    {
        n = n - 1;
    }
    let end: usize = if n > 1 {
        n - 1
    } else {
        chars.len()
    };
    let stem = from_chars(&chars, 0, end);
    assert(stem@ =~= name@.take(stem_len(name@, name@.len()) as int));
    set_file_name(path, concat2(stem.as_str(), ".tmp").as_str())
}

/// The content is the one that was announced, where a version was announced.
pub open spec fn as_announced(ts: FileTransferStateView, data: Seq<u8>) -> bool {
    ts.current_version matches Some(v) ==> blake3_digest(data) == v.file_hash
}

/// What a transfer is put together to, or why it is not.
pub open spec fn rebuilt(ts: FileTransferStateView, existing: Option<Seq<u8>>) -> Result<
    RebuiltView,
    ErrorView,
> {
    match ts.metadata {
        None => Err(ErrorView::NoMetadataAvailable),
        Some(m) => if !is_safe_name(ts.file_path, m.file_name) {
            Err(ErrorView::InvalidFilePath)
        } else {
            match blended(ts.received_chunks, usable(ts, existing), m.total_chunks as nat) {
                Err(e) => Err(e),
                Ok(data) => if as_announced(ts, data) {
                    Ok(
                        RebuiltView {
                            path: joined(ts.file_path, m.file_name),
                            temp_path: temporary(joined(ts.file_path, m.file_name)),
                            data,
                        },
                    )
                } else {
                    Err(ErrorView::WrongFileHash { name: m.file_name })
                },
            }
        },
    }
}

/// A file that is put together is the one that was announced, whatever was on disk.
pub proof fn law_transfer_leaves_the_announced_file(
    ts: FileTransferStateView,
    existing: Option<Seq<u8>>,
)
    ensures
        rebuilt(ts, existing) matches Ok(f) ==> (ts.current_version matches Some(v)
            ==> blake3_digest(f.data) == v.file_hash),
{
}

/// No file is put together outside the folder.
pub proof fn law_nothing_is_rebuilt_outside(
    ts: FileTransferStateView,
    existing: Option<Seq<u8>>,
)
    ensures
        rebuilt(ts, existing) matches Ok(f) ==> (ts.metadata matches Some(m) && is_safe_name(
            ts.file_path,
            m.file_name,
        ) && f.path == joined(ts.file_path, m.file_name)),
{
}

/// A transfer brings the file `data`, as its version announced it, if it has one. All
/// chunks that came were accepted, all that are needed came, and no two different
/// chunks in one place have the same hash.
pub open spec fn brings(ts: FileTransferStateView, name: Seq<char>, data: Seq<u8>) -> bool {
    &&& chunk_data(data).len() <= usize::MAX
    &&& is_safe_name(ts.file_path, name)
    &&& ts.metadata == Some(named_metadata(name, data))
    &&& ts.current_version matches Some(v) ==> v.file_hash == blake3_digest(data)
    &&& all_accepted(ts)
    &&& transfer_complete(ts)
    &&& forall|i: usize|
        #[trigger] ts.received_chunks.dom().contains(i) && i < chunk_data(data).len()
            && blake3_digest(ts.received_chunks[i]) == blake3_digest(chunk_data(data)[i as int])
            ==> ts.received_chunks[i] == chunk_data(data)[i as int]
}

proof fn lemma_received(ts: FileTransferStateView, name: Seq<char>, data: Seq<u8>)
    requires
        brings(ts, name, data),
    ensures
        forall|i: usize| #[trigger]
            ts.received_chunks.dom().contains(i) && i < chunk_data(data).len()
                ==> ts.received_chunks[i] == chunk_data(data)[i as int],
{
    let received = ts.received_chunks;
    let news = chunk_data(data);
    assert forall|i: usize| #[trigger] received.dom().contains(i) && i < news.len() implies
        received[i] == news[i as int] by {
        assert(acceptable(ts, i, received[i]));
        assert(expected_hash(ts, i) == Some(hashes_of(data)[i as int]));
    }
}

/// A transfer for which all chunks are needed leaves the file, whatever is on disk.
pub proof fn law_all_chunks_make_the_new_file(
    ts: FileTransferStateView,
    name: Seq<char>,
    data: Seq<u8>,
    existing: Option<Seq<u8>>,
)
    requires
        brings(ts, name, data),
        ts.required_chunks == all_chunks(chunk_data(data).len()),
    ensures
        rebuilt(ts, existing) matches Ok(f) && f.data == data && f.path == joined(
            ts.file_path,
            name,
        ),
{
    let news = chunk_data(data);
    let received = ts.received_chunks;
    lemma_all_chunks(news.len());
    law_complete_means_all_came(ts);
    lemma_received(ts, name, data);
    assert forall|i: usize| i < news.len() implies #[trigger] blended_chunk(
        received,
        usable(ts, existing),
        i,
    ) == Ok::<Seq<u8>, ErrorView>(news[i as int]) by {
        assert(received.dom().contains(ts.required_chunks[i as int]));
    }
    lemma_blend_gives(received, usable(ts, existing), news, news.len());
    assert(news.take(news.len() as int) =~= news);
    law_chunk_data_make_up_the_file(data);
}

/// A transfer of which the version before is here needs only the chunks that changed
/// since. Once they came, the new file is put together from them and the old one,
/// provided that no two different chunks in one place have the same hash.
pub proof fn law_changed_chunks_make_the_new_file(
    ts: FileTransferStateView,
    version: FileVersionView,
    previous: FileVersionView,
    name: Seq<char>,
    old_data: Seq<u8>,
    new_data: Seq<u8>,
)
    requires
        brings(ts, name, new_data),
        version.changed_chunks == changes(hashes_of(old_data), hashes_of(new_data)),
        ts.required_chunks == needed_chunks(version, Some(previous)),
        forall|i: int|
            0 <= i < chunk_data(old_data).len() && i < chunk_data(new_data).len()
                && blake3_digest(#[trigger] chunk_data(old_data)[i]) == blake3_digest(
                chunk_data(new_data)[i],
            ) ==> chunk_data(old_data)[i] == chunk_data(new_data)[i],
    ensures
        rebuilt(ts, Some(old_data)) matches Ok(f) && f.data == new_data && f.path == joined(
            ts.file_path,
            name,
        ),
{
    let news = chunk_data(new_data);
    let changed = changes(hashes_of(old_data), hashes_of(new_data));
    let received = ts.received_chunks;
    lemma_changes(hashes_of(old_data), hashes_of(new_data), news.len());
    assert forall|i: int, j: int|
        0 <= i < changed.len() && 0 <= j < changed.len() && i != j implies changed[i]
        != changed[j] by {
        if i < j {
            assert(changed[i] < changed[j]);
        } else {
            assert(changed[j] < changed[i]);
        }
    }
    lemma_number_set(changed, changed.len());
    assert(changed.take(changed.len() as int) =~= changed);
    assert(ts.required_chunks == changed);
    law_complete_means_all_came(ts);
    assert forall|i: usize| #[trigger] changed.contains(i) implies received.dom().contains(i) by {
        let w = choose|w: int| 0 <= w < changed.len() && changed[w] == i;
        assert(received.dom().contains(ts.required_chunks[w]));
    }
    lemma_received(ts, name, new_data);
    law_delta_rebuilds_the_file(old_data, new_data, received);
    if !is_partial(ts) {
        assert(changed.len() == news.len());
        law_changes_are_exact(hashes_of(old_data), hashes_of(new_data), news.len());
        assert forall|i: usize| i < news.len() implies #[trigger] blended_chunk(
            received,
            None,
            i,
        ) == Ok::<Seq<u8>, ErrorView>(news[i as int]) by {
            assert(chunk_changed(hashes_of(old_data), hashes_of(new_data), i as int));
            assert(changed.contains(i));
        }
        lemma_blend_gives(received, None, news, news.len());
        assert(news.take(news.len() as int) =~= news);
        law_chunk_data_make_up_the_file(new_data);
    }
}

/// The bytes of a file that was read, or not.
pub open spec fn opt_slice(data: Option<&Vec<u8>>) -> Option<Seq<u8>> {
    match data {
        Some(d) => Some(d@),
        None => None,
    }
}

fn existing_chunks(ts: &FileTransferState, existing: Option<&Vec<u8>>) -> (r: Option<Vec<Chunk>>)
    ensures
        match r {
            Some(chunks) => usable(ts@, opt_slice(existing)) matches Some(all) && all.len()
                == chunks@.len() && forall|i: int|
                0 <= i < chunks@.len() ==> (#[trigger] chunks@[i]).data@ == all[i],
            None => usable(ts@, opt_slice(existing)) is None,
        },
{
    if !needs_existing(ts) {
        return None;
    }
    match existing {
        Some(data) => {
            let (chunks, _) = chunk_file("", data.as_slice());
            proof {
                assert(chunk_views(chunks@).len() == chunks_of(data@).len());
                assert forall|i: int| 0 <= i < chunks@.len() implies (#[trigger] chunks@[i]).data@
                    == chunk_data(data@)[i] by {
                    assert(chunk_views(chunks@)[i] == chunks@[i]@);
                    assert(chunks_of(data@)[i].data == chunk_data(data@)[i]);
                }
            }
            Some(chunks)
        },
        None => None,
    }
}

/// Puts a transfer together, with the file on disk where only part of it was
/// transferred.
pub fn reassemble_file(transfer_state: &FileTransferState, existing: Option<&Vec<u8>>) -> (r: Result<
    Rebuilt,
    Error,
>)
    ensures
        match r {
            Ok(f) => rebuilt(transfer_state@, opt_slice(existing)) == Ok::<RebuiltView, ErrorView>(
                f@,
            ),
            Err(e) => rebuilt(transfer_state@, opt_slice(existing)) == Err::<
                RebuiltView,
                ErrorView,
            >(e@),
        },
{
    let ts = transfer_state;
    let meta = match &ts.metadata {
        None => {
            return Err(Error::NoMetadataAvailable);
        },
        Some(m) => m,
    };
    if !safe_name(ts.file_path.as_str(), meta.file_name.as_str()) {
        return Err(Error::InvalidFilePath);
    }
    let on_disk = existing_chunks(ts, existing);
    let ghost disk = usable(ts@, opt_slice(existing));
    let mut data: Vec<u8> = Vec::new();
    let mut i: usize = 0;
    assert(ts@.received_chunks.dom() =~= ts.received_chunks@.dom());
    while i < meta.total_chunks
        invariant
            ts == transfer_state,
            ts@.metadata == Some(meta@),
            is_safe_name(ts@.file_path, meta@.file_name),
            disk == usable(ts@, opt_slice(existing)),
            ts@.received_chunks.dom() == ts.received_chunks@.dom(),
            match on_disk {
                Some(chunks) => disk matches Some(all) && all.len() == chunks@.len()
                    && forall|j: int|
                    0 <= j < chunks@.len() ==> (#[trigger] chunks@[j]).data@ == all[j],
                None => disk is None,
            },
            i <= meta.total_chunks,
            blended(ts@.received_chunks, disk, i as nat) == Ok::<Seq<u8>, ErrorView>(data@),
        decreases meta.total_chunks - i,
    {
        let ghost before = data@;
        let ghost next = (i + 1) as nat;
        let ghost total = meta.total_chunks as nat;
        match ts.received_chunks.get(&i) {
            Some(chunk) => {
                data.extend_from_slice(chunk.as_slice());
                assert(data@ =~= before + chunk@);
            },
            None => match &on_disk {
                Some(chunks) => {
                    if i < chunks.len() {
                        data.extend_from_slice(chunks[i].data.as_slice());
                        assert(data@ =~= before + chunks@[i as int].data@);
                    } else {
                        proof {
                            lemma_blend_fails(ts@.received_chunks, disk, next, total);
                        }
                        return Err(Error::LostBlendChunk { index: i });
                    }
                },
                None => {
                    proof {
                        lemma_blend_fails(ts@.received_chunks, disk, next, total);
                    }
                    return Err(Error::LostDeltaChunk { index: i });
                },
            },
        }
        i = i + 1;
    }
    if let Some(v) = &ts.current_version {
        if !verify_chunk(data.as_slice(), &v.file_hash) {
            return Err(Error::WrongFileHash { name: meta.file_name.clone() });
        }
    }
    let path = join_path(ts.file_path.as_str(), meta.file_name.as_str());
    let temp = temp_path(path.as_str());
    Ok(Rebuilt { path, temp_path: temp, data })
}

} // verus!
