//! The download scheduler.
//!
//! Files that a peer offers wait in a queue. At most `MAX_CONCURRENT_FILES` are
//! transferred at a time, each with at most `WINDOW` requests when it starts;
//! one further request follows every chunk that comes. A file that has been
//! silent for too long has its missing chunks asked for again.
use crate::collections::{distinct, has_key, law_put, lemma_position, lookup, position, put, Assoc};
use crate::error::Error;
use crate::gui::types::{GuiEvent, GuiEventView};
use crate::network::{SyncMessage, SyncMessageView};
use crate::peer::PeerId;
use crate::storage::{
    copy_hashes, law_missing_chunks, missing_below, opt_id, transfer_total, FileMetadata,
    FileMetadataView, FileTransferState, FileTransferStateView, PendingFile, PendingFileView,
};
use crate::sync::effect::{asked, logged, told, EffectView, Outbox};
use crate::text::{
    concat2, concat4, concat5, concat7, concat8, decimal, decimal_text, opt_text, owned, same_text,
};
use crate::transfer::{
    assembles, reassemble, ChunkPlace, ChunkPlaceView, WriteOrder,
};
use std::collections::VecDeque;
use vstd::prelude::*;

verus! {

/// Requests in flight for a file that starts.
pub const WINDOW: usize = 4;

/// How many files are transferred at the same time.
pub const MAX_CONCURRENT_FILES: usize = 3;

/// How long a file may be silent, in nanoseconds: twenty seconds.
pub const STALL_NANOS: u64 = 20000000000;

/// What is downloaded from one peer.
pub struct PeerDownload {
    /// The transfers under way, by file name.
    pub active: Assoc<String, FileTransferState>,
    /// The files that wait.
    pub queue: VecDeque<PendingFile>,
}

/// What a `PeerDownload` holds.
#[verifier::ext_equal]
pub ghost struct PeerDownloadView {
    pub active: Seq<(Seq<char>, FileTransferStateView)>,
    pub queue: Seq<PendingFileView>,
}

impl View for PeerDownload {
    type V = PeerDownloadView;

    open spec fn view(&self) -> PeerDownloadView {
        PeerDownloadView {
            active: self.active@,
            queue: self.queue@.map_values(|p: PendingFile| p@),
        }
    }
}

/// Nothing is downloaded.
pub open spec fn no_download() -> PeerDownloadView {
    PeerDownloadView { active: Seq::empty(), queue: Seq::empty() }
}

impl PeerDownload {
    pub fn new() -> (r: Self)
        ensures
            r@ == no_download(),
    {
        let r = PeerDownload { active: Assoc::new(), queue: VecDeque::new() };
        assert(r@.queue =~= Seq::empty());
        r
    }
}

/// A file of this name waits.
pub open spec fn queued(queue: Seq<PendingFileView>, name: Seq<char>) -> bool {
    exists|i: int| 0 <= i < queue.len() && (#[trigger] queue[i]).file_name == name
}

/// The scheduler's invariant: few files are active, none twice, and a file waits
/// at most once and not while it is active.
pub open spec fn download_ok(dl: PeerDownloadView) -> bool {
    &&& dl.active.len() <= MAX_CONCURRENT_FILES
    &&& distinct(dl.active)
    &&& forall|i: int, j: int|
        #![trigger dl.queue[i], dl.queue[j]]
        0 <= i < j < dl.queue.len() ==> dl.queue[i].file_name != dl.queue[j].file_name
    &&& forall|i: int|
        0 <= i < dl.queue.len() ==> !has_key(dl.active, (#[trigger] dl.queue[i]).file_name)
}

/// An offered file is wanted: it is not on disk, not active, and does not wait.
pub open spec fn wanted(dl: PeerDownloadView, name: Seq<char>, on_disk: bool) -> bool {
    !on_disk && !has_key(dl.active, name) && !queued(dl.queue, name)
}

/// The download with the first `n` offered files queued, as far as they are
/// wanted.
pub open spec fn with_offers(
    dl: PeerDownloadView,
    offers: Seq<PendingFileView>,
    on_disk: Seq<bool>,
    n: nat,
) -> PeerDownloadView
    decreases n,
{
    if n == 0 {
        dl
    } else {
        let before = with_offers(dl, offers, on_disk, (n - 1) as nat);
        if wanted(before, offers[n - 1].file_name, on_disk[n - 1]) {
            PeerDownloadView { queue: before.queue.push(offers[n - 1]), ..before }
        } else {
            before
        }
    }
}

/// Queueing offers keeps the scheduler's invariant and starts nothing.
pub proof fn law_offers_keep_order(
    dl: PeerDownloadView,
    offers: Seq<PendingFileView>,
    on_disk: Seq<bool>,
    n: nat,
)
    requires
        download_ok(dl),
        n <= offers.len(),
    ensures
        download_ok(with_offers(dl, offers, on_disk, n)),
        with_offers(dl, offers, on_disk, n).active == dl.active,
        dl.queue.is_prefix_of(with_offers(dl, offers, on_disk, n).queue),
    decreases n,
{
    if n > 0 {
        law_offers_keep_order(dl, offers, on_disk, (n - 1) as nat);
        let before = with_offers(dl, offers, on_disk, (n - 1) as nat);
        let now = with_offers(dl, offers, on_disk, n);
        if wanted(before, offers[n - 1].file_name, on_disk[n - 1]) {
            assert forall|i: int, j: int|
                #![trigger now.queue[i], now.queue[j]]
                0 <= i < j < now.queue.len() implies now.queue[i].file_name
                != now.queue[j].file_name by {
                assert(now.queue[i] == before.queue[i]);
                if j < before.queue.len() {
                    assert(now.queue[j] == before.queue[j]);
                } else {
                    assert(before.queue[i].file_name != offers[n - 1].file_name);
                }
            }
            assert forall|i: int| 0 <= i < now.queue.len() implies !has_key(
                now.active,
                (#[trigger] now.queue[i]).file_name,
            ) by {
                if i < before.queue.len() {
                    assert(now.queue[i] == before.queue[i]);
                }
            }
        }
    }
}

fn is_queued(queue: &VecDeque<PendingFile>, name: &String) -> (r: bool)
    ensures
        r == queued(queue@.map_values(|p: PendingFile| p@), name@),
{
    let ghost q = queue@.map_values(|p: PendingFile| p@);
    let mut i: usize = 0;
    while i < queue.len()
        invariant
            q == queue@.map_values(|p: PendingFile| p@),
            i <= queue@.len(),
            forall|j: int| 0 <= j < i ==> (#[trigger] q[j]).file_name != name@,
        decreases queue.len() - i,
    {
        assert(q[i as int].file_name == queue@[i as int].file_name@);
        if same_text(queue[i].file_name.as_str(), name.as_str()) {
            return true;
        }
        i = i + 1;
    }
    false
}

/// The views of a list of waiting files.
pub open spec fn pending_views(v: Seq<PendingFile>) -> Seq<PendingFileView> {
    v.map_values(|p: PendingFile| p@)
}

fn copy_pending(p: &PendingFile) -> (r: PendingFile)
    ensures
        r@ == p@,
{
    PendingFile {
        file_name: p.file_name.clone(),
        total_chunks: p.total_chunks,
        file_size: p.file_size,
        chunk_hashes: copy_hashes(&p.chunk_hashes),
        file_id: p.file_id,
    }
}

/// Queues the offered files that are wanted; the result is their number.
pub fn queue_offers(dl: &mut PeerDownload, offers: &Vec<PendingFile>, on_disk: &Vec<bool>) -> (r:
    usize)
    requires
        offers@.len() == on_disk@.len(),
    ensures
        final(dl)@ == with_offers(
            old(dl)@,
            pending_views(offers@),
            on_disk@,
            offers@.len(),
        ),
        r == final(dl)@.queue.len() - old(dl)@.queue.len(),
{
    let ghost all = pending_views(offers@);
    let mut count: usize = 0;
    let mut i: usize = 0;
    while i < offers.len()
        invariant
            all == pending_views(offers@),
            offers@.len() == on_disk@.len(),
            i <= offers@.len(),
            count <= i,
            dl@ == with_offers(old(dl)@, all, on_disk@, i as nat),
            count == dl@.queue.len() - old(dl)@.queue.len(),
        decreases offers.len() - i,
    {
        let offer = &offers[i];
        assert(all[i as int] == offer@);
        if !on_disk[i] && !dl.active.contains_key(&offer.file_name) && !is_queued(
            &dl.queue,
            &offer.file_name,
        ) {
            let ghost before = dl@;
            dl.queue.push_back(copy_pending(offer));
            count = count + 1;
            assert(dl@.queue =~= before.queue.push(offer@));
        }
        i = i + 1;
    }
    count
}

/// The next file may start: a transfer is free, and a file waits.
pub open spec fn may_start(dl: PeerDownloadView) -> bool {
    dl.active.len() < MAX_CONCURRENT_FILES && dl.queue.len() > 0
}

/// The download without the file that waited longest.
pub open spec fn dequeued(dl: PeerDownloadView) -> PeerDownloadView {
    PeerDownloadView { queue: dl.queue.drop_first(), ..dl }
}

/// Takes the file that waited longest from the queue, if a transfer is free.
pub fn next_queued(dl: &mut PeerDownload) -> (r: Option<PendingFile>)
    ensures
        match r {
            Some(pf) => {
                &&& may_start(old(dl)@)
                &&& pf@ == old(dl)@.queue[0]
                &&& final(dl)@ == dequeued(old(dl)@)
            },
            None => !may_start(old(dl)@) && final(dl)@ == old(dl)@,
        },
{
    if dl.active.len() >= MAX_CONCURRENT_FILES {
        return None;
    }
    let r = dl.queue.pop_front();
    proof {
        if r is Some {
            assert(dl@.queue =~= old(dl)@.queue.drop_first());
        } else {
            assert(dl@.queue =~= old(dl)@.queue);
        }
    }
    r
}

/// Tells of a waiting file that came onto the disk by other means.
pub fn skip_present(pf: &PendingFile, out: &mut Outbox)
    ensures
        final(out)@ == old(out)@.push(
            logged("INFO"@, pf@.file_name + " already on disk — skipping"@),
        ),
{
    out.log("INFO", concat2(pf.file_name.as_str(), " already on disk — skipping"));
}

/// The view of an optional place.
pub open spec fn opt_place(p: Option<ChunkPlace>) -> Option<ChunkPlaceView> {
    match p {
        Some(p) => Some(p@),
        None => None,
    }
}

/// The places on disk at which chunks of a waiting file are found. Hashes that
/// are blinded with a key are found nowhere.
pub open spec fn local_places(
    pf: PendingFileView,
    index: Seq<(Seq<u8>, ChunkPlaceView)>,
) -> Seq<Option<ChunkPlaceView>> {
    if pf.file_id is Some {
        Seq::empty()
    } else {
        pf.chunk_hashes.map_values(|h: Seq<u8>| lookup(index, h))
    }
}

/// Finds the chunks of a waiting file that are on disk already.
pub fn dedup_places(pf: &PendingFile, index: &Assoc<[u8; 32], ChunkPlace>) -> (r: Vec<
    Option<ChunkPlace>,
>)
    ensures
        r@.map_values(|p: Option<ChunkPlace>| opt_place(p)) == local_places(pf@, index@),
{
    let mut out: Vec<Option<ChunkPlace>> = Vec::new();
    if pf.file_id.is_some() {
        assert(out@.map_values(|p: Option<ChunkPlace>| opt_place(p)) =~= Seq::empty());
        return out;
    }
    let ghost want = local_places(pf@, index@);
    let mut i: usize = 0;
    while i < pf.chunk_hashes.len()
        invariant
            pf.file_id is None,
            want == local_places(pf@, index@),
            i <= pf.chunk_hashes@.len(),
            out@.map_values(|p: Option<ChunkPlace>| opt_place(p)) == want.take(i as int),
        decreases pf.chunk_hashes.len() - i,
    {
        let ghost before = out@.map_values(|p: Option<ChunkPlace>| opt_place(p));
        let found = match index.get(&pf.chunk_hashes[i]) {
            Some(p) => Some(
                ChunkPlace { file_name: p.file_name.clone(), chunk_index: p.chunk_index },
            ),
            None => None,
        };
        let ghost place = opt_place(found);
        out.push(found);
        i = i + 1;
        proof {
            assert(want[i - 1] == place);
            assert(out@.map_values(|p: Option<ChunkPlace>| opt_place(p)) =~= before.push(place));
            assert(want.take(i as int) =~= before.push(place));
        }
    }
    assert(want.take(i as int) =~= want);
    out
}

/// The view of optional bytes.
pub open spec fn opt_bytes(b: Option<Vec<u8>>) -> Option<Seq<u8>> {
    match b {
        Some(b) => Some(b@),
        None => None,
    }
}

/// The views of a list of optional bytes.
pub open spec fn opt_bytes_views(v: Seq<Option<Vec<u8>>>) -> Seq<Option<Seq<u8>>> {
    v.map_values(|b: Option<Vec<u8>>| opt_bytes(b))
}

/// The chunks among the first `n` that were found locally.
pub open spec fn local_map(local: Seq<Option<Seq<u8>>>, n: nat) -> Map<usize, Seq<u8>>
    decreases n,
{
    if n == 0 {
        Map::empty()
    } else {
        let before = local_map(local, (n - 1) as nat);
        match local[n - 1] {
            Some(b) => before.insert((n - 1) as usize, b),
            None => before,
        }
    }
}

/// How many of the first `n` chunks were found locally.
pub open spec fn local_hits(local: Seq<Option<Seq<u8>>>, n: nat) -> nat
    decreases n,
{
    if n == 0 {
        0
    } else {
        local_hits(local, (n - 1) as nat) + if local[n - 1] is Some {
            1nat
        } else {
            0nat
        }
    }
}

/// The request for a chunk: by the opaque id if the file has one, else by name.
pub open spec fn chunk_request(
    file_id: Option<Seq<u8>>,
    file_name: Seq<char>,
    index: usize,
) -> SyncMessageView {
    match file_id {
        Some(id) => SyncMessageView::EncryptedChunkRequest {
            file_id: id,
            chunk_index: index as u32,
        },
        None => SyncMessageView::ChunkRequest { file_name, chunk_index: index },
    }
}

/// A request for a chunk of a file with an opaque id does not depend on the name
/// of the file.
pub proof fn law_requests_by_id_hide_names(
    file_id: Seq<u8>,
    a: Seq<char>,
    b: Seq<char>,
    index: usize,
)
    ensures
        chunk_request(Some(file_id), a, index) == chunk_request(Some(file_id), b, index),
{
}

/// The request for a chunk.
pub fn make_chunk_request(file_id: Option<[u8; 16]>, file_name: &String, index: usize) -> (r:
    SyncMessage)
    ensures
        r@ == chunk_request(opt_id(file_id), file_name@, index),
{
    match file_id {
        Some(id) => SyncMessage::EncryptedChunkRequest { file_id: id, chunk_index: index as u32 },
        None => SyncMessage::ChunkRequest { file_name: file_name.clone(), chunk_index: index },
    }
}

/// The first `n` of these chunks are asked for.
pub open spec fn requested(
    peer: Seq<char>,
    file_id: Option<Seq<u8>>,
    file_name: Seq<char>,
    chunks: Seq<usize>,
    n: nat,
    out: Seq<EffectView>,
) -> Seq<EffectView>
    decreases n,
{
    if n == 0 {
        out
    } else {
        requested(peer, file_id, file_name, chunks, (n - 1) as nat, out).push(
            asked(peer, chunk_request(file_id, file_name, chunks[n - 1])),
        )
    }
}

fn request_chunks(
    peer: &PeerId,
    file_id: Option<[u8; 16]>,
    file_name: &String,
    chunks: &Vec<usize>,
    n: usize,
    out: &mut Outbox,
)
    requires
        n <= chunks@.len(),
    ensures
        final(out)@ == requested(
            peer@,
            opt_id(file_id),
            file_name@,
            chunks@,
            n as nat,
            old(out)@,
        ),
{
    let mut i: usize = 0;
    while i < n
        invariant
            i <= n <= chunks@.len(),
            out@ == requested(
                peer@,
                opt_id(file_id),
                file_name@,
                chunks@,
                i as nat,
                old(out)@,
            ),
        decreases n - i,
    {
        out.ask(peer, make_chunk_request(file_id, file_name, chunks[i]));
        i = i + 1;
    }
}

/// The smaller of a length and the window.
pub open spec fn windowed(n: nat) -> nat {
    if n < WINDOW {
        n
    } else {
        WINDOW as nat
    }
}

fn window(n: usize) -> (r: usize)
    ensures
        r == windowed(n as nat),
{
    if n < WINDOW {
        n
    } else {
        WINDOW
    }
}

/// The transfer of a file that starts with what was found locally.
pub open spec fn starting(
    pf: PendingFileView,
    local: Seq<Option<Seq<u8>>>,
    sync_path: Seq<char>,
    now: u64,
) -> FileTransferStateView {
    FileTransferStateView {
        metadata: Some(
            FileMetadataView {
                file_name: pf.file_name,
                total_chunks: pf.total_chunks,
                file_size: pf.file_size,
                chunk_hashes: pf.chunk_hashes,
                is_vault: false,
            },
        ),
        received_chunks: local_map(local, local.len()),
        sync_dir: sync_path,
        next_request: 0,
        last_activity: now,
        file_id: pf.file_id,
    }
}

/// The event that a transfer starts.
pub open spec fn transfer_started(peer: Seq<char>, pf: PendingFileView) -> EffectView {
    told(
        GuiEventView::TransferStarted {
            peer_id: peer,
            file_name: pf.file_name,
            total_chunks: pf.total_chunks,
            file_size: pf.file_size,
        },
    )
}

/// What is told of chunks that were found locally.
pub open spec fn hits_told(
    pf: PendingFileView,
    hits: nat,
    needed: nat,
    out: Seq<EffectView>,
) -> Seq<EffectView> {
    if hits > 0 {
        out.push(
            logged(
                "INFO"@,
                pf.file_name + " — "@ + decimal(hits) + "/"@ + decimal(pf.total_chunks as nat)
                    + " chunks from local cache, "@ + decimal(needed) + " to download"@,
            ),
        )
    } else {
        out
    }
}

/// A file starts: unless everything was found locally, it becomes active and
/// its first missing chunks are asked for.
pub open spec fn file_started(
    pf: PendingFileView,
    local: Seq<Option<Seq<u8>>>,
    sync_path: Seq<char>,
    peer: Seq<char>,
    now: u64,
    dl: PeerDownloadView,
    out: Seq<EffectView>,
) -> (PeerDownloadView, Seq<EffectView>) {
    let ts = starting(pf, local, sync_path, now);
    let needed = missing_below(ts.received_chunks, pf.total_chunks as nat);
    let out1 = hits_told(pf, local_hits(local, local.len()), needed.len(), out);
    if needed.len() == 0 {
        (
            dl,
            out1.push(
                logged("OK"@, pf.file_name + " — fully deduped, 0 bytes from network"@),
            ).push(transfer_started(peer, pf)),
        )
    } else {
        let count = windowed(needed.len());
        (
            PeerDownloadView {
                active: put(
                    dl.active,
                    pf.file_name,
                    FileTransferStateView {
                        next_request: if count < needed.len() {
                            needed[count as int]
                        } else {
                            pf.total_chunks
                        },
                        ..ts
                    },
                ),
                ..dl
            },
            requested(
                peer,
                pf.file_id,
                pf.file_name,
                needed,
                count,
                out1.push(
                    logged(
                        "INFO"@,
                        "⬇  "@ + pf.file_name + " — "@ + decimal(pf.total_chunks as nat)
                            + " chunks, "@ + decimal(pf.file_size as nat / 1024) + " KB"@,
                    ),
                ).push(transfer_started(peer, pf)),
            ),
        )
    }
}

/// How many of the effects are requests.
pub open spec fn request_count(out: Seq<EffectView>) -> nat
    decreases out.len(),
{
    if out.len() == 0 {
        0
    } else {
        request_count(out.drop_last()) + if out.last() is Request {
            1nat
        } else {
            0nat
        }
    }
}

/// What a new effect adds to the number of requests.
pub proof fn lemma_count_push(out: Seq<EffectView>, e: EffectView)
    ensures
        request_count(out.push(e)) == request_count(out) + if e is Request {
            1nat
        } else {
            0nat
        },
{
    assert(out.push(e).drop_last() =~= out);
}

proof fn lemma_count_requested(
    peer: Seq<char>,
    file_id: Option<Seq<u8>>,
    file_name: Seq<char>,
    chunks: Seq<usize>,
    n: nat,
    out: Seq<EffectView>,
)
    ensures
        request_count(requested(peer, file_id, file_name, chunks, n, out)) == request_count(out) + n,
    decreases n,
{
    if n > 0 {
        lemma_count_requested(peer, file_id, file_name, chunks, (n - 1) as nat, out);
        lemma_count_push(
            requested(peer, file_id, file_name, chunks, (n - 1) as nat, out),
            asked(peer, chunk_request(file_id, file_name, chunks[n - 1])),
        );
    }
}

/// Starting a file that was taken from the queue keeps the scheduler's
/// invariant and sends at most `WINDOW` requests.
pub proof fn law_start_keeps_bounds(
    dl: PeerDownloadView,
    local: Seq<Option<Seq<u8>>>,
    sync_path: Seq<char>,
    peer: Seq<char>,
    now: u64,
    out: Seq<EffectView>,
)
    requires
        download_ok(dl),
        may_start(dl),
    ensures
        download_ok(
            file_started(dl.queue[0], local, sync_path, peer, now, dequeued(dl), out).0,
        ),
        request_count(
            file_started(dl.queue[0], local, sync_path, peer, now, dequeued(dl), out).1,
        ) <= request_count(out) + WINDOW,
{
    let pf = dl.queue[0];
    let d = dequeued(dl);
    let (e, out2) = file_started(pf, local, sync_path, peer, now, d, out);
    let ts = starting(pf, local, sync_path, now);
    let needed = missing_below(ts.received_chunks, pf.total_chunks as nat);
    let hits = local_hits(local, local.len());
    let out1 = hits_told(pf, hits, needed.len(), out);
    let line = logged(
        "INFO"@,
        pf.file_name + " — "@ + decimal(hits) + "/"@ + decimal(pf.total_chunks as nat)
            + " chunks from local cache, "@ + decimal(needed.len()) + " to download"@,
    );
    lemma_count_push(out, line);
    assert(forall|i: int| 0 <= i < d.queue.len() ==> d.queue[i] == dl.queue[i + 1]);
    assert forall|i: int, j: int|
        #![trigger d.queue[i], d.queue[j]]
        0 <= i < j < d.queue.len() implies d.queue[i].file_name != d.queue[j].file_name by {
        assert(dl.queue[i + 1].file_name != dl.queue[j + 1].file_name);
    }
    assert forall|i: int| 0 <= i < d.queue.len() implies !has_key(
        d.active,
        (#[trigger] d.queue[i]).file_name,
    ) by {
        assert(!has_key(dl.active, dl.queue[i + 1].file_name));
    }
    if needed.len() == 0 {
        let full = logged("OK"@, pf.file_name + " — fully deduped, 0 bytes from network"@);
        lemma_count_push(out1, full);
        lemma_count_push(out1.push(full), transfer_started(peer, pf));
    } else {
        let count = windowed(needed.len());
        let down = logged(
            "INFO"@,
            "⬇  "@ + pf.file_name + " — "@ + decimal(pf.total_chunks as nat) + " chunks, "@
                + decimal(pf.file_size as nat / 1024) + " KB"@,
        );
        lemma_count_push(out1, down);
        lemma_count_push(out1.push(down), transfer_started(peer, pf));
        lemma_count_requested(
            peer,
            pf.file_id,
            pf.file_name,
            needed,
            count,
            out1.push(down).push(transfer_started(peer, pf)),
        );
        assert(!has_key(dl.active, dl.queue[0].file_name));
        let started = FileTransferStateView {
            next_request: if count < needed.len() {
                needed[count as int]
            } else {
                pf.total_chunks
            },
            ..ts
        };
        law_put(d.active, pf.file_name, started, pf.file_name);
        assert forall|i: int| 0 <= i < e.queue.len() implies !has_key(
            e.active,
            (#[trigger] e.queue[i]).file_name,
        ) by {
            assert(dl.queue[0].file_name != dl.queue[i + 1].file_name);
            law_put(d.active, pf.file_name, started, d.queue[i].file_name);
        }
    }
}

fn take_local(local: Vec<Option<Vec<u8>>>, ts: &mut FileTransferState) -> (hits: usize)
    requires
        old(ts)@.received_chunks == Map::<usize, Seq<u8>>::empty(),
    ensures
        final(ts)@ == (FileTransferStateView {
            received_chunks: local_map(opt_bytes_views(local@), local@.len()),
            ..old(ts)@
        }),
        hits == local_hits(opt_bytes_views(local@), local@.len()),
{
    let ghost all = opt_bytes_views(local@);
    let mut rest = local;
    let n: usize = rest.len();
    let mut reversed: Vec<Option<Vec<u8>>> = Vec::new();
    let mut k: usize = 0;
    while k < n
        invariant
            k <= n,
            n == all.len(),
            rest@.len() == n - k,
            reversed@.len() == k,
            opt_bytes_views(rest@) == all.take(n - k),
            forall|j: int|
                0 <= j < k ==> opt_bytes(#[trigger] reversed@[j]) == all[n - 1 - j],
        decreases n - k,
    {
        let ghost before = opt_bytes_views(rest@);
        let ghost last = rest@.last();
        match rest.pop() {
            Some(b) => {
                assert(before[n - k - 1] == opt_bytes(last));
                reversed.push(b);
            },
            None => {},
        }
        k = k + 1;
        assert(opt_bytes_views(rest@) =~= all.take(n - k));
    }
    let mut hits: usize = 0;
    let mut i: usize = 0;
    while i < n
        invariant
            i <= n,
            n == all.len(),
            hits <= i,
            reversed@.len() == n - i,
            forall|j: int|
                0 <= j < n - i ==> opt_bytes(#[trigger] reversed@[j]) == all[n - 1 - j],
            ts@ == (FileTransferStateView {
                received_chunks: local_map(all, i as nat),
                ..old(ts)@
            }),
            hits == local_hits(all, i as nat),
        decreases n - i,
    {
        assert(opt_bytes(reversed@[n - i - 1]) == all[i as int]);
        match reversed.pop() {
            Some(b) => {
                if let Some(bytes) = b {
                    ts.store_chunk(i, bytes);
                    hits = hits + 1;
                }
            },
            None => {},
        }
        i = i + 1;
    }
    hits
}

/// Starts a file with the chunks that were found locally. If those are all, the
/// file that is to be written is the result, or why it cannot be written.
pub fn start_file(
    pf: PendingFile,
    local: Vec<Option<Vec<u8>>>,
    sync_path: &str,
    peer: &PeerId,
    now: u64,
    dl: &mut PeerDownload,
    out: &mut Outbox,
) -> (r: Option<Result<WriteOrder, Error>>)
    ensures
        final(dl)@ == file_started(
            pf@,
            opt_bytes_views(local@),
            sync_path@,
            peer@,
            now,
            old(dl)@,
            old(out)@,
        ).0,
        final(out)@ == file_started(
            pf@,
            opt_bytes_views(local@),
            sync_path@,
            peer@,
            now,
            old(dl)@,
            old(out)@,
        ).1,
        ({
            let ts = starting(pf@, opt_bytes_views(local@), sync_path@, now);
            let all_found = missing_below(ts.received_chunks, pf@.total_chunks as nat).len() == 0;
            match r {
                None => !all_found,
                Some(Ok(order)) => all_found && assembles(order@, ts, false, None),
                Some(Err(e)) => false,
            }
        }),
{
    let mut ts = FileTransferState::new(owned(sync_path), now);
    ts.metadata = Some(
        FileMetadata {
            file_name: pf.file_name.clone(),
            total_chunks: pf.total_chunks,
            file_size: pf.file_size,
            chunk_hashes: copy_hashes(&pf.chunk_hashes),
            is_vault: false,
        },
    );
    ts.file_id = pf.file_id;
    let ghost views = opt_bytes_views(local@);
    let hits = take_local(local, &mut ts);
    assert(ts@ == starting(pf@, views, sync_path@, now));
    let needed = ts.missing_chunks();
    if hits > 0 {
        out.log(
            "INFO",
            concat8(
                pf.file_name.as_str(),
                " — ",
                decimal_text(hits as u64).as_str(),
                "/",
                decimal_text(pf.total_chunks as u64).as_str(),
                " chunks from local cache, ",
                decimal_text(needed.len() as u64).as_str(),
                " to download",
            ),
        );
    }
    if needed.len() == 0 {
        out.log(
            "OK",
            concat2(pf.file_name.as_str(), " — fully deduped, 0 bytes from network"),
        );
        out.tell(
            GuiEvent::TransferStarted {
                peer_id: peer.to_text(),
                file_name: pf.file_name,
                total_chunks: pf.total_chunks,
                file_size: pf.file_size,
            },
        );
        return Some(reassemble(&ts));
    }
    out.log(
        "INFO",
        concat7(
            "⬇  ",
            pf.file_name.as_str(),
            " — ",
            decimal_text(pf.total_chunks as u64).as_str(),
            " chunks, ",
            decimal_text(pf.file_size / 1024).as_str(),
            " KB",
        ),
    );
    out.tell(
        GuiEvent::TransferStarted {
            peer_id: peer.to_text(),
            file_name: pf.file_name.clone(),
            total_chunks: pf.total_chunks,
            file_size: pf.file_size,
        },
    );
    let count = window(needed.len());
    request_chunks(peer, pf.file_id, &pf.file_name, &needed, count, out);
    ts.next_request = if count < needed.len() {
        needed[count]
    } else {
        pf.total_chunks
    };
    dl.active.insert(pf.file_name, ts);
    None
}

/// What is told of a file that was written from local chunks alone.
pub open spec fn local_write_told(
    peer: Seq<char>,
    file_name: Seq<char>,
    error: Option<Seq<char>>,
    out: Seq<EffectView>,
) -> Seq<EffectView> {
    match error {
        None => out.push(
            told(GuiEventView::TransferComplete { peer_id: peer, file_name }),
        ).push(logged("OK"@, file_name + " written from local data"@)),
        Some(e) => out.push(
            logged("ERROR"@, "Reassembly failed for "@ + file_name + ": "@ + e),
        ),
    }
}

/// Tells of a file that was written from local chunks alone, or not.
pub fn deduped_written(peer: &PeerId, file_name: &String, error: Option<String>, out: &mut Outbox)
    ensures
        final(out)@ == local_write_told(
            peer@,
            file_name@,
            opt_text(error),
            old(out)@,
        ),
{
    match error {
        None => {
            out.tell(
                GuiEvent::TransferComplete {
                    peer_id: peer.to_text(),
                    file_name: file_name.clone(),
                },
            );
            out.log("OK", concat2(file_name.as_str(), " written from local data"));
        },
        Some(e) => {
            out.log(
                "ERROR",
                concat4("Reassembly failed for ", file_name.as_str(), ": ", e.as_str()),
            );
        },
    }
}

/// A transfer has been silent for too long, and lacks chunks.
pub open spec fn stalled(ts: FileTransferStateView, now: u64) -> bool {
    &&& now - ts.last_activity >= STALL_NANOS
    &&& ts.metadata is Some
    &&& missing_below(ts.received_chunks, transfer_total(ts) as nat).len() > 0
}

/// A stalled transfer has its first missing chunks asked for again.
pub open spec fn revived(
    peer: Seq<char>,
    name: Seq<char>,
    ts: FileTransferStateView,
    now: u64,
    out: Seq<EffectView>,
) -> (FileTransferStateView, Seq<EffectView>) {
    if stalled(ts, now) {
        let missing = missing_below(ts.received_chunks, transfer_total(ts) as nat);
        let count = windowed(missing.len());
        let behind = missing[count - 1] + 1;
        (
            FileTransferStateView {
                next_request: if ts.next_request < behind {
                    behind as usize
                } else {
                    ts.next_request
                },
                last_activity: now,
                ..ts
            },
            requested(
                peer,
                ts.file_id,
                name,
                missing,
                count,
                out.push(
                    logged(
                        "WARN"@,
                        "Stall on "@ + name + " — re-requesting "@ + decimal(missing.len())
                            + " chunks"@,
                    ),
                ),
            ),
        )
    } else {
        (ts, out)
    }
}

/// The first `n` transfers of a peer, revived where they stalled.
pub open spec fn all_revived(
    peer: Seq<char>,
    active: Seq<(Seq<char>, FileTransferStateView)>,
    now: u64,
    n: nat,
    out: Seq<EffectView>,
) -> (Seq<(Seq<char>, FileTransferStateView)>, Seq<EffectView>)
    decreases n,
{
    if n == 0 {
        (active, out)
    } else {
        let (before, out1) = all_revived(peer, active, now, (n - 1) as nat, out);
        let (name, ts) = before[n - 1];
        let (ts1, out2) = revived(peer, name, ts, now, out1);
        (before.update(n - 1, (name, ts1)), out2)
    }
}

/// The downloads of the first `n` peers, revived where they stalled.
pub open spec fn stalls_checked(
    transfers: Seq<(Seq<char>, PeerDownloadView)>,
    now: u64,
    n: nat,
    out: Seq<EffectView>,
) -> (Seq<(Seq<char>, PeerDownloadView)>, Seq<EffectView>)
    decreases n,
{
    if n == 0 {
        (transfers, out)
    } else {
        let (before, out1) = stalls_checked(transfers, now, (n - 1) as nat, out);
        let (peer, dl) = before[n - 1];
        let (active, out2) = all_revived(peer, dl.active, now, dl.active.len(), out1);
        (before.update(n - 1, (peer, PeerDownloadView { active, ..dl })), out2)
    }
}

/// For a transfer that has been silent for too long at most `WINDOW` chunks are
/// asked for again, and for any other none.
pub proof fn law_stall_requests_fit_the_window(
    peer: Seq<char>,
    name: Seq<char>,
    ts: FileTransferStateView,
    now: u64,
    out: Seq<EffectView>,
)
    ensures
        request_count(revived(peer, name, ts, now, out).1) <= request_count(out) + if stalled(
            ts,
            now,
        ) {
            WINDOW as nat
        } else {
            0nat
        },
        stalled(ts, now) ==> request_count(revived(peer, name, ts, now, out).1) > request_count(out),
{
    if stalled(ts, now) {
        let missing = missing_below(ts.received_chunks, transfer_total(ts) as nat);
        let line = logged(
            "WARN"@,
            "Stall on "@ + name + " — re-requesting "@ + decimal(missing.len()) + " chunks"@,
        );
        lemma_count_push(out, line);
        lemma_count_requested(
            peer,
            ts.file_id,
            name,
            missing,
            windowed(missing.len()),
            out.push(line),
        );
    }
}

proof fn lemma_requested(
    peer: Seq<char>,
    file_id: Option<Seq<u8>>,
    file_name: Seq<char>,
    chunks: Seq<usize>,
    n: nat,
    out: Seq<EffectView>,
)
    ensures
        ({
            let after = requested(peer, file_id, file_name, chunks, n, out);
            &&& after.len() == out.len() + n
            &&& forall|j: int|
                0 <= j < n ==> #[trigger] after[out.len() + j] == asked(
                    peer,
                    chunk_request(file_id, file_name, chunks[j]),
                )
            &&& forall|j: int| 0 <= j < out.len() ==> #[trigger] after[j] == out[j]
        }),
    decreases n,
{
    if n > 0 {
        lemma_requested(peer, file_id, file_name, chunks, (n - 1) as nat, out);
    }
}

/// When a file starts, only chunks that were not found locally are asked for, and
/// a file of which all chunks were found is not asked for at all.
pub proof fn law_local_chunks_are_not_asked_for(
    pf: PendingFileView,
    local: Seq<Option<Seq<u8>>>,
    sync_path: Seq<char>,
    peer: Seq<char>,
    now: u64,
    dl: PeerDownloadView,
    i: int,
)
    ensures
        ({
            let found = local_map(local, local.len());
            let out = file_started(pf, local, sync_path, peer, now, dl, Seq::empty()).1;
            0 <= i < out.len() && out[i] is Request ==> exists|c: usize|
                c < pf.total_chunks && !found.dom().contains(c) && #[trigger] chunk_request(
                    pf.file_id,
                    pf.file_name,
                    c,
                ) == out[i]->Request_message && out[i]->Request_peer == peer
        }),
{
    let ts = starting(pf, local, sync_path, now);
    let found = ts.received_chunks;
    let needed = missing_below(found, pf.total_chunks as nat);
    let out = file_started(pf, local, sync_path, peer, now, dl, Seq::empty()).1;
    law_missing_chunks(found, pf.total_chunks as nat);
    if needed.len() > 0 && 0 <= i < out.len() && out[i] is Request {
        let out1 = hits_told(pf, local_hits(local, local.len()), needed.len(), Seq::empty()).push(
            logged(
                "INFO"@,
                "⬇  "@ + pf.file_name + " — "@ + decimal(pf.total_chunks as nat) + " chunks, "@
                    + decimal(pf.file_size as nat / 1024) + " KB"@,
            ),
        ).push(transfer_started(peer, pf));
        let count = windowed(needed.len());
        lemma_requested(peer, pf.file_id, pf.file_name, needed, count, out1);
        assert(forall|j: int| 0 <= j < out1.len() ==> !(#[trigger] out1[j] is Request));
        if i < out1.len() {
            assert(out[i] == out1[i]);
        }
        let j = i - out1.len();
        assert(out[out1.len() + j] == asked(
            peer,
            chunk_request(pf.file_id, pf.file_name, needed[j]),
        ));
        assert(needed.contains(needed[j]));
        assert(chunk_request(pf.file_id, pf.file_name, needed[j]) == out[i]->Request_message);
    }
}

proof fn lemma_revived(
    peer: Seq<char>,
    active: Seq<(Seq<char>, FileTransferStateView)>,
    now: u64,
    n: nat,
    out: Seq<EffectView>,
)
    requires
        n <= active.len(),
    ensures
        ({
            let after = all_revived(peer, active, now, n, out).0;
            &&& after.len() == active.len()
            &&& forall|j: int|
                0 <= j < active.len() ==> (#[trigger] after[j]).0 == active[j].0
                    && after[j].1.received_chunks == active[j].1.received_chunks
                    && after[j].1.metadata == active[j].1.metadata
        }),
    decreases n,
{
    if n > 0 {
        lemma_revived(peer, active, now, (n - 1) as nat, out);
    }
}

/// Asking again after a silence starts and ends nothing, and loses nothing: the
/// scheduler's invariant stays, with the same files and the same chunks.
pub proof fn law_stalls_keep_bounds(
    peer: Seq<char>,
    dl: PeerDownloadView,
    now: u64,
    out: Seq<EffectView>,
)
    requires
        download_ok(dl),
    ensures
        ({
            let active = all_revived(peer, dl.active, now, dl.active.len(), out).0;
            &&& download_ok(PeerDownloadView { active, ..dl })
            &&& forall|j: int|
                0 <= j < dl.active.len() ==> (#[trigger] active[j]).0 == dl.active[j].0
                    && active[j].1.received_chunks == dl.active[j].1.received_chunks
        }),
{
    let active = all_revived(peer, dl.active, now, dl.active.len(), out).0;
    let after = PeerDownloadView { active, ..dl };
    lemma_revived(peer, dl.active, now, dl.active.len(), out);
    assert forall|i: int, j: int|
        #![trigger active[i], active[j]]
        0 <= i < j < active.len() implies active[i].0 != active[j].0 by {
        assert(dl.active[i].0 != dl.active[j].0);
    }
    assert forall|i: int| 0 <= i < after.queue.len() implies !has_key(
        active,
        (#[trigger] after.queue[i]).file_name,
    ) by {
        let name = dl.queue[i].file_name;
        assert(!has_key(dl.active, name));
        lemma_position(dl.active, name);
        lemma_position(active, name);
        if let Some(p) = position(active, name) {
            assert(active[p].0 == dl.active[p].0);
        }
    }
}

fn revive(
    peer: &PeerId,
    name: &String,
    ts: &mut FileTransferState,
    now: u64,
    out: &mut Outbox,
)
    ensures
        final(ts)@ == revived(peer@, name@, old(ts)@, now, old(out)@).0,
        final(out)@ == revived(peer@, name@, old(ts)@, now, old(out)@).1,
{
    if now < ts.last_activity || now - ts.last_activity < STALL_NANOS {
        return;
    }
    if ts.metadata.is_none() {
        return;
    }
    let missing = ts.missing_chunks();
    if missing.len() == 0 {
        return;
    }
    out.log(
        "WARN",
        concat5(
            "Stall on ",
            name.as_str(),
            " — re-requesting ",
            decimal_text(missing.len() as u64).as_str(),
            " chunks",
        ),
    );
    let count = window(missing.len());
    request_chunks(peer, ts.file_id, name, &missing, count, out);
    proof {
        law_missing_chunks(ts@.received_chunks, transfer_total(ts@) as nat);
        assert(missing@.contains(missing@[count - 1]));
    }
    let behind: usize = missing[count - 1] + 1;
    if ts.next_request < behind {
        ts.next_request = behind;
    }
    ts.last_activity = now;
}

fn revive_all(peer: &PeerId, dl: &mut PeerDownload, now: u64, out: &mut Outbox)
    ensures
        final(dl)@.active == all_revived(
            peer@,
            old(dl)@.active,
            now,
            old(dl)@.active.len(),
            old(out)@,
        ).0,
        final(dl)@.queue == old(dl)@.queue,
        final(out)@ == all_revived(
            peer@,
            old(dl)@.active,
            now,
            old(dl)@.active.len(),
            old(out)@,
        ).1,
{
    let n: usize = dl.active.len();
    let mut i: usize = 0;
    while i < n
        invariant
            i <= n,
            n == old(dl)@.active.len(),
            dl@.active == all_revived(peer@, old(dl)@.active, now, i as nat, old(out)@).0,
            dl@.active.len() == n,
            dl@.queue == old(dl)@.queue,
            out@ == all_revived(peer@, old(dl)@.active, now, i as nat, old(out)@).1,
        decreases n - i,
    {
        let name = dl.active.key_at(i).clone();
        let ts = dl.active.value_at_mut(i);
        revive(peer, &name, ts, now, out);
        i = i + 1;
    }
}

/// Asks again for the chunks of all transfers that have been silent for too
/// long.
pub fn check_stalls(
    transfers: &mut Assoc<PeerId, PeerDownload>,
    now: u64,
    out: &mut Outbox,
)
    ensures
        final(transfers)@ == stalls_checked(
            old(transfers)@,
            now,
            old(transfers)@.len(),
            old(out)@,
        ).0,
        final(out)@ == stalls_checked(
            old(transfers)@,
            now,
            old(transfers)@.len(),
            old(out)@,
        ).1,
{
    let n: usize = transfers.len();
    let mut i: usize = 0;
    while i < n
        invariant
            i <= n,
            n == old(transfers)@.len(),
            transfers@ == stalls_checked(old(transfers)@, now, i as nat, old(out)@).0,
            transfers@.len() == n,
            out@ == stalls_checked(old(transfers)@, now, i as nat, old(out)@).1,
        decreases n - i,
    {
        let peer = transfers.key_at(i).clone();
        let dl = transfers.value_at_mut(i);
        revive_all(&peer, dl, now, out);
        i = i + 1;
    }
}

} // verus!
