//! How files are fetched: what is queued, what is asked for, and what comes of it.
use crate::collections::{has_key, law_put, lemma_position, lookup, put, with_element, without};
use crate::crypto::{blinded_hash, blinded_name, opened_block, position_aad, CHUNK_TAG};
use crate::gui::types::GuiEventView;
use crate::network::{
    EncryptedFileEntryView, EncryptedManifestPayloadView, FileEntryView, SyncMessageView,
};
use crate::paths::{absolute, has_file_name, vault_path};
use crate::primitives::{blake3_digest, AEAD_MESSAGE_MAX};
use crate::state::{shown_fingerprint, AppStateView};
use crate::storage::{
    chunk_count, content_hashes, file_chunks, law_chunks_make_up_the_file, law_missing_chunks,
    missing_below, FileMetadataView, FileTransferStateView, PendingFileView, MANIFEST_AAD,
};
use crate::sync::download::{
    all_revived, dequeued, file_started, local_hits, local_map, local_places, local_write_told,
    may_start, requested, revived, stalls_checked, starting, with_offers, PeerDownloadView,
};
use crate::sync::effect::{deeds, is_log, lemma_deeds, logged, EffectView};
use crate::sync::requests::{
    encrypted_answer, ids_told, outbound_name, plain_answer, seals_manifest,
};
use crate::sync::responses::{
    download_of, inbound_info, inbound_map, manifest_step, offer_told, pending_blinded, places,
    responded, summary, write_done, OfferView, ResponseStepView,
};
use crate::text::decimal;
use crate::tofu::shared_key;
use crate::transfer::{
    assembles, chunks_in_order, manifest_payload, plain_manifest, ChunkPlaceView, WriteOrderView,
};
use vstd::prelude::*;

verus! {

/// The request for a chunk: by the opaque id of its file if that has one, else by name.
pub open spec fn request_for(
    peer: Seq<char>,
    file_id: Option<Seq<u8>>,
    file_name: Seq<char>,
    index: usize,
) -> EffectView {
    EffectView::Request {
        peer,
        message: match file_id {
            Some(id) => SyncMessageView::EncryptedChunkRequest {
                file_id: id,
                chunk_index: index as u32,
            },
            None => SyncMessageView::ChunkRequest { file_name, chunk_index: index },
        },
    }
}

/// What follows on a chunk with the right hash: it is kept in its place, the user
/// interface told, and the one chunk that comes next in turn asked for, if there is one
/// that was not; nothing else is asked for. When as many chunks came as the file has, the
/// file is to be written, and its path is marked as being written before.
pub open spec fn chunk_taken(
    peer: Seq<char>,
    file_id: Option<Seq<u8>>,
    file_name: Seq<char>,
    index: usize,
    plain: Seq<u8>,
    now: u64,
    before: (AppStateView, Seq<(Seq<char>, PeerDownloadView)>, Seq<EffectView>),
    after: (AppStateView, Seq<(Seq<char>, PeerDownloadView)>, Seq<EffectView>, ResponseStepView),
) -> bool {
    let dl = lookup(before.1, peer)->0;
    let ts = lookup(dl.active, file_name)->0;
    let m = ts.metadata->0;
    let slides = ts.next_request < m.total_chunks;
    let kept = FileTransferStateView {
        received_chunks: ts.received_chunks.insert(index, plain),
        last_activity: now,
        next_request: if slides {
            (ts.next_request + 1) as usize
        } else {
            ts.next_request
        },
        ..ts
    };
    let told = deeds(before.2).push(
        EffectView::Event {
            event: GuiEventView::ChunkReceived {
                peer_id: peer,
                file_name,
                chunk_index: index,
                total_chunks: m.total_chunks,
                verified: true,
            },
        },
    );
    let complete = kept.received_chunks.len() >= m.total_chunks;
    &&& after.1 == put(
        before.1,
        peer,
        PeerDownloadView { active: put(dl.active, file_name, kept), ..dl },
    )
    &&& deeds(after.2) == if slides {
        told.push(request_for(peer, file_id, file_name, ts.next_request))
    } else {
        told
    }
    &&& !complete ==> after.0 == before.0 && after.3 is Done
    &&& complete ==> {
        &&& after.3 == (ResponseStepView::Write { file_name, encrypted: file_id is Some })
        &&& after.0 == (AppStateView {
            writing_files: with_element(
                before.0.writing_files,
                absolute(ts.sync_dir, m.file_name),
            ),
            ..before.0
        })
    }
}

/// A chunk that comes by name with the hash that the manifest gave is taken. It is
/// decrypted with the key of the peer, if it has one.
pub proof fn law_right_chunk_is_taken(
    peer: Seq<char>,
    file_name: Seq<char>,
    index: usize,
    data: Seq<u8>,
    hash: Seq<u8>,
    plain: Seq<u8>,
    now: u64,
    s: AppStateView,
    transfers: Seq<(Seq<char>, PeerDownloadView)>,
    out: Seq<EffectView>,
)
    requires
        s.sync_path is Some,
        lookup(s.peer_keys, peer) is None ==> plain == data,
        lookup(s.peer_keys, peer) matches Some(key) ==> opened_block(key, data, seq![]) == Some(
            plain,
        ),
        lookup(transfers, peer) matches Some(dl) && (lookup(dl.active, file_name) matches Some(ts)
            && (ts.metadata matches Some(m) && index < m.chunk_hashes.len()
            && m.chunk_hashes[index as int] == blake3_digest(plain))),
    ensures
        chunk_taken(
            peer,
            None,
            file_name,
            index,
            plain,
            now,
            (s, transfers, out),
            responded(
                SyncMessageView::ChunkResponse { file_name, chunk_index: index, data, hash },
                peer,
                now,
                s,
                transfers,
                out,
            ),
        ),
{
    lemma_deeds();
}

/// A chunk that comes by the id of its file with the hash that the manifest gave, blinded
/// with the key of the peer, is taken. It is opened with that key for its place.
pub proof fn law_right_chunk_by_id_is_taken(
    peer: Seq<char>,
    file_id: Seq<u8>,
    file_name: Seq<char>,
    index: u32,
    data: Seq<u8>,
    hash: Seq<u8>,
    key: Seq<u8>,
    plain: Seq<u8>,
    now: u64,
    s: AppStateView,
    transfers: Seq<(Seq<char>, PeerDownloadView)>,
    out: Seq<EffectView>,
)
    requires
        s.sync_path is Some,
        lookup(s.peer_keys, peer) == Some(key),
        lookup(s.inbound_file_ids, peer) matches Some(ids) && (lookup(ids, file_id) matches Some(
            info,
        ) && info.file_name == file_name),
        opened_block(key, data, position_aad(CHUNK_TAG@, file_id, index)) == Some(plain),
        lookup(transfers, peer) matches Some(dl) && (lookup(dl.active, file_name) matches Some(ts)
            && (ts.metadata matches Some(m) && index < m.chunk_hashes.len()
            && m.chunk_hashes[index as int] == blinded_hash(key, blake3_digest(plain)))),
    ensures
        chunk_taken(
            peer,
            Some(file_id),
            file_name,
            index as usize,
            plain,
            now,
            (s, transfers, out),
            responded(
                SyncMessageView::EncryptedChunkResponse {
                    file_id,
                    chunk_index: index,
                    data,
                    blinded_hash: hash,
                },
                peer,
                now,
                s,
                transfers,
                out,
            ),
        ),
{
    lemma_deeds();
}

/// A chunk with another hash changes nothing, is told as such, and only it is asked for
/// again.
pub proof fn law_wrong_chunk_is_asked_for_again(
    peer: Seq<char>,
    file_name: Seq<char>,
    index: usize,
    data: Seq<u8>,
    hash: Seq<u8>,
    plain: Seq<u8>,
    now: u64,
    s: AppStateView,
    transfers: Seq<(Seq<char>, PeerDownloadView)>,
    out: Seq<EffectView>,
)
    requires
        s.sync_path is Some,
        lookup(s.peer_keys, peer) is None ==> plain == data,
        lookup(s.peer_keys, peer) matches Some(key) ==> opened_block(key, data, seq![]) == Some(
            plain,
        ),
        lookup(transfers, peer) matches Some(dl) && (lookup(dl.active, file_name) matches Some(ts)
            && (ts.metadata matches Some(m) && (index >= m.chunk_hashes.len()
            || m.chunk_hashes[index as int] != blake3_digest(plain)))),
    ensures
        ({
            let (s1, transfers1, out1, step) = responded(
                SyncMessageView::ChunkResponse { file_name, chunk_index: index, data, hash },
                peer,
                now,
                s,
                transfers,
                out,
            );
            let m = lookup(lookup(transfers, peer)->0.active, file_name)->0.metadata->0;
            &&& s1 == s
            &&& transfers1 == transfers
            &&& step is Done
            &&& deeds(out1) == deeds(out).push(
                EffectView::Event {
                    event: GuiEventView::ChunkReceived {
                        peer_id: peer,
                        file_name,
                        chunk_index: index,
                        total_chunks: m.total_chunks,
                        verified: false,
                    },
                },
            ).push(request_for(peer, None, file_name, index))
        }),
{
    lemma_deeds();
}

/// The same holds of a chunk that comes by the id of its file.
pub proof fn law_wrong_chunk_by_id_is_asked_for_again(
    peer: Seq<char>,
    file_id: Seq<u8>,
    file_name: Seq<char>,
    index: u32,
    data: Seq<u8>,
    hash: Seq<u8>,
    key: Seq<u8>,
    plain: Seq<u8>,
    now: u64,
    s: AppStateView,
    transfers: Seq<(Seq<char>, PeerDownloadView)>,
    out: Seq<EffectView>,
)
    requires
        s.sync_path is Some,
        lookup(s.peer_keys, peer) == Some(key),
        lookup(s.inbound_file_ids, peer) matches Some(ids) && (lookup(ids, file_id) matches Some(
            info,
        ) && info.file_name == file_name),
        opened_block(key, data, position_aad(CHUNK_TAG@, file_id, index)) == Some(plain),
        lookup(transfers, peer) matches Some(dl) && (lookup(dl.active, file_name) matches Some(ts)
            && (ts.metadata matches Some(m) && (index >= m.chunk_hashes.len()
            || m.chunk_hashes[index as int] != blinded_hash(key, blake3_digest(plain))))),
    ensures
        ({
            let (s1, transfers1, out1, step) = responded(
                SyncMessageView::EncryptedChunkResponse {
                    file_id,
                    chunk_index: index,
                    data,
                    blinded_hash: hash,
                },
                peer,
                now,
                s,
                transfers,
                out,
            );
            let m = lookup(lookup(transfers, peer)->0.active, file_name)->0.metadata->0;
            &&& s1 == s
            &&& transfers1 == transfers
            &&& step is Done
            &&& deeds(out1) == deeds(out).push(
                EffectView::Event {
                    event: GuiEventView::ChunkReceived {
                        peer_id: peer,
                        file_name,
                        chunk_index: index as usize,
                        total_chunks: m.total_chunks,
                        verified: false,
                    },
                },
            ).push(request_for(peer, Some(file_id), file_name, index as usize))
        }),
{
    lemma_deeds();
}

/// A chunk of a file that is not being transferred, or that comes without a folder,
/// changes nothing and is not answered.
pub proof fn law_stray_chunk_is_ignored(
    peer: Seq<char>,
    file_name: Seq<char>,
    index: usize,
    data: Seq<u8>,
    hash: Seq<u8>,
    now: u64,
    s: AppStateView,
    transfers: Seq<(Seq<char>, PeerDownloadView)>,
    out: Seq<EffectView>,
)
    requires
        s.sync_path is None || (lookup(s.peer_keys, peer) is None && (lookup(transfers, peer)
            matches Some(dl) ==> lookup(dl.active, file_name) is None)),
    ensures
        responded(
            SyncMessageView::ChunkResponse { file_name, chunk_index: index, data, hash },
            peer,
            now,
            s,
            transfers,
            out,
        ) == (s, transfers, out, ResponseStepView::Done),
{
}

/// The same holds of a chunk by id, from a peer without a key or for an id that the peer
/// did not tell.
pub proof fn law_stray_chunk_by_id_is_ignored(
    peer: Seq<char>,
    file_id: Seq<u8>,
    index: u32,
    data: Seq<u8>,
    hash: Seq<u8>,
    now: u64,
    s: AppStateView,
    transfers: Seq<(Seq<char>, PeerDownloadView)>,
    out: Seq<EffectView>,
)
    requires
        s.sync_path is None || lookup(s.peer_keys, peer) is None || (lookup(
            s.inbound_file_ids,
            peer,
        ) matches Some(ids) ==> lookup(ids, file_id) is None),
    ensures
        ({
            let (s1, transfers1, out1, step) = responded(
                SyncMessageView::EncryptedChunkResponse {
                    file_id,
                    chunk_index: index,
                    data,
                    blinded_hash: hash,
                },
                peer,
                now,
                s,
                transfers,
                out,
            );
            s1 == s && transfers1 == transfers && step is Done && deeds(out1) == deeds(out)
        }),
{
    lemma_deeds();
}

/// Every chunk that comes before the next one in turn came already, or was asked for.
pub open spec fn asked_in_turn(
    peer: Seq<char>,
    file_name: Seq<char>,
    ts: FileTransferStateView,
    out: Seq<EffectView>,
) -> bool {
    ts.metadata matches Some(m) && forall|i: usize|
        i < ts.next_request && i < m.total_chunks ==> #[trigger] ts.received_chunks.dom().contains(
            i,
        ) || out.contains(request_for(peer, ts.file_id, file_name, i))
}

proof fn lemma_contains_push(out: Seq<EffectView>, e: EffectView, x: EffectView)
    ensures
        out.push(e).contains(x) <==> out.contains(x) || x == e,
{
    let t = out.push(e);
    if out.contains(x) {
        let i = choose|i: int| 0 <= i < out.len() && out[i] == x;
        assert(t[i] == x);
    }
    assert(t[out.len() as int] == e);
    if t.contains(x) && x != e {
        let i = choose|i: int| 0 <= i < t.len() && t[i] == x;
        assert(out[i] == x);
    }
}

proof fn lemma_deeds_contain(out: Seq<EffectView>, x: EffectView)
    requires
        !is_log(x),
    ensures
        deeds(out).contains(x) <==> out.contains(x),
    decreases out.len(),
{
    if out.len() > 0 {
        let rest = out.drop_last();
        lemma_deeds_contain(rest, x);
        assert(rest.push(out.last()) =~= out);
        lemma_contains_push(rest, out.last(), x);
        lemma_contains_push(deeds(rest), out.last(), x);
    }
}

/// Chunks are asked for in turn, without a gap: after a chunk was taken, the next one in
/// turn moved on by at most one, and every chunk before it came or was asked for. So no
/// chunk of a file is left out.
pub proof fn law_taken_chunks_leave_no_gap(
    peer: Seq<char>,
    file_name: Seq<char>,
    index: usize,
    plain: Seq<u8>,
    now: u64,
    before: (AppStateView, Seq<(Seq<char>, PeerDownloadView)>, Seq<EffectView>),
    after: (AppStateView, Seq<(Seq<char>, PeerDownloadView)>, Seq<EffectView>, ResponseStepView),
)
    requires
        lookup(before.1, peer) matches Some(dl) && (lookup(dl.active, file_name) matches Some(ts)
            && asked_in_turn(peer, file_name, ts, before.2) && chunk_taken(
            peer,
            ts.file_id,
            file_name,
            index,
            plain,
            now,
            before,
            after,
        )),
    ensures
        lookup(after.1, peer) matches Some(dl) && (lookup(dl.active, file_name) matches Some(ts)
            && asked_in_turn(peer, file_name, ts, after.2)),
{
    let dl = lookup(before.1, peer)->0;
    let ts = lookup(dl.active, file_name)->0;
    let m = ts.metadata->0;
    let kept = FileTransferStateView {
        received_chunks: ts.received_chunks.insert(index, plain),
        last_activity: now,
        next_request: if ts.next_request < m.total_chunks {
            (ts.next_request + 1) as usize
        } else {
            ts.next_request
        },
        ..ts
    };
    law_put(
        before.1,
        peer,
        PeerDownloadView { active: put(dl.active, file_name, kept), ..dl },
        peer,
    );
    law_put(dl.active, file_name, kept, file_name);
    assert forall|i: usize| i < kept.next_request && i < m.total_chunks implies #[trigger]
        kept.received_chunks.dom().contains(i) || after.2.contains(
        request_for(peer, ts.file_id, file_name, i),
    ) by {
        let r = request_for(peer, ts.file_id, file_name, i);
        lemma_deeds_contain(before.2, r);
        lemma_deeds_contain(after.2, r);
        let told = deeds(before.2).push(
            EffectView::Event {
                event: GuiEventView::ChunkReceived {
                    peer_id: peer,
                    file_name,
                    chunk_index: index,
                    total_chunks: m.total_chunks,
                    verified: true,
                },
            },
        );
        lemma_contains_push(deeds(before.2), told.last(), r);
        lemma_contains_push(told, request_for(peer, ts.file_id, file_name, ts.next_request), r);
        if i < ts.next_request {
            assert(ts.received_chunks.dom().contains(i) || before.2.contains(r));
        }
    }
}

proof fn lemma_requested_contains(
    peer: Seq<char>,
    file_id: Option<Seq<u8>>,
    file_name: Seq<char>,
    chunks: Seq<usize>,
    n: nat,
    out: Seq<EffectView>,
)
    requires
        n <= chunks.len(),
    ensures
        ({
            let after = requested(peer, file_id, file_name, chunks, n, out);
            &&& out.is_prefix_of(after)
            &&& after.len() == out.len() + n
            &&& deeds(after) == deeds(out) + Seq::new(
                n,
                |j: int| request_for(peer, file_id, file_name, chunks[j]),
            )
            &&& forall|j: int|
                0 <= j < n ==> after[out.len() + j] == request_for(
                    peer,
                    file_id,
                    file_name,
                    #[trigger] chunks[j],
                )
        }),
    decreases n,
{
    lemma_deeds();
    let new = Seq::new(n, |j: int| request_for(peer, file_id, file_name, chunks[j]));
    if n > 0 {
        lemma_requested_contains(peer, file_id, file_name, chunks, (n - 1) as nat, out);
        let old = Seq::new(
            (n - 1) as nat,
            |j: int| request_for(peer, file_id, file_name, chunks[j]),
        );
        assert(deeds(out) + new =~= (deeds(out) + old).push(new[n - 1]));
    } else {
        assert(deeds(out) + new =~= deeds(out));
    }
}

/// A file that starts becomes active with what was found on disk, unless that is all of
/// it, and its first missing chunks, up to four, are asked for, in order and each
/// once. From then on every chunk before the next one in turn is there or was asked for.
pub proof fn law_started_file_is_asked_for(
    pf: PendingFileView,
    local: Seq<Option<Seq<u8>>>,
    sync_path: Seq<char>,
    peer: Seq<char>,
    now: u64,
    dl: PeerDownloadView,
    out: Seq<EffectView>,
)
    ensures
        ({
            let (dl1, out1) = file_started(pf, local, sync_path, peer, now, dl, out);
            let found = local_map(local, local.len());
            let missing = missing_below(found, pf.total_chunks as nat);
            let count = if missing.len() < 4 {
                missing.len()
            } else {
                4nat
            };
            let started = deeds(out).push(
                EffectView::Event {
                    event: GuiEventView::TransferStarted {
                        peer_id: peer,
                        file_name: pf.file_name,
                        total_chunks: pf.total_chunks,
                        file_size: pf.file_size,
                    },
                },
            );
            &&& missing.len() == 0 ==> dl1 == dl && deeds(out1) == started
            &&& missing.len() > 0 ==> {
                &&& deeds(out1) == started + Seq::new(
                    count,
                    |j: int| request_for(peer, pf.file_id, pf.file_name, missing[j]),
                )
                &&& dl1.queue == dl.queue
                &&& lookup(dl1.active, pf.file_name) matches Some(ts) && {
                    &&& dl1.active == put(dl.active, pf.file_name, ts)
                    &&& ts.received_chunks == found
                    &&& ts.metadata matches Some(m) && m.file_name == pf.file_name
                        && m.total_chunks == pf.total_chunks && m.file_size == pf.file_size
                        && m.chunk_hashes == pf.chunk_hashes
                    &&& ts.sync_dir == sync_path
                    &&& ts.file_id == pf.file_id
                    &&& ts.last_activity == now
                    &&& ts.next_request <= pf.total_chunks
                    &&& count < missing.len() ==> ts.next_request == missing[count as int]
                    &&& asked_in_turn(peer, pf.file_name, ts, out1)
                }
            }
        }),
{
    lemma_deeds();
    let (dl1, out1) = file_started(pf, local, sync_path, peer, now, dl, out);
    let found = local_map(local, local.len());
    let total = pf.total_chunks as nat;
    let missing = missing_below(found, total);
    law_missing_chunks(found, total);
    if missing.len() > 0 {
        let count = if missing.len() < 4 {
            missing.len()
        } else {
            4nat
        };
        let ts0 = starting(pf, local, sync_path, now);
        let ts = FileTransferStateView {
            next_request: if count < missing.len() {
                missing[count as int]
            } else {
                pf.total_chunks
            },
            ..ts0
        };
        law_put(dl.active, pf.file_name, ts, pf.file_name);
        lemma_missing_after(pf, local, sync_path, peer, now, dl, out);
        if count < missing.len() {
            assert(missing.contains(missing[count as int]));
        }
        assert forall|i: usize| i < ts.next_request && i < pf.total_chunks implies #[trigger]
            ts.received_chunks.dom().contains(i) || out1.contains(
            request_for(peer, pf.file_id, pf.file_name, i),
        ) by {
            if !found.dom().contains(i) {
                assert(missing.contains(i));
                let j = choose|j: int| 0 <= j < missing.len() && missing[j] == i;
                if j >= count {
                    assert(missing[count as int] <= missing[j]);
                }
                assert(out1[out1.len() - count + j] == request_for(
                    peer,
                    pf.file_id,
                    pf.file_name,
                    missing[j],
                ));
            }
        }
    }
}

proof fn lemma_missing_after(
    pf: PendingFileView,
    local: Seq<Option<Seq<u8>>>,
    sync_path: Seq<char>,
    peer: Seq<char>,
    now: u64,
    dl: PeerDownloadView,
    out: Seq<EffectView>,
)
    requires
        missing_below(local_map(local, local.len()), pf.total_chunks as nat).len() > 0,
    ensures
        ({
            let out1 = file_started(pf, local, sync_path, peer, now, dl, out).1;
            let missing = missing_below(local_map(local, local.len()), pf.total_chunks as nat);
            let count = if missing.len() < 4 {
                missing.len()
            } else {
                4nat
            };
            &&& count <= out1.len()
            &&& deeds(out1) == deeds(out).push(
                EffectView::Event {
                    event: GuiEventView::TransferStarted {
                        peer_id: peer,
                        file_name: pf.file_name,
                        total_chunks: pf.total_chunks,
                        file_size: pf.file_size,
                    },
                },
            ) + Seq::new(count, |j: int| request_for(peer, pf.file_id, pf.file_name, missing[j]))
            &&& forall|j: int|
                0 <= j < count ==> out1[out1.len() - count + j] == request_for(
                    peer,
                    pf.file_id,
                    pf.file_name,
                    #[trigger] missing[j],
                )
        }),
{
    lemma_deeds();
    let out1 = file_started(pf, local, sync_path, peer, now, dl, out).1;
    let missing = missing_below(local_map(local, local.len()), pf.total_chunks as nat);
    let count = if missing.len() < 4 {
        missing.len()
    } else {
        4nat
    };
    let told = choose|o: Seq<EffectView>|
        out1 == #[trigger] requested(peer, pf.file_id, pf.file_name, missing, count, o)
            && deeds(o) == deeds(out).push(
            EffectView::Event {
                event: GuiEventView::TransferStarted {
                    peer_id: peer,
                    file_name: pf.file_name,
                    total_chunks: pf.total_chunks,
                    file_size: pf.file_size,
                },
            },
        );
    lemma_requested_contains(peer, pf.file_id, pf.file_name, missing, count, told);
}

/// A transfer that lacks chunks and has been silent for twenty seconds has its first
/// missing chunks, up to four, asked for again, in order and each once; no
/// other transfer is touched. Every chunk before the next one in turn still came or was
/// asked for.
pub proof fn law_silent_transfer_is_revived(
    peer: Seq<char>,
    name: Seq<char>,
    ts: FileTransferStateView,
    now: u64,
    out: Seq<EffectView>,
)
    requires
        ts.metadata is Some,
    ensures
        ({
            let (ts1, out1) = revived(peer, name, ts, now, out);
            let total = ts.metadata->0.total_chunks;
            let missing = missing_below(ts.received_chunks, total as nat);
            let count = if missing.len() < 4 {
                missing.len()
            } else {
                4nat
            };
            let silent = now >= ts.last_activity + 20000000000;
            &&& !silent || missing.len() == 0 ==> ts1 == ts && out1 == out
            &&& silent && missing.len() > 0 ==> {
                &&& deeds(out1) == deeds(out) + Seq::new(
                    count,
                    |j: int| request_for(peer, ts.file_id, name, missing[j]),
                )
                &&& ts1 == (FileTransferStateView {
                    next_request: ts1.next_request,
                    last_activity: now,
                    ..ts
                })
                &&& ts1.next_request >= ts.next_request
                &&& forall|j: int| 0 <= j < count ==> #[trigger] missing[j] < ts1.next_request
                &&& ts1.next_request == ts.next_request || ts1.next_request == missing[count - 1]
                    + 1
            }
            &&& asked_in_turn(peer, name, ts, out) ==> asked_in_turn(peer, name, ts1, out1)
        }),
{
    lemma_deeds();
    let (ts1, out1) = revived(peer, name, ts, now, out);
    let total = ts.metadata->0.total_chunks;
    let missing = missing_below(ts.received_chunks, total as nat);
    law_missing_chunks(ts.received_chunks, total as nat);
    if now >= ts.last_activity + 20000000000 && missing.len() > 0 {
        let count = if missing.len() < 4 {
            missing.len()
        } else {
            4nat
        };
        assert(missing.contains(missing[count - 1]));
        let told = choose|o: Seq<EffectView>|
            out1 == #[trigger] requested(peer, ts.file_id, name, missing, count, o) && deeds(o)
                == deeds(out) && out.is_prefix_of(o);
        lemma_requested_contains(peer, ts.file_id, name, missing, count, told);
        if asked_in_turn(peer, name, ts, out) {
            assert forall|i: usize| i < ts1.next_request && i < total implies #[trigger]
                ts1.received_chunks.dom().contains(i) || out1.contains(
                request_for(peer, ts.file_id, name, i),
            ) by {
                let r = request_for(peer, ts.file_id, name, i);
                if !ts.received_chunks.dom().contains(i) {
                    if i < ts.next_request {
                        let k = choose|k: int| 0 <= k < out.len() && out[k] == r;
                        assert(out1[k] == r);
                    } else {
                        assert(missing.contains(i));
                        let j = choose|j: int| 0 <= j < missing.len() && missing[j] == i;
                        if j >= count {
                            assert(missing[count - 1] < missing[j]);
                        }
                        assert(out1[told.len() + j] == request_for(
                            peer,
                            ts.file_id,
                            name,
                            missing[j],
                        ));
                    }
                }
            }
        }
    }
}

/// A file of this name stands in the queue.
pub open spec fn waits(queue: Seq<PendingFileView>, name: Seq<char>) -> bool {
    exists|i: int| 0 <= i < queue.len() && (#[trigger] queue[i]).file_name == name
}

/// A file is among the first `n` that were offered, not on disk, not active, and did not
/// wait.
pub open spec fn newly_offered(
    dl: PeerDownloadView,
    offers: Seq<PendingFileView>,
    on_disk: Seq<bool>,
    n: nat,
    file: PendingFileView,
) -> bool {
    &&& exists|i: int| 0 <= i < n && #[trigger] offers[i] == file && !on_disk[i]
    &&& !has_key(dl.active, file.file_name)
    &&& !waits(dl.queue, file.file_name)
}

/// Every offered file that is not on disk is active or waits afterwards. What is active
/// stays as it is, what waits keeps its place, and only files that were offered, are not
/// on disk and not active are added, as they were offered.
pub proof fn law_offered_files_are_queued(
    dl: PeerDownloadView,
    offers: Seq<PendingFileView>,
    on_disk: Seq<bool>,
    n: nat,
)
    requires
        n <= offers.len(),
        offers.len() == on_disk.len(),
    ensures
        ({
            let after = with_offers(dl, offers, on_disk, n);
            &&& after.active == dl.active
            &&& dl.queue.is_prefix_of(after.queue)
            &&& forall|i: int|
                #![trigger offers[i]]
                0 <= i < n ==> on_disk[i] || has_key(dl.active, offers[i].file_name) || waits(
                    after.queue,
                    offers[i].file_name,
                )
            &&& forall|k: int|
                dl.queue.len() <= k < after.queue.len() ==> newly_offered(
                    dl,
                    offers,
                    on_disk,
                    n,
                    #[trigger] after.queue[k],
                )
        }),
    decreases n,
{
    if n > 0 {
        law_offered_files_are_queued(dl, offers, on_disk, (n - 1) as nat);
        let before = with_offers(dl, offers, on_disk, (n - 1) as nat);
        let after = with_offers(dl, offers, on_disk, n);
        assert(before.queue.is_prefix_of(after.queue));
        assert forall|i: int| #![trigger offers[i]] 0 <= i < n implies on_disk[i] || has_key(
            dl.active,
            offers[i].file_name,
        ) || waits(after.queue, offers[i].file_name) by {
            if waits(before.queue, offers[i].file_name) {
                let k = choose|k: int|
                    0 <= k < before.queue.len() && (#[trigger] before.queue[k]).file_name
                        == offers[i].file_name;
                assert(after.queue[k].file_name == offers[i].file_name);
            } else if i == n - 1 && !on_disk[i] && !has_key(dl.active, offers[i].file_name) {
                assert(after.queue[before.queue.len() as int] == offers[i]);
            }
        }
        assert forall|k: int| dl.queue.len() <= k < after.queue.len() implies newly_offered(
            dl,
            offers,
            on_disk,
            n,
            #[trigger] after.queue[k],
        ) by {
            if k < before.queue.len() {
                assert(after.queue[k] == before.queue[k]);
                assert(newly_offered(dl, offers, on_disk, (n - 1) as nat, before.queue[k]));
            } else {
                assert(offers[n - 1] == after.queue[k]);
                if waits(dl.queue, offers[n - 1].file_name) {
                    let j = choose|j: int|
                        0 <= j < dl.queue.len() && (#[trigger] dl.queue[j]).file_name == offers[n
                            - 1].file_name;
                    assert(before.queue[j].file_name == offers[n - 1].file_name);
                }
            }
        }
    }
}

/// Files wait in the order in which they were offered.
pub proof fn law_offers_wait_in_order(
    dl: PeerDownloadView,
    offers: Seq<PendingFileView>,
    on_disk: Seq<bool>,
    m: nat,
    n: nat,
)
    requires
        m <= n <= offers.len(),
    ensures
        with_offers(dl, offers, on_disk, m).queue.is_prefix_of(
            with_offers(dl, offers, on_disk, n).queue,
        ),
    decreases n,
{
    if m < n {
        law_offers_wait_in_order(dl, offers, on_disk, m, (n - 1) as nat);
    }
}

/// A file that was written is no longer under way, the peer gets a receipt for it, the
/// user interface is told, the folder listed anew, and the path no longer marked as being
/// written. The other files under way are as before.
pub proof fn law_written_file_is_done(
    peer: Seq<char>,
    file_name: Seq<char>,
    path: Seq<char>,
    sync_path: Seq<char>,
    transfers: Seq<(Seq<char>, PeerDownloadView)>,
    out: Seq<EffectView>,
)
    ensures
        ({
            let (transfers1, out1) = write_done(
                peer,
                file_name,
                path,
                sync_path,
                transfers,
                out,
            );
            &&& deeds(out1) == deeds(out).push(
                EffectView::Event {
                    event: GuiEventView::TransferComplete { peer_id: peer, file_name },
                },
            ).push(EffectView::RefreshListing { path: sync_path }).push(
                EffectView::Request {
                    peer,
                    message: SyncMessageView::TransferComplete { file_name },
                },
            ).push(EffectView::ForgetWriting { path })
            &&& lookup(transfers, peer) is None ==> transfers1 == transfers
            &&& lookup(transfers, peer) matches Some(dl) ==> transfers1 == put(
                transfers,
                peer,
                PeerDownloadView { active: without(dl.active, file_name), queue: dl.queue },
            )
        }),
{
    lemma_deeds();
}

/// The chunks found on disk stand in their places, and no others do.
pub proof fn law_found_chunks_stand_in_place(local: Seq<Option<Seq<u8>>>, n: nat, i: usize)
    requires
        n <= local.len(),
        n <= usize::MAX,
    ensures
        local_map(local, n).dom().contains(i) <==> i < n && local[i as int] is Some,
        i < n && local[i as int] is Some ==> local_map(local, n)[i] == local[i as int]->0,
    decreases n,
{
    if n > 0 {
        law_found_chunks_stand_in_place(local, (n - 1) as nat, i);
    }
}

/// A file waits its turn: one starts as soon as there is room, the one that waited
/// longest first, and the others move up.
pub proof fn law_files_start_in_turn(dl: PeerDownloadView)
    ensures
        may_start(dl) <==> dl.active.len() < 3 && dl.queue.len() > 0,
        dl.queue.len() > 0 ==> seq![dl.queue[0]] + dequeued(dl).queue == dl.queue,
        dequeued(dl).active == dl.active,
{
    if dl.queue.len() > 0 {
        assert(seq![dl.queue[0]] + dequeued(dl).queue =~= dl.queue);
    }
}

/// A chunk with a plain hash is looked up on disk by that hash, one with a blinded hash
/// is not.
pub proof fn law_chunks_are_found_by_hash(
    pf: PendingFileView,
    index: Seq<(Seq<u8>, ChunkPlaceView)>,
    i: int,
)
    requires
        0 <= i < pf.chunk_hashes.len(),
    ensures
        pf.file_id is Some ==> local_places(pf, index).len() == 0,
        pf.file_id is None ==> local_places(pf, index).len() == pf.chunk_hashes.len()
            && local_places(pf, index)[i] == lookup(index, pf.chunk_hashes[i]),
{
}

/// An offered file counts as being on disk under its name; if it comes encrypted and
/// files rest in containers, also in its container.
pub proof fn law_offered_file_may_be_in_two_places(
    encrypted: bool,
    path: Seq<char>,
    vault_mode: bool,
    file_name: Seq<char>,
    p: Seq<char>,
)
    ensures
        places(encrypted, path, vault_mode, file_name).contains(p) <==> p == absolute(
            path,
            file_name,
        ) || (encrypted && vault_mode && has_file_name(absolute(path, file_name)) && p
            == vault_path(absolute(path, file_name))),
{
    let all = places(encrypted, path, vault_mode, file_name);
    assert(all[0] == absolute(path, file_name));
    if all.len() > 1 {
        assert(all[1] == vault_path(absolute(path, file_name)));
    }
}

/// What a peer with a key lists is told entry for entry: the name, the size, the number
/// of chunks, and for each chunk its blinded hash; the id is the blinded name.
pub proof fn law_manifest_tells_every_file(
    files: Seq<FileMetadataView>,
    node_name: Seq<char>,
    key: Seq<u8>,
    i: int,
)
    requires
        0 <= i < files.len(),
        files[i].total_chunks <= u32::MAX,
    ensures
        ({
            let payload = manifest_payload(files, node_name, key);
            let entry = payload.files[i];
            &&& payload.node_name == node_name
            &&& payload.files.len() == files.len()
            &&& entry.file_name == files[i].file_name
            &&& entry.file_size == files[i].file_size
            &&& entry.total_chunks == files[i].total_chunks
            &&& entry.file_id == blinded_name(key, files[i].file_name)
            &&& entry.blinded_chunk_hashes.len() == files[i].chunk_hashes.len()
            &&& forall|j: int|
                0 <= j < files[i].chunk_hashes.len() ==> #[trigger] entry.blinded_chunk_hashes[j]
                    == blinded_hash(key, files[i].chunk_hashes[j])
        }),
{
}

/// What is listed for a peer without a key is told entry for entry, and where there are
/// no files, that.
pub proof fn law_plain_manifest_tells_every_file(
    files: Seq<FileMetadataView>,
    node_name: Seq<char>,
    i: int,
)
    ensures
        files.len() == 0 ==> plain_manifest(files, node_name) is Empty,
        0 <= i < files.len() ==> (plain_manifest(files, node_name) matches
            SyncMessageView::Manifest { node_name: name, files: entries } && name == node_name
            && entries.len() == files.len() && entries[i].file_name == files[i].file_name
            && entries[i].file_size == files[i].file_size && entries[i].total_chunks
            == files[i].total_chunks && entries[i].chunk_hashes == files[i].chunk_hashes),
{
}

/// A manifest that was read makes the peer's name known, and offers every file of it with
/// all that was told of it. The ids are remembered. Without files or without a folder
/// nothing is offered.
pub proof fn law_read_manifest_offers_every_file(
    peer: Seq<char>,
    payload: EncryptedManifestPayloadView,
    s: AppStateView,
    out: Seq<EffectView>,
    i: int,
)
    requires
        0 <= i < payload.files.len(),
    ensures
        ({
            let (s1, out1, step) = manifest_step(peer, Ok(payload), s, out);
            let entry = payload.files[i];
            &&& deeds(out1) == deeds(out)
            &&& s1 == (AppStateView {
                peer_names: put(s.peer_names, peer, payload.node_name),
                inbound_file_ids: s1.inbound_file_ids,
                ..s
            })
            &&& s.sync_path is None ==> step is Done && s1.inbound_file_ids == s.inbound_file_ids
            &&& s.sync_path matches Some(folder) ==> {
                &&& step matches ResponseStepView::CheckFiles { path, offer } && path == folder
                    && offer.encrypted && offer.peer_name == payload.node_name && offer.files.len()
                    == payload.files.len() && {
                    let file = offer.files[i];
                    &&& file.file_name == entry.file_name
                    &&& file.total_chunks == entry.total_chunks
                    &&& file.file_size == entry.file_size
                    &&& file.chunk_hashes == entry.blinded_chunk_hashes
                    &&& file.file_id == Some(entry.file_id)
                }
                &&& s1.inbound_file_ids == put(
                    s.inbound_file_ids,
                    peer,
                    lookup(s1.inbound_file_ids, peer)->0,
                )
                &&& lookup(s1.inbound_file_ids, peer) matches Some(ids) && (lookup(
                    ids,
                    entry.file_id,
                ) matches Some(info) && exists|j: int|
                    i <= j < payload.files.len() && (#[trigger] payload.files[j]).file_id
                        == entry.file_id && info.file_name == payload.files[j].file_name
                        && info.file_size == payload.files[j].file_size && info.total_chunks
                        == payload.files[j].total_chunks && info.blinded_chunk_hashes
                        == payload.files[j].blinded_chunk_hashes)
            }
        }),
{
    lemma_deeds();
    if s.sync_path is Some {
        let n = payload.files.len();
        let ids = inbound_map(payload.files, n);
        law_put(s.inbound_file_ids, peer, ids, peer);
        lemma_inbound(payload.files, n, i);
    }
}

proof fn lemma_inbound(files: Seq<EncryptedFileEntryView>, n: nat, i: int)
    requires
        0 <= i < n <= files.len(),
    ensures
        lookup(inbound_map(files, n), files[i].file_id) matches Some(info) && exists|j: int|
            i <= j < n && (#[trigger] files[j]).file_id == files[i].file_id && info.file_name
                == files[j].file_name && info.file_size == files[j].file_size && info.total_chunks
                == files[j].total_chunks && info.blinded_chunk_hashes
                == files[j].blinded_chunk_hashes,
    decreases n,
{
    let last = files[n - 1];
    let before = inbound_map(files, (n - 1) as nat);
    law_put(before, last.file_id, inbound_info(last), files[i].file_id);
    if last.file_id == files[i].file_id {
        assert(files[n - 1].file_id == files[i].file_id);
    } else {
        lemma_inbound(files, (n - 1) as nat, i);
    }
}

/// A plain manifest makes the peer's name known, and offers every file of it with all
/// that was told of it. Without files or without a folder nothing is offered.
pub proof fn law_plain_manifest_offers_every_file(
    peer: Seq<char>,
    node_name: Seq<char>,
    files: Seq<FileEntryView>,
    now: u64,
    s: AppStateView,
    transfers: Seq<(Seq<char>, PeerDownloadView)>,
    out: Seq<EffectView>,
    i: int,
)
    ensures
        ({
            let (s1, transfers1, out1, step) = responded(
                SyncMessageView::Manifest { node_name, files },
                peer,
                now,
                s,
                transfers,
                out,
            );
            &&& transfers1 == transfers
            &&& deeds(out1) == deeds(out)
            &&& s1 == (AppStateView { peer_names: put(s.peer_names, peer, node_name), ..s })
            &&& s.sync_path is None || files.len() == 0 ==> step is Done
            &&& s.sync_path is Some && files.len() > 0 ==> (step matches
                ResponseStepView::CheckFiles { path, offer } && path == s.sync_path->0
                && !offer.encrypted && offer.peer_name == node_name && offer.files.len()
                == files.len() && (0 <= i < files.len() ==> {
                let file = offer.files[i];
                &&& file.file_name == files[i].file_name
                &&& file.total_chunks == files[i].total_chunks
                &&& file.file_size == files[i].file_size
                &&& file.chunk_hashes == files[i].chunk_hashes
                &&& file.file_id is None
            }))
        }),
{
    lemma_deeds();
}

/// A sealed manifest is opened with the key of the peer; what comes out is to be read. One
/// that does not open, or comes from a peer without a key, is dropped.
pub proof fn law_sealed_manifest_is_opened(
    peer: Seq<char>,
    ciphertext: Seq<u8>,
    now: u64,
    s: AppStateView,
    transfers: Seq<(Seq<char>, PeerDownloadView)>,
    out: Seq<EffectView>,
)
    ensures
        ({
            let (s1, transfers1, out1, step) = responded(
                SyncMessageView::EncryptedManifest { ciphertext },
                peer,
                now,
                s,
                transfers,
                out,
            );
            let opened = match lookup(s.peer_keys, peer) {
                Some(key) => opened_block(key, ciphertext, MANIFEST_AAD@),
                None => None,
            };
            &&& s1 == s
            &&& transfers1 == transfers
            &&& deeds(out1) == deeds(out)
            &&& opened is None ==> step is Done
            &&& opened matches Some(cbor) ==> step == (ResponseStepView::ParseManifest { cbor })
        }),
{
    lemma_deeds();
}

/// An acceptance of our proposal sets and stores the key that follows from our secret
/// and their public key, and the peer is then asked for its manifest, if there is a
/// folder. Without a proposal it changes nothing.
pub proof fn law_accepted_proposal_sets_the_key(
    peer: Seq<char>,
    theirs: Seq<u8>,
    now: u64,
    s: AppStateView,
    transfers: Seq<(Seq<char>, PeerDownloadView)>,
    out: Seq<EffectView>,
)
    ensures
        ({
            let (s1, transfers1, out1, step) = responded(
                SyncMessageView::KeyExchangeAccept { public_key: theirs },
                peer,
                now,
                s,
                transfers,
                out,
            );
            &&& transfers1 == transfers
            &&& step is Done
            &&& match lookup(s.pending_exchanges, peer) {
                None => s1 == s && deeds(out1) == deeds(out),
                Some(secret) => {
                    let key = shared_key(secret, theirs);
                    let status = EffectView::Event {
                        event: GuiEventView::VaultStatus {
                            wire_encrypted: true,
                            encrypted_protocol: s.encrypted_protocol,
                            key_fingerprint: shown_fingerprint(s1),
                        },
                    };
                    let kept = deeds(out).push(EffectView::PersistKey { peer, key }).push(status);
                    &&& s1 == (AppStateView {
                        pending_exchanges: without(s.pending_exchanges, peer),
                        peer_keys: put(s.peer_keys, peer, key),
                        ..s
                    })
                    &&& deeds(out1) == if s.sync_path is Some {
                        kept.push(
                            EffectView::Request {
                                peer,
                                message: SyncMessageView::ManifestRequest,
                            },
                        )
                    } else {
                        kept
                    }
                },
            }
        }),
{
    lemma_deeds();
    if let Some(secret) = lookup(s.pending_exchanges, peer) {
        law_put(s.peer_keys, peer, shared_key(secret, theirs), peer);
        lemma_position(put(s.peer_keys, peer, shared_key(secret, theirs)), peer);
    }
}

/// That a peer has no folder, or an error, is told to the user interface, and nothing
/// else follows.
pub proof fn law_refusals_are_told(
    peer: Seq<char>,
    message: Seq<char>,
    now: u64,
    s: AppStateView,
    transfers: Seq<(Seq<char>, PeerDownloadView)>,
    out: Seq<EffectView>,
)
    ensures
        ({
            let (s1, transfers1, out1, step) = responded(
                SyncMessageView::Empty,
                peer,
                now,
                s,
                transfers,
                out,
            );
            &&& s1 == s && transfers1 == transfers && step is Done
            &&& deeds(out1) == deeds(out).push(
                EffectView::Event { event: GuiEventView::RemoteEmpty { peer_id: peer } },
            )
        }),
        ({
            let (s1, transfers1, out1, step) = responded(
                SyncMessageView::Error { message },
                peer,
                now,
                s,
                transfers,
                out,
            );
            &&& s1 == s && transfers1 == transfers && step is Done
            &&& deeds(out1) == deeds(out).push(
                EffectView::Event { event: GuiEventView::PeerError { peer_id: peer, message } },
            )
        }),
        responded(SyncMessageView::Ack, peer, now, s, transfers, out) == (
            s,
            transfers,
            out,
            ResponseStepView::Done,
        ),
{
    lemma_deeds();
}

/// What a peer lists of a file leads to the file: if the receiver has as many chunks as it
/// was told there are, each with the hash that it was told, what it writes is the file.
/// This rests on no two different chunks having the same hash.
pub proof fn law_listed_file_is_fetched_whole(
    files: Seq<FileMetadataView>,
    node_name: Seq<char>,
    key: Seq<u8>,
    i: int,
    data: Seq<u8>,
    ts: FileTransferStateView,
    order: WriteOrderView,
)
    requires
        0 <= i < files.len(),
        chunk_count(data.len()) <= u32::MAX,
        files[i].total_chunks == chunk_count(data.len()),
        files[i].chunk_hashes == content_hashes(data),
        ({
            let entry = manifest_payload(files, node_name, key).files[i];
            let offered = pending_blinded(entry);
            &&& ts.metadata matches Some(m) && m.total_chunks == offered.total_chunks
                && m.chunk_hashes == offered.chunk_hashes && m.file_name == offered.file_name
            &&& forall|c: usize|
                c < offered.total_chunks ==> #[trigger] ts.received_chunks.dom().contains(c)
                    && blinded_hash(key, blake3_digest(ts.received_chunks[c]))
                    == offered.chunk_hashes[c as int]
        }),
        forall|c: int, other: Seq<u8>|
            0 <= c < chunk_count(data.len()) && #[trigger] blinded_hash(key, blake3_digest(other))
                == blinded_hash(key, blake3_digest(#[trigger] file_chunks(data)[c])) ==> other
                == file_chunks(data)[c],
        assembles(order, ts, false, None),
    ensures
        order.data == data,
        order.path == absolute(ts.sync_dir, files[i].file_name),
{
    let chunks = file_chunks(data);
    law_chunks_make_up_the_file(data);
    assert forall|c: int| 0 <= c < chunks.len() implies #[trigger] chunks_in_order(ts)[c]
        == chunks[c] by {
        let k = c as usize;
        assert(ts.received_chunks.dom().contains(k));
        assert(content_hashes(data)[c] == blake3_digest(chunks[c]));
        let other = ts.received_chunks[k];
        assert(blinded_hash(key, blake3_digest(other)) == blinded_hash(
            key,
            blake3_digest(chunks[c]),
        ));
    }
    assert(chunks_in_order(ts) =~= chunks);
}

proof fn lemma_all_revived(
    peer: Seq<char>,
    active: Seq<(Seq<char>, FileTransferStateView)>,
    now: u64,
    n: nat,
    out: Seq<EffectView>,
)
    requires
        n <= active.len(),
    ensures
        ({
            let (active1, out1) = all_revived(peer, active, now, n, out);
            &&& active1.len() == active.len()
            &&& deeds(out).is_prefix_of(deeds(out1))
            &&& forall|j: int| n <= j < active.len() ==> #[trigger] active1[j] == active[j]
            &&& forall|j: int|
                0 <= j < n ==> (#[trigger] active1[j]).0 == active[j].0 && active1[j].1 == revived(
                    peer,
                    active[j].0,
                    active[j].1,
                    now,
                    Seq::empty(),
                ).0
            &&& forall|j: int, i: int|
                #![trigger active[j], missing_of(active[j].1)[i]]
                0 <= j < n && active[j].1.metadata is Some && now >= active[j].1.last_activity
                    + 20000000000 && 0 <= i < missing_of(active[j].1).len() && i < 4
                    ==> deeds(out1).contains(
                    request_for(
                        peer,
                        active[j].1.file_id,
                        active[j].0,
                        missing_of(active[j].1)[i],
                    ),
                )
        }),
    decreases n,
{
    lemma_deeds();
    if n > 0 {
        lemma_all_revived(peer, active, now, (n - 1) as nat, out);
        let (before, out0) = all_revived(peer, active, now, (n - 1) as nat, out);
        let (active1, out1) = all_revived(peer, active, now, n, out);
        let (name, ts) = active[n - 1];
        assert(before[n - 1] == active[n - 1]);
        if ts.metadata is Some {
            law_silent_transfer_is_revived(peer, name, ts, now, out0);
        } else {
            assert(out1 == out0);
        }
        assert(deeds(out0).is_prefix_of(deeds(out1)));
        assert forall|j: int, i: int|
            #![trigger active[j], missing_of(active[j].1)[i]]
            0 <= j < n && active[j].1.metadata is Some && now >= active[j].1.last_activity
                + 20000000000 && 0 <= i < missing_of(active[j].1).len() && i < 4 implies deeds(
            out1,
        ).contains(
            request_for(peer, active[j].1.file_id, active[j].0, missing_of(active[j].1)[i]),
        ) by {
            let r = request_for(
                peer,
                active[j].1.file_id,
                active[j].0,
                missing_of(active[j].1)[i],
            );
            if j < n - 1 {
                assert(deeds(out0).contains(r));
                let k = choose|k: int| 0 <= k < deeds(out0).len() && deeds(out0)[k] == r;
                assert(deeds(out1)[k] == r);
            } else {
                assert(deeds(out1)[deeds(out0).len() + i] == r);
            }
        }
    }
}

/// The chunks of a transfer that did not come.
pub open spec fn missing_of(ts: FileTransferStateView) -> Seq<usize> {
    match ts.metadata {
        Some(m) => missing_below(ts.received_chunks, m.total_chunks as nat),
        None => Seq::empty(),
    }
}

/// When the clock strikes, every transfer of every peer that has been silent for twenty
/// seconds is asked for again; the files under way and those that wait stay.
pub proof fn law_no_silent_transfer_is_overlooked(
    transfers: Seq<(Seq<char>, PeerDownloadView)>,
    now: u64,
    n: nat,
    out: Seq<EffectView>,
    p: int,
    j: int,
    i: int,
)
    requires
        n <= transfers.len(),
        0 <= p < n,
        0 <= j < transfers[p].1.active.len(),
    ensures
        ({
            let (transfers1, out1) = stalls_checked(transfers, now, n, out);
            let (peer, dl) = transfers[p];
            let (name, ts) = dl.active[j];
            let ts1 = transfers1[p].1.active[j].1;
            &&& transfers1.len() == transfers.len()
            &&& transfers1[p].0 == peer
            &&& transfers1[p].1.queue == dl.queue
            &&& transfers1[p].1.active.len() == dl.active.len()
            &&& transfers1[p].1.active[j].0 == name
            &&& ts1.received_chunks == ts.received_chunks && ts1.metadata == ts.metadata
            &&& ts.metadata is Some && now >= ts.last_activity + 20000000000 && 0 <= i
                < missing_of(ts).len() ==> {
                &&& ts1.last_activity == now
                &&& i < 4 ==> deeds(out1).contains(
                    request_for(peer, ts.file_id, name, missing_of(ts)[i]),
                )
            }
            &&& now < ts.last_activity + 20000000000 ==> ts1 == ts
        }),
    decreases n,
{
    lemma_deeds();
    lemma_stalls_keep_the_rest(transfers, now, (n - 1) as nat, out);
    let (before, out0) = stalls_checked(transfers, now, (n - 1) as nat, out);
    let (peer, dl) = before[n - 1];
    lemma_all_revived(peer, dl.active, now, dl.active.len(), out0);
    if p < n - 1 {
        law_no_silent_transfer_is_overlooked(transfers, now, (n - 1) as nat, out, p, j, i);
        let out1 = stalls_checked(transfers, now, n, out).1;
        let (name, ts) = transfers[p].1.active[j];
        let r = request_for(transfers[p].0, ts.file_id, name, missing_of(ts)[i]);
        if deeds(out0).contains(r) {
            let k = choose|k: int| 0 <= k < deeds(out0).len() && deeds(out0)[k] == r;
            assert(deeds(out1)[k] == r);
        }
    } else {
        let ts = dl.active[j].1;
        if ts.metadata is Some {
            law_silent_transfer_is_revived(peer, dl.active[j].0, ts, now, Seq::empty());
        }
        assert(0 <= i < missing_of(ts).len() ==> missing_of(ts)[i] == missing_of(ts)[i]);
    }
}

proof fn lemma_stalls_keep_the_rest(
    transfers: Seq<(Seq<char>, PeerDownloadView)>,
    now: u64,
    n: nat,
    out: Seq<EffectView>,
)
    requires
        n <= transfers.len(),
    ensures
        stalls_checked(transfers, now, n, out).0.len() == transfers.len(),
        forall|j: int|
            n <= j < transfers.len() ==> #[trigger] stalls_checked(transfers, now, n, out).0[j]
                == transfers[j],
    decreases n,
{
    if n > 0 {
        lemma_stalls_keep_the_rest(transfers, now, (n - 1) as nat, out);
    }
}

/// What a node serves of a chunk by id is what the peer that asked takes: the answer opens
/// with their common key for this place, and has the hash that the manifest told.
pub proof fn law_served_chunk_by_id_is_taken(
    server: Seq<char>,
    file_id: Seq<u8>,
    file_name: Seq<char>,
    index: u32,
    plain: Seq<u8>,
    key: Seq<u8>,
    message: SyncMessageView,
    now: u64,
    s: AppStateView,
    transfers: Seq<(Seq<char>, PeerDownloadView)>,
    out: Seq<EffectView>,
)
    requires
        plain.len() <= AEAD_MESSAGE_MAX,
        encrypted_answer(message, file_id, index, Ok(plain), key),
        s.sync_path is Some,
        lookup(s.peer_keys, server) == Some(key),
        lookup(s.inbound_file_ids, server) matches Some(ids) && (lookup(ids, file_id) matches Some(
            info,
        ) && info.file_name == file_name),
        lookup(transfers, server) matches Some(dl) && (lookup(dl.active, file_name) matches Some(
            ts,
        ) && (ts.metadata matches Some(m) && index < m.chunk_hashes.len()
            && m.chunk_hashes[index as int] == blinded_hash(key, blake3_digest(plain)))),
    ensures
        chunk_taken(
            server,
            Some(file_id),
            file_name,
            index as usize,
            plain,
            now,
            (s, transfers, out),
            responded(message, server, now, s, transfers, out),
        ),
{
    if let SyncMessageView::EncryptedChunkResponse {
        file_id: id,
        chunk_index,
        data,
        blinded_hash: hash,
    } = message {
        law_right_chunk_by_id_is_taken(
            server,
            file_id,
            file_name,
            index,
            data,
            hash,
            key,
            plain,
            now,
            s,
            transfers,
            out,
        );
    }
}

/// The same holds of a chunk that is served by name, with or without a key.
pub proof fn law_served_chunk_is_taken(
    server: Seq<char>,
    file_name: Seq<char>,
    index: usize,
    plain: Seq<u8>,
    key: Option<Seq<u8>>,
    message: SyncMessageView,
    now: u64,
    s: AppStateView,
    transfers: Seq<(Seq<char>, PeerDownloadView)>,
    out: Seq<EffectView>,
)
    requires
        plain.len() <= AEAD_MESSAGE_MAX,
        plain_answer(message, file_name, index, Ok(plain), key),
        s.sync_path is Some,
        lookup(s.peer_keys, server) == key,
        lookup(transfers, server) matches Some(dl) && (lookup(dl.active, file_name) matches Some(
            ts,
        ) && (ts.metadata matches Some(m) && index < m.chunk_hashes.len()
            && m.chunk_hashes[index as int] == blake3_digest(plain))),
    ensures
        chunk_taken(
            server,
            None,
            file_name,
            index,
            plain,
            now,
            (s, transfers, out),
            responded(message, server, now, s, transfers, out),
        ),
{
    if let SyncMessageView::ChunkResponse { file_name: name, chunk_index, data, hash } = message {
        law_right_chunk_is_taken(
            server,
            file_name,
            index,
            data,
            hash,
            plain,
            now,
            s,
            transfers,
            out,
        );
    }
}

/// What could not be read or sealed is answered by an error, and never by data.
pub proof fn law_unread_chunk_is_answered_by_an_error(
    message: SyncMessageView,
    other: SyncMessageView,
    file_id: Seq<u8>,
    file_name: Seq<char>,
    index: u32,
    plaintext: Result<Seq<u8>, Seq<char>>,
    key: Seq<u8>,
)
    requires
        encrypted_answer(message, file_id, index, plaintext, key),
        plain_answer(other, file_name, index as usize, plaintext, Some(key)),
    ensures
        plaintext matches Err(e) ==> message == (SyncMessageView::Error { message: e }) && other
            == (SyncMessageView::Error { message: e }),
        plaintext matches Ok(plain) && plain.len() > AEAD_MESSAGE_MAX ==> message is Error && other
            is Error,
        plaintext matches Ok(plain) && plain.len() <= AEAD_MESSAGE_MAX ==> message
            is EncryptedChunkResponse && other is ChunkResponse,
{
}

/// A manifest that was sealed for a peer is opened by it to what was sealed.
pub proof fn law_sealed_manifest_arrives(
    server: Seq<char>,
    message: SyncMessageView,
    cbor: Seq<u8>,
    key: Seq<u8>,
    now: u64,
    s: AppStateView,
    transfers: Seq<(Seq<char>, PeerDownloadView)>,
    out: Seq<EffectView>,
)
    requires
        seals_manifest(message, cbor, key),
        lookup(s.peer_keys, server) == Some(key),
    ensures
        responded(message, server, now, s, transfers, out).3 == (ResponseStepView::ParseManifest {
            cbor,
        }),
{
}

/// The ids that a peer was told are those by which it can ask from then on, and no others;
/// other peers can ask as before.
pub proof fn law_told_ids_can_be_asked_for(
    s: AppStateView,
    peer: Seq<char>,
    ids: Seq<(Seq<u8>, Seq<char>)>,
    file_id: Seq<u8>,
    other: Seq<char>,
)
    ensures
        ({
            let s1 = ids_told(s, peer, ids);
            &&& s1 == (AppStateView { outbound_file_ids: s1.outbound_file_ids, ..s })
            &&& outbound_name(s1, peer, file_id) == lookup(ids, file_id)
            &&& other != peer ==> outbound_name(s1, other, file_id) == outbound_name(
                s,
                other,
                file_id,
            )
        }),
{
    law_put(s.outbound_file_ids, peer, ids, other);
    law_put(s.outbound_file_ids, peer, ids, peer);
}

/// What is downloaded from a peer goes on with what it was; from a peer of which nothing
/// is downloaded nothing is under way.
pub proof fn law_downloads_go_on(
    transfers: Seq<(Seq<char>, PeerDownloadView)>,
    peer: Seq<char>,
    other: Seq<char>,
    dl: PeerDownloadView,
)
    ensures
        download_of(put(transfers, peer, dl), peer) == dl,
        other != peer ==> download_of(put(transfers, peer, dl), other) == download_of(
            transfers,
            other,
        ),
        lookup(transfers, peer) is None ==> download_of(transfers, peer).active.len() == 0
            && download_of(transfers, peer).queue.len() == 0,
{
    law_put(transfers, peer, dl, other);
}

/// How many files are queued and under way is told; that nothing is left to do is told
/// exactly if none is.
pub proof fn law_what_is_left_is_told(
    offer: OfferView,
    peer: Seq<char>,
    dl: PeerDownloadView,
    newly: int,
)
    ensures
        ({
            let idle = dl.active.len() == 0 && dl.queue.len() == 0;
            &&& offer_told(offer, dl, newly) matches EffectView::Event { event }
                && event matches GuiEventView::Log { level, message } && (level == "OK"@ <==> idle)
            &&& summary(peer, dl) matches EffectView::Event { event }
                && event matches GuiEventView::Log { level, message } && (level == "OK"@ <==> idle)
            &&& !idle ==> summary(peer, dl) == logged(
                "INFO"@,
                decimal(dl.active.len()) + " active download(s), "@ + decimal(dl.queue.len())
                    + " in queue"@,
            )
            &&& !idle && !offer.encrypted ==> offer_told(offer, dl, newly) == logged(
                "INFO"@,
                offer.peer_name + ": "@ + decimal(newly as nat) + " file(s) queued ("@ + decimal(
                    dl.active.len(),
                ) + " active, "@ + decimal(dl.queue.len()) + " waiting)"@,
            )
        }),
{
    reveal_strlit("OK");
    reveal_strlit("INFO");
    assert("OK"@.len() != "INFO"@.len());
}

/// A file that is written from local data alone is complete, and nothing is sent; if it
/// could not be written, that is only told.
pub proof fn law_local_write_is_told(
    peer: Seq<char>,
    file_name: Seq<char>,
    error: Seq<char>,
    out: Seq<EffectView>,
)
    ensures
        deeds(local_write_told(peer, file_name, None, out)) == deeds(out).push(
            EffectView::Event {
                event: GuiEventView::TransferComplete { peer_id: peer, file_name },
            },
        ),
        deeds(local_write_told(peer, file_name, Some(error), out)) == deeds(out),
{
    lemma_deeds();
}

/// A chunk that cannot be opened with the peer's key is asked for again, by name or by id
/// as it came, and changes nothing.
pub proof fn law_unopened_chunk_is_asked_for_again(
    peer: Seq<char>,
    file_id: Seq<u8>,
    file_name: Seq<char>,
    index: usize,
    place: u32,
    data: Seq<u8>,
    hash: Seq<u8>,
    key: Seq<u8>,
    now: u64,
    s: AppStateView,
    transfers: Seq<(Seq<char>, PeerDownloadView)>,
    out: Seq<EffectView>,
)
    requires
        s.sync_path is Some,
        lookup(s.peer_keys, peer) == Some(key),
    ensures
        opened_block(key, data, seq![]) is None ==> ({
            let (s1, transfers1, out1, step) = responded(
                SyncMessageView::ChunkResponse { file_name, chunk_index: index, data, hash },
                peer,
                now,
                s,
                transfers,
                out,
            );
            &&& s1 == s && transfers1 == transfers && step is Done
            &&& deeds(out1) == deeds(out).push(request_for(peer, None, file_name, index))
        }),
        opened_block(key, data, position_aad(CHUNK_TAG@, file_id, place)) is None && (lookup(
            s.inbound_file_ids,
            peer,
        ) matches Some(ids) && lookup(ids, file_id) is Some) ==> ({
            let (s1, transfers1, out1, step) = responded(
                SyncMessageView::EncryptedChunkResponse {
                    file_id,
                    chunk_index: place,
                    data,
                    blinded_hash: hash,
                },
                peer,
                now,
                s,
                transfers,
                out,
            );
            &&& s1 == s && transfers1 == transfers && step is Done
            &&& deeds(out1) == deeds(out).push(
                EffectView::Request {
                    peer,
                    message: SyncMessageView::EncryptedChunkRequest {
                        file_id,
                        chunk_index: place,
                    },
                },
            )
        }),
{
    lemma_deeds();
}

/// With a chunk goes the hash by which the manifest lists it: that of its content, blinded
/// if the chunk is asked for by id.
pub proof fn law_served_chunk_tells_its_hash(
    message: SyncMessageView,
    file_name: Seq<char>,
    index: usize,
    file_id: Seq<u8>,
    place: u32,
    plain: Seq<u8>,
    key: Option<Seq<u8>>,
    transport: Seq<u8>,
)
    requires
        plain.len() <= AEAD_MESSAGE_MAX,
    ensures
        plain_answer(message, file_name, index, Ok(plain), key) ==> (message matches
            SyncMessageView::ChunkResponse { file_name: n, chunk_index: i, data, hash } && hash
            == blake3_digest(plain) && n == file_name && i == index),
        encrypted_answer(message, file_id, place, Ok(plain), transport) ==> (message matches
            SyncMessageView::EncryptedChunkResponse {
            file_id: id,
            chunk_index: i,
            data,
            blinded_hash: hash,
        } && hash == blinded_hash(transport, blake3_digest(plain)) && id == file_id && i == place),
{
}

proof fn lemma_hits_and_needs(local: Seq<Option<Seq<u8>>>, n: nat)
    requires
        n <= local.len() <= usize::MAX,
    ensures
        local_hits(local, n) + missing_below(local_map(local, local.len()), n).len() == n,
    decreases n,
{
    if n > 0 {
        lemma_hits_and_needs(local, (n - 1) as nat);
        law_found_chunks_stand_in_place(local, local.len(), (n - 1) as usize);
    }
}

/// What is told to be there already and what is told to be needed make up the file.
pub proof fn law_hits_and_needs_make_up_the_file(local: Seq<Option<Seq<u8>>>)
    requires
        local.len() <= usize::MAX,
    ensures
        local_hits(local, local.len()) + missing_below(
            local_map(local, local.len()),
            local.len(),
        ).len() == local.len(),
{
    lemma_hits_and_needs(local, local.len());
}

/// One chunk that came, and where it led: the number, the content, the time, and what
/// follows.
pub ghost struct TakenView {
    pub index: usize,
    pub plain: Seq<u8>,
    pub now: u64,
    pub after: (
        AppStateView,
        Seq<(Seq<char>, PeerDownloadView)>,
        Seq<EffectView>,
        ResponseStepView,
    ),
}

/// Where a run of chunks stands after the first `n`.
pub open spec fn run_at(
    start: (AppStateView, Seq<(Seq<char>, PeerDownloadView)>, Seq<EffectView>),
    run: Seq<TakenView>,
    n: int,
) -> (AppStateView, Seq<(Seq<char>, PeerDownloadView)>, Seq<EffectView>) {
    if n <= 0 {
        start
    } else {
        (run[n - 1].after.0, run[n - 1].after.1, run[n - 1].after.2)
    }
}

/// Every chunk of the run was taken, each where the one before led.
pub open spec fn all_taken(
    peer: Seq<char>,
    file_id: Option<Seq<u8>>,
    file_name: Seq<char>,
    start: (AppStateView, Seq<(Seq<char>, PeerDownloadView)>, Seq<EffectView>),
    run: Seq<TakenView>,
) -> bool {
    forall|k: int|
        0 <= k < run.len() ==> chunk_taken(
            peer,
            file_id,
            file_name,
            (#[trigger] run[k]).index,
            run[k].plain,
            run[k].now,
            run_at(start, run, k),
            run[k].after,
        )
}

/// Every chunk of a file is asked for: with each chunk that is taken the next one in turn
/// moves on by one, so that after as many as were left all have come or were asked for.
pub proof fn law_every_chunk_is_asked_for(
    peer: Seq<char>,
    file_name: Seq<char>,
    ts: FileTransferStateView,
    start: (AppStateView, Seq<(Seq<char>, PeerDownloadView)>, Seq<EffectView>),
    run: Seq<TakenView>,
)
    requires
        lookup(start.1, peer) matches Some(dl) && lookup(dl.active, file_name) == Some(ts),
        asked_in_turn(peer, file_name, ts, start.2),
        ts.next_request <= ts.metadata->0.total_chunks,
        all_taken(peer, ts.file_id, file_name, start, run),
    ensures
        ({
            let end = run_at(start, run, run.len() as int);
            let total = ts.metadata->0.total_chunks;
            lookup(end.1, peer) matches Some(dl) && (lookup(dl.active, file_name) matches Some(last)
                && {
                &&& last.metadata == ts.metadata && last.file_id == ts.file_id
                &&& last.next_request == if ts.next_request + run.len() < total {
                    ts.next_request + run.len()
                } else {
                    total as int
                }
                &&& asked_in_turn(peer, file_name, last, end.2)
                &&& ts.next_request + run.len() >= total ==> forall|i: usize|
                    i < total ==> #[trigger] last.received_chunks.dom().contains(i)
                        || end.2.contains(request_for(peer, ts.file_id, file_name, i))
            })
        }),
    decreases run.len(),
{
    if run.len() > 0 {
        let part = run.drop_last();
        assert forall|k: int| 0 <= k < part.len() implies chunk_taken(
            peer,
            ts.file_id,
            file_name,
            (#[trigger] part[k]).index,
            part[k].plain,
            part[k].now,
            run_at(start, part, k),
            part[k].after,
        ) by {
            assert(part[k] == run[k]);
            assert(run_at(start, part, k) == run_at(start, run, k));
        }
        law_every_chunk_is_asked_for(peer, file_name, ts, start, part);
        let n = part.len() as int;
        let t = run[n];
        let before = run_at(start, run, n);
        assert(before == run_at(start, part, n));
        let dl = lookup(before.1, peer)->0;
        let last = lookup(dl.active, file_name)->0;
        law_taken_chunks_leave_no_gap(
            peer,
            file_name,
            t.index,
            t.plain,
            t.now,
            before,
            t.after,
        );
        let kept = FileTransferStateView {
            received_chunks: last.received_chunks.insert(t.index, t.plain),
            last_activity: t.now,
            next_request: if last.next_request < last.metadata->0.total_chunks {
                (last.next_request + 1) as usize
            } else {
                last.next_request
            },
            ..last
        };
        law_put(
            before.1,
            peer,
            PeerDownloadView { active: put(dl.active, file_name, kept), ..dl },
            peer,
        );
        law_put(dl.active, file_name, kept, file_name);
    }
}

} // verus!
