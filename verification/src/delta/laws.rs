//! What the delta engine does, as seen from outside: what it sends, answers, shows and
//! keeps on each occasion, apart from the lines in the log of the window.
use crate::collections::{
    law_put, law_with_element, lookup, put, with_element, without, without_element,
};
use crate::delta::chunk::{
    changed_below, changes, chunk_data, hashes_of, law_changes_are_exact,
    law_chunk_data_make_up_the_file, named_metadata,
};
use crate::delta::effect::{all_asked, noted, target_asked, DeltaEffectView, UiEventView};
use crate::delta::engine::{
    cached_of, closed, connected, discovered, filled, fresh_engine, EngineView, SyncStateView,
};
use crate::delta::files::{
    changed_version, content_changed, path_changed, path_removed, shared_name, ChangeStepView,
    PathKindView,
};
use crate::delta::messages::SyncMessageView;
use crate::delta::metadata::{FileMetadataView, FileVersionView};
use crate::delta::operations::{
    blended, chunk_processed, is_listed, is_safe_name, rebuilt, stem_len, temporary, usable,
    RebuiltView,
};
use crate::delta::requests::{
    chunk_read, folder_changed, listed_names, looked_answer, removal_done, requested,
    DiskOutcomeView, FileOutcomeView, RequestStepView,
};
use crate::delta::responses::{
    assembled, chunks_asked, first_missing, parent_of, plain_transfer, responded,
    versioned_transfer, written, ResponseStepView,
};
use crate::delta::session::{new_session, startable, SyncSessionView};
use crate::delta::transfer::{
    all_chunks, came, law_complete_means_all_came, lemma_all_chunks, lemma_number_set,
    FileTransferStateView,
};
use crate::error::ErrorView;
use crate::paths::{
    is_plain, joined, law_last_component_can_be_replaced, law_name_leads_there_and_back,
    law_what_stays_below, names, normal, trimmed,
};
use crate::pieces::{law_pieces_make_up_the_whole, pieces};
use crate::primitives::blake3_digest;
use crate::text::{decimal, law_join_undoes_split};
use crate::vault::concatenation;
use vstd::prelude::*;

verus! {

/// A line in the log of the window, whatever it says.
pub open spec fn is_log(e: DeltaEffectView) -> bool {
    e matches DeltaEffectView::Ui { event } && event is Log
}

/// The effects without the lines in the log of the window, in order.
pub open spec fn deeds(out: Seq<DeltaEffectView>) -> Seq<DeltaEffectView>
    decreases out.len(),
{
    if out.len() == 0 {
        out
    } else if is_log(out.last()) {
        deeds(out.drop_last())
    } else {
        deeds(out.drop_last()).push(out.last())
    }
}

proof fn lemma_deeds()
    ensures
        forall|out: Seq<DeltaEffectView>, e: DeltaEffectView| #[trigger]
            deeds(out.push(e)) == if is_log(e) {
                deeds(out)
            } else {
                deeds(out).push(e)
            },
{
    assert forall|out: Seq<DeltaEffectView>, e: DeltaEffectView| #[trigger]
        deeds(out.push(e)) == if is_log(e) {
            deeds(out)
        } else {
            deeds(out).push(e)
        } by {
        assert(out.push(e).drop_last() =~= out);
    }
}

/// The effects with something for the window to show, where there is a window.
pub open spec fn and_shown(
    window: bool,
    out: Seq<DeltaEffectView>,
    event: UiEventView,
) -> Seq<DeltaEffectView> {
    if window {
        out.push(DeltaEffectView::Ui { event })
    } else {
        out
    }
}

/// The effects with one message to each of the peers.
pub open spec fn and_sent(
    peers: Seq<Seq<char>>,
    out: Seq<DeltaEffectView>,
    message: SyncMessageView,
) -> Seq<DeltaEffectView> {
    out + peers.map_values(|peer: Seq<char>| DeltaEffectView::Request { peer, message })
}

proof fn lemma_sent(
    peers: Seq<Seq<char>>,
    out: Seq<DeltaEffectView>,
    message: SyncMessageView,
)
    ensures
        deeds(and_sent(peers, out, message)) == and_sent(peers, deeds(out), message),
    decreases peers.len(),
{
    lemma_deeds();
    let all = peers.map_values(|peer: Seq<char>| DeltaEffectView::Request { peer, message });
    if peers.len() > 0 {
        let d = peers.drop_last();
        let some = d.map_values(|peer: Seq<char>| DeltaEffectView::Request { peer, message });
        lemma_sent(d, out, message);
        assert(all =~= some.push(all.last()));
        assert(out + all =~= (out + some).push(all.last()));
        assert(deeds(out) + all =~= (deeds(out) + some).push(all.last()));
    } else {
        assert(out + all =~= out);
        assert(deeds(out) + all =~= deeds(out));
    }
}

/// A peer that is discovered is shown, and dialled if it is the one to sync with; no other
/// is.
pub proof fn law_only_the_target_is_dialled(
    e: EngineView,
    peer: Seq<char>,
    addr: Seq<char>,
    out: Seq<DeltaEffectView>,
)
    ensures
        ({
            let seen = and_shown(
                e.window,
                deeds(out),
                UiEventView::PeerDiscovered { peer_id: peer, addr },
            );
            deeds(discovered(e, peer, addr, out)) == if e.target == Some(peer) {
                seen.push(DeltaEffectView::Dial { addr })
            } else {
                seen
            }
        }),
{
    lemma_deeds();
}

/// A peer that connects is shown and counts as connected. The one to sync with is asked
/// for its files, and is the one that everything is asked of from then on.
pub proof fn law_the_target_is_asked_for_its_files(
    e: EngineView,
    peer: Seq<char>,
    out: Seq<DeltaEffectView>,
)
    ensures
        ({
            let (e1, out1) = connected(e, peer, out);
            let seen = and_shown(e.window, deeds(out), UiEventView::PeerConnected(peer));
            &&& deeds(out1) == if e.target == Some(peer) {
                seen.push(
                    DeltaEffectView::Request { peer, message: SyncMessageView::ListFiles },
                )
            } else {
                seen
            }
            &&& e1 == (EngineView {
                sync: SyncStateView {
                    connected_peers: with_element(e.sync.connected_peers, peer),
                    sync_target_peer: if e.target == Some(peer) {
                        Some(peer)
                    } else {
                        e.sync.sync_target_peer
                    },
                    ..e.sync
                },
                ..e
            })
        }),
{
    lemma_deeds();
}

/// A peer that leaves is shown and no longer counts as connected; if it was the one to
/// sync with, there is none until it comes back. Nothing else is lost.
pub proof fn law_a_peer_that_leaves(e: EngineView, peer: Seq<char>, out: Seq<DeltaEffectView>)
    ensures
        ({
            let (e1, out1) = closed(e, peer, out);
            &&& deeds(out1) == and_shown(
                e.window,
                deeds(out),
                UiEventView::PeerDisconnected(peer),
            )
            &&& e1 == (EngineView {
                sync: SyncStateView {
                    connected_peers: without_element(e.sync.connected_peers, peer),
                    sync_target_peer: if e.sync.sync_target_peer == Some(peer) {
                        None
                    } else {
                        e.sync.sync_target_peer
                    },
                    ..e.sync
                },
                ..e
            })
        }),
{
    lemma_deeds();
}

/// An engine that was just made knows its folder, its author and whom to sync with, and
/// nothing else.
pub proof fn law_an_engine_starts_empty(
    root: Seq<char>,
    author: Seq<char>,
    target: Option<Seq<char>>,
    window: bool,
)
    ensures
        ({
            let e = fresh_engine(root, author, target, window);
            &&& e.root == root && e.author == author && e.target == target && e.window == window
            &&& e.currently_writing.len() == 0 && e.recently_remote.len() == 0
            &&& e.cached.len() == 0 && e.local_versions.len() == 0 && e.remote_versions.len() == 0
            &&& e.sync.current_session is None && !e.sync.is_initial_sync_complete
            &&& e.sync.transfer_states.len() == 0 && e.sync.connected_peers.len() == 0
            &&& e.sync.sync_target_peer is None
        }),
{
}

/// The requests for the metadata of the files from the end of a list down to place `n`.
pub open spec fn metadata_asked(
    target: Option<Seq<char>>,
    files: Seq<Seq<char>>,
    n: int,
) -> Seq<DeltaEffectView> {
    match target {
        Some(peer) => Seq::new(
            (files.len() - n) as nat,
            |i: int|
                DeltaEffectView::Request {
                    peer,
                    message: SyncMessageView::MetaDataRequest {
                        file_name: files[files.len() - 1 - i],
                    },
                },
        ),
        None => Seq::empty(),
    }
}

/// Files of a session are started from the end of the list, until as many are active as
/// may be or none is left. The metadata of exactly those that start are asked for, once
/// each, and they are then active; what was active or completed stays so.
pub proof fn law_files_are_started(
    s: SyncSessionView,
    window: bool,
    target: Option<Seq<char>>,
    words: Seq<char>,
    out: Seq<DeltaEffectView>,
    i: int,
    f: Seq<char>,
)
    ensures
        ({
            let (s1, out1) = filled(s, window, target, words, out);
            let n = s1.pending_files.len() as int;
            &&& n <= s.pending_files.len()
            &&& s1.pending_files == s.pending_files.take(n)
            &&& s1.max_concurrent == s.max_concurrent
            &&& s1.completed_files == s.completed_files
            &&& n == 0 || s1.active_transfers.len() >= s.max_concurrent
            &&& n < s.pending_files.len() ==> s.active_transfers.len() < s.max_concurrent
            &&& n <= i < s.pending_files.len() ==> s1.active_transfers.contains(
                s.pending_files[i],
            )
            &&& s1.active_transfers.contains(f) ==> s.active_transfers.contains(f)
                || s.pending_files.skip(n).contains(f)
            &&& s.active_transfers.contains(f) ==> s1.active_transfers.contains(f)
            &&& deeds(out1) == deeds(out) + metadata_asked(target, s.pending_files, n)
        }),
    decreases s.pending_files.len(),
{
    lemma_deeds();
    let (s1, out1) = filled(s, window, target, words, out);
    let files = s.pending_files;
    if startable(s) {
        let name = files.last();
        let s0 = SyncSessionView {
            pending_files: files.drop_last(),
            active_transfers: with_element(s.active_transfers, name),
            ..s
        };
        let request = SyncMessageView::MetaDataRequest { file_name: name };
        let out0 = target_asked(
            target,
            noted(window, out, UiEventView::Log(words + name)),
            request,
        );
        assert(filled(s, window, target, words, out) == filled(s0, window, target, words, out0));
        law_files_are_started(s0, window, target, words, out0, i, f);
        law_files_are_started(s0, window, target, words, out0, i, name);
        law_with_element(s.active_transfers, name, f);
        let n = s1.pending_files.len() as int;
        assert(files.take(n) =~= files.drop_last().take(n));
        let rest = files.drop_last().skip(n);
        let more = files.skip(n);
        if rest.contains(f) {
            let k = choose|k: int| 0 <= k < rest.len() && rest[k] == f;
            assert(more[k] == f);
        }
        assert(more[files.len() - 1 - n] == name);
        if let Some(peer) = target {
            assert(deeds(out) + metadata_asked(target, files, n) =~= deeds(out).push(
                DeltaEffectView::Request { peer, message: request },
            ) + metadata_asked(target, files.drop_last(), n));
        } else {
            assert(deeds(out) + metadata_asked(target, files, n) =~= deeds(out));
            assert(deeds(out0) + metadata_asked(target, files.drop_last(), n) =~= deeds(out0));
        }
    } else {
        assert(files.take(files.len() as int) =~= files);
        assert(deeds(out) + metadata_asked(target, files, files.len() as int) =~= deeds(out));
    }
}

/// A list of files begins a session with all of them, three at a time. An empty list means
/// that the first sync is complete.
pub proof fn law_offered_files_begin_a_session(
    e: EngineView,
    peer: Seq<char>,
    names: Seq<Seq<char>>,
    out: Seq<DeltaEffectView>,
)
    ensures
        ({
            let (e1, out1, step) = responded(
                e,
                peer,
                SyncMessageView::FileList { file_names: names },
                out,
            );
            &&& step is Done
            &&& names.len() == 0 ==> {
                &&& deeds(out1) == and_shown(e.window, deeds(out), UiEventView::SyncComplete)
                &&& e1 == (EngineView {
                    sync: SyncStateView { is_initial_sync_complete: true, ..e.sync },
                    ..e
                })
            }
            &&& names.len() > 0 ==> (e1.sync.current_session matches Some(s) && {
                let n = s.pending_files.len() as int;
                &&& e1 == (EngineView {
                    sync: SyncStateView { current_session: Some(s), ..e.sync },
                    ..e
                })
                &&& s.max_concurrent == 3
                &&& s.completed_files.len() == 0
                &&& s.pending_files == names.take(n)
                &&& n == 0 || s.active_transfers.len() >= 3
                &&& forall|i: int|
                    n <= i < names.len() ==> s.active_transfers.contains(#[trigger] names[i])
                &&& deeds(out1) == deeds(out) + metadata_asked(
                    e.sync.sync_target_peer,
                    names,
                    n,
                )
            })
        }),
{
    lemma_deeds();
    if names.len() > 0 {
        let s0 = new_session(names, 3);
        let words = "Requesting metadata for: "@;
        let out0 = noted(
            e.window,
            out,
            UiEventView::Log("Received file list with "@ + decimal(names.len()) + " files"@),
        );
        law_files_are_started(s0, e.window, e.sync.sync_target_peer, words, out0, 0, names[0]);
        let s = filled(s0, e.window, e.sync.sync_target_peer, words, out0).0;
        assert forall|i: int| s.pending_files.len() <= i < names.len() implies
            s.active_transfers.contains(#[trigger] names[i]) by {
            law_files_are_started(
                s0,
                e.window,
                e.sync.sync_target_peer,
                words,
                out0,
                i,
                names[0],
            );
        }
    }
}

/// The requests for the first `n` of numbered chunks.
pub open spec fn chunks_wanted(
    target: Option<Seq<char>>,
    file_name: Seq<char>,
    numbers: Seq<usize>,
    n: nat,
) -> Seq<DeltaEffectView> {
    match target {
        Some(peer) => Seq::new(
            n,
            |i: int|
                DeltaEffectView::Request {
                    peer,
                    message: SyncMessageView::ChunkRequest {
                        file_name,
                        chunk_index: numbers[i],
                    },
                },
        ),
        None => Seq::empty(),
    }
}

proof fn lemma_chunks_asked(
    target: Option<Seq<char>>,
    file_name: Seq<char>,
    numbers: Seq<usize>,
    n: nat,
    out: Seq<DeltaEffectView>,
)
    ensures
        deeds(chunks_asked(target, file_name, numbers, n, out)) == deeds(out) + chunks_wanted(
            target,
            file_name,
            numbers,
            n,
        ),
    decreases n,
{
    lemma_deeds();
    let all = chunks_wanted(target, file_name, numbers, n);
    if n > 0 {
        lemma_chunks_asked(target, file_name, numbers, (n - 1) as nat, out);
        let some = chunks_wanted(target, file_name, numbers, (n - 1) as nat);
        if target is Some {
            assert(deeds(out) + all =~= (deeds(out) + some).push(all[n - 1]));
        } else {
            assert(deeds(out) + all =~= deeds(out) + some);
        }
    } else {
        assert(deeds(out) + all =~= deeds(out));
    }
}

/// Metadata without a version begin a transfer for which every chunk of the file is
/// needed, in order; the first of them, up to eight, are asked for.
pub proof fn law_plain_transfer_needs_every_chunk(
    e: EngineView,
    peer: Seq<char>,
    m: FileMetadataView,
    out: Seq<DeltaEffectView>,
)
    ensures
        ({
            let (e1, out1, step) = responded(
                e,
                peer,
                SyncMessageView::Metadata {
                    file_name: m.file_name,
                    total_chunks: m.total_chunks,
                    file_size: m.file_size,
                    chunk_hashes: m.chunk_hashes,
                },
                out,
            );
            let all = Seq::new(m.total_chunks as nat, |i: int| i as usize);
            let begun = and_shown(
                e.window,
                deeds(out),
                UiEventView::SyncProgress {
                    file_name: m.file_name,
                    received: 0,
                    required: m.total_chunks,
                },
            );
            &&& step is Done
            &&& deeds(out1) == begun + chunks_wanted(
                e.sync.sync_target_peer,
                m.file_name,
                all,
                if m.total_chunks < 8 {
                    m.total_chunks as nat
                } else {
                    8
                },
            )
            &&& lookup(e1.sync.transfer_states, m.file_name) matches Some(ts) && {
                &&& e1 == (EngineView {
                    sync: SyncStateView {
                        transfer_states: put(e.sync.transfer_states, m.file_name, ts),
                        ..e.sync
                    },
                    ..e
                })
                &&& ts.metadata == Some(m)
                &&& ts.required_chunks == all
                &&& ts.current_version is None && ts.previous_version is None
                &&& ts.received_chunks == Map::<usize, Seq<u8>>::empty()
                &&& ts.file_path == e.root
                &&& ts.chunks_expected == m.total_chunks
                &&& ts.next_chunk_to_request == 0 && ts.chunks_in_flight == 0
                &&& ts.failed_chunks.len() == 0
            }
        }),
{
    lemma_deeds();
    let n = m.total_chunks as nat;
    let all = Seq::new(n, |i: int| i as usize);
    lemma_all_chunks(n);
    assert(all_chunks(n) =~= all);
    let (e1, out1, step) = responded(
        e,
        peer,
        SyncMessageView::Metadata {
            file_name: m.file_name,
            total_chunks: m.total_chunks,
            file_size: m.file_size,
            chunk_hashes: m.chunk_hashes,
        },
        out,
    );
    let ts = plain_transfer(e.root, m);
    law_put(e.sync.transfer_states, m.file_name, ts, m.file_name);
    lemma_none_came(ts.required_chunks, n);
    let count: nat = if n < 8 {
        n
    } else {
        8
    };
    let begun = choose|o: Seq<DeltaEffectView>|
        deeds(o) == and_shown(
            e.window,
            deeds(out),
            UiEventView::SyncProgress {
                file_name: m.file_name,
                received: 0,
                required: m.total_chunks,
            },
        ) && out1 == #[trigger] chunks_asked(
            e.sync.sync_target_peer,
            m.file_name,
            all,
            count,
            o,
        );
    lemma_chunks_asked(e.sync.sync_target_peer, m.file_name, all, count, begun);
}

proof fn lemma_none_came(required: Seq<usize>, n: nat)
    ensures
        came(required, Map::<usize, Seq<u8>>::empty(), n) == 0,
    decreases n,
{
    if n > 0 {
        lemma_none_came(required, (n - 1) as nat);
    }
}

/// A version that a peer tells is kept as the peer's. If it follows on the one that is
/// here and tells which chunks changed, those are needed, else every chunk of the file;
/// the first that are needed, up to eight, are asked for. With a window there are no
/// versions.
pub proof fn law_version_needs_what_changed(
    e: EngineView,
    peer: Seq<char>,
    v: FileVersionView,
    out: Seq<DeltaEffectView>,
)
    requires
        v.changed_chunks.no_duplicates(),
    ensures
        ({
            let m = v.metadata;
            let (e1, out1, step) = responded(
                e,
                peer,
                SyncMessageView::VersionedMetadata {
                    file_name: m.file_name,
                    file_hash: v.file_hash,
                    parent_hash: v.parent_hash,
                    total_chunks: m.total_chunks,
                    file_size: m.file_size,
                    chunk_hashes: m.chunk_hashes,
                    changed_chunks: v.changed_chunks,
                    timestamp: v.timestamp,
                    author: v.author,
                },
                out,
            );
            let here = lookup(e.local_versions, m.file_name);
            let follows = here matches Some(p) && v.parent_hash == Some(p.file_hash)
                && v.changed_chunks.len() > 0;
            let needed = if follows {
                v.changed_chunks
            } else {
                Seq::new(m.total_chunks as nat, |i: int| i as usize)
            };
            &&& step is Done
            &&& e.window ==> e1 == e && out1 == out
            &&& !e.window ==> {
                &&& deeds(out1) == deeds(out) + chunks_wanted(
                    e.sync.sync_target_peer,
                    m.file_name,
                    needed,
                    if needed.len() < 8 {
                        needed.len()
                    } else {
                        8
                    },
                )
                &&& lookup(e1.sync.transfer_states, m.file_name) matches Some(ts) && {
                    &&& e1 == (EngineView {
                        sync: SyncStateView {
                            transfer_states: put(e.sync.transfer_states, m.file_name, ts),
                            ..e.sync
                        },
                        remote_versions: put(e.remote_versions, m.file_name, v),
                        ..e
                    })
                    &&& ts.metadata == Some(m)
                    &&& ts.current_version == Some(v)
                    &&& ts.previous_version == if follows {
                        here
                    } else {
                        None
                    }
                    &&& ts.required_chunks == needed
                    &&& ts.received_chunks == Map::<usize, Seq<u8>>::empty()
                    &&& ts.file_path == e.root
                    &&& ts.chunks_expected == needed.len() as usize
                    &&& ts.next_chunk_to_request == 0 && ts.chunks_in_flight == 0
                    &&& ts.failed_chunks.len() == 0
                }
            }
        }),
{
    lemma_deeds();
    if !e.window {
        let m = v.metadata;
        let n = m.total_chunks as nat;
        let all = Seq::new(n, |i: int| i as usize);
        lemma_all_chunks(n);
        assert(all_chunks(n) =~= all);
        lemma_number_set(v.changed_chunks, v.changed_chunks.len());
        assert(v.changed_chunks.take(v.changed_chunks.len() as int) =~= v.changed_chunks);
        let ts = versioned_transfer(
            e.root,
            v,
            parent_of(v, lookup(e.local_versions, m.file_name)),
        );
        law_put(e.sync.transfer_states, m.file_name, ts, m.file_name);
        let count: nat = if ts.required_chunks.len() < 8 {
            ts.required_chunks.len()
        } else {
            8
        };
        lemma_chunks_asked(
            e.sync.sync_target_peer,
            m.file_name,
            ts.required_chunks,
            count,
            out,
        );
    }
}

/// Progress is the number of needed chunks that came.
pub proof fn law_progress_counts_what_came(
    required: Seq<usize>,
    received: Map<usize, Seq<u8>>,
    n: nat,
)
    requires
        n <= required.len(),
    ensures
        came(required, received, n) == required.take(n as int).filter(
            |i: usize| received.dom().contains(i),
        ).len(),
    decreases n,
{
    let test = |i: usize| received.dom().contains(i);
    if n > 0 {
        law_progress_counts_what_came(required, received, (n - 1) as nat);
        let some = required.take(n as int);
        assert(some.drop_last() =~= required.take(n - 1));
        reveal(Seq::filter);
    } else {
        reveal(Seq::filter);
        assert(required.take(0).len() == 0);
    }
}

/// The first of the needed chunks, in their order, that did not come.
pub open spec fn is_next_missing(
    required: Seq<usize>,
    received: Map<usize, Seq<u8>>,
    i: usize,
) -> bool {
    exists|k: int|
        #![trigger required[k]]
        0 <= k < required.len() && required[k] == i && !received.dom().contains(i) && forall|j: int|
            0 <= j < k ==> received.dom().contains(#[trigger] required[j])
}

proof fn lemma_first(required: Seq<usize>, received: Map<usize, Seq<u8>>, n: nat)
    requires
        n <= required.len(),
        forall|j: int| 0 <= j < n ==> received.dom().contains(#[trigger] required[j]),
    ensures
        first_missing(required, received, n) matches Some(i) ==> is_next_missing(
            required,
            received,
            i,
        ),
        first_missing(required, received, n) is None ==> forall|j: int|
            0 <= j < required.len() ==> received.dom().contains(#[trigger] required[j]),
    decreases required.len() - n,
{
    if n < required.len() && received.dom().contains(required[n as int]) {
        lemma_first(required, received, n + 1);
    } else if n < required.len() {
        assert(required[n as int] == required[n as int]);
    }
}

/// A transfer after a chunk came: with the hash that the metadata gave it is kept, with any
/// other it is noted as failed and not kept. One chunk fewer is under way.
pub open spec fn with_arrived(
    ts: FileTransferStateView,
    m: FileMetadataView,
    index: usize,
    data: Seq<u8>,
) -> FileTransferStateView {
    let flying = if ts.chunks_in_flight > 0 {
        (ts.chunks_in_flight - 1) as usize
    } else {
        0
    };
    if index < m.chunk_hashes.len() && m.chunk_hashes[index as int] == blake3_digest(data) {
        FileTransferStateView {
            chunks_in_flight: flying,
            received_chunks: ts.received_chunks.insert(index, data),
            failed_chunks: without_element(ts.failed_chunks, index),
            ..ts
        }
    } else {
        FileTransferStateView {
            chunks_in_flight: flying,
            failed_chunks: with_element(ts.failed_chunks, index),
            ..ts
        }
    }
}

/// Every needed chunk came.
pub open spec fn nothing_missing(ts: FileTransferStateView) -> bool {
    forall|j: int|
        0 <= j < ts.required_chunks.len() ==> ts.received_chunks.dom().contains(
            #[trigger] ts.required_chunks[j],
        )
}

/// The engine with a transfer in this state, and otherwise as before.
pub open spec fn in_state(
    e: EngineView,
    file_name: Seq<char>,
    ts: FileTransferStateView,
) -> EngineView {
    EngineView {
        sync: SyncStateView {
            transfer_states: put(e.sync.transfer_states, file_name, ts),
            ..e.sync
        },
        ..e
    }
}

/// A chunk of this file is still needed: with a window, as long as not all chunks came;
/// else, as long as this one did not.
pub open spec fn still_needed(
    e: EngineView,
    ts: FileTransferStateView,
    m: FileMetadataView,
    index: usize,
) -> bool {
    if e.window {
        ts.received_chunks.len() < m.total_chunks
    } else {
        ts.required_chunks.len() > 0 && !ts.received_chunks.dom().contains(index)
    }
}

/// A chunk that is not needed any more changes nothing. With the last needed chunk, if it
/// has the right hash, the file is put together, on top of the file on disk where only
/// part of it was needed.
pub proof fn law_last_chunk_completes_the_file(
    e: EngineView,
    peer: Seq<char>,
    file_name: Seq<char>,
    index: usize,
    data: Seq<u8>,
    hash: Seq<u8>,
    ts: FileTransferStateView,
    m: FileMetadataView,
    out: Seq<DeltaEffectView>,
)
    requires
        lookup(e.sync.transfer_states, file_name) == Some(ts),
        ts.metadata == Some(m),
    ensures
        ({
            let response = SyncMessageView::ChunkResponse {
                chunk_index: index,
                data,
                hash,
                file_name,
            };
            let (e1, out1, step) = responded(e, peer, response, out);
            let t = with_arrived(ts, m, index, data);
            let fits = index < m.chunk_hashes.len() && m.chunk_hashes[index as int]
                == blake3_digest(data);
            &&& !still_needed(e, ts, m, index) ==> e1 == e && out1 == out && step is Done
            &&& still_needed(e, ts, m, index) && fits && ts.required_chunks.len() > 0
                && nothing_missing(t) ==> {
                &&& e1 == in_state(e, file_name, t)
                &&& out1 == out
                &&& step == (ResponseStepView::Assemble {
                    file_name,
                    chunk_index: index,
                    existing: if ts.required_chunks.len() < m.total_chunks && is_safe_name(
                        ts.file_path,
                        m.file_name,
                    ) {
                        Some(joined(ts.file_path, m.file_name))
                    } else {
                        None
                    },
                })
            }
        }),
{
    let t = chunk_processed(ts, index, data);
    law_complete_means_all_came(t);
    assert(t == with_arrived(ts, m, index, data));
}

/// While chunks are missing, or after one with a wrong hash, the progress is shown, and if
/// fewer than eight chunks are under way one further chunk is asked for: with a window the
/// next in turn, else the first that is needed and did not come.
pub proof fn law_further_chunk_is_asked_for(
    e: EngineView,
    peer: Seq<char>,
    file_name: Seq<char>,
    index: usize,
    data: Seq<u8>,
    hash: Seq<u8>,
    ts: FileTransferStateView,
    m: FileMetadataView,
    out: Seq<DeltaEffectView>,
)
    requires
        lookup(e.sync.transfer_states, file_name) == Some(ts),
        ts.metadata == Some(m),
        still_needed(e, ts, m, index),
        index >= m.chunk_hashes.len() || m.chunk_hashes[index as int] != blake3_digest(data)
            || ts.required_chunks.len() == 0 || !nothing_missing(
            with_arrived(ts, m, index, data),
        ),
    ensures
        ({
            let response = SyncMessageView::ChunkResponse {
                chunk_index: index,
                data,
                hash,
                file_name,
            };
            let (e1, out1, step) = responded(e, peer, response, out);
            let t = with_arrived(ts, m, index, data);
            let progress = and_shown(
                e.window,
                deeds(out),
                UiEventView::SyncProgress {
                    file_name,
                    received: came(
                        t.required_chunks,
                        t.received_chunks,
                        t.required_chunks.len(),
                    ) as usize,
                    required: t.required_chunks.len() as usize,
                },
            );
            let target = e.sync.sync_target_peer;
            let free = t.chunks_in_flight < 8;
            &&& step is Done
            &&& !free || (e.window && t.next_chunk_to_request >= m.total_chunks) || (!e.window && (
            target is None || nothing_missing(t))) ==> e1 == in_state(e, file_name, t) && deeds(
                out1,
            ) == progress
            &&& free && e.window && t.next_chunk_to_request < m.total_chunks ==> {
                &&& e1 == in_state(
                    e,
                    file_name,
                    FileTransferStateView {
                        next_chunk_to_request: (t.next_chunk_to_request + 1) as usize,
                        chunks_in_flight: (t.chunks_in_flight + 1) as usize,
                        ..t
                    },
                )
                &&& deeds(out1) == if target is Some {
                    progress.push(chunk_wanted_of(target->0, file_name, t.next_chunk_to_request))
                } else {
                    progress
                }
            }
            &&& free && !e.window && target is Some && !nothing_missing(t) ==> {
                &&& e1 == in_state(
                    e,
                    file_name,
                    FileTransferStateView {
                        chunks_in_flight: (t.chunks_in_flight + 1) as usize,
                        ..t
                    },
                )
                &&& exists|i: usize| #[trigger]
                    is_next_missing(t.required_chunks, t.received_chunks, i) && deeds(out1)
                        == progress.push(chunk_wanted_of(target->0, file_name, i))
            }
        }),
{
    lemma_deeds();
    let t = chunk_processed(ts, index, data);
    law_complete_means_all_came(t);
    assert(t == with_arrived(ts, m, index, data));
    lemma_first(t.required_chunks, t.received_chunks, 0);
    if let Some(i) = first_missing(t.required_chunks, t.received_chunks, 0) {
        let k = choose|k: int|
            #![trigger t.required_chunks[k]]
            0 <= k < t.required_chunks.len() && t.required_chunks[k] == i
                && !t.received_chunks.dom().contains(i) && forall|j: int|
                0 <= j < k ==> t.received_chunks.dom().contains(#[trigger] t.required_chunks[j]);
        assert(!t.received_chunks.dom().contains(t.required_chunks[k]));
    }
}

/// The request for a chunk.
pub open spec fn chunk_wanted_of(
    peer: Seq<char>,
    file_name: Seq<char>,
    index: usize,
) -> DeltaEffectView {
    DeltaEffectView::Request {
        peer,
        message: SyncMessageView::ChunkRequest { file_name, chunk_index: index },
    }
}

/// A chunk for a file that is not being fetched changes nothing.
pub proof fn law_stray_chunk_is_ignored(
    e: EngineView,
    peer: Seq<char>,
    file_name: Seq<char>,
    index: usize,
    data: Seq<u8>,
    hash: Seq<u8>,
    out: Seq<DeltaEffectView>,
)
    requires
        lookup(e.sync.transfer_states, file_name) is None,
    ensures
        responded(
            e,
            peer,
            SyncMessageView::ChunkResponse { chunk_index: index, data, hash, file_name },
            out,
        ) == (e, out, ResponseStepView::Done),
{
}

/// An empty folder completes the first sync; an error is shown; a receipt changes nothing.
pub proof fn law_other_responses(
    e: EngineView,
    peer: Seq<char>,
    message: Seq<char>,
    out: Seq<DeltaEffectView>,
)
    ensures
        ({
            let (e1, out1, step) = responded(e, peer, SyncMessageView::Empty, out);
            &&& step is Done
            &&& e1 == (EngineView {
                sync: SyncStateView { is_initial_sync_complete: true, ..e.sync },
                ..e
            })
            &&& deeds(out1) == and_shown(e.window, deeds(out), UiEventView::SyncComplete)
        }),
        responded(e, peer, SyncMessageView::Error { message }, out) == (
            e,
            and_shown(
                e.window,
                out,
                UiEventView::Error("Error from "@ + peer + ": "@ + message),
            ),
            ResponseStepView::Done,
        ),
        ({
            let (e1, out1, step) = responded(e, peer, SyncMessageView::TransferComplete, out);
            e1 == e && deeds(out1) == deeds(out) && step is Done
        }),
{
    lemma_deeds();
}

/// What is shown and noted of a file that was written, before the session goes on.
pub open spec fn file_done(
    e: EngineView,
    file_name: Seq<char>,
    out: Seq<DeltaEffectView>,
) -> (EngineView, Seq<DeltaEffectView>) {
    let ts = lookup(e.sync.transfer_states, file_name);
    let version = match ts {
        Some(t) => t.current_version,
        None => None,
    };
    (
        EngineView {
            sync: SyncStateView {
                transfer_states: without(e.sync.transfer_states, file_name),
                ..e.sync
            },
            currently_writing: without_element(e.currently_writing, file_name),
            cached: without(e.cached, file_name),
            local_versions: match version {
                Some(v) => put(e.local_versions, file_name, v),
                None => e.local_versions,
            },
            ..e
        },
        and_shown(
            e.window,
            match ts {
                Some(t) => and_shown(
                    e.window,
                    deeds(out),
                    UiEventView::SyncProgress {
                        file_name,
                        received: came(
                            t.required_chunks,
                            t.received_chunks,
                            t.required_chunks.len(),
                        ) as usize,
                        required: t.required_chunks.len() as usize,
                    },
                ),
                None => deeds(out),
            },
            UiEventView::FileComplete(file_name),
        ),
    )
}

/// A file that was written is no longer being fetched or written, and nothing old of it is
/// kept; its version is the one on record. It is shown as complete and completed in the
/// session, which goes on with the next files, and is over when none is left: then the
/// first sync is complete, and that is shown.
pub proof fn law_written_file_is_done(
    e: EngineView,
    file_name: Seq<char>,
    out: Seq<DeltaEffectView>,
)
    ensures
        ({
            let (e1, out1) = written(e, file_name, out);
            let (done, told) = file_done(e, file_name, out);
            &&& e.sync.current_session is None ==> e1 == done && deeds(out1) == told
            &&& e.sync.current_session matches Some(s) ==> {
                let rest = SyncSessionView {
                    active_transfers: without_element(s.active_transfers, file_name),
                    completed_files: with_element(s.completed_files, file_name),
                    ..s
                };
                let (s1, _) = filled(
                    rest,
                    e.window,
                    e.sync.sync_target_peer,
                    "Starting next file: "@,
                    out,
                );
                let asked = told + metadata_asked(
                    e.sync.sync_target_peer,
                    s.pending_files,
                    s1.pending_files.len() as int,
                );
                let over = s1.pending_files.len() == 0 && s1.active_transfers.len() == 0;
                &&& e1 == (EngineView {
                    sync: SyncStateView {
                        current_session: if over {
                            None
                        } else {
                            Some(s1)
                        },
                        is_initial_sync_complete: over || e.sync.is_initial_sync_complete,
                        ..done.sync
                    },
                    ..done
                })
                &&& deeds(out1) == if over {
                    and_shown(e.window, asked, UiEventView::SyncComplete)
                } else {
                    asked
                }
            }
        }),
{
    lemma_deeds();
    if let Some(s) = e.sync.current_session {
        let rest = SyncSessionView {
            active_transfers: without_element(s.active_transfers, file_name),
            completed_files: with_element(s.completed_files, file_name),
            ..s
        };
        let words = "Starting next file: "@;
        let target = e.sync.sync_target_peer;
        let out1 = match lookup(e.sync.transfer_states, file_name) {
            Some(ts) => noted(
                e.window,
                out,
                UiEventView::SyncProgress {
                    file_name,
                    received: came(
                        ts.required_chunks,
                        ts.received_chunks,
                        ts.required_chunks.len(),
                    ) as usize,
                    required: ts.required_chunks.len() as usize,
                },
            ),
            None => out,
        };
        let out2 = noted(e.window, out1, UiEventView::FileComplete(file_name));
        law_files_are_started(rest, e.window, target, words, out2, 0, file_name);
        lemma_fill_ignores_effects(rest, e.window, target, words, out, out2);
    }
}

proof fn lemma_fill_ignores_effects(
    s: SyncSessionView,
    window: bool,
    target: Option<Seq<char>>,
    words: Seq<char>,
    out: Seq<DeltaEffectView>,
    other: Seq<DeltaEffectView>,
)
    ensures
        filled(s, window, target, words, out).0 == filled(s, window, target, words, other).0,
    decreases s.pending_files.len(),
{
    if startable(s) {
        let name = s.pending_files.last();
        let s0 = SyncSessionView {
            pending_files: s.pending_files.drop_last(),
            active_transfers: with_element(s.active_transfers, name),
            ..s
        };
        let request = SyncMessageView::MetaDataRequest { file_name: name };
        lemma_fill_ignores_effects(
            s0,
            window,
            target,
            words,
            target_asked(target, noted(window, out, UiEventView::Log(words + name)), request),
            target_asked(target, noted(window, other, UiEventView::Log(words + name)), request),
        );
    }
}

/// What a file is told as: its name, its size, and the hash of each of its chunks. The
/// chunks are full but for the last, which is not empty, and put together they are the
/// file; an empty file has one empty chunk.
pub proof fn law_file_is_described(name: Seq<char>, data: Seq<u8>, i: int)
    requires
        data.len() <= u64::MAX,
        chunk_data(data).len() <= usize::MAX,
    ensures
        ({
            let m = named_metadata(name, data);
            let chunks = chunk_data(data);
            &&& m.file_name == name
            &&& m.file_size == data.len()
            &&& m.total_chunks == chunks.len()
            &&& m.chunk_hashes.len() == chunks.len()
            &&& 0 <= i < chunks.len() ==> m.chunk_hashes[i] == blake3_digest(chunks[i])
            &&& concatenation(chunks) == data
            &&& 0 <= i < chunks.len() && data.len() > 0 ==> 0 < chunks[i].len() <= 16777216
            &&& 0 <= i < chunks.len() - 1 ==> chunks[i].len() == 16777216
            &&& data.len() == 0 ==> chunks.len() == 1
        }),
{
    law_chunk_data_make_up_the_file(data);
    if data.len() > 0 {
        law_pieces_make_up_the_whole(data, 16777216);
        if 0 <= i < pieces(data, 16777216).len() - 1 {
            lemma_full_pieces(data, 16777216, i);
        }
    }
}

proof fn lemma_full_pieces(data: Seq<u8>, size: nat, i: int)
    requires
        size > 0,
        0 <= i < pieces(data, size).len() - 1,
    ensures
        pieces(data, size)[i].len() == size,
    decreases data.len(),
{
    if data.len() > size && i > 0 {
        let rest = data.skip(size as int);
        assert(pieces(data, size)[i] == pieces(rest, size)[i - 1]);
        lemma_full_pieces(rest, size, i - 1);
    }
}

/// A new version has the hash of the content and the metadata of the file, the given
/// author and time. If there was one before it follows on that, and tells exactly the
/// chunks that are new or have another hash than before; else it follows on none, and all
/// chunks are new.
pub proof fn law_version_follows_the_one_before(
    e: EngineView,
    rel: Seq<char>,
    data: Seq<u8>,
    timestamp: u64,
    i: usize,
)
    requires
        chunk_data(data).len() <= usize::MAX,
    ensures
        ({
            let v = changed_version(e, rel, data, timestamp);
            let hashes = hashes_of(data);
            &&& v.file_hash == blake3_digest(data)
            &&& v.metadata == named_metadata(rel, data)
            &&& v.author == e.author
            &&& v.timestamp == timestamp
            &&& match lookup(e.local_versions, rel) {
                None => v.parent_hash is None && (v.changed_chunks.contains(i) <==> i
                    < hashes.len()),
                Some(p) => v.parent_hash == Some(p.file_hash) && (v.changed_chunks.contains(i)
                    <==> i < hashes.len() && (i >= p.metadata.chunk_hashes.len()
                    || p.metadata.chunk_hashes[i as int] != hashes[i as int])),
            }
        }),
{
    let hashes = hashes_of(data);
    match lookup(e.local_versions, rel) {
        Some(p) => {
            law_changes_are_exact(p.metadata.chunk_hashes, hashes, hashes.len());
            assert(changed_below(p.metadata.chunk_hashes, hashes, hashes.len()) == changes(
                p.metadata.chunk_hashes,
                hashes,
            ));
        },
        None => {
            let all = changed_version(e, rel, data, timestamp).changed_chunks;
            assert(all.len() == hashes.len());
            if i < hashes.len() {
                assert(all[i as int] == i);
            }
            if all.contains(i) {
                let k = choose|k: int| 0 <= k < all.len() && all[k] == i;
            }
        },
    }
}

/// A file that changed goes on record with its new version, and every connected peer is
/// told of that version, once each.
pub proof fn law_changed_file_is_told_to_all(
    e: EngineView,
    rel: Seq<char>,
    data: Seq<u8>,
    timestamp: u64,
    out: Seq<DeltaEffectView>,
)
    ensures
        ({
            let (e1, out1) = content_changed(e, rel, data, timestamp, out);
            let v = changed_version(e, rel, data, timestamp);
            &&& e1 == (EngineView { local_versions: put(e.local_versions, rel, v), ..e })
            &&& out1 == and_sent(
                e.sync.connected_peers,
                out,
                SyncMessageView::FileChangedWithVersion {
                    file_name: rel,
                    file_hash: blake3_digest(data),
                    changed_chunk_count: v.changed_chunks.len() as usize,
                    timestamp,
                },
            )
        }),
{
    let v = changed_version(e, rel, data, timestamp);
    let message = SyncMessageView::FileChangedWithVersion {
        file_name: rel,
        file_hash: blake3_digest(data),
        changed_chunk_count: v.changed_chunks.len() as usize,
        timestamp,
    };
    assert(content_changed(e, rel, data, timestamp, out).1 =~= and_sent(
        e.sync.connected_peers,
        out,
        message,
    ));
}

/// What happens in the folder is told to every connected peer, once each, under its name
/// in the folder: a new folder; with a window, a changed file, of which nothing old is
/// kept; without one, the file is read first. Nothing is told before the first sync is
/// complete, of what a peer did, of what is being written, of hidden or temporary files,
/// and of what is gone.
pub proof fn law_changes_in_the_folder_are_told(
    e: EngineView,
    path: Seq<char>,
    kind: PathKindView,
    out: Seq<DeltaEffectView>,
)
    ensures
        ({
            let (e1, out1, step) = path_changed(e, path, kind, out);
            let rel = shared_name(e.root, path);
            let peers = e.sync.connected_peers;
            let theirs = e.recently_remote.contains(rel);
            let ready = e.sync.is_initial_sync_complete;
            let told = ready && !theirs && kind is File && !e.currently_writing.contains(rel)
                && is_listed(rel);
            &&& !ready ==> e1 == e && out1 == out && step is Done
            &&& ready && theirs ==> e1 == (EngineView {
                recently_remote: without_element(e.recently_remote, rel),
                ..e
            }) && out1 == out && step is Done
            &&& ready && !theirs && kind is Directory ==> e1 == e && step is Done && deeds(out1)
                == and_sent(peers, deeds(out), SyncMessageView::DirectoryCreated { path: rel })
            &&& ready && !theirs && !(kind is Directory) && !told ==> e1 == e && out1 == out
                && step is Done
            &&& told ==> {
                &&& e1 == (EngineView { cached: without(e.cached, rel), ..e })
                &&& e.window ==> step is Done && deeds(out1) == and_sent(
                    peers,
                    deeds(out),
                    SyncMessageView::FileChanged { file_name: rel },
                )
                &&& !e.window ==> deeds(out1) == deeds(out) && step == (
                ChangeStepView::ReadChanged { file_name: rel, path })
            }
        }),
{
    lemma_deeds();
    let rel = shared_name(e.root, path);
    let peers = e.sync.connected_peers;
    let made = noted(e.window, out, UiEventView::Log("Directory created: "@ + rel));
    let changed = noted(e.window, out, UiEventView::Log("File changed: "@ + rel));
    let created = SyncMessageView::DirectoryCreated { path: rel };
    let file = SyncMessageView::FileChanged { file_name: rel };
    lemma_sent(peers, made, created);
    lemma_sent(peers, changed, file);
    assert(all_asked(peers, made, created) =~= and_sent(peers, made, created));
    assert(all_asked(peers, changed, file) =~= and_sent(peers, changed, file));
}

/// What is removed from the folder is told to every connected peer, once each, and nothing
/// of a removed file stays on record. The same exceptions hold.
pub proof fn law_removals_are_told(
    e: EngineView,
    path: Seq<char>,
    folder: bool,
    out: Seq<DeltaEffectView>,
)
    ensures
        ({
            let (e1, out1) = path_removed(e, path, folder, out);
            let rel = shared_name(e.root, path);
            let theirs = e.recently_remote.contains(rel);
            let ready = e.sync.is_initial_sync_complete;
            &&& !ready ==> e1 == e && out1 == out
            &&& ready && theirs ==> e1 == (EngineView {
                recently_remote: without_element(e.recently_remote, rel),
                ..e
            }) && out1 == out
            &&& ready && !theirs ==> {
                &&& deeds(out1) == and_sent(
                    e.sync.connected_peers,
                    deeds(out),
                    if folder {
                        SyncMessageView::DirectoryDeleted { path: rel }
                    } else {
                        SyncMessageView::FileDeleted { file_name: rel }
                    },
                )
                &&& e1 == if folder {
                    e
                } else {
                    EngineView {
                        cached: without(e.cached, rel),
                        local_versions: without(e.local_versions, rel),
                        ..e
                    }
                }
            }
        }),
{
    lemma_deeds();
    let rel = shared_name(e.root, path);
    let peers = e.sync.connected_peers;
    let dir = noted(e.window, out, UiEventView::Log("Directory removed: "@ + rel));
    let file = noted(e.window, out, UiEventView::Log("File removed: "@ + rel));
    let d = SyncMessageView::DirectoryDeleted { path: rel };
    let f = SyncMessageView::FileDeleted { file_name: rel };
    lemma_sent(peers, dir, d);
    lemma_sent(peers, file, f);
    assert(all_asked(peers, dir, d) =~= and_sent(peers, dir, d));
    assert(all_asked(peers, file, f) =~= and_sent(peers, file, f));
}

/// The name under which peers know a file leads back to it, and a path in the folder has
/// its name there.
pub proof fn law_shared_name_leads_back(root: Seq<char>, rel: Seq<char>)
    requires
        root.len() > 0,
        root.last() != '/',
        is_plain(rel),
    ensures
        shared_name(root, joined(root, rel)) == rel,
{
    reveal_strlit("/");
    law_name_leads_there_and_back(root, rel);
    law_join_undoes_split(rel, '/');
    assert("/"@ =~= seq!['/']);
}

/// Hidden and temporary files are not listed, all others are, in order.
pub proof fn law_files_are_listed(names: Seq<Seq<char>>, n: nat, name: Seq<char>)
    requires
        n <= names.len(),
    ensures
        is_listed(name) <==> !(name.len() > 0 && name[0] == '.') && !(name.len() >= 4 && name.skip(
            name.len() - 4,
        ) == ".tmp"@),
        listed_names(names, n) == names.take(n as int).filter(|f: Seq<char>| is_listed(f)),
    decreases n,
{
    reveal_strlit(".");
    reveal_strlit(".tmp");
    if name.len() > 0 {
        assert(name.subrange(0, 1)[0] == name[0]);
        if name[0] == '.' {
            assert(name.subrange(0, 1) =~= "."@);
        }
    }
    if name.len() >= 4 {
        assert(name.subrange(name.len() - 4, name.len() as int) =~= name.skip(name.len() - 4));
    }
    reveal(Seq::filter);
    if n > 0 {
        law_files_are_listed(names, (n - 1) as nat, name);
        assert(names.take(n as int).drop_last() =~= names.take(n - 1));
    } else {
        assert(names.take(0).len() == 0);
    }
}

/// A request for metadata is answered from what is kept, where there is a window and
/// something is kept, else the file is looked at first.
pub proof fn law_metadata_request_is_served(
    e: EngineView,
    peer: Seq<char>,
    file_name: Seq<char>,
    out: Seq<DeltaEffectView>,
)
    requires
        is_safe_name(e.root, file_name),
    ensures
        ({
            let request = SyncMessageView::MetaDataRequest { file_name };
            let (e1, out1, step) = requested(e, peer, request, out);
            let kept = lookup(e.cached, file_name);
            &&& e1 == e
            &&& e.window && kept is Some ==> out1 == out.push(
                DeltaEffectView::Respond {
                    message: SyncMessageView::Metadata {
                        file_name: kept->0.metadata.file_name,
                        total_chunks: kept->0.metadata.total_chunks,
                        file_size: kept->0.metadata.file_size,
                        chunk_hashes: kept->0.metadata.chunk_hashes,
                    },
                },
            )
            &&& e.window && kept is Some ==> {
                let name = kept->0.metadata.file_name;
                &&& lookup(e.cached, name) is Some ==> step is Done
                &&& lookup(e.cached, name) is None ==> step == (RequestStepView::ReadForCache {
                    file_name: name,
                    path: joined(e.root, name),
                })
            }
            &&& !e.window || kept is None ==> out1 == out && step == (
            RequestStepView::ReadMetadata { file_name, path: joined(e.root, file_name) })
        }),
{
}

/// What is told of a file that was looked at: without a window its version, which is the
/// one on record as long as the content is that of the record, else a new one; with a
/// window only its metadata. What could not be read is answered by an error.
pub proof fn law_looked_at_file_is_told(
    e: EngineView,
    file_name: Seq<char>,
    outcome: FileOutcomeView,
    timestamp: u64,
)
    ensures
        ({
            let answer = looked_answer(e, file_name, outcome, timestamp);
            &&& !(outcome is Content) ==> answer is Error
            &&& outcome is Outside ==> answer == (SyncMessageView::Error {
                message: "Invalid file path"@,
            })
            &&& outcome matches FileOutcomeView::Content { data } ==> {
                let m = named_metadata(file_name, data);
                let here = lookup(e.local_versions, file_name);
                let v = if here is Some && here->0.file_hash == blake3_digest(data) {
                    here->0
                } else {
                    changed_version(e, file_name, data, timestamp)
                };
                &&& e.window ==> answer == (SyncMessageView::Metadata {
                    file_name,
                    total_chunks: m.total_chunks,
                    file_size: m.file_size,
                    chunk_hashes: m.chunk_hashes,
                })
                &&& !e.window ==> answer == (SyncMessageView::VersionedMetadata {
                    file_name,
                    file_hash: v.file_hash,
                    parent_hash: v.parent_hash,
                    total_chunks: m.total_chunks,
                    file_size: m.file_size,
                    chunk_hashes: m.chunk_hashes,
                    changed_chunks: v.changed_chunks,
                    timestamp: v.timestamp,
                    author: v.author,
                })
            }
        }),
{
}

/// A chunk is answered from what is kept of the file, which is read first where nothing
/// is, and then kept. The answer has the chunk at the place that was asked for, with its
/// hash; past the end there is none, and what could not be read is answered by an error.
pub proof fn law_chunk_request_is_served(
    e: EngineView,
    peer: Seq<char>,
    file_name: Seq<char>,
    index: usize,
    data: Seq<u8>,
    outcome: FileOutcomeView,
    out: Seq<DeltaEffectView>,
)
    requires
        is_safe_name(e.root, file_name),
        chunk_data(data).len() <= usize::MAX,
    ensures
        ({
            let request = SyncMessageView::ChunkRequest { file_name, chunk_index: index };
            let (e1, out1, step) = requested(e, peer, request, out);
            let answer = if index < chunk_data(data).len() {
                SyncMessageView::ChunkResponse {
                    chunk_index: index,
                    data: chunk_data(data)[index as int],
                    hash: blake3_digest(chunk_data(data)[index as int]),
                    file_name,
                }
            } else {
                SyncMessageView::Error {
                    message: "Chunk "@ + decimal(index as nat) + " out of range"@,
                }
            };
            &&& e1 == e
            &&& lookup(e.cached, file_name) == Some(cached_of(file_name, data)) ==> step is Done
                && out1 == out.push(DeltaEffectView::Respond { message: answer })
            &&& lookup(e.cached, file_name) is None ==> out1 == out && step == (
            RequestStepView::ReadChunk {
                file_name,
                chunk_index: index,
                path: joined(e.root, file_name),
            })
            &&& chunk_read(e, file_name, index, FileOutcomeView::Content { data }, out) == (
                EngineView {
                    cached: put(e.cached, file_name, cached_of(file_name, data)),
                    ..e
                },
                out.push(DeltaEffectView::Respond { message: answer }),
            )
            &&& !(outcome is Content) ==> {
                let (e2, out2) = chunk_read(e, file_name, index, outcome, out);
                &&& e2 == e
                &&& out2.len() == out.len() + 1
                &&& out.is_prefix_of(out2)
                &&& out2.last() matches DeltaEffectView::Respond { message } && message is Error
            }
            &&& cached_of(file_name, data).metadata == named_metadata(file_name, data)
        }),
{
}

/// A change that a peer tells is acknowledged, and its metadata are asked of that peer;
/// what was kept of the file is not kept any more, and the change is remembered as the
/// peer's. With a version, only if that is not known from the peer already and not older
/// than the one that is here.
pub proof fn law_told_change_is_looked_into(
    e: EngineView,
    peer: Seq<char>,
    file_name: Seq<char>,
    file_hash: Seq<u8>,
    count: usize,
    timestamp: u64,
    out: Seq<DeltaEffectView>,
)
    requires
        is_safe_name(e.root, file_name),
    ensures
        ({
            let noticed = EngineView {
                cached: without(e.cached, file_name),
                recently_remote: with_element(e.recently_remote, file_name),
                ..e
            };
            let asked = deeds(out).push(
                DeltaEffectView::Request {
                    peer,
                    message: SyncMessageView::MetaDataRequest { file_name },
                },
            ).push(DeltaEffectView::Respond { message: SyncMessageView::TransferComplete });
            let (e1, out1, step) = requested(
                e,
                peer,
                SyncMessageView::FileChanged { file_name },
                out,
            );
            let (e2, out2, step2) = requested(
                e,
                peer,
                SyncMessageView::FileChangedWithVersion {
                    file_name,
                    file_hash,
                    changed_chunk_count: count,
                    timestamp,
                },
                out,
            );
            let known = lookup(e.remote_versions, file_name) matches Some(v) && v.file_hash
                == file_hash;
            let older = lookup(e.local_versions, file_name) matches Some(v) && timestamp
                < v.timestamp;
            &&& step is Done && step2 is Done
            &&& e1 == noticed && deeds(out1) == asked
            &&& e.window ==> e2 == e && out2 == out.push(
                DeltaEffectView::Respond {
                    message: SyncMessageView::Error { message: "Unexpected request type"@ },
                },
            )
            &&& !e.window && (known || older) ==> e2 == e && out2 == out.push(
                DeltaEffectView::Respond { message: SyncMessageView::TransferComplete },
            )
            &&& !e.window && !known && !older ==> e2 == noticed && deeds(out2) == asked
        }),
{
    lemma_deeds();
}

/// Folders are made and removed, and files removed, where a peer tells, in the folder; with
/// a window no files are. The files of the folder are listed on request.
pub proof fn law_told_folders_and_removals(
    e: EngineView,
    peer: Seq<char>,
    path: Seq<char>,
    out: Seq<DeltaEffectView>,
)
    requires
        is_safe_name(e.root, path),
    ensures
        ({
            let target = joined(e.root, path);
            let made = requested(e, peer, SyncMessageView::DirectoryCreated { path }, out);
            let gone = requested(e, peer, SyncMessageView::DirectoryDeleted { path }, out);
            let file = requested(
                e,
                peer,
                SyncMessageView::FileDeleted { file_name: path },
                out,
            );
            let list = requested(e, peer, SyncMessageView::ListFiles, out);
            &&& made.0 == e && deeds(made.1) == deeds(out) && made.2 == (
            RequestStepView::MakeDirectory { path, target })
            &&& gone.0 == e && deeds(gone.1) == deeds(out) && gone.2 == (
            RequestStepView::RemoveDirectory { path, target })
            &&& !e.window ==> file == (
                e,
                out,
                RequestStepView::RemoveFile { file_name: path, target },
            )
            &&& e.window ==> file.0 == e && file.2 is Done && file.1 == out.push(
                DeltaEffectView::Respond {
                    message: SyncMessageView::Error { message: "Unexpected request type"@ },
                },
            )
            &&& list.0 == e && deeds(list.1) == deeds(out) && list.2 is ListFiles
        }),
{
    lemma_deeds();
}

/// What was done on disk for a peer is remembered as the peer's, and acknowledged; so is
/// what was not, without being remembered. What lies outside the folder is refused. Of a
/// file that is gone nothing is kept that came from peers.
pub proof fn law_what_was_done_for_a_peer(
    e: EngineView,
    path: Seq<char>,
    outcome: DiskOutcomeView,
    out: Seq<DeltaEffectView>,
)
    ensures
        ({
            let (e1, out1) = folder_changed(e, path, outcome, out);
            let (e2, out2) = removal_done(e, path, outcome, out);
            let remembered = if outcome is Changed {
                EngineView { recently_remote: with_element(e.recently_remote, path), ..e }
            } else {
                e
            };
            let answer = DeltaEffectView::Respond {
                message: if outcome is Outside {
                    SyncMessageView::Error { message: "Invalid file path"@ }
                } else {
                    SyncMessageView::TransferComplete
                },
            };
            &&& e1 == remembered && out1 == out.push(answer)
            &&& out2 == out.push(answer)
            &&& e2 == if outcome is Outside {
                e
            } else {
                EngineView {
                    cached: without(e.cached, path),
                    remote_versions: without(e.remote_versions, path),
                    ..remembered
                }
            }
        }),
{
}

/// What only answers a request is no request, and is refused.
pub proof fn law_answers_are_no_requests(
    e: EngineView,
    peer: Seq<char>,
    request: SyncMessageView,
    out: Seq<DeltaEffectView>,
)
    requires
        request is FileList || request is Metadata || request is VersionedMetadata || request
            is ChunkResponse || request is TransferComplete || request is Empty || request is Error,
    ensures
        requested(e, peer, request, out) == (
            e,
            out.push(
                DeltaEffectView::Respond {
                    message: SyncMessageView::Error { message: "Unexpected request type"@ },
                },
            ),
            RequestStepView::Done,
        ),
{
}

/// A file is put together only from metadata, under a name that stays in the folder, from
/// chunks that came or, where only part of the file was needed, stand on disk, and only to
/// what its version announced. It is first written beside its place.
pub proof fn law_what_is_put_together(
    ts: FileTransferStateView,
    m: FileMetadataView,
    existing: Option<Seq<u8>>,
    i: int,
)
    requires
        ts.metadata == Some(m),
        rebuilt(ts, existing) is Ok,
    ensures
        ({
            let f = rebuilt(ts, existing)->Ok_0;
            &&& is_safe_name(ts.file_path, m.file_name)
            &&& f.path == joined(ts.file_path, m.file_name)
            &&& f.temp_path == temporary(f.path)
            &&& ts.current_version matches Some(v) ==> blake3_digest(f.data) == v.file_hash
            &&& 0 <= i < m.total_chunks ==> ts.received_chunks.dom().contains(i as usize) || (0
                < ts.required_chunks.len() < m.total_chunks && (existing matches Some(old) && i
                < chunk_data(old).len()))
            &&& exists|chunks: Seq<Seq<u8>>|
                #![trigger concatenation(chunks)]
                chunks.len() == m.total_chunks && f.data == concatenation(chunks) && forall|k: int|
                    0 <= k < chunks.len() ==> #[trigger] chunks[k]
                        == if ts.received_chunks.dom().contains(k as usize) {
                        ts.received_chunks[k as usize]
                    } else {
                        chunk_data(existing->0)[k]
                    }
        }),
{
    let disk = usable(ts, existing);
    lemma_blended(ts.received_chunks, disk, m.total_chunks as nat, i);
    let n = m.total_chunks as nat;
    let chunks = Seq::new(
        n,
        |k: int|
            if ts.received_chunks.dom().contains(k as usize) {
                ts.received_chunks[k as usize]
            } else {
                disk->0[k]
            },
    );
    assert(blended(ts.received_chunks, disk, n)->Ok_0 == concatenation(chunks));
    assert forall|k: int| 0 <= k < chunks.len() implies #[trigger] chunks[k]
        == if ts.received_chunks.dom().contains(k as usize) {
        ts.received_chunks[k as usize]
    } else {
        chunk_data(existing->0)[k]
    } by {
        lemma_blended(ts.received_chunks, disk, n, k);
    }
}

proof fn lemma_blended(
    received: Map<usize, Seq<u8>>,
    existing: Option<Seq<Seq<u8>>>,
    n: nat,
    i: int,
)
    requires
        n <= usize::MAX,
        blended(received, existing, n) is Ok,
    ensures
        0 <= i < n ==> received.dom().contains(i as usize) || (existing matches Some(old) && i
            < old.len()),
        blended(received, existing, n)->Ok_0 == concatenation(
            Seq::new(
                n,
                |k: int|
                    if received.dom().contains(k as usize) {
                        received[k as usize]
                    } else {
                        existing->0[k]
                    },
            ),
        ),
    decreases n,
{
    let all = Seq::new(
        n,
        |k: int|
            if received.dom().contains(k as usize) {
                received[k as usize]
            } else {
                existing->0[k]
            },
    );
    if n > 0 {
        lemma_blended(received, existing, (n - 1) as nat, i);
        let some = Seq::new(
            (n - 1) as nat,
            |k: int|
                if received.dom().contains(k as usize) {
                    received[k as usize]
                } else {
                    existing->0[k]
                },
        );
        assert(all.drop_last() =~= some);
    } else {
        assert(all =~= Seq::<Seq<u8>>::empty());
    }
}

proof fn lemma_stem(stem: Seq<char>, ext: Seq<char>, n: nat)
    requires
        stem.len() > 0,
        !ext.contains('.'),
        stem.len() < n <= stem.len() + 1 + ext.len(),
    ensures
        stem_len(stem.push('.') + ext, n) == stem.len(),
    decreases n,
{
    let name = stem.push('.') + ext;
    if n == stem.len() + 1 {
        assert(name[n - 1] == '.');
    } else {
        assert(name[n - 1] == ext[n - 2 - stem.len()]);
        assert(ext.contains(ext[n - 2 - stem.len()]));
        lemma_stem(stem, ext, (n - 1) as nat);
    }
}

proof fn lemma_no_stem(name: Seq<char>, n: nat)
    requires
        !name.contains('.'),
        n <= name.len(),
    ensures
        stem_len(name, n) == name.len(),
    decreases n,
{
    if n > 1 {
        assert(name.contains(name[n - 1]));
        lemma_no_stem(name, (n - 1) as nat);
    }
}

/// A file that is put together is first written beside its place, under its name with the
/// extension replaced by that of temporary files, which are not told to peers.
pub proof fn law_file_is_written_beside_its_place(
    dir: Seq<char>,
    stem: Seq<char>,
    ext: Seq<char>,
)
    requires
        dir.len() > 0,
        trimmed(dir) == dir,
        stem.len() > 0,
        !ext.contains('.'),
        names(stem.push('.') + ext),
        names(stem),
    ensures
        temporary(dir.push('/') + (stem.push('.') + ext)) == dir.push('/') + (stem + ".tmp"@),
        !stem.contains('.') ==> temporary(dir.push('/') + stem) == dir.push('/') + (stem
            + ".tmp"@),
{
    let name = stem.push('.') + ext;
    law_last_component_can_be_replaced(dir, name, stem + ".tmp"@);
    law_last_component_can_be_replaced(dir, stem, stem + ".tmp"@);
    lemma_stem(stem, ext, name.len());
    assert(name.take(stem.len() as int) =~= stem);
    if !stem.contains('.') {
        lemma_no_stem(stem, stem.len());
        assert(stem.take(stem.len() as int) =~= stem);
    }
}

/// What is assembled is the transfer of that name; without one there is nothing to
/// assemble.
pub proof fn law_transfer_is_found_by_its_file(
    e: EngineView,
    file_name: Seq<char>,
    other: Seq<char>,
    ts: FileTransferStateView,
    existing: Option<Seq<u8>>,
)
    ensures
        assembled(in_state(e, file_name, ts), file_name, existing) == rebuilt(ts, existing),
        other != file_name ==> assembled(in_state(e, file_name, ts), other, existing) == assembled(
            e,
            other,
            existing,
        ),
        lookup(e.sync.transfer_states, file_name) is None ==> assembled(e, file_name, existing)
            == Err::<RebuiltView, ErrorView>(ErrorView::NoMetadataAvailable),
{
    law_put(e.sync.transfer_states, file_name, ts, other);
}

/// Why a file is not put together: nothing is known of it, its name leads out of the
/// folder, a chunk is missing, or the content is not the announced one.
pub proof fn law_why_a_file_is_not_put_together(
    ts: FileTransferStateView,
    existing: Option<Seq<u8>>,
)
    ensures
        ({
            let r = rebuilt(ts, existing);
            let refused = |e: ErrorView| r == Err::<RebuiltView, ErrorView>(e);
            &&& ts.metadata is None ==> refused(ErrorView::NoMetadataAvailable)
            &&& ts.metadata matches Some(m) ==> {
                let content = blended(
                    ts.received_chunks,
                    usable(ts, existing),
                    m.total_chunks as nat,
                );
                let safe = is_safe_name(ts.file_path, m.file_name);
                &&& !safe ==> refused(ErrorView::InvalidFilePath)
                &&& safe ==> (content matches Err(e) ==> refused(e))
                &&& safe ==> (content matches Ok(data) ==> (ts.current_version matches Some(v)
                    ==> blake3_digest(data) != v.file_hash ==> refused(
                    ErrorView::WrongFileHash { name: m.file_name },
                )))
            }
        }),
{
}

/// The first chunk that neither came nor is there already is the one that is missed.
pub proof fn law_first_lost_chunk_is_named(
    received: Map<usize, Seq<u8>>,
    existing: Option<Seq<Seq<u8>>>,
    n: nat,
    first: usize,
)
    requires
        first < n <= usize::MAX,
        !received.dom().contains(first),
        existing matches Some(chunks) ==> first >= chunks.len(),
        forall|i: usize|
            i < first ==> #[trigger] received.dom().contains(i) || (existing matches Some(chunks)
                && i < chunks.len()),
    ensures
        blended(received, existing, n) == Err::<Seq<u8>, ErrorView>(
            if existing is Some {
                ErrorView::LostBlendChunk { index: first as nat }
            } else {
                ErrorView::LostDeltaChunk { index: first as nat }
            },
        ),
    decreases n,
{
    lemma_blend_succeeds(received, existing, first as nat);
    if n > first + 1 {
        law_first_lost_chunk_is_named(received, existing, (n - 1) as nat, first);
    }
}

proof fn lemma_blend_succeeds(
    received: Map<usize, Seq<u8>>,
    existing: Option<Seq<Seq<u8>>>,
    n: nat,
)
    requires
        n <= usize::MAX,
        forall|i: usize|
            i < n ==> #[trigger] received.dom().contains(i) || (existing matches Some(chunks) && i
                < chunks.len()),
    ensures
        blended(received, existing, n) is Ok,
    decreases n,
{
    if n > 0 {
        lemma_blend_succeeds(received, existing, (n - 1) as nat);
        let i = (n - 1) as usize;
        assert(received.dom().contains(i) || (existing matches Some(chunks) && i < chunks.len()));
    }
}

/// A path leads into a folder: in normal form it is the folder's with names behind it, none
/// of which goes up or begins anew.
pub open spec fn leads_into(root: Seq<char>, path: Seq<char>) -> bool {
    let r = normal(root);
    let p = normal(path);
    r.is_prefix_of(p) && r.len() < p.len() && forall|i: int|
        r.len() <= i < p.len() ==> (#[trigger] p[i]) != ".."@ && p[i] != "/"@ && p[i] != "."@
}

/// A request for a path that does not lead into the folder is answered by an error and
/// changes nothing, whatever is asked for.
pub proof fn law_nothing_is_done_outside(
    e: EngineView,
    peer: Seq<char>,
    name: Seq<char>,
    index: usize,
    hash: Seq<u8>,
    count: usize,
    timestamp: u64,
    out: Seq<DeltaEffectView>,
)
    requires
        !leads_into(e.root, joined(e.root, name)),
    ensures
        ({
            let refused = (
                e,
                out.push(
                    DeltaEffectView::Respond {
                        message: SyncMessageView::Error { message: "Invalid file path"@ },
                    },
                ),
                RequestStepView::Done,
            );
            let told = |m: SyncMessageView| requested(e, peer, m, out);
            &&& told(SyncMessageView::MetaDataRequest { file_name: name }) == refused
            &&& told(SyncMessageView::ChunkRequest { file_name: name, chunk_index: index })
                == refused
            &&& told(SyncMessageView::FileChanged { file_name: name }) == refused
            &&& told(
                SyncMessageView::FileChangedWithVersion {
                    file_name: name,
                    file_hash: hash,
                    changed_chunk_count: count,
                    timestamp,
                },
            ) == refused
            &&& told(SyncMessageView::DirectoryCreated { path: name }) == refused
            &&& told(SyncMessageView::DirectoryDeleted { path: name }) == refused
            &&& told(SyncMessageView::FileDeleted { file_name: name }) == refused
        }),
{
    law_what_stays_below(e.root, joined(e.root, name));
}

/// What is put together is written into the folder, and a name that leads into the folder
/// is no hindrance.
pub proof fn law_files_are_put_together_in_the_folder(
    ts: FileTransferStateView,
    m: FileMetadataView,
    existing: Option<Seq<u8>>,
)
    requires
        ts.metadata == Some(m),
    ensures
        rebuilt(ts, existing) matches Ok(f) ==> f.path == joined(ts.file_path, m.file_name)
            && leads_into(ts.file_path, f.path),
        leads_into(ts.file_path, joined(ts.file_path, m.file_name)) ==> rebuilt(ts, existing)
            != Err::<RebuiltView, ErrorView>(ErrorView::InvalidFilePath),
{
    law_what_stays_below(ts.file_path, joined(ts.file_path, m.file_name));
    lemma_blend_faults(ts.received_chunks, usable(ts, existing), m.total_chunks as nat);
}

proof fn lemma_blend_faults(
    received: Map<usize, Seq<u8>>,
    existing: Option<Seq<Seq<u8>>>,
    n: nat,
)
    ensures
        blended(received, existing, n) matches Err(e) ==> e is LostBlendChunk || e is LostDeltaChunk,
    decreases n,
{
    if n > 0 {
        lemma_blend_faults(received, existing, (n - 1) as nat);
    }
}

} // verus!
