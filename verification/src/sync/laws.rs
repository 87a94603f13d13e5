//! What a node does, as seen from outside: what it sends, answers, stores and
//! removes on each occasion, apart from the lines in the user's log.
use crate::collections::{
    distinct, has_key, law_put, law_with_element, law_without, lookup, put, with_element, without,
    without_element,
};
use crate::gui::types::{GuiCommandView, GuiEventView, GuiFileInfoView};
use crate::network::SyncMessageView;
use crate::paths::{absolute, vault_path};
use crate::peer::peer_id_notation;
use crate::primitives::multiaddr_fault;
use crate::state::{display_name, shown_fingerprint, AppStateView};
use crate::storage::FileMetadataView;
use crate::sync::commands::{
    announced, commanded, encryption_note, export_told, folder_set, gathered, gui_files, revoked,
    vault_key_found, vault_keyed, CommandStepView, ExportOutcomeView, FolderOutcomeView,
    VaultKeyOutcomeView,
};
use crate::sync::connection::{discovered, expired, swarm_step, DiscoveryView, SwarmNewsView};
use crate::sync::download::PeerDownloadView;
use crate::sync::effect::{deeds, lemma_deeds, logged, told, EffectView};
use crate::sync::requests::{mesh_refreshed, served, RequestStepView};
use crate::text::{decimal, text_before};
use crate::tofu::shared_key;
use vstd::prelude::*;

verus! {

/// A file that a peer changed is acknowledged, our copy of it removed, and the peer then
/// asked for its manifest, by which the new version comes. Without a folder there is
/// nothing to remove.
pub proof fn law_changed_file_is_fetched_again(
    peer: Seq<char>,
    file_name: Seq<char>,
    s: AppStateView,
    out: Seq<EffectView>,
)
    ensures
        ({
            let (s1, out1, step) = served(SyncMessageView::FileChanged { file_name }, peer, s, out);
            let acknowledged = deeds(out).push(
                EffectView::Respond { message: SyncMessageView::Ack },
            );
            &&& step is Done
            &&& s.sync_path is None ==> s1 == s && deeds(out1) == acknowledged
            &&& s.sync_path matches Some(root) ==> {
                let path = absolute(root, file_name);
                &&& deeds(out1) == acknowledged.push(EffectView::RemoveFile { path }).push(
                    EffectView::ForgetDeleting { path },
                ).push(EffectView::Request { peer, message: SyncMessageView::ManifestRequest })
                &&& s1 == (AppStateView {
                    deleting_files: with_element(s.deleting_files, path),
                    ..s
                })
            }
        }),
{
    lemma_deeds();
}

/// A file that a peer deleted is acknowledged and to be deleted here, under its name in
/// the folder.
pub proof fn law_deleted_file_is_deleted(
    peer: Seq<char>,
    file_name: Seq<char>,
    s: AppStateView,
    out: Seq<EffectView>,
)
    ensures
        ({
            let (s1, out1, step) = served(SyncMessageView::FileDeleted { file_name }, peer, s, out);
            &&& s1 == s
            &&& deeds(out1) == deeds(out).push(
                EffectView::Respond { message: SyncMessageView::Ack },
            )
            &&& s.sync_path is None ==> step is Done
            &&& s.sync_path matches Some(root) ==> step == (RequestStepView::DeleteFile {
                path: absolute(root, file_name),
                file_name,
            })
        }),
{
    lemma_deeds();
}

/// A receipt is acknowledged, and changes nothing.
pub proof fn law_receipt_is_acknowledged(
    peer: Seq<char>,
    file_name: Seq<char>,
    s: AppStateView,
    out: Seq<EffectView>,
)
    ensures
        ({
            let request = SyncMessageView::TransferComplete { file_name };
            let (s1, out1, step) = served(request, peer, s, out);
            &&& s1 == s
            &&& step is Done
            &&& deeds(out1) == deeds(out).push(
                EffectView::Respond { message: SyncMessageView::Ack },
            )
        }),
{
    lemma_deeds();
}

/// A chunk that is asked for by name is read from the folder and answered with the key
/// of the peer that asks, if it has one. Without a folder an error is answered.
pub proof fn law_named_chunk_is_read(
    peer: Seq<char>,
    file_name: Seq<char>,
    chunk_index: usize,
    s: AppStateView,
    out: Seq<EffectView>,
)
    ensures
        ({
            let request = SyncMessageView::ChunkRequest { file_name, chunk_index };
            let (s1, out1, step) = served(request, peer, s, out);
            &&& s1 == s
            &&& s.sync_path is None ==> step is Done && out1 == out.push(
                EffectView::Respond {
                    message: SyncMessageView::Error { message: "No sync folder"@ },
                },
            )
            &&& s.sync_path matches Some(path) ==> out1 == out && step == (
            RequestStepView::ReadPlain {
                path,
                file_name,
                chunk_index,
                key: lookup(s.peer_keys, peer),
            })
        }),
{
}

/// A chunk that is asked for by an id is that of the file which the peer was told under
/// this id, and is answered with the key of the peer. An id that the peer was not told,
/// a peer without a key, or a missing folder, are answered by an error.
pub proof fn law_chunk_by_id_is_read(
    peer: Seq<char>,
    file_id: Seq<u8>,
    chunk_index: u32,
    s: AppStateView,
    out: Seq<EffectView>,
)
    ensures
        ({
            let request = SyncMessageView::EncryptedChunkRequest { file_id, chunk_index };
            let (s1, out1, step) = served(request, peer, s, out);
            let ids = lookup(s.outbound_file_ids, peer);
            let known = ids is Some && lookup(ids->0, file_id) is Some;
            &&& s1 == s
            &&& s.sync_path is Some && has_key(s.peer_keys, peer) && known ==> out1 == out && step
                == (RequestStepView::ReadEncrypted {
                path: s.sync_path->0,
                rel: lookup(ids->0, file_id)->0,
                file_id,
                chunk_index,
                key: lookup(s.peer_keys, peer)->0,
                vault_mode: s.vault_mode,
                vault_key: s.vault_key,
            })
            &&& s.sync_path is None || !has_key(s.peer_keys, peer) || !known ==> step is Done
                && out1.len() == out.len() + 1 && out.is_prefix_of(out1) && (out1.last() matches
                EffectView::Respond { message } && message is Error)
        }),
{
}

/// A request for the manifest is answered with the list of the folder: encrypted for a
/// peer with a key, unless the encrypted protocol is off. The operator's key counts
/// where all peers were given it, and never replaces a key that is there. Without a
/// folder the answer is that there is none.
pub proof fn law_manifest_request_is_served(
    peer: Seq<char>,
    s: AppStateView,
    out: Seq<EffectView>,
)
    ensures
        ({
            let (s1, out1, step) = served(SyncMessageView::ManifestRequest, peer, s, out);
            let key = if has_key(s.peer_keys, peer) {
                lookup(s.peer_keys, peer)
            } else if s.shared_key_from_cli {
                s.encryption_key
            } else {
                None
            };
            &&& s1 == (AppStateView {
                peer_keys: if has_key(s.peer_keys, peer) || key is None {
                    s.peer_keys
                } else {
                    put(s.peer_keys, peer, key->0)
                },
                ..s
            })
            &&& s.sync_path is None ==> step is Done && deeds(out1) == deeds(out).push(
                EffectView::Respond { message: SyncMessageView::Empty },
            )
            &&& s.sync_path matches Some(path) ==> deeds(out1) == deeds(out) && step == (
            if key is Some && s.encrypted_protocol {
                RequestStepView::ListEncrypted { path, key: key->0, vault_mode: s.vault_mode }
            } else {
                RequestStepView::ListPlain { path }
            })
        }),
{
    lemma_deeds();
    if !has_key(s.peer_keys, peer) && s.encryption_key is Some {
        law_put(s.peer_keys, peer, s.encryption_key->0, peer);
    }
}

/// The proposal of a new peer waits for the user, who is asked; it is acknowledged, and
/// no key is set or stored. A trusted peer keeps its key.
pub proof fn law_proposal_waits_for_the_user(
    peer: Seq<char>,
    theirs: Seq<u8>,
    s: AppStateView,
    out: Seq<EffectView>,
)
    ensures
        ({
            let request = SyncMessageView::KeyExchangePropose { public_key: theirs };
            let (s1, out1, step) = served(request, peer, s, out);
            let ack = EffectView::Respond { message: SyncMessageView::Ack };
            &&& step is Done
            &&& has_key(s.peer_keys, peer) ==> s1 == s && deeds(out1) == deeds(out).push(ack)
            &&& !has_key(s.peer_keys, peer) ==> {
                &&& s1 == (AppStateView {
                    pending_approvals: put(s.pending_approvals, peer, theirs),
                    ..s
                })
                &&& deeds(out1) == deeds(out).push(
                    EffectView::Event {
                        event: GuiEventView::PeerApprovalRequired {
                            peer_id: peer,
                            display_name: display_name(s, peer),
                        },
                    },
                ).push(ack)
            }
        }),
{
    lemma_deeds();
}

/// An acceptance counts only where we proposed: the key that follows from our secret and
/// their public key is set and stored, and the proposal is over. Any other changes
/// nothing. Both are acknowledged.
pub proof fn law_acceptance_sets_the_key(
    peer: Seq<char>,
    theirs: Seq<u8>,
    s: AppStateView,
    out: Seq<EffectView>,
)
    ensures
        ({
            let request = SyncMessageView::KeyExchangeAccept { public_key: theirs };
            let (s1, out1, step) = served(request, peer, s, out);
            let ack = EffectView::Respond { message: SyncMessageView::Ack };
            &&& step is Done
            &&& match lookup(s.pending_exchanges, peer) {
                None => s1 == s && deeds(out1) == deeds(out).push(ack),
                Some(secret) => {
                    let key = shared_key(secret, theirs);
                    &&& s1 == (AppStateView {
                        pending_exchanges: without(s.pending_exchanges, peer),
                        peer_keys: put(s.peer_keys, peer, key),
                        ..s
                    })
                    &&& deeds(out1) == deeds(out).push(EffectView::PersistKey { peer, key }).push(
                        ack,
                    )
                },
            }
        }),
{
    lemma_deeds();
}

/// What only answers a request is no request: it is refused, and changes nothing.
pub proof fn law_answers_are_no_requests(
    request: SyncMessageView,
    peer: Seq<char>,
    s: AppStateView,
    out: Seq<EffectView>,
)
    requires
        request is Manifest || request is EncryptedManifest || request is ChunkResponse || request
            is EncryptedChunkResponse || request is Empty || request is Ack || request is Error,
    ensures
        ({
            let (s1, out1, step) = served(request, peer, s, out);
            &&& s1 == s
            &&& step is Done
            &&& out1.len() == out.len() + 1
            &&& out.is_prefix_of(out1)
            &&& out1.last() matches EffectView::Respond { message } && message is Error
        }),
{
}

proof fn lemma_mesh(peer: Seq<char>, s: AppStateView, n: nat, out: Seq<EffectView>)
    requires
        n <= s.connected_peers.len(),
    ensures
        ({
            let asked = deeds(mesh_refreshed(peer, s, n, out));
            &&& deeds(out).is_prefix_of(asked)
            &&& forall|i: int|
                deeds(out).len() <= i < asked.len() ==> (#[trigger] asked[i] matches
                    EffectView::Request { peer: other, message } && message is ManifestRequest
                    && other != peer && has_key(s.peer_keys, other)
                    && s.connected_peers.take(n as int).contains(other))
            &&& forall|j: int|
                0 <= j < n && s.connected_peers[j] != peer && has_key(
                    s.peer_keys,
                    #[trigger] s.connected_peers[j],
                ) ==> asked.contains(
                    EffectView::Request {
                        peer: s.connected_peers[j],
                        message: SyncMessageView::ManifestRequest,
                    },
                )
        }),
    decreases n,
{
    lemma_deeds();
    if n > 0 {
        let peers = s.connected_peers;
        lemma_mesh(peer, s, (n - 1) as nat, out);
        let before = deeds(mesh_refreshed(peer, s, (n - 1) as nat, out));
        let asked = deeds(mesh_refreshed(peer, s, n, out));
        let other = peers[n - 1];
        let request = EffectView::Request {
            peer: other,
            message: SyncMessageView::ManifestRequest,
        };
        assert(asked == before || asked == before.push(request));
        assert forall|i: int| deeds(out).len() <= i < asked.len() implies (#[trigger] asked[i]
            matches EffectView::Request { peer: o, message } && message is ManifestRequest && o
            != peer && has_key(s.peer_keys, o) && peers.take(n as int).contains(o)) by {
            if i < before.len() {
                assert(asked[i] == before[i]);
                let o = before[i]->Request_peer;
                let some = peers.take(n - 1);
                let k = choose|k: int| 0 <= k < some.len() && some[k] == o;
                assert(peers.take(n as int)[k] == o);
            } else {
                assert(peers.take(n as int)[n - 1] == other);
            }
        }
        assert forall|j: int|
            0 <= j < n && peers[j] != peer && has_key(s.peer_keys, #[trigger] peers[j]) implies
            asked.contains(
            EffectView::Request { peer: peers[j], message: SyncMessageView::ManifestRequest },
        ) by {
            if j < n - 1 {
                let e = EffectView::Request {
                    peer: peers[j],
                    message: SyncMessageView::ManifestRequest,
                };
                let k = choose|k: int| 0 <= k < before.len() && before[k] == e;
                assert(asked[k] == e);
            } else {
                assert(asked[asked.len() - 1] == request);
            }
        }
    }
}

/// A peer that announces its folder is acknowledged, then asked for its manifest, and
/// told of our folder if there is one and it was not told before. Every other connected
/// peer with a key is asked for its manifest, and nobody else is asked for anything.
pub proof fn law_announcement_refreshes_the_mesh(
    peer: Seq<char>,
    node_name: Seq<char>,
    s: AppStateView,
    out: Seq<EffectView>,
)
    ensures
        ({
            let request = SyncMessageView::FolderAnnouncement { node_name };
            let (s1, out1, step) = served(request, peer, s, out);
            let announce = s.sync_path is Some && !s.announced_to.contains(peer);
            let first = deeds(out).push(EffectView::Respond { message: SyncMessageView::Ack }).push(
                EffectView::Request { peer, message: SyncMessageView::ManifestRequest },
            );
            let then = if announce {
                first.push(
                    EffectView::Request {
                        peer,
                        message: SyncMessageView::FolderAnnouncement { node_name: s.node_name },
                    },
                )
            } else {
                first
            };
            let all = deeds(out1);
            &&& step is Done
            &&& s1 == (AppStateView {
                peer_names: put(s.peer_names, peer, node_name),
                announced_to: if announce {
                    s.announced_to.push(peer)
                } else {
                    s.announced_to
                },
                ..s
            })
            &&& then.is_prefix_of(all)
            &&& forall|i: int|
                then.len() <= i < all.len() ==> (#[trigger] all[i] matches EffectView::Request {
                    peer: other,
                    message,
                } && message is ManifestRequest && other != peer && has_key(s.peer_keys, other)
                    && s.connected_peers.contains(other))
            &&& forall|j: int|
                0 <= j < s.connected_peers.len() && s.connected_peers[j] != peer && has_key(
                    s.peer_keys,
                    #[trigger] s.connected_peers[j],
                ) ==> all.contains(
                    EffectView::Request {
                        peer: s.connected_peers[j],
                        message: SyncMessageView::ManifestRequest,
                    },
                )
        }),
{
    lemma_deeds();
    let request = SyncMessageView::FolderAnnouncement { node_name };
    let s1 = served(request, peer, s, out).0;
    let n = s.connected_peers.len();
    assert(s1.connected_peers == s.connected_peers && s1.peer_keys == s.peer_keys);
    let told = out.push(
        logged(
            "INFO"@,
            node_name + " announced their folder — requesting their manifest …"@,
        ),
    ).push(EffectView::Respond { message: SyncMessageView::Ack }).push(
        EffectView::Request { peer, message: SyncMessageView::ManifestRequest },
    );
    let told1 = if s.sync_path is Some && !s.announced_to.contains(peer) {
        told.push(
            EffectView::Request {
                peer,
                message: SyncMessageView::FolderAnnouncement { node_name: s.node_name },
            },
        )
    } else {
        told
    };
    lemma_mesh(peer, s1, n, told1);
    assert(s.connected_peers.take(n as int) =~= s.connected_peers);
}

/// A connection that opens is told to the user interface, and the peer counts as
/// connected. If there is a folder, the peer is told of it. It is asked for its manifest
/// too, unless a key has to be agreed on before: then the side whose id comes first
/// proposes, with the public part of a secret that it remembers, and the other waits.
pub proof fn law_connection_is_put_to_use(
    peer: Seq<char>,
    local: Seq<char>,
    stored_key: Option<Seq<u8>>,
    secret: Seq<u8>,
    public: Seq<u8>,
    s: AppStateView,
    transfers: Seq<(Seq<char>, PeerDownloadView)>,
    out: Seq<EffectView>,
)
    ensures
        ({
            let (s1, transfers1, out1) = swarm_step(
                SwarmNewsView::Established { peer },
                local,
                stored_key,
                secret,
                public,
                s,
                transfers,
                out,
            );
            let keyed = has_key(s.peer_keys, peer) || stored_key is Some || s.shared_key_from_cli;
            let proposes = !keyed && text_before(local, peer);
            let greeted = deeds(out).push(
                EffectView::Event {
                    event: GuiEventView::PeerConnected {
                        peer_id: peer,
                        node_name: display_name(s, peer),
                    },
                },
            );
            let announced = if s.sync_path is Some {
                greeted.push(
                    EffectView::Request {
                        peer,
                        message: SyncMessageView::FolderAnnouncement { node_name: s.node_name },
                    },
                )
            } else {
                greeted
            };
            let asked = if s.sync_path is Some && keyed {
                announced.push(
                    EffectView::Request { peer, message: SyncMessageView::ManifestRequest },
                )
            } else {
                announced
            };
            &&& transfers1 == transfers
            &&& deeds(out1) == if proposes {
                asked.push(
                    EffectView::Request {
                        peer,
                        message: SyncMessageView::KeyExchangePropose { public_key: public },
                    },
                )
            } else {
                asked
            }
            &&& s1 == (AppStateView {
                connected_peers: with_element(s.connected_peers, peer),
                announced_to: if s.sync_path is Some {
                    with_element(s.announced_to, peer)
                } else {
                    s.announced_to
                },
                peer_keys: if !has_key(s.peer_keys, peer) && stored_key is Some {
                    put(s.peer_keys, peer, stored_key->0)
                } else {
                    s.peer_keys
                },
                pending_exchanges: if proposes {
                    put(s.pending_exchanges, peer, secret)
                } else {
                    s.pending_exchanges
                },
                ..s
            })
        }),
{
    lemma_deeds();
}

/// A connection that closes is told to the user interface. The peer no longer counts as
/// connected, is told of the folder anew when it comes back, and what was being fetched
/// from it is dropped; keys and names stay.
pub proof fn law_closed_connection_is_forgotten(
    peer: Seq<char>,
    reason: Seq<char>,
    local: Seq<char>,
    stored_key: Option<Seq<u8>>,
    secret: Seq<u8>,
    public: Seq<u8>,
    s: AppStateView,
    transfers: Seq<(Seq<char>, PeerDownloadView)>,
    out: Seq<EffectView>,
)
    ensures
        ({
            let (s1, transfers1, out1) = swarm_step(
                SwarmNewsView::Closed { peer, reason },
                local,
                stored_key,
                secret,
                public,
                s,
                transfers,
                out,
            );
            &&& transfers1 == without(transfers, peer)
            &&& deeds(out1) == deeds(out).push(
                EffectView::Event { event: GuiEventView::PeerDisconnected { peer_id: peer } },
            )
            &&& s1 == (AppStateView {
                connected_peers: without_element(s.connected_peers, peer),
                announced_to: without_element(s.announced_to, peer),
                ..s
            })
        }),
{
    lemma_deeds();
}

/// A dial that failed is told to the user interface; a request that was not answered
/// only goes to the log. Nothing changes.
pub proof fn law_failures_change_nothing(
    peer: Option<Seq<char>>,
    asked: Seq<char>,
    error: Seq<char>,
    local: Seq<char>,
    stored_key: Option<Seq<u8>>,
    secret: Seq<u8>,
    public: Seq<u8>,
    s: AppStateView,
    transfers: Seq<(Seq<char>, PeerDownloadView)>,
    out: Seq<EffectView>,
)
    ensures
        swarm_step(
            SwarmNewsView::DialFailed { peer, error },
            local,
            stored_key,
            secret,
            public,
            s,
            transfers,
            out,
        ) == (
            s,
            transfers,
            out.push(
                EffectView::Event { event: GuiEventView::DialFailed { peer_id: peer, error } },
            ),
        ),
        ({
            let (s1, transfers1, out1) = swarm_step(
                SwarmNewsView::OutboundFailure { peer: asked, error },
                local,
                stored_key,
                secret,
                public,
                s,
                transfers,
                out,
            );
            s1 == s && transfers1 == transfers && deeds(out1) == deeds(out)
        }),
{
    lemma_deeds();
}

proof fn lemma_discovered(
    peers: Seq<DiscoveryView>,
    n: nat,
    s: AppStateView,
    out: Seq<EffectView>,
    i: int,
)
    requires
        n <= peers.len(),
        0 <= i < n,
    ensures
        ({
            let (s1, out1) = discovered(peers, n, s, out);
            &&& s1 == (AppStateView { known_addrs: s1.known_addrs, ..s })
            &&& out1.len() == out.len() + n
            &&& out1[out.len() + i] == (EffectView::Event {
                event: GuiEventView::PeerDiscovered {
                    peer_id: peers[i].peer,
                    addr: peers[i].addr,
                    node_name: display_name(s, peers[i].peer),
                },
            })
            &&& (forall|j: int| i < j < n ==> (#[trigger] peers[j]).peer != peers[i].peer)
                ==> lookup(s1.known_addrs, peers[i].peer) == Some(peers[i].addr)
        }),
    decreases n,
{
    let (s0, out0) = discovered(peers, (n - 1) as nat, s, out);
    lemma_discovered_keeps(peers, (n - 1) as nat, s, out);
    law_put(s0.known_addrs, peers[n - 1].peer, peers[n - 1].addr, peers[i].peer);
    if i < n - 1 {
        lemma_discovered(peers, (n - 1) as nat, s, out, i);
    }
}

proof fn lemma_discovered_keeps(
    peers: Seq<DiscoveryView>,
    n: nat,
    s: AppStateView,
    out: Seq<EffectView>,
)
    ensures
        ({
            let (s1, out1) = discovered(peers, n, s, out);
            &&& s1 == (AppStateView { known_addrs: s1.known_addrs, ..s })
            &&& out1.len() == out.len() + n
            &&& out.is_prefix_of(out1)
        }),
    decreases n,
{
    if n > 0 {
        lemma_discovered_keeps(peers, (n - 1) as nat, s, out);
    }
}

/// Every peer that is discovered is told to the user interface, with its address and the
/// name under which it is shown, in order, and its last address is remembered.
pub proof fn law_discovered_peers_are_remembered(
    peers: Seq<DiscoveryView>,
    local: Seq<char>,
    stored_key: Option<Seq<u8>>,
    secret: Seq<u8>,
    public: Seq<u8>,
    s: AppStateView,
    transfers: Seq<(Seq<char>, PeerDownloadView)>,
    out: Seq<EffectView>,
    i: int,
)
    requires
        0 <= i < peers.len(),
    ensures
        ({
            let (s1, transfers1, out1) = swarm_step(
                SwarmNewsView::Discovered { peers },
                local,
                stored_key,
                secret,
                public,
                s,
                transfers,
                out,
            );
            &&& transfers1 == transfers
            &&& s1 == (AppStateView { known_addrs: s1.known_addrs, ..s })
            &&& out.is_prefix_of(out1)
            &&& out1.len() == out.len() + peers.len()
            &&& out1[out.len() + i] == (EffectView::Event {
                event: GuiEventView::PeerDiscovered {
                    peer_id: peers[i].peer,
                    addr: peers[i].addr,
                    node_name: display_name(s, peers[i].peer),
                },
            })
            &&& (forall|j: int| i < j < peers.len() ==> (#[trigger] peers[j]).peer
                != peers[i].peer) ==> lookup(s1.known_addrs, peers[i].peer) == Some(peers[i].addr)
        }),
{
    lemma_discovered(peers, peers.len(), s, out, i);
    lemma_discovered_keeps(peers, peers.len(), s, out);
}

proof fn lemma_expired(peers: Seq<Seq<char>>, n: nat, s: AppStateView, peer: Seq<char>)
    requires
        n <= peers.len(),
        distinct(s.known_addrs),
    ensures
        ({
            let s1 = expired(peers, n, s);
            &&& s1 == (AppStateView { known_addrs: s1.known_addrs, ..s })
            &&& distinct(s1.known_addrs)
            &&& lookup(s1.known_addrs, peer) == if peers.take(n as int).contains(peer) {
                None
            } else {
                lookup(s.known_addrs, peer)
            }
        }),
    decreases n,
{
    if n > 0 {
        lemma_expired(peers, (n - 1) as nat, s, peer);
        let s0 = expired(peers, (n - 1) as nat, s);
        law_without(s0.known_addrs, peers[n - 1], peer);
        let some = peers.take(n - 1);
        let more = peers.take(n as int);
        assert(more =~= some.push(peers[n - 1]));
        lemma_push_contains(some, peers[n - 1], peer);
    } else {
        assert(peers.take(0).len() == 0);
    }
}

/// The addresses of exactly those peers that vanished are forgotten, and nothing else.
pub proof fn law_vanished_peers_are_forgotten(
    peers: Seq<Seq<char>>,
    local: Seq<char>,
    stored_key: Option<Seq<u8>>,
    secret: Seq<u8>,
    public: Seq<u8>,
    s: AppStateView,
    transfers: Seq<(Seq<char>, PeerDownloadView)>,
    out: Seq<EffectView>,
    peer: Seq<char>,
)
    requires
        distinct(s.known_addrs),
    ensures
        ({
            let (s1, transfers1, out1) = swarm_step(
                SwarmNewsView::Expired { peers },
                local,
                stored_key,
                secret,
                public,
                s,
                transfers,
                out,
            );
            &&& transfers1 == transfers
            &&& out1 == out
            &&& s1 == (AppStateView { known_addrs: s1.known_addrs, ..s })
            &&& lookup(s1.known_addrs, peer) == if peers.contains(peer) {
                None
            } else {
                lookup(s.known_addrs, peer)
            }
        }),
{
    lemma_expired(peers, peers.len(), s, peer);
    assert(peers.take(peers.len() as int) =~= peers);
}

proof fn lemma_push_contains<A>(s: Seq<A>, a: A, b: A)
    ensures
        s.push(a).contains(b) <==> b == a || s.contains(b),
{
    let t = s.push(a);
    if s.contains(b) {
        let i = choose|i: int| 0 <= i < s.len() && s[i] == b;
        assert(t[i] == b);
    }
    assert(t[s.len() as int] == a);
    if t.contains(b) && b != a {
        let i = choose|i: int| 0 <= i < t.len() && t[i] == b;
        assert(s[i] == b);
    }
}

/// A peer that waits and is approved gets the key that follows from our fresh secret and
/// its public key: the key is set and stored, and our public key sent. The peer no longer
/// waits. Nobody else can be approved. The security status is told in any case.
pub proof fn law_approved_peer_gets_a_key(
    peer_id: Seq<char>,
    secret: Seq<u8>,
    public: Seq<u8>,
    s: AppStateView,
    out: Seq<EffectView>,
)
    ensures
        ({
            let cmd = GuiCommandView::ApprovePeer { peer_id };
            let (s1, out1, step) = commanded(cmd, secret, public, s, out);
            let pid = peer_id_notation(peer_id);
            let waiting = if pid is Some {
                lookup(s.pending_approvals, pid->0)
            } else {
                None
            };
            let status = EffectView::Event {
                event: GuiEventView::VaultStatus {
                    wire_encrypted: s1.encryption_key is Some || s1.peer_keys.len() > 0,
                    encrypted_protocol: s1.encrypted_protocol,
                    key_fingerprint: shown_fingerprint(s1),
                },
            };
            &&& step is Done
            &&& waiting is None ==> s1 == s && deeds(out1) == deeds(out).push(status)
            &&& waiting matches Some(theirs) ==> {
                let key = shared_key(secret, theirs);
                &&& s1 == (AppStateView {
                    pending_approvals: without(s.pending_approvals, pid->0),
                    peer_keys: put(s.peer_keys, pid->0, key),
                    ..s
                })
                &&& deeds(out1) == deeds(out).push(
                    EffectView::PersistKey { peer: pid->0, key },
                ).push(
                    EffectView::Request {
                        peer: pid->0,
                        message: SyncMessageView::KeyExchangeAccept { public_key: public },
                    },
                ).push(status)
            }
        }),
{
    lemma_deeds();
}

/// A peer that is denied no longer waits, gets no key, and is disconnected.
pub proof fn law_denied_peer_is_disconnected(
    peer_id: Seq<char>,
    secret: Seq<u8>,
    public: Seq<u8>,
    s: AppStateView,
    out: Seq<EffectView>,
)
    ensures
        ({
            let cmd = GuiCommandView::DenyPeer { peer_id };
            let (s1, out1, step) = commanded(cmd, secret, public, s, out);
            &&& step is Done
            &&& match peer_id_notation(peer_id) {
                None => s1 == s && out1 == out,
                Some(pid) => {
                    &&& s1 == (AppStateView {
                        pending_approvals: without(s.pending_approvals, pid),
                        ..s
                    })
                    &&& deeds(out1) == deeds(out).push(EffectView::Disconnect { peer: pid })
                },
            }
        }),
{
    lemma_deeds();
}

/// What the user asks for with a peer is done with that peer: its manifest is asked for,
/// it is disconnected, or its stored key is to be removed. A text that is no id is
/// ignored.
pub proof fn law_commands_reach_the_peer(
    peer_id: Seq<char>,
    secret: Seq<u8>,
    public: Seq<u8>,
    s: AppStateView,
    out: Seq<EffectView>,
)
    ensures
        ({
            let sync = commanded(
                GuiCommandView::RequestSync { peer_id },
                secret,
                public,
                s,
                out,
            );
            let close = commanded(GuiCommandView::Disconnect { peer_id }, secret, public, s, out);
            let revoke = commanded(GuiCommandView::RevokeKey { peer_id }, secret, public, s, out);
            match peer_id_notation(peer_id) {
                None => {
                    &&& sync == (s, out, CommandStepView::Done)
                    &&& close == (s, out, CommandStepView::Done)
                    &&& revoke == (s, out, CommandStepView::Done)
                },
                Some(pid) => {
                    &&& sync.0 == s && sync.2 is Done
                    &&& deeds(sync.1) == deeds(out).push(
                        EffectView::Request {
                            peer: pid,
                            message: SyncMessageView::ManifestRequest,
                        },
                    )
                    &&& close == (
                        s,
                        out.push(EffectView::Disconnect { peer: pid }),
                        CommandStepView::Done,
                    )
                    &&& revoke == (s, out, CommandStepView::Revoke { peer: pid, peer_id })
                },
            }
        }),
{
    lemma_deeds();
}

/// A peer is dialed at the address that the user gives, else at the one that was
/// discovered; without an address, or with one that is none, it is not dialed.
pub proof fn law_peer_is_dialed_where_it_is(
    peer_id: Seq<char>,
    addr: Option<Seq<char>>,
    secret: Seq<u8>,
    public: Seq<u8>,
    s: AppStateView,
    out: Seq<EffectView>,
)
    ensures
        ({
            let cmd = GuiCommandView::DialPeer { peer_id, addr };
            let (s1, out1, step) = commanded(cmd, secret, public, s, out);
            let known = if addr is Some {
                addr
            } else {
                lookup(s.known_addrs, peer_id)
            };
            &&& s1 == s
            &&& step is Done
            &&& deeds(out1) == if known is Some && multiaddr_fault(known->0) is None {
                deeds(out).push(EffectView::Dial { addr: known->0 })
            } else {
                deeds(out)
            }
        }),
{
    lemma_deeds();
}

/// Vault mode is switched as the user asks, and the user interface told. It is switched
/// on only with a vault key: without one, a key is looked for before anything changes.
pub proof fn law_vault_mode_is_switched(
    enabled: bool,
    secret: Seq<u8>,
    public: Seq<u8>,
    s: AppStateView,
    out: Seq<EffectView>,
)
    ensures
        ({
            let cmd = GuiCommandView::SetVaultMode { enabled };
            let (s1, out1, step) = commanded(cmd, secret, public, s, out);
            &&& enabled && s.vault_key is None ==> s1 == s && out1 == out && step is FindVaultKey
            &&& !enabled || s.vault_key is Some ==> {
                &&& step is Done
                &&& s1 == (AppStateView { vault_mode: enabled, ..s })
                &&& deeds(out1) == deeds(out).push(
                    EffectView::Event {
                        event: GuiEventView::VaultModeChanged { vault_mode: enabled },
                    },
                )
            }
        }),
{
    lemma_deeds();
}

/// A vault key that is there is used and vault mode switched on; one that cannot be read
/// changes nothing, and is not replaced; where there is none, one is made. One that was
/// made is used and vault mode switched on; if that failed, nothing changes.
pub proof fn law_vault_key_is_found_or_made(
    found: Option<Result<Seq<u8>, Seq<char>>>,
    made: VaultKeyOutcomeView,
    s: AppStateView,
    out: Seq<EffectView>,
)
    ensures
        ({
            let on = EffectView::Event {
                event: GuiEventView::VaultModeChanged { vault_mode: true },
            };
            let (s1, out1, step) = vault_key_found(found, s, out);
            let (s2, out2) = vault_keyed(made, s, out);
            &&& found matches Some(Ok(key)) ==> s1 == (AppStateView {
                vault_key: Some(key),
                vault_mode: true,
                ..s
            }) && step is Done && deeds(out1) == deeds(out).push(on)
            &&& found matches Some(Err(_)) ==> s1 == s && step is Done && deeds(out1) == deeds(out)
            &&& found is None ==> s1 == s && step is MakeVaultKey && out1 == out
            &&& made matches VaultKeyOutcomeView::Made { key, path } ==> s2 == (AppStateView {
                vault_key: Some(key),
                vault_mode: true,
                ..s
            }) && deeds(out2) == deeds(out).push(on)
            &&& !(made is Made) ==> s2 == s && deeds(out2) == deeds(out)
        }),
{
    lemma_deeds();
}

/// A container is decrypted from its place in the folder with the vault key, to where the
/// user asks. Without a vault key or a folder nothing is decrypted. When it is written,
/// the user interface is told its size.
pub proof fn law_container_is_decrypted(
    name: Seq<char>,
    dest: Seq<char>,
    outcome: ExportOutcomeView,
    secret: Seq<u8>,
    public: Seq<u8>,
    s: AppStateView,
    out: Seq<EffectView>,
)
    ensures
        ({
            let cmd = GuiCommandView::DecryptFile { name, dest };
            let (s1, out1, step) = commanded(cmd, secret, public, s, out);
            let told = export_told(name, dest, outcome, out);
            &&& s1 == s
            &&& deeds(out1) == deeds(out)
            &&& step == if s.vault_key is Some && s.sync_path is Some {
                CommandStepView::Export {
                    name,
                    dest,
                    container: vault_path(absolute(s.sync_path->0, name)),
                    key: s.vault_key->0,
                }
            } else {
                CommandStepView::Done
            }
            &&& deeds(told) == match outcome {
                ExportOutcomeView::Written { size } => deeds(out).push(
                    EffectView::Event {
                        event: GuiEventView::DecryptComplete { name, dest, size },
                    },
                ),
                _ => deeds(out),
            }
        }),
{
    lemma_deeds();
}

/// A folder that is set is prepared first, and nothing changes before.
pub proof fn law_folder_is_prepared_first(
    path: Seq<char>,
    secret: Seq<u8>,
    public: Seq<u8>,
    s: AppStateView,
    out: Seq<EffectView>,
)
    ensures
        commanded(GuiCommandView::SetFolder { path }, secret, public, s, out) == (
            s,
            out,
            CommandStepView::PrepareFolder { path },
        ),
{
}

proof fn lemma_announced(
    peers: Seq<Seq<char>>,
    node_name: Seq<char>,
    n: nat,
    out: Seq<EffectView>,
)
    ensures
        ({
            let all = deeds(announced(peers, node_name, n, out));
            &&& deeds(out).is_prefix_of(all)
            &&& all.len() == deeds(out).len() + 2 * n
            &&& forall|i: int|
                #![trigger peers[i]]
                0 <= i < n ==> all[deeds(out).len() + 2 * i] == (EffectView::Request {
                    peer: peers[i],
                    message: SyncMessageView::FolderAnnouncement { node_name },
                }) && all[deeds(out).len() + 2 * i + 1] == (EffectView::Request {
                    peer: peers[i],
                    message: SyncMessageView::ManifestRequest,
                })
        }),
    decreases n,
{
    lemma_deeds();
    if n > 0 {
        lemma_announced(peers, node_name, (n - 1) as nat, out);
    }
}

proof fn lemma_gathered(peers: Seq<Seq<char>>, n: nat, peer: Seq<char>)
    requires
        n <= peers.len(),
    ensures
        gathered(peers, n).contains(peer) <==> peers.take(n as int).contains(peer),
    decreases n,
{
    if n > 0 {
        lemma_gathered(peers, (n - 1) as nat, peer);
        law_with_element(gathered(peers, (n - 1) as nat), peers[n - 1], peer);
        assert(peers.take(n as int) =~= peers.take(n - 1).push(peers[n - 1]));
        lemma_push_contains(peers.take(n - 1), peers[n - 1], peer);
    } else {
        assert(gathered(peers, 0).len() == 0);
        assert(peers.take(0).len() == 0);
    }
}

/// A folder that could be made is taken into use: it is watched, listed for the user
/// interface where that was possible, and every connected peer is told of it and asked for
/// its manifest, once each. Exactly the connected peers count as told. A folder that could
/// not be made changes nothing.
pub proof fn law_folder_is_taken_into_use(
    outcome: FolderOutcomeView,
    node_name: Seq<char>,
    s: AppStateView,
    out: Seq<EffectView>,
    i: int,
    peer: Seq<char>,
)
    ensures
        ({
            let (s1, out1) = folder_set(outcome, node_name, s, out);
            let all = deeds(out1);
            let used = match outcome {
                FolderOutcomeView::Listed { path, files } => Some(path),
                FolderOutcomeView::ListFailed { path, error } => Some(path),
                _ => None,
            };
            &&& used is None ==> s1 == s && all == deeds(out)
            &&& used matches Some(path) ==> {
                let watched = deeds(out).push(EffectView::Watch { path });
                let shown = match outcome {
                    FolderOutcomeView::Listed { path, files } => watched.push(
                        EffectView::Event {
                            event: GuiEventView::FolderListing {
                                files: files.map_values(
                                    |m: FileMetadataView|
                                        GuiFileInfoView {
                                            name: m.file_name,
                                            size: m.file_size,
                                            chunks: m.total_chunks,
                                            is_vault: m.is_vault,
                                        },
                                ),
                            },
                        },
                    ),
                    _ => watched,
                };
                &&& s1 == (AppStateView {
                    sync_path: Some(path),
                    announced_to: s1.announced_to,
                    ..s
                })
                &&& s1.announced_to.contains(peer) <==> s.connected_peers.contains(peer)
                &&& shown.is_prefix_of(all)
                &&& all.len() == shown.len() + 2 * s.connected_peers.len()
                &&& 0 <= i < s.connected_peers.len() ==> all[shown.len() + 2 * i] == (
                EffectView::Request {
                    peer: s.connected_peers[i],
                    message: SyncMessageView::FolderAnnouncement { node_name },
                }) && all[shown.len() + 2 * i + 1] == (EffectView::Request {
                    peer: s.connected_peers[i],
                    message: SyncMessageView::ManifestRequest,
                })
            }
        }),
{
    lemma_deeds();
    let n = s.connected_peers.len();
    lemma_gathered(s.connected_peers, n, peer);
    assert(s.connected_peers.take(n as int) =~= s.connected_peers);
    match outcome {
        FolderOutcomeView::Listed { path, files } => {
            assert(gui_files(files) =~= files.map_values(
                |m: FileMetadataView|
                    GuiFileInfoView {
                        name: m.file_name,
                        size: m.file_size,
                        chunks: m.total_chunks,
                        is_vault: m.is_vault,
                    },
            ));
            lemma_announced(
                s.connected_peers,
                node_name,
                n,
                out.push(EffectView::Watch { path }).push(encryption_note(s)).push(
                    told(GuiEventView::FolderListing { files: gui_files(files) }),
                ).push(
                    logged(
                        "OK"@,
                        "Sync folder set: "@ + path + " ("@ + decimal(files.len()) + " file(s))"@,
                    ),
                ),
            );
        },
        FolderOutcomeView::ListFailed { path, error } => {
            lemma_announced(
                s.connected_peers,
                node_name,
                n,
                out.push(EffectView::Watch { path }).push(encryption_note(s)).push(
                    logged("WARN"@, "Folder set but listing failed: "@ + error),
                ),
            );
        },
        _ => {},
    }
}

/// A key that was revoked is gone, and no other; the user interface is told of it and of
/// the peers that are still trusted. If it could not be removed, nothing changes.
pub proof fn law_revoked_key_is_gone(
    peer: Seq<char>,
    peer_id: Seq<char>,
    outcome: Result<Seq<Seq<char>>, Seq<char>>,
    s: AppStateView,
    out: Seq<EffectView>,
)
    ensures
        ({
            let (s1, out1) = revoked(peer, peer_id, outcome, s, out);
            &&& outcome is Err ==> s1 == s && deeds(out1) == deeds(out)
            &&& outcome matches Ok(trusted) ==> {
                &&& s1 == (AppStateView { peer_keys: without(s.peer_keys, peer), ..s })
                &&& deeds(out1) == deeds(out).push(
                    EffectView::Event { event: GuiEventView::PeerKeyRevoked { peer_id } },
                ).push(
                    EffectView::Event { event: GuiEventView::TrustedPeers { peer_ids: trusted } },
                )
            }
        }),
{
    lemma_deeds();
}

} // verus!
