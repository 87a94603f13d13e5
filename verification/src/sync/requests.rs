//! The serving side: requests of peers and their answers.
use crate::collections::{has_key, lookup, put, with_element, without, Assoc};
use crate::crypto::{blinded_hash, position_aad, CHUNK_TAG};
use crate::error::{error_text, Error, ErrorView};
use crate::gui::types::{GuiEvent, GuiEventView};
use crate::listing::metadata_views;
use crate::network::{SyncMessage, SyncMessageView};
use crate::paths::{absolute, rel_to_abs};
use crate::peer::{short_name, PeerId};
use crate::primitives::{blake3_digest, AEAD_MESSAGE_MAX};
use crate::state::{
    display_name, with_peer_key, with_shared_key, with_stored_key, AppState, AppStateView,
};
use crate::storage::{opt_key, FileMetadata, MANIFEST_AAD};
use crate::sync::effect::{answered, asked, kept_key, logged, told, Effect, EffectView, Outbox};
use crate::text::{
    concat2, concat3, concat4, concat6, decimal, decimal_text, opt_text, owned,
};
use crate::tofu::{derive_shared_key, group_fingerprint, key_fingerprint, shared_key};
use crate::transfer::{
    carries, get_chunk_modal, get_encrypted_chunk, get_manifest, plain_manifest, seal_manifest,
};
use vstd::prelude::*;

verus! {

/// What a request still needs from outside before it is answered.
#[allow(inconsistent_fields)]
#[derive(Debug)]
pub enum RequestStep {
    /// Nothing: it is answered.
    Done,
    /// The folder is to be listed for an encrypted manifest.
    ListEncrypted { path: String, key: [u8; 32], vault_mode: bool },
    /// The folder is to be listed for a plain manifest.
    ListPlain { path: String },
    /// A chunk is to be read for an encrypted answer.
    ReadEncrypted {
        path: String,
        rel: String,
        file_id: [u8; 16],
        chunk_index: u32,
        key: [u8; 32],
        vault_mode: bool,
        vault_key: Option<[u8; 32]>,
    },
    /// A chunk is to be read for a plain answer.
    ReadPlain { path: String, file_name: String, chunk_index: usize, key: Option<[u8; 32]> },
    /// A file is to be deleted; the request is answered.
    DeleteFile { path: String, file_name: String },
}

/// What a `RequestStep` says.
#[allow(inconsistent_fields)]
#[verifier::ext_equal]
pub ghost enum RequestStepView {
    Done,
    ListEncrypted { path: Seq<char>, key: Seq<u8>, vault_mode: bool },
    ListPlain { path: Seq<char> },
    ReadEncrypted {
        path: Seq<char>,
        rel: Seq<char>,
        file_id: Seq<u8>,
        chunk_index: u32,
        key: Seq<u8>,
        vault_mode: bool,
        vault_key: Option<Seq<u8>>,
    },
    ReadPlain { path: Seq<char>, file_name: Seq<char>, chunk_index: usize, key: Option<Seq<u8>> },
    DeleteFile { path: Seq<char>, file_name: Seq<char> },
}

impl View for RequestStep {
    type V = RequestStepView;

    open spec fn view(&self) -> RequestStepView {
        match *self {
            RequestStep::Done => RequestStepView::Done,
            RequestStep::ListEncrypted { path, key, vault_mode } => RequestStepView::ListEncrypted {
                path: path@,
                key: key@,
                vault_mode: vault_mode,
            },
            RequestStep::ListPlain { path } => RequestStepView::ListPlain {
                path: path@,
            },
            RequestStep::ReadEncrypted {
                path,
                rel,
                file_id,
                chunk_index,
                key,
                vault_mode,
                vault_key,
            } => RequestStepView::ReadEncrypted {
                path: path@,
                rel: rel@,
                file_id: file_id@,
                chunk_index: chunk_index,
                key: key@,
                vault_mode: vault_mode,
                vault_key: opt_key(vault_key),
            },
            RequestStep::ReadPlain {
                path,
                file_name,
                chunk_index,
                key,
            } => RequestStepView::ReadPlain {
                path: path@,
                file_name: file_name@,
                chunk_index: chunk_index,
                key: opt_key(key),
            },
            RequestStep::DeleteFile { path, file_name } => RequestStepView::DeleteFile {
                path: path@,
                file_name: file_name@,
            },
        }
    }
}

/// All connected peers but one that have a key are asked for their manifests:
/// the first `n` of them.
pub open spec fn mesh_refreshed(
    peer: Seq<char>,
    s: AppStateView,
    n: nat,
    out: Seq<EffectView>,
) -> Seq<EffectView>
    decreases n,
{
    if n == 0 {
        out
    } else {
        let before = mesh_refreshed(peer, s, (n - 1) as nat, out);
        let other = s.connected_peers[n - 1];
        if other != peer && has_key(s.peer_keys, other) {
            before.push(asked(other, SyncMessageView::ManifestRequest)).push(
                logged(
                    "INFO"@,
                    "New peer joined mesh — refreshing from "@ + short_name(other) + " …"@,
                ),
            )
        } else {
            before
        }
    }
}

/// A peer announced its folder: its manifest is asked for, ours is announced if
/// it was not, and the other peers are asked for theirs.
pub open spec fn folder_announced(
    peer: Seq<char>,
    peer_name: Seq<char>,
    s: AppStateView,
    out: Seq<EffectView>,
) -> (AppStateView, Seq<EffectView>) {
    let s1 = AppStateView { peer_names: put(s.peer_names, peer, peer_name), ..s };
    let out1 = out.push(
        logged(
            "INFO"@,
            peer_name + " announced their folder — requesting their manifest …"@,
        ),
    ).push(answered(SyncMessageView::Ack)).push(asked(peer, SyncMessageView::ManifestRequest));
    let announce = s1.sync_path is Some && !s1.announced_to.contains(peer);
    let s2 = if announce {
        AppStateView { announced_to: with_element(s1.announced_to, peer), ..s1 }
    } else {
        s1
    };
    let out2 = if announce {
        out1.push(asked(peer, SyncMessageView::FolderAnnouncement { node_name: s1.node_name }))
    } else {
        out1
    };
    (s2, mesh_refreshed(peer, s2, s2.connected_peers.len(), out2))
}

/// The operator's key is taken over for a peer without one, if all peers have
/// it.
pub open spec fn with_operator_key(s: AppStateView, peer: Seq<char>) -> AppStateView {
    if s.shared_key_from_cli {
        with_shared_key(s, peer)
    } else {
        s
    }
}

/// A manifest is asked for: it is encrypted where the peer has a key.
pub open spec fn manifest_requested(
    peer: Seq<char>,
    s: AppStateView,
    out: Seq<EffectView>,
) -> (AppStateView, Seq<EffectView>, RequestStepView) {
    let s1 = with_operator_key(s, peer);
    match s1.sync_path {
        None => (
            s1,
            out.push(
                logged("INFO"@, short_name(peer) + " requested manifest — no folder set yet"@),
            ).push(answered(SyncMessageView::Empty)),
            RequestStepView::Done,
        ),
        Some(path) => match lookup(s1.peer_keys, peer) {
            Some(key) => if s1.encrypted_protocol {
                (
                    s1,
                    out.push(
                        logged(
                            "INFO"@,
                            short_name(peer) + " requested our manifest — sending ENCRYPTED"@,
                        ),
                    ),
                    RequestStepView::ListEncrypted { path, key, vault_mode: s1.vault_mode },
                )
            } else {
                (
                    s1,
                    out.push(
                        logged(
                            "INFO"@,
                            short_name(peer) + " requested our manifest (plaintext)"@,
                        ),
                    ),
                    RequestStepView::ListPlain { path },
                )
            },
            None => (
                s1,
                out.push(
                    logged("INFO"@, short_name(peer) + " requested our manifest (plaintext)"@),
                ),
                RequestStepView::ListPlain { path },
            ),
        },
    }
}

/// A peer with a key gets the manifest encrypted with that key, and never in the
/// clear, unless the encrypted protocol is switched off.
pub proof fn law_keyed_peers_get_encrypted_manifests(
    peer: Seq<char>,
    path: Seq<char>,
    s: AppStateView,
    out: Seq<EffectView>,
)
    requires
        s.encrypted_protocol,
        s.sync_path == Some(path),
        has_key(s.peer_keys, peer),
    ensures
        manifest_requested(peer, s, out).2 == (RequestStepView::ListEncrypted {
            path,
            key: lookup(s.peer_keys, peer)->0,
            vault_mode: s.vault_mode,
        }),
{
}

/// The file behind an opaque id that a peer was told.
pub open spec fn outbound_name(
    s: AppStateView,
    peer: Seq<char>,
    file_id: Seq<u8>,
) -> Option<Seq<char>> {
    match lookup(s.outbound_file_ids, peer) {
        Some(ids) => lookup(ids, file_id),
        None => None,
    }
}

/// A key exchange is proposed. The key of a peer that is trusted already stays: the
/// user is warned, and has to revoke it before another can be agreed on. A new peer
/// has to wait for the user.
pub open spec fn exchange_proposed(
    peer: Seq<char>,
    theirs: Seq<u8>,
    s: AppStateView,
    out: Seq<EffectView>,
) -> (AppStateView, Seq<EffectView>) {
    if has_key(s.peer_keys, peer) {
        (
            s,
            out.push(
                logged(
                    "WARN"@,
                    "Refused a new key from already-trusted "@ + short_name(peer)
                        + " — revoke its key to exchange another"@,
                ),
            ).push(answered(SyncMessageView::Ack)),
        )
    } else {
        let shown = display_name(s, peer);
        (
            AppStateView { pending_approvals: put(s.pending_approvals, peer, theirs), ..s },
            out.push(
                logged(
                    "WARN"@,
                    "Peer "@ + shown + " is requesting to sync — waiting for your approval"@,
                ),
            ).push(
                told(GuiEventView::PeerApprovalRequired { peer_id: peer, display_name: shown }),
            ).push(answered(SyncMessageView::Ack)),
        )
    }
}

/// A proposal changes neither the key of a trusted peer nor the store, and is not
/// accepted.
pub proof fn law_trusted_keys_are_not_replaced(
    peer: Seq<char>,
    theirs: Seq<u8>,
    s: AppStateView,
)
    requires
        has_key(s.peer_keys, peer),
    ensures
        ({
            let request = SyncMessageView::KeyExchangePropose { public_key: theirs };
            let (s1, out, step) = served(request, peer, s, Seq::empty());
            &&& s1 == s
            &&& step is Done
            &&& forall|i: int|
                0 <= i < out.len() ==> !(#[trigger] out[i] is PersistKey) && (out[i] is Respond
                    ==> out[i] == answered(SyncMessageView::Ack))
        }),
{
}

/// A peer accepted our proposal by a request of its own.
pub open spec fn exchange_accepted(
    peer: Seq<char>,
    theirs: Seq<u8>,
    s: AppStateView,
    out: Seq<EffectView>,
) -> (AppStateView, Seq<EffectView>) {
    match lookup(s.pending_exchanges, peer) {
        None => (
            s,
            out.push(
                logged(
                    "WARN"@,
                    "KeyExchangeAccept from "@ + short_name(peer)
                        + " but no pending exchange — ignoring"@,
                ),
            ).push(answered(SyncMessageView::Ack)),
        ),
        Some(secret) => {
            let key = shared_key(secret, theirs);
            (
                with_peer_key(
                    AppStateView { pending_exchanges: without(s.pending_exchanges, peer), ..s },
                    peer,
                    key,
                ),
                out.push(kept_key(peer, key)).push(
                    logged(
                        "OK"@,
                        "TOFU established with "@ + short_name(peer) + " | fingerprint: "@
                            + group_fingerprint(key),
                    ),
                ).push(answered(SyncMessageView::Ack)),
            )
        },
    }
}

/// A file changed at a peer: our copy is removed and the peer's manifest asked
/// for.
pub open spec fn file_changed(
    peer: Seq<char>,
    file_name: Seq<char>,
    s: AppStateView,
    out: Seq<EffectView>,
) -> (AppStateView, Seq<EffectView>) {
    let out1 = out.push(answered(SyncMessageView::Ack));
    match s.sync_path {
        None => (s, out1),
        Some(root) => {
            let path = absolute(root, file_name);
            (
                AppStateView { deleting_files: with_element(s.deleting_files, path), ..s },
                out1.push(EffectView::RemoveFile { path }).push(
                    EffectView::ForgetDeleting { path },
                ).push(
                    logged(
                        "INFO"@,
                        file_name + " changed on "@ + short_name(peer) + " — re-requesting"@,
                    ),
                ).push(asked(peer, SyncMessageView::ManifestRequest)),
            )
        },
    }
}

/// What a request leads to once the stored key of the peer is loaded.
pub open spec fn served(
    request: SyncMessageView,
    peer: Seq<char>,
    s: AppStateView,
    out: Seq<EffectView>,
) -> (AppStateView, Seq<EffectView>, RequestStepView) {
    match request {
        SyncMessageView::FolderAnnouncement { node_name } => {
            let (s1, out1) = folder_announced(peer, node_name, s, out);
            (s1, out1, RequestStepView::Done)
        },
        SyncMessageView::ManifestRequest => manifest_requested(peer, s, out),
        SyncMessageView::EncryptedChunkRequest { file_id, chunk_index } => match (
            s.sync_path,
            lookup(s.peer_keys, peer),
            outbound_name(s, peer, file_id),
        ) {
            (Some(path), Some(key), Some(rel)) => (
                s,
                out,
                RequestStepView::ReadEncrypted {
                    path,
                    rel,
                    file_id,
                    chunk_index,
                    key,
                    vault_mode: s.vault_mode,
                    vault_key: s.vault_key,
                },
            ),
            _ => (
                s,
                out.push(
                    answered(
                        SyncMessageView::Error {
                            message:
                                "Encrypted chunk request: missing key/folder/id mapping"@,
                        },
                    ),
                ),
                RequestStepView::Done,
            ),
        },
        SyncMessageView::ChunkRequest { file_name, chunk_index } => match s.sync_path {
            None => (
                s,
                out.push(answered(SyncMessageView::Error { message: "No sync folder"@ })),
                RequestStepView::Done,
            ),
            Some(path) => (
                s,
                out,
                RequestStepView::ReadPlain {
                    path,
                    file_name,
                    chunk_index,
                    key: lookup(s.peer_keys, peer),
                },
            ),
        },
        SyncMessageView::TransferComplete { file_name } => (
            s,
            out.push(
                logged("OK"@, short_name(peer) + " confirmed receipt of "@ + file_name),
            ).push(answered(SyncMessageView::Ack)),
            RequestStepView::Done,
        ),
        SyncMessageView::FileChanged { file_name } => {
            let (s1, out1) = file_changed(peer, file_name, s, out);
            (s1, out1, RequestStepView::Done)
        },
        SyncMessageView::FileDeleted { file_name } => (
            s,
            out.push(answered(SyncMessageView::Ack)),
            match s.sync_path {
                Some(root) => RequestStepView::DeleteFile {
                    path: absolute(root, file_name),
                    file_name,
                },
                None => RequestStepView::Done,
            },
        ),
        SyncMessageView::KeyExchangePropose { public_key } => {
            let (s1, out1) = exchange_proposed(peer, public_key, s, out);
            (s1, out1, RequestStepView::Done)
        },
        SyncMessageView::KeyExchangeAccept { public_key } => {
            let (s1, out1) = exchange_accepted(peer, public_key, s, out);
            (s1, out1, RequestStepView::Done)
        },
        _ => (
            s,
            out.push(answered(SyncMessageView::Error { message: "Unexpected request type"@ })),
            RequestStepView::Done,
        ),
    }
}

/// How many of the effects are answers.
pub open spec fn answer_count(out: Seq<EffectView>) -> nat
    decreases out.len(),
{
    if out.len() == 0 {
        0
    } else {
        answer_count(out.drop_last()) + if out.last() is Respond {
            1nat
        } else {
            0nat
        }
    }
}

proof fn lemma_answers_push(out: Seq<EffectView>, e: EffectView)
    ensures
        #[trigger] answer_count(out.push(e)) == answer_count(out) + if e is Respond {
            1nat
        } else {
            0nat
        },
{
    assert(out.push(e).drop_last() =~= out);
}

proof fn lemma_mesh_answers(peer: Seq<char>, s: AppStateView, n: nat, out: Seq<EffectView>)
    ensures
        answer_count(mesh_refreshed(peer, s, n, out)) == answer_count(out),
    decreases n,
{
    if n > 0 {
        lemma_mesh_answers(peer, s, (n - 1) as nat, out);
        assert forall|o: Seq<EffectView>, e: EffectView| #[trigger]
            answer_count(o.push(e)) == answer_count(o) + if e is Respond {
                1nat
            } else {
                0nat
            } by {
            lemma_answers_push(o, e);
        }
    }
}

/// Every request is answered exactly once: at once, unless a folder has to be
/// listed or a chunk read before.
pub proof fn law_every_request_is_answered_once(
    request: SyncMessageView,
    peer: Seq<char>,
    s: AppStateView,
    out: Seq<EffectView>,
)
    ensures
        ({
            let (s1, out1, step) = served(request, peer, s, out);
            answer_count(out1) == answer_count(out) + if step is Done || step is DeleteFile {
                1nat
            } else {
                0nat
            }
        }),
{
    assert forall|o: Seq<EffectView>, e: EffectView| #[trigger] answer_count(o.push(e))
        == answer_count(o) + if e is Respond {
        1nat
    } else {
        0nat
    } by {
        lemma_answers_push(o, e);
    }
    if let SyncMessageView::FolderAnnouncement { node_name } = request {
        let s1 = AppStateView { peer_names: put(s.peer_names, peer, node_name), ..s };
        let out1 = out.push(
            logged(
                "INFO"@,
                node_name + " announced their folder — requesting their manifest …"@,
            ),
        ).push(answered(SyncMessageView::Ack)).push(
            asked(peer, SyncMessageView::ManifestRequest),
        );
        let announce = s1.sync_path is Some && !s1.announced_to.contains(peer);
        let s2 = if announce {
            AppStateView { announced_to: with_element(s1.announced_to, peer), ..s1 }
        } else {
            s1
        };
        let out2 = if announce {
            out1.push(
                asked(peer, SyncMessageView::FolderAnnouncement { node_name: s1.node_name }),
            )
        } else {
            out1
        };
        lemma_mesh_answers(peer, s2, s2.connected_peers.len(), out2);
    }
}

fn refresh_mesh(peer: &PeerId, state: &AppState, out: &mut Outbox)
    ensures
        final(out)@ == mesh_refreshed(
            peer@,
            state@,
            state@.connected_peers.len(),
            old(out)@,
        ),
{
    let n: usize = state.connected_peers.len();
    let mut i: usize = 0;
    while i < n
        invariant
            n == state@.connected_peers.len(),
            i <= n,
            out@ == mesh_refreshed(peer@, state@, i as nat, old(out)@),
        decreases n - i,
    {
        let other = state.connected_peers.at(i);
        if !crate::collections::Key::same(other, peer) && state.peer_keys.contains_key(other) {
            out.ask(other, SyncMessage::ManifestRequest);
            out.log(
                "INFO",
                concat3(
                    "New peer joined mesh — refreshing from ",
                    other.short().as_str(),
                    " …",
                ),
            );
        }
        i = i + 1;
    }
}

fn on_announcement(peer: &PeerId, peer_name: String, state: &mut AppState, out: &mut Outbox)
    ensures
        final(state)@ == folder_announced(peer@, peer_name@, old(state)@, old(out)@).0,
        final(out)@ == folder_announced(peer@, peer_name@, old(state)@, old(out)@).1,
{
    out.log(
        "INFO",
        concat2(
            peer_name.as_str(),
            " announced their folder — requesting their manifest …",
        ),
    );
    state.peer_names.insert(peer.to_text(), peer_name);
    out.answer(SyncMessage::Ack);
    out.ask(peer, SyncMessage::ManifestRequest);
    if state.sync_path.is_some() && !state.announced_to.contains(peer) {
        state.announced_to.insert(peer.clone());
        out.ask(peer, SyncMessage::FolderAnnouncement { node_name: state.node_name.clone() });
    }
    refresh_mesh(peer, state, out);
}

fn on_manifest_request(peer: &PeerId, state: &mut AppState, out: &mut Outbox) -> (step: RequestStep)
    ensures
        final(state)@ == manifest_requested(peer@, old(state)@, old(out)@).0,
        final(out)@ == manifest_requested(peer@, old(state)@, old(out)@).1,
        step@ == manifest_requested(peer@, old(state)@, old(out)@).2,
{
    if state.shared_key_from_cli {
        state.mirror_shared_key(peer);
    }
    let path = match &state.sync_path {
        None => {
            out.log(
                "INFO",
                concat2(peer.short().as_str(), " requested manifest — no folder set yet"),
            );
            out.answer(SyncMessage::Empty);
            return RequestStep::Done;
        },
        Some(p) => p.clone(),
    };
    match state.key_for_peer(peer) {
        Some(key) if state.encrypted_protocol => {
            out.log(
                "INFO",
                concat2(peer.short().as_str(), " requested our manifest — sending ENCRYPTED"),
            );
            RequestStep::ListEncrypted { path, key, vault_mode: state.vault_mode }
        },
        _ => {
            out.log(
                "INFO",
                concat2(peer.short().as_str(), " requested our manifest (plaintext)"),
            );
            RequestStep::ListPlain { path }
        },
    }
}

fn on_proposal(peer: &PeerId, theirs: &[u8; 32], state: &mut AppState, out: &mut Outbox)
    ensures
        ({
            let r = exchange_proposed(peer@, theirs@, old(state)@, old(out)@);
            final(state)@ == r.0 && final(out)@ == r.1
        }),
{
    if state.peer_keys.contains_key(peer) {
        out.log(
            "WARN",
            concat3(
                "Refused a new key from already-trusted ",
                peer.short().as_str(),
                " — revoke its key to exchange another",
            ),
        );
        out.answer(SyncMessage::Ack);
        return;
    }
    state.pending_approvals.insert(peer.clone(), *theirs);
    let display = state.peer_display_name(peer);
    out.log(
        "WARN",
        concat3(
            "Peer ",
            display.as_str(),
            " is requesting to sync — waiting for your approval",
        ),
    );
    out.tell(GuiEvent::PeerApprovalRequired { peer_id: peer.to_text(), display_name: display });
    out.answer(SyncMessage::Ack);
}

fn on_acceptance(peer: &PeerId, theirs: &[u8; 32], state: &mut AppState, out: &mut Outbox)
    ensures
        final(state)@ == exchange_accepted(peer@, theirs@, old(state)@, old(out)@).0,
        final(out)@ == exchange_accepted(peer@, theirs@, old(state)@, old(out)@).1,
{
    match state.pending_exchanges.remove(peer) {
        None => {
            out.log(
                "WARN",
                concat3(
                    "KeyExchangeAccept from ",
                    peer.short().as_str(),
                    " but no pending exchange — ignoring",
                ),
            );
        },
        Some(secret) => {
            if let Ok(key) = derive_shared_key(&secret, theirs) {
                let fp = key_fingerprint(&key);
                state.set_peer_key(peer, key, out);
                out.log(
                    "OK",
                    concat4(
                        "TOFU established with ",
                        peer.short().as_str(),
                        " | fingerprint: ",
                        fp.as_str(),
                    ),
                );
            }
        },
    }
    out.answer(SyncMessage::Ack);
}

fn on_file_changed(peer: &PeerId, file_name: &String, state: &mut AppState, out: &mut Outbox)
    ensures
        final(state)@ == file_changed(peer@, file_name@, old(state)@, old(out)@).0,
        final(out)@ == file_changed(peer@, file_name@, old(state)@, old(out)@).1,
{
    out.answer(SyncMessage::Ack);
    let path = match &state.sync_path {
        None => {
            return;
        },
        Some(root) => rel_to_abs(root.as_str(), file_name.as_str()),
    };
    state.deleting_files.insert(path.clone());
    out.push(Effect::RemoveFile { path: path.clone() });
    out.push(Effect::ForgetDeleting { path });
    out.log(
        "INFO",
        concat4(
            file_name.as_str(),
            " changed on ",
            peer.short().as_str(),
            " — re-requesting",
        ),
    );
    out.ask(peer, SyncMessage::ManifestRequest);
}

fn find_outbound(state: &AppState, peer: &PeerId, file_id: &[u8; 16]) -> (r: Option<String>)
    ensures
        opt_text(r) == outbound_name(state@, peer@, file_id@),
{
    match state.outbound_file_ids.get(peer) {
        Some(ids) => match ids.get(file_id) {
            Some(name) => Some(name.clone()),
            None => None,
        },
        None => None,
    }
}

/// Handles a request. The stored key of the peer is loaded before.
pub fn on_request(
    request: SyncMessage,
    peer: &PeerId,
    stored_key: Option<[u8; 32]>,
    state: &mut AppState,
    out: &mut Outbox,
) -> (step: RequestStep)
    ensures
        served(
            request@,
            peer@,
            with_stored_key(old(state)@, peer@, opt_key(stored_key)),
            old(out)@,
        ) == (final(state)@, final(out)@, step@),
{
    state.load_stored_key(peer, stored_key);
    match request {
        SyncMessage::FolderAnnouncement { node_name } => {
            on_announcement(peer, node_name, state, out);
            RequestStep::Done
        },
        SyncMessage::ManifestRequest => on_manifest_request(peer, state, out),
        SyncMessage::EncryptedChunkRequest { file_id, chunk_index } => {
            let rel = find_outbound(state, peer, &file_id);
            match (&state.sync_path, state.key_for_peer(peer), rel) {
                (Some(path), Some(key), Some(rel)) => RequestStep::ReadEncrypted {
                    path: path.clone(),
                    rel,
                    file_id,
                    chunk_index,
                    key,
                    vault_mode: state.vault_mode,
                    vault_key: state.vault_key,
                },
                _ => {
                    out.answer(
                        SyncMessage::Error {
                            message: owned(
                                "Encrypted chunk request: missing key/folder/id mapping",
                            ),
                        },
                    );
                    RequestStep::Done
                },
            }
        },
        SyncMessage::ChunkRequest { file_name, chunk_index } => {
            match &state.sync_path {
                None => {
                    out.answer(SyncMessage::Error { message: owned("No sync folder") });
                    RequestStep::Done
                },
                Some(path) => RequestStep::ReadPlain {
                    path: path.clone(),
                    file_name,
                    chunk_index,
                    key: state.key_for_peer(peer),
                },
            }
        },
        SyncMessage::TransferComplete { file_name } => {
            out.log(
                "OK",
                concat3(peer.short().as_str(), " confirmed receipt of ", file_name.as_str()),
            );
            out.answer(SyncMessage::Ack);
            RequestStep::Done
        },
        SyncMessage::FileChanged { file_name } => {
            on_file_changed(peer, &file_name, state, out);
            RequestStep::Done
        },
        SyncMessage::FileDeleted { file_name } => {
            out.answer(SyncMessage::Ack);
            match &state.sync_path {
                Some(root) => {
                    let path = rel_to_abs(root.as_str(), file_name.as_str());
                    RequestStep::DeleteFile { path, file_name }
                },
                None => RequestStep::Done,
            }
        },
        SyncMessage::KeyExchangePropose { public_key } => {
            on_proposal(peer, &public_key, state, out);
            RequestStep::Done
        },
        SyncMessage::KeyExchangeAccept { public_key } => {
            on_acceptance(peer, &public_key, state, out);
            RequestStep::Done
        },
        _ => {
            out.answer(SyncMessage::Error { message: owned("Unexpected request type") });
            RequestStep::Done
        },
    }
}

/// The view of a manifest that was serialised, with the ids of its files.
pub open spec fn manifest_view(
    manifest: Result<Option<(Vec<u8>, Assoc<[u8; 16], String>)>, String>,
) -> Result<Option<(Seq<u8>, Seq<(Seq<u8>, Seq<char>)>)>, Seq<char>> {
    match manifest {
        Ok(Some((cbor, ids))) => Ok(Some((cbor@, ids@))),
        Ok(None) => Ok(None),
        Err(e) => Err(e@),
    }
}

/// The ids by which a peer may ask from now on.
pub open spec fn ids_told(
    s: AppStateView,
    peer: Seq<char>,
    ids: Seq<(Seq<u8>, Seq<char>)>,
) -> AppStateView {
    AppStateView { outbound_file_ids: put(s.outbound_file_ids, peer, ids), ..s }
}

/// A message is the serialised manifest, sealed with the key.
pub open spec fn seals_manifest(message: SyncMessageView, cbor: Seq<u8>, key: Seq<u8>) -> bool {
    message matches SyncMessageView::EncryptedManifest { ciphertext } && carries(
        ciphertext,
        cbor,
        Some(key),
        MANIFEST_AAD@,
    )
}

/// Answers a request for an encrypted manifest, from the serialised manifest, if there
/// are files, and the ids that it tells. A peer with a key never gets anything but the
/// sealed manifest, the word that there is none, or an error.
pub fn encrypted_manifest_ready(
    peer: &PeerId,
    manifest: Result<Option<(Vec<u8>, Assoc<[u8; 16], String>)>, String>,
    key: &[u8; 32],
    state: &mut AppState,
    out: &mut Outbox,
)
    ensures
        match manifest_view(manifest) {
            Err(e) => {
                &&& final(state)@ == old(state)@
                &&& final(out)@ == old(out)@.push(answered(SyncMessageView::Error { message: e }))
            },
            Ok(None) => {
                &&& final(state)@ == ids_told(old(state)@, peer@, Seq::empty())
                &&& final(out)@ == old(out)@.push(answered(SyncMessageView::Empty))
            },
            Ok(Some((cbor, ids))) => if cbor.len() > AEAD_MESSAGE_MAX {
                &&& final(state)@ == old(state)@
                &&& final(out)@ == old(out)@.push(
                    answered(
                        SyncMessageView::Error { message: error_text(ErrorView::ManifestEncrypt) },
                    ),
                )
            } else {
                &&& final(state)@ == ids_told(old(state)@, peer@, ids)
                &&& exists|message: SyncMessageView| #[trigger]
                    seals_manifest(message, cbor, key@) && final(out)@ == old(out)@.push(
                        answered(message),
                    )
            },
        },
{
    match manifest {
        Err(e) => {
            out.answer(SyncMessage::Error { message: e });
        },
        Ok(None) => {
            state.outbound_file_ids.insert(peer.clone(), Assoc::new());
            out.answer(SyncMessage::Empty);
        },
        Ok(Some((cbor, ids))) => match seal_manifest(key, cbor.as_slice()) {
            Ok(message) => {
                assert(seals_manifest(message@, cbor@, key@));
                state.outbound_file_ids.insert(peer.clone(), ids);
                out.answer(message);
            },
            Err(e) => {
                out.answer(SyncMessage::Error { message: e.message() });
            },
        },
    }
}

/// Answers a request for a plain manifest.
pub fn plain_manifest_ready(
    listing: Result<Vec<FileMetadata>, String>,
    node_name: &str,
    out: &mut Outbox,
)
    ensures
        final(out)@ == old(out)@.push(
            answered(
                match listing {
                    Ok(files) => plain_manifest(metadata_views(files@), node_name@),
                    Err(e) => SyncMessageView::Error { message: e@ },
                },
            ),
        ),
{
    match listing {
        Ok(files) => {
            out.answer(get_manifest(&files, node_name));
        },
        Err(e) => {
            out.answer(SyncMessage::Error { message: e });
        },
    }
}

/// A chunk that was read is answered encrypted and tied to its place; what went
/// wrong is told in its stead.
pub open spec fn encrypted_answer(
    message: SyncMessageView,
    file_id: Seq<u8>,
    chunk_index: u32,
    plaintext: Result<Seq<u8>, Seq<char>>,
    key: Seq<u8>,
) -> bool {
    match plaintext {
        Err(e) => message == (SyncMessageView::Error { message: e }),
        Ok(plain) => if plain.len() > AEAD_MESSAGE_MAX {
            message == (SyncMessageView::Error { message: "encrypted-chunk AEAD"@ })
        } else {
            message matches SyncMessageView::EncryptedChunkResponse {
                file_id: id,
                chunk_index: index,
                data,
                blinded_hash: hash,
            } && id == file_id && index == chunk_index && hash == blinded_hash(
                key,
                blake3_digest(plain),
            ) && carries(data, plain, Some(key), position_aad(CHUNK_TAG@, file_id, chunk_index))
        },
    }
}

/// The bytes that were read, or the complaint.
pub open spec fn read_or_complaint(r: Result<Vec<u8>, Error>) -> Result<Seq<u8>, Seq<char>> {
    match r {
        Ok(b) => Ok(b@),
        Err(e) => Err(error_text(e@)),
    }
}

/// Answers an encrypted request for a chunk.
pub fn encrypted_chunk_ready(
    peer: &PeerId,
    file_id: [u8; 16],
    chunk_index: u32,
    plaintext: Result<Vec<u8>, Error>,
    key: &[u8; 32],
    out: &mut Outbox,
)
    ensures
        exists|message: SyncMessageView|
            #[trigger] encrypted_answer(
                message,
                file_id@,
                chunk_index,
                read_or_complaint(plaintext),
                key@,
            ) && final(out)@ == if message is EncryptedChunkResponse {
                old(out)@.push(
                    logged(
                        "INFO"@,
                        "→ encrypted chunk ["@ + decimal(chunk_index as nat) + "] to "@
                            + short_name(peer@),
                    ),
                ).push(answered(message))
            } else {
                old(out)@.push(answered(message))
            },
{
    let ghost read = read_or_complaint(plaintext);
    let message = match get_encrypted_chunk(file_id, chunk_index, plaintext, key) {
        Ok(m) => m,
        Err(e) => SyncMessage::Error { message: e.message() },
    };
    let ghost view = message@;
    assert(encrypted_answer(view, file_id@, chunk_index, read, key@));
    if let SyncMessage::EncryptedChunkResponse { .. } = &message {
        out.log(
            "INFO",
            concat4(
                "→ encrypted chunk [",
                decimal_text(chunk_index as u64).as_str(),
                "] to ",
                peer.short().as_str(),
            ),
        );
    }
    out.answer(message);
}

/// A chunk that was read is answered, encrypted if there is a key; what went
/// wrong is told in its stead.
pub open spec fn plain_answer(
    message: SyncMessageView,
    file_name: Seq<char>,
    chunk_index: usize,
    plaintext: Result<Seq<u8>, Seq<char>>,
    key: Option<Seq<u8>>,
) -> bool {
    match plaintext {
        Err(e) => message == (SyncMessageView::Error { message: e }),
        Ok(plain) => if key is Some && plain.len() > AEAD_MESSAGE_MAX {
            message == (SyncMessageView::Error {
                message: "Chunk encryption failed: Encryption failed: aead::Error"@,
            })
        } else {
            message matches SyncMessageView::ChunkResponse {
                file_name: name,
                chunk_index: index,
                data,
                hash,
            } && name == file_name && index == chunk_index && hash == blake3_digest(plain)
                && carries(data, plain, key, seq![])
        },
    }
}

/// Answers a plain request for a chunk.
pub fn plain_chunk_ready(
    peer: &PeerId,
    file_name: &String,
    chunk_index: usize,
    plaintext: Result<Vec<u8>, Error>,
    key: Option<[u8; 32]>,
    out: &mut Outbox,
)
    ensures
        exists|message: SyncMessageView|
            #[trigger] plain_answer(
                message,
                file_name@,
                chunk_index,
                read_or_complaint(plaintext),
                opt_key(key),
            ) && final(out)@ == if message is ChunkResponse {
                old(out)@.push(
                    logged(
                        "INFO"@,
                        "-> "@ + file_name@ + " ["@ + decimal(chunk_index as nat) + "] to "@
                            + short_name(peer@),
                    ),
                ).push(answered(message))
            } else {
                old(out)@.push(answered(message))
            },
{
    let ghost read = read_or_complaint(plaintext);
    let key_ref = match &key {
        Some(k) => Some(k),
        None => None,
    };
    let message = match get_chunk_modal(file_name.as_str(), chunk_index, plaintext, key_ref) {
        Ok(m) => m,
        Err(e) => SyncMessage::Error { message: e.message() },
    };
    let ghost view = message@;
    assert(plain_answer(view, file_name@, chunk_index, read, opt_key(key)));
    if let SyncMessage::ChunkResponse { .. } = &message {
        out.log(
            "INFO",
            concat6(
                "-> ",
                file_name.as_str(),
                " [",
                decimal_text(chunk_index as u64).as_str(),
                "] to ",
                peer.short().as_str(),
            ),
        );
    }
    out.answer(message);
}

/// Tells of a file that was deleted on a peer's behalf, or not.
pub fn file_deleted(file_name: &str, error: Option<String>, out: &mut Outbox)
    ensures
        final(out)@ == old(out)@.push(
            match opt_text(error) {
                Some(e) => logged("WARN"@, "Could not delete "@ + file_name@ + ": "@ + e),
                None => logged("OK"@, file_name@ + " deleted (peer removed it)"@),
            },
        ),
{
    match error {
        Some(e) => {
            out.log("WARN", concat4("Could not delete ", file_name, ": ", e.as_str()));
        },
        None => {
            out.log("OK", concat2(file_name, " deleted (peer removed it)"));
        },
    }
}

/// What was read and listed for a peer is answered as it was found.
pub proof fn law_what_was_read(
    cbor: Vec<u8>,
    ids: Assoc<[u8; 16], String>,
    error: String,
    read: Vec<u8>,
    fault: Error,
)
    ensures
        manifest_view(Ok(Some((cbor, ids)))) == Ok::<
            Option<(Seq<u8>, Seq<(Seq<u8>, Seq<char>)>)>,
            Seq<char>,
        >(Some((cbor@, ids@))),
        manifest_view(Ok(None)) == Ok::<
            Option<(Seq<u8>, Seq<(Seq<u8>, Seq<char>)>)>,
            Seq<char>,
        >(None),
        manifest_view(Err(error)) == Err::<
            Option<(Seq<u8>, Seq<(Seq<u8>, Seq<char>)>)>,
            Seq<char>,
        >(error@),
        read_or_complaint(Ok(read)) == Ok::<Seq<u8>, Seq<char>>(read@),
        read_or_complaint(Err(fault)) == Err::<Seq<u8>, Seq<char>>(error_text(fault@)),
{
}

} // verus!
