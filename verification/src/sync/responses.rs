//! The downloading side: responses of peers to our requests.
use crate::collections::{
    has_key, law_put, law_without, lemma_position, lookup, put, with_element, without, Assoc,
};
use crate::crypto::{
    blinded_hash, chunk_aad, decrypt, decrypt_with_aad, opened_block, position_aad, refusal,
    CHUNK_TAG,
};
use crate::error::{error_text, Error, ErrorView};
use crate::gui::types::{GuiEvent, GuiEventView};
use crate::network::{
    EncryptedFileEntry, EncryptedFileEntryView, EncryptedManifestPayload,
    EncryptedManifestPayloadView, FileEntry, FileEntryView, SyncMessage, SyncMessageView,
};
use crate::paths::{absolute, has_file_name, rel_to_abs, rel_to_vault_abs, vault_path};
use crate::peer::{short_name, PeerId};
use crate::primitives::blake3_digest;
use crate::state::{
    with_peer_key, with_stored_key, AppState, AppStateView, InboundFileInfo, InboundFileInfoView,
};
use crate::storage::{
    chunk_count, copy_hashes, file_chunks, law_chunks_make_up_the_file, opt_id, opt_key,
    pending_from, transfer_total, FileTransferState, FileTransferStateView, PendingFile,
    PendingFileView, MANIFEST_AAD,
};
use crate::sync::commands::{status_event, vault_status};
use crate::sync::download::{
    chunk_request, download_ok, law_offers_keep_order, lemma_count_push, make_chunk_request,
    no_download, pending_views, queue_offers, request_count, with_offers, PeerDownload,
    PeerDownloadView,
};
use crate::sync::effect::{asked, kept_key, logged, told, Effect, EffectView, Outbox};
use crate::text::{
    concat2, concat3, concat4, concat5, concat6, concat8, decimal, decimal_text, opt_text, owned,
    texts,
};
use crate::tofu::{derive_shared_key, group_fingerprint, key_fingerprint, shared_key};
use crate::transfer::{
    assembles, assembly_fault, can_assemble, chunks_in_order, decrypt_manifest, names_file,
    reassemble_modal, received, verify_chunk, verify_chunk_blinded, WriteOrder, WriteOrderView,
};
use crate::vault::{hash_strings, law_vault_gives_back_what_was_stored, vault_plaintext};
use vstd::prelude::*;

verus! {

/// The files that a peer offers.
#[derive(Debug)]
pub struct Offer {
    pub peer_name: String,
    pub files: Vec<PendingFile>,
    /// Whether the offer came encrypted.
    pub encrypted: bool,
}

/// What an `Offer` holds.
#[verifier::ext_equal]
pub ghost struct OfferView {
    pub peer_name: Seq<char>,
    pub files: Seq<PendingFileView>,
    pub encrypted: bool,
}

impl View for Offer {
    type V = OfferView;

    open spec fn view(&self) -> OfferView {
        OfferView {
            peer_name: self.peer_name@,
            files: self.files@.map_values(|e: PendingFile| e@),
            encrypted: self.encrypted,
        }
    }
}

/// What a response still needs from outside.
#[allow(inconsistent_fields)]
#[derive(Debug)]
pub enum ResponseStep {
    /// Nothing.
    Done,
    /// A serialised manifest is to be parsed.
    ParseManifest { cbor: Vec<u8> },
    /// The disk is to be asked which of the offered files are there.
    CheckFiles { path: String, offer: Offer },
    /// A transfer is complete, and its file is to be written.
    Write { file_name: String, encrypted: bool },
}

/// What a `ResponseStep` says.
#[allow(inconsistent_fields)]
#[verifier::ext_equal]
pub ghost enum ResponseStepView {
    Done,
    ParseManifest { cbor: Seq<u8> },
    CheckFiles { path: Seq<char>, offer: OfferView },
    Write { file_name: Seq<char>, encrypted: bool },
}

impl View for ResponseStep {
    type V = ResponseStepView;

    open spec fn view(&self) -> ResponseStepView {
        match *self {
            ResponseStep::Done => ResponseStepView::Done,
            ResponseStep::ParseManifest { cbor } => ResponseStepView::ParseManifest {
                cbor: cbor@,
            },
            ResponseStep::CheckFiles { path, offer } => ResponseStepView::CheckFiles {
                path: path@,
                offer: offer@,
            },
            ResponseStep::Write { file_name, encrypted } => ResponseStepView::Write {
                file_name: file_name@,
                encrypted: encrypted,
            },
        }
    }
}

/// A peer accepted our proposal: the key is derived, and its manifest asked for.
pub open spec fn key_accepted(
    peer: Seq<char>,
    theirs: Seq<u8>,
    s: AppStateView,
    out: Seq<EffectView>,
) -> (AppStateView, Seq<EffectView>) {
    match lookup(s.pending_exchanges, peer) {
        None => (
            s,
            out.push(
                logged(
                    "WARN"@,
                    "Received KeyExchangeAccept from "@ + short_name(peer)
                        + " but no pending exchange found — ignoring"@,
                ),
            ),
        ),
        Some(secret) => {
            let key = shared_key(secret, theirs);
            let s1 = with_peer_key(
                AppStateView { pending_exchanges: without(s.pending_exchanges, peer), ..s },
                peer,
                key,
            );
            let out1 = out.push(kept_key(peer, key)).push(
                logged(
                    "OK"@,
                    "TOFU: key exchange complete with "@ + short_name(peer) + " | fingerprint: "@
                        + group_fingerprint(key),
                ),
            ).push(told(status_event(s1)));
            (
                s1,
                if s1.sync_path is Some {
                    out1.push(asked(peer, SyncMessageView::ManifestRequest)).push(
                        logged(
                            "INFO"@,
                            "TOFU complete — requesting manifest from "@ + short_name(peer)
                                + " …"@,
                        ),
                    )
                } else {
                    out1
                },
            )
        },
    }
}

/// What is told of a manifest that could not be read.
pub open spec fn manifest_refused(peer: Seq<char>, e: Seq<char>) -> EffectView {
    logged("ERROR"@, "Manifest decrypt failed from "@ + short_name(peer) + ": "@ + e)
}

/// An encrypted manifest came: it is opened with the key of the peer.
pub open spec fn sealed_manifest_came(
    peer: Seq<char>,
    ciphertext: Seq<u8>,
    s: AppStateView,
    out: Seq<EffectView>,
) -> (Seq<EffectView>, ResponseStepView) {
    let out1 = out.push(
        logged(
            "INFO"@,
            "Received encrypted manifest from "@ + short_name(peer) + " ("@ + decimal(
                ciphertext.len(),
            ) + " bytes) — decrypting …"@,
        ),
    );
    match lookup(s.peer_keys, peer) {
        None => (
            out1.push(
                logged(
                    "WARN"@,
                    "EncryptedManifest from "@ + short_name(peer)
                        + " but no transport key — ignoring"@,
                ),
            ),
            ResponseStepView::Done,
        ),
        Some(key) => match opened_block(key, ciphertext, MANIFEST_AAD@) {
            None => (
                out1.push(manifest_refused(peer, error_text(ErrorView::ManifestDecrypt))),
                ResponseStepView::Done,
            ),
            Some(cbor) => (out1, ResponseStepView::ParseManifest { cbor }),
        },
    }
}

/// The entry of an encrypted manifest as a waiting file.
pub open spec fn pending_blinded(fe: EncryptedFileEntryView) -> PendingFileView {
    PendingFileView {
        file_name: fe.file_name,
        total_chunks: fe.total_chunks as usize,
        file_size: fe.file_size,
        chunk_hashes: fe.blinded_chunk_hashes,
        file_id: Some(fe.file_id),
    }
}

/// What is remembered of an entry of an encrypted manifest.
pub open spec fn inbound_info(fe: EncryptedFileEntryView) -> InboundFileInfoView {
    InboundFileInfoView {
        file_name: fe.file_name,
        file_size: fe.file_size,
        total_chunks: fe.total_chunks,
        blinded_chunk_hashes: fe.blinded_chunk_hashes,
    }
}

/// The first `n` entries of an encrypted manifest by their ids.
pub open spec fn inbound_map(files: Seq<EncryptedFileEntryView>, n: nat) -> Seq<
    (Seq<u8>, InboundFileInfoView),
>
    decreases n,
{
    if n == 0 {
        Seq::empty()
    } else {
        put(
            inbound_map(files, (n - 1) as nat),
            files[n - 1].file_id,
            inbound_info(files[n - 1]),
        )
    }
}

/// An encrypted manifest was parsed.
pub open spec fn payload_came(
    peer: Seq<char>,
    payload: EncryptedManifestPayloadView,
    s: AppStateView,
    out: Seq<EffectView>,
) -> (AppStateView, Seq<EffectView>, ResponseStepView) {
    let s1 = AppStateView { peer_names: put(s.peer_names, peer, payload.node_name), ..s };
    if payload.files.len() == 0 {
        (
            s1,
            out.push(
                logged("INFO"@, payload.node_name + " encrypted manifest had no files"@),
            ),
            ResponseStepView::Done,
        )
    } else {
        match s1.sync_path {
            None => (
                s1,
                out.push(
                    logged("WARN"@, "Received encrypted manifest but no sync folder set!"@),
                ),
                ResponseStepView::Done,
            ),
            Some(path) => (
                AppStateView {
                    inbound_file_ids: put(
                        s1.inbound_file_ids,
                        peer,
                        inbound_map(payload.files, payload.files.len()),
                    ),
                    ..s1
                },
                out,
                ResponseStepView::CheckFiles {
                    path,
                    offer: OfferView {
                        peer_name: payload.node_name,
                        files: payload.files.map_values(
                            |fe: EncryptedFileEntryView| pending_blinded(fe),
                        ),
                        encrypted: true,
                    },
                },
            ),
        }
    }
}

/// A plain manifest came.
pub open spec fn plain_manifest_came(
    peer: Seq<char>,
    peer_name: Seq<char>,
    files: Seq<FileEntryView>,
    s: AppStateView,
    out: Seq<EffectView>,
) -> (AppStateView, Seq<EffectView>, ResponseStepView) {
    let s1 = AppStateView { peer_names: put(s.peer_names, peer, peer_name), ..s };
    if files.len() == 0 {
        (
            s1,
            out.push(logged("INFO"@, peer_name + " manifest returned no files"@)),
            ResponseStepView::Done,
        )
    } else {
        match s1.sync_path {
            None => (
                s1,
                out.push(
                    logged(
                        "WARN"@,
                        "Received manifest but no sync folder set — set one first!"@,
                    ),
                ),
                ResponseStepView::Done,
            ),
            Some(path) => (
                s1,
                out,
                ResponseStepView::CheckFiles {
                    path,
                    offer: OfferView {
                        peer_name,
                        files: files.map_values(|fe: FileEntryView| pending_from(fe)),
                        encrypted: false,
                    },
                },
            ),
        }
    }
}

/// What is downloaded from a peer.
pub open spec fn download_of(
    transfers: Seq<(Seq<char>, PeerDownloadView)>,
    peer: Seq<char>,
) -> PeerDownloadView {
    match lookup(transfers, peer) {
        Some(dl) => dl,
        None => no_download(),
    }
}

/// What is told once the offered files are queued.
pub open spec fn offer_told(offer: OfferView, dl: PeerDownloadView, newly: int) -> EffectView {
    if dl.active.len() == 0 && dl.queue.len() == 0 {
        logged(
            "OK"@,
            "All files from "@ + offer.peer_name + if offer.encrypted {
                " already synced"@
            } else {
                " already synced — nothing to do"@
            },
        )
    } else {
        logged(
            "INFO"@,
            offer.peer_name + if offer.encrypted {
                " (encrypted): "@
            } else {
                ": "@
            } + decimal(newly as nat) + " file(s) queued ("@ + decimal(dl.active.len())
                + " active, "@ + decimal(dl.queue.len()) + " waiting)"@,
        )
    }
}

/// The transfer of a file.
pub open spec fn transfer_of(
    transfers: Seq<(Seq<char>, PeerDownloadView)>,
    peer: Seq<char>,
    file_name: Seq<char>,
) -> Option<FileTransferStateView> {
    match lookup(transfers, peer) {
        Some(dl) => lookup(dl.active, file_name),
        None => None,
    }
}

/// A chunk has the hash that the manifest gave for its place. The manifest's
/// hashes are blinded where there is a blinding key.
pub open spec fn chunk_fits(
    ts: FileTransferStateView,
    index: usize,
    plain: Seq<u8>,
    blinding: Option<Seq<u8>>,
) -> bool {
    match ts.metadata {
        None => false,
        Some(m) => {
            &&& index < m.chunk_hashes.len()
            &&& m.chunk_hashes[index as int] == told_hash(plain, blinding)
        },
    }
}

/// The transfer with a chunk that fits, and the next request.
pub open spec fn with_chunk(
    ts: FileTransferStateView,
    index: usize,
    plain: Seq<u8>,
    now: u64,
) -> FileTransferStateView {
    FileTransferStateView {
        received_chunks: ts.received_chunks.insert(index, plain),
        last_activity: now,
        next_request: if ts.next_request < transfer_total(ts) {
            (ts.next_request + 1) as usize
        } else {
            ts.next_request
        },
        ..ts
    }
}

/// What is asked and told when a chunk came.
pub open spec fn chunk_told(
    ts: FileTransferStateView,
    peer: Seq<char>,
    file_id: Option<Seq<u8>>,
    file_name: Seq<char>,
    index: usize,
    fits: bool,
    out: Seq<EffectView>,
) -> Seq<EffectView> {
    let total = transfer_total(ts);
    let out1 = out.push(
        told(
            GuiEventView::ChunkReceived {
                peer_id: peer,
                file_name,
                chunk_index: index,
                total_chunks: total,
                verified: fits,
            },
        ),
    );
    if fits {
        let out2 = if ts.next_request < total {
            out1.push(asked(peer, chunk_request(file_id, file_name, ts.next_request)))
        } else {
            out1
        };
        out2.push(
            logged(
                "INFO"@,
                file_name + "  "@ + decimal((index + 1) as nat) + "/"@ + decimal(total as nat)
                    + if file_id is Some {
                    " (enc)"@
                } else {
                    ""@
                },
            ),
        )
    } else {
        out1.push(
            logged(
                "ERROR"@,
                file_name + " chunk "@ + decimal(index as nat) + if file_id is Some {
                    " BLINDED hash mismatch — retrying"@
                } else {
                    " hash mismatch — retrying"@
                },
            ),
        ).push(asked(peer, chunk_request(file_id, file_name, index)))
    }
}

/// A decrypted chunk came for a file. It is kept if it fits, and asked for again
/// if not. With the last chunk the file can be written.
pub open spec fn chunk_came(
    peer: Seq<char>,
    file_id: Option<Seq<u8>>,
    file_name: Seq<char>,
    index: usize,
    plain: Seq<u8>,
    blinding: Option<Seq<u8>>,
    now: u64,
    s: AppStateView,
    transfers: Seq<(Seq<char>, PeerDownloadView)>,
    out: Seq<EffectView>,
) -> (AppStateView, Seq<(Seq<char>, PeerDownloadView)>, Seq<EffectView>, ResponseStepView) {
    match transfer_of(transfers, peer, file_name) {
        None => (s, transfers, out, ResponseStepView::Done),
        Some(ts) => {
            let fits = chunk_fits(ts, index, plain, blinding);
            let out1 = chunk_told(ts, peer, file_id, file_name, index, fits, out);
            if fits {
                let dl = lookup(transfers, peer)->0;
                let ts1 = with_chunk(ts, index, plain, now);
                let transfers1 = put(
                    transfers,
                    peer,
                    PeerDownloadView { active: put(dl.active, file_name, ts1), ..dl },
                );
                if ts1.received_chunks.len() < transfer_total(ts) {
                    (s, transfers1, out1, ResponseStepView::Done)
                } else {
                    (
                        AppStateView {
                            writing_files: with_element(
                                s.writing_files,
                                absolute(ts.sync_dir, ts.metadata->0.file_name),
                            ),
                            ..s
                        },
                        transfers1,
                        out1,
                        ResponseStepView::Write { file_name, encrypted: file_id is Some },
                    )
                }
            } else {
                (s, transfers, out1, ResponseStepView::Done)
            }
        },
    }
}

/// What is told of a plain chunk that could not be decrypted.
pub open spec fn chunk_undecrypted(file_name: Seq<char>, index: usize, e: Seq<char>) -> EffectView {
    logged(
        "ERROR"@,
        file_name + " chunk "@ + decimal(index as nat) + " decryption failed: "@ + e
            + ". Check that all peers use the same key file."@,
    )
}

/// The file behind an opaque id that a peer told us.
pub open spec fn inbound_name(
    s: AppStateView,
    peer: Seq<char>,
    file_id: Seq<u8>,
) -> Option<Seq<char>> {
    match lookup(s.inbound_file_ids, peer) {
        Some(ids) => match lookup(ids, file_id) {
            Some(info) => Some(info.file_name),
            None => None,
        },
        None => None,
    }
}

/// A response with a plain chunk came.
pub open spec fn plain_chunk_came(
    peer: Seq<char>,
    file_name: Seq<char>,
    index: usize,
    data: Seq<u8>,
    now: u64,
    s: AppStateView,
    transfers: Seq<(Seq<char>, PeerDownloadView)>,
    out: Seq<EffectView>,
) -> (AppStateView, Seq<(Seq<char>, PeerDownloadView)>, Seq<EffectView>, ResponseStepView) {
    if s.sync_path is None {
        (s, transfers, out, ResponseStepView::Done)
    } else {
        match received(data, lookup(s.peer_keys, peer), seq![]) {
            None => (
                s,
                transfers,
                out.push(
                    chunk_undecrypted(file_name, index, error_text(refusal(data))),
                ).push(asked(peer, chunk_request(None, file_name, index))),
                ResponseStepView::Done,
            ),
            Some(plain) => chunk_came(
                peer,
                None,
                file_name,
                index,
                plain,
                None,
                now,
                s,
                transfers,
                out,
            ),
        }
    }
}

/// A response with an encrypted chunk came.
pub open spec fn sealed_chunk_came(
    peer: Seq<char>,
    file_id: Seq<u8>,
    index: u32,
    data: Seq<u8>,
    now: u64,
    s: AppStateView,
    transfers: Seq<(Seq<char>, PeerDownloadView)>,
    out: Seq<EffectView>,
) -> (AppStateView, Seq<(Seq<char>, PeerDownloadView)>, Seq<EffectView>, ResponseStepView) {
    if s.sync_path is None {
        (s, transfers, out, ResponseStepView::Done)
    } else {
        match lookup(s.peer_keys, peer) {
            None => (
                s,
                transfers,
                out.push(
                    logged(
                        "ERROR"@,
                        "EncryptedChunkResponse from "@ + short_name(peer)
                            + " but no transport key"@,
                    ),
                ),
                ResponseStepView::Done,
            ),
            Some(key) => match inbound_name(s, peer, file_id) {
                None => (
                    s,
                    transfers,
                    out.push(logged("WARN"@, "Unknown file_id from "@ + short_name(peer))),
                    ResponseStepView::Done,
                ),
                Some(file_name) => match opened_block(
                    key,
                    data,
                    position_aad(CHUNK_TAG@, file_id, index),
                ) {
                    None => (
                        s,
                        transfers,
                        out.push(
                            logged(
                                "ERROR"@,
                                "AEAD-decrypt failed for "@ + file_name + " chunk "@ + decimal(
                                    index as nat,
                                ) + ": "@ + error_text(refusal(data)),
                            ),
                        ).push(
                            asked(
                                peer,
                                SyncMessageView::EncryptedChunkRequest {
                                    file_id,
                                    chunk_index: index,
                                },
                            ),
                        ),
                        ResponseStepView::Done,
                    ),
                    Some(plain) => chunk_came(
                        peer,
                        Some(file_id),
                        file_name,
                        index as usize,
                        plain,
                        Some(key),
                        now,
                        s,
                        transfers,
                        out,
                    ),
                },
            },
        }
    }
}

/// What a response leads to once the stored key of the peer is loaded.
pub open spec fn responded(
    response: SyncMessageView,
    peer: Seq<char>,
    now: u64,
    s: AppStateView,
    transfers: Seq<(Seq<char>, PeerDownloadView)>,
    out: Seq<EffectView>,
) -> (AppStateView, Seq<(Seq<char>, PeerDownloadView)>, Seq<EffectView>, ResponseStepView) {
    match response {
        SyncMessageView::KeyExchangeAccept { public_key } => {
            let (s1, out1) = key_accepted(peer, public_key, s, out);
            (s1, transfers, out1, ResponseStepView::Done)
        },
        SyncMessageView::EncryptedManifest { ciphertext } => {
            let (out1, step) = sealed_manifest_came(peer, ciphertext, s, out);
            (s, transfers, out1, step)
        },
        SyncMessageView::Manifest { node_name, files } => {
            let (s1, out1, step) = plain_manifest_came(peer, node_name, files, s, out);
            (s1, transfers, out1, step)
        },
        SyncMessageView::Empty => (
            s,
            transfers,
            out.push(told(GuiEventView::RemoteEmpty { peer_id: peer })).push(
                logged("INFO"@, short_name(peer) + " has no sync folder set yet"@),
            ),
            ResponseStepView::Done,
        ),
        SyncMessageView::ChunkResponse { file_name, chunk_index, data, hash } => plain_chunk_came(
            peer,
            file_name,
            chunk_index,
            data,
            now,
            s,
            transfers,
            out,
        ),
        SyncMessageView::EncryptedChunkResponse { file_id, chunk_index, data, blinded_hash } =>
            sealed_chunk_came(peer, file_id, chunk_index, data, now, s, transfers, out),
        SyncMessageView::Error { message } => (
            s,
            transfers,
            out.push(told(GuiEventView::PeerError { peer_id: peer, message })).push(
                logged("ERROR"@, "Error from "@ + short_name(peer) + ": "@ + message),
            ),
            ResponseStepView::Done,
        ),
        _ => (s, transfers, out, ResponseStepView::Done),
    }
}

/// A chunk is kept only if it fits: the chunks of a transfer are as before, or
/// one that has the hash of its place was added.
pub proof fn law_only_fitting_chunks_are_kept(
    peer: Seq<char>,
    file_id: Option<Seq<u8>>,
    file_name: Seq<char>,
    index: usize,
    plain: Seq<u8>,
    blinding: Option<Seq<u8>>,
    now: u64,
    s: AppStateView,
    transfers: Seq<(Seq<char>, PeerDownloadView)>,
    out: Seq<EffectView>,
)
    ensures
        ({
            let after = chunk_came(
                peer,
                file_id,
                file_name,
                index,
                plain,
                blinding,
                now,
                s,
                transfers,
                out,
            ).1;
            match transfer_of(transfers, peer, file_name) {
                None => after == transfers,
                Some(ts) => match transfer_of(after, peer, file_name) {
                    None => false,
                    Some(ts1) => if chunk_fits(ts, index, plain, blinding) {
                        ts1.received_chunks == ts.received_chunks.insert(index, plain)
                    } else {
                        ts1 == ts
                    },
                },
            }
        }),
{
    if let Some(ts) = transfer_of(transfers, peer, file_name) {
        let dl = lookup(transfers, peer)->0;
        let ts1 = with_chunk(ts, index, plain, now);
        law_put(dl.active, file_name, ts1, file_name);
        law_put(
            transfers,
            peer,
            PeerDownloadView { active: put(dl.active, file_name, ts1), ..dl },
            peer,
        );
    }
}

/// The hash that a manifest tells of a chunk.
pub open spec fn told_hash(chunk: Seq<u8>, blinding: Option<Seq<u8>>) -> Seq<u8> {
    match blinding {
        None => blake3_digest(chunk),
        Some(key) => blinded_hash(key, blake3_digest(chunk)),
    }
}

/// A file whose chunks all fit what its manifest told is written as it was: in vault
/// mode, its container holds it. This rests on no two different chunks having the
/// same hash.
pub proof fn law_fitting_chunks_make_the_file(
    ts: FileTransferStateView,
    data: Seq<u8>,
    blinding: Option<Seq<u8>>,
    vault_mode: bool,
    vault_key: Option<Seq<u8>>,
    order: WriteOrderView,
)
    requires
        chunk_count(data.len()) <= usize::MAX,
        ts.metadata matches Some(m) && m.total_chunks == chunk_count(data.len())
            && m.chunk_hashes == file_chunks(data).map_values(
            |c: Seq<u8>| told_hash(c, blinding),
        ),
        assembly_fault(ts, vault_mode, vault_key) is None,
        assembles(order, ts, vault_mode, vault_key),
        forall|i: usize|
            i < chunk_count(data.len()) ==> chunk_fits(
                ts,
                i,
                #[trigger] ts.received_chunks[i],
                blinding,
            ),
        forall|i: usize|
            i < chunk_count(data.len()) && told_hash(#[trigger] ts.received_chunks[i], blinding)
                == told_hash(file_chunks(data)[i as int], blinding) ==> ts.received_chunks[i]
                == file_chunks(data)[i as int],
    ensures
        !vault_mode ==> order.data == data,
        vault_mode ==> vault_plaintext(order.data, vault_key->0) == Ok::<(u64, Seq<u8>), ErrorView>(
            (data.len() as u64, data),
        ),
{
    let chunks = file_chunks(data);
    assert(chunks_in_order(ts) =~= chunks) by {
        assert forall|i: int| 0 <= i < chunks.len() implies chunks_in_order(ts)[i]
            == chunks[i] by {
            let c = ts.received_chunks[i as usize];
            assert(chunk_fits(ts, i as usize, c, blinding));
        }
    }
    law_chunks_make_up_the_file(data);
    if vault_mode {
        law_vault_gives_back_what_was_stored(
            order.data,
            order.data.subrange(8, 24),
            chunks,
            vault_key->0,
        );
    }
}

/// A chunk that does not fit, because it was damaged or tampered with, changes
/// nothing, and is asked for again.
pub proof fn law_unfit_chunk_is_asked_for_again(
    peer: Seq<char>,
    file_id: Option<Seq<u8>>,
    file_name: Seq<char>,
    index: usize,
    plain: Seq<u8>,
    blinding: Option<Seq<u8>>,
    now: u64,
    s: AppStateView,
    transfers: Seq<(Seq<char>, PeerDownloadView)>,
    out: Seq<EffectView>,
)
    requires
        transfer_of(transfers, peer, file_name) matches Some(ts) && !chunk_fits(
            ts,
            index,
            plain,
            blinding,
        ),
    ensures
        ({
            let (s1, transfers1, out1, step) = chunk_came(
                peer,
                file_id,
                file_name,
                index,
                plain,
                blinding,
                now,
                s,
                transfers,
                out,
            );
            &&& s1 == s
            &&& transfers1 == transfers
            &&& step is Done
            &&& out1.last() == asked(peer, chunk_request(file_id, file_name, index))
        }),
{
}

/// A chunk that cannot be decrypted, because it was tampered with, moved from its
/// place or sealed with another key, changes nothing, and is asked for again.
pub proof fn law_sealed_chunk_that_fails_is_asked_for_again(
    peer: Seq<char>,
    file_id: Seq<u8>,
    index: u32,
    data: Seq<u8>,
    now: u64,
    s: AppStateView,
    transfers: Seq<(Seq<char>, PeerDownloadView)>,
    out: Seq<EffectView>,
)
    requires
        s.sync_path is Some,
        inbound_name(s, peer, file_id) is Some,
        lookup(s.peer_keys, peer) matches Some(key) && opened_block(
            key,
            data,
            position_aad(CHUNK_TAG@, file_id, index),
        ) is None,
    ensures
        ({
            let (s1, transfers1, out1, step) = sealed_chunk_came(
                peer,
                file_id,
                index,
                data,
                now,
                s,
                transfers,
                out,
            );
            &&& s1 == s
            &&& transfers1 == transfers
            &&& step is Done
            &&& out1.last() == asked(
                peer,
                SyncMessageView::EncryptedChunkRequest { file_id, chunk_index: index },
            )
        }),
{
}

/// The same holds of a chunk that is asked for by name.
pub proof fn law_plain_chunk_that_fails_is_asked_for_again(
    peer: Seq<char>,
    file_name: Seq<char>,
    index: usize,
    data: Seq<u8>,
    now: u64,
    s: AppStateView,
    transfers: Seq<(Seq<char>, PeerDownloadView)>,
    out: Seq<EffectView>,
)
    requires
        s.sync_path is Some,
        received(data, lookup(s.peer_keys, peer), seq![]) is None,
    ensures
        ({
            let (s1, transfers1, out1, step) = plain_chunk_came(
                peer,
                file_name,
                index,
                data,
                now,
                s,
                transfers,
                out,
            );
            &&& s1 == s
            &&& transfers1 == transfers
            &&& step is Done
            &&& out1.last() == asked(
                peer,
                SyncMessageView::ChunkRequest { file_name, chunk_index: index },
            )
        }),
{
}

/// A chunk that comes leads to at most one request: the number of chunks under way
/// does not grow.
pub proof fn law_one_request_for_each_chunk(
    peer: Seq<char>,
    file_id: Option<Seq<u8>>,
    file_name: Seq<char>,
    index: usize,
    plain: Seq<u8>,
    blinding: Option<Seq<u8>>,
    now: u64,
    s: AppStateView,
    transfers: Seq<(Seq<char>, PeerDownloadView)>,
    out: Seq<EffectView>,
)
    ensures
        request_count(
            chunk_came(
                peer,
                file_id,
                file_name,
                index,
                plain,
                blinding,
                now,
                s,
                transfers,
                out,
            ).2,
        ) <= request_count(out) + 1,
{
    if let Some(ts) = transfer_of(transfers, peer, file_name) {
        let fits = chunk_fits(ts, index, plain, blinding);
        let told_to = chunk_told(ts, peer, file_id, file_name, index, fits, out);
        let out1 = out.push(told_to[out.len() as int]);
        lemma_count_push(out, told_to[out.len() as int]);
        lemma_count_push(out1, told_to[out.len() as int + 1]);
        let out2 = out1.push(told_to[out.len() as int + 1]);
        lemma_count_push(out2, told_to[out.len() as int + 2]);
    }
}

/// The same keys as before.
proof fn lemma_same_keys<B>(s: Seq<(Seq<char>, B)>, k: Seq<char>, v: B, other: Seq<char>)
    requires
        has_key(s, k),
    ensures
        put(s, k, v).len() == s.len(),
        has_key(put(s, k, v), other) == has_key(s, other),
{
    lemma_position(s, k);
    law_put(s, k, v, other);
}

/// A chunk that comes starts and ends nothing: the scheduler's invariant stays.
pub proof fn law_chunk_keeps_bounds(
    dl: PeerDownloadView,
    file_name: Seq<char>,
    ts: FileTransferStateView,
)
    requires
        download_ok(dl),
        has_key(dl.active, file_name),
    ensures
        download_ok(PeerDownloadView { active: put(dl.active, file_name, ts), ..dl }),
{
    let e = PeerDownloadView { active: put(dl.active, file_name, ts), ..dl };
    law_put(dl.active, file_name, ts, file_name);
    lemma_same_keys(dl.active, file_name, ts, file_name);
    assert forall|i: int| 0 <= i < e.queue.len() implies !has_key(
        e.active,
        (#[trigger] e.queue[i]).file_name,
    ) by {
        lemma_same_keys(dl.active, file_name, ts, dl.queue[i].file_name);
        assert(!has_key(dl.active, dl.queue[i].file_name));
    }
}

/// A file that is done leaves room: the scheduler's invariant stays.
pub proof fn law_done_keeps_bounds(dl: PeerDownloadView, file_name: Seq<char>)
    requires
        download_ok(dl),
    ensures
        download_ok(PeerDownloadView { active: without(dl.active, file_name), ..dl }),
{
    let e = PeerDownloadView { active: without(dl.active, file_name), ..dl };
    law_without(dl.active, file_name, file_name);
    lemma_position(dl.active, file_name);
    assert forall|i: int| 0 <= i < e.queue.len() implies !has_key(
        e.active,
        (#[trigger] e.queue[i]).file_name,
    ) by {
        law_without(dl.active, file_name, dl.queue[i].file_name);
        assert(!has_key(dl.active, dl.queue[i].file_name));
    }
}

fn accept_key(peer: &PeerId, theirs: &[u8; 32], state: &mut AppState, out: &mut Outbox)
    ensures
        final(state)@ == key_accepted(peer@, theirs@, old(state)@, old(out)@).0,
        final(out)@ == key_accepted(peer@, theirs@, old(state)@, old(out)@).1,
{
    match state.pending_exchanges.remove(peer) {
        None => {
            out.log(
                "WARN",
                concat3(
                    "Received KeyExchangeAccept from ",
                    peer.short().as_str(),
                    " but no pending exchange found — ignoring",
                ),
            );
        },
        Some(secret) => {
            if let Ok(key) = derive_shared_key(&secret, theirs) {
                let fp = key_fingerprint(&key);
                state.set_peer_key(peer, key, out);
                out.log(
                    "OK",
                    concat4(
                        "TOFU: key exchange complete with ",
                        peer.short().as_str(),
                        " | fingerprint: ",
                        fp.as_str(),
                    ),
                );
                out.tell(vault_status(state));
                if state.sync_path.is_some() {
                    out.ask(peer, SyncMessage::ManifestRequest);
                    out.log(
                        "INFO",
                        concat3(
                            "TOFU complete — requesting manifest from ",
                            peer.short().as_str(),
                            " …",
                        ),
                    );
                }
            }
        },
    }
}

fn refuse_manifest(peer: &PeerId, e: &str, out: &mut Outbox)
    ensures
        final(out)@ == old(out)@.push(manifest_refused(peer@, e@)),
{
    out.log(
        "ERROR",
        concat4("Manifest decrypt failed from ", peer.short().as_str(), ": ", e),
    );
}

fn open_manifest(peer: &PeerId, ciphertext: Vec<u8>, state: &AppState, out: &mut Outbox) -> (step:
    ResponseStep)
    ensures
        final(out)@ == sealed_manifest_came(peer@, ciphertext@, state@, old(out)@).0,
        step@ == sealed_manifest_came(peer@, ciphertext@, state@, old(out)@).1,
{
    out.log(
        "INFO",
        concat5(
            "Received encrypted manifest from ",
            peer.short().as_str(),
            " (",
            decimal_text(ciphertext.len() as u64).as_str(),
            " bytes) — decrypting …",
        ),
    );
    let key = match state.key_for_peer(peer) {
        Some(k) => k,
        None => {
            out.log(
                "WARN",
                concat3(
                    "EncryptedManifest from ",
                    peer.short().as_str(),
                    " but no transport key — ignoring",
                ),
            );
            return ResponseStep::Done;
        },
    };
    match decrypt_manifest(&key, ciphertext.as_slice()) {
        Ok(cbor) => ResponseStep::ParseManifest { cbor },
        Err(e) => {
            refuse_manifest(peer, e.message().as_str(), out);
            ResponseStep::Done
        },
    }
}

fn pending_of_blinded(fe: &EncryptedFileEntry) -> (r: PendingFile)
    ensures
        r@ == pending_blinded(fe@),
{
    PendingFile {
        file_name: fe.file_name.clone(),
        total_chunks: fe.total_chunks as usize,
        file_size: fe.file_size,
        chunk_hashes: copy_hashes(&fe.blinded_chunk_hashes),
        file_id: Some(fe.file_id),
    }
}

fn collect_inbound(files: &Vec<EncryptedFileEntry>) -> (r: Assoc<[u8; 16], InboundFileInfo>)
    ensures
        r@ == inbound_map(files@.map_values(|e: EncryptedFileEntry| e@), files@.len()),
{
    let ghost views = files@.map_values(|e: EncryptedFileEntry| e@);
    let mut ids: Assoc<[u8; 16], InboundFileInfo> = Assoc::new();
    let mut i: usize = 0;
    while i < files.len()
        invariant
            i <= files@.len(),
            views == files@.map_values(|e: EncryptedFileEntry| e@),
            ids@ == inbound_map(views, i as nat),
        decreases files.len() - i,
    {
        let fe = &files[i];
        assert(views[i as int] == fe@);
        ids.insert(
            fe.file_id,
            InboundFileInfo {
                file_name: fe.file_name.clone(),
                file_size: fe.file_size,
                total_chunks: fe.total_chunks,
                blinded_chunk_hashes: copy_hashes(&fe.blinded_chunk_hashes),
            },
        );
        i = i + 1;
    }
    ids
}

fn collect_blinded(files: &Vec<EncryptedFileEntry>) -> (r: Vec<PendingFile>)
    ensures
        pending_views(r@) == files@.map_values(|e: EncryptedFileEntry| e@).map_values(
            |fe: EncryptedFileEntryView| pending_blinded(fe),
        ),
{
    let ghost want = files@.map_values(|e: EncryptedFileEntry| e@).map_values(
        |fe: EncryptedFileEntryView| pending_blinded(fe),
    );
    let mut out: Vec<PendingFile> = Vec::new();
    let mut i: usize = 0;
    while i < files.len()
        invariant
            i <= files@.len(),
            want == files@.map_values(|e: EncryptedFileEntry| e@).map_values(
                |fe: EncryptedFileEntryView| pending_blinded(fe),
            ),
            pending_views(out@) == want.take(i as int),
        decreases files.len() - i,
    {
        let ghost before = pending_views(out@);
        out.push(pending_of_blinded(&files[i]));
        i = i + 1;
        assert(pending_views(out@) =~= before.push(want[i - 1]));
        assert(want.take(i as int) =~= before.push(want[i - 1]));
    }
    assert(want.take(i as int) =~= want);
    out
}

fn collect_plain(files: &Vec<FileEntry>) -> (r: Vec<PendingFile>)
    ensures
        pending_views(r@) == files@.map_values(|e: FileEntry| e@).map_values(
            |fe: FileEntryView| pending_from(fe),
        ),
{
    let ghost want = files@.map_values(|e: FileEntry| e@).map_values(
        |fe: FileEntryView| pending_from(fe),
    );
    let mut out: Vec<PendingFile> = Vec::new();
    let mut i: usize = 0;
    while i < files.len()
        invariant
            i <= files@.len(),
            want == files@.map_values(|e: FileEntry| e@).map_values(
                |fe: FileEntryView| pending_from(fe),
            ),
            pending_views(out@) == want.take(i as int),
        decreases files.len() - i,
    {
        let ghost before = pending_views(out@);
        out.push(PendingFile::from_entry(&files[i]));
        i = i + 1;
        assert(pending_views(out@) =~= before.push(want[i - 1]));
        assert(want.take(i as int) =~= before.push(want[i - 1]));
    }
    assert(want.take(i as int) =~= want);
    out
}

/// What the parsing of an encrypted manifest leads to.
pub open spec fn manifest_step(
    peer: Seq<char>,
    parsed: Result<EncryptedManifestPayloadView, Seq<char>>,
    s: AppStateView,
    out: Seq<EffectView>,
) -> (AppStateView, Seq<EffectView>, ResponseStepView) {
    match parsed {
        Err(e) => (s, out.push(manifest_refused(peer, e)), ResponseStepView::Done),
        Ok(payload) => payload_came(peer, payload, s, out),
    }
}

/// The view of a parsed manifest.
pub open spec fn parsed_view(r: Result<EncryptedManifestPayload, String>) -> Result<
    EncryptedManifestPayloadView,
    Seq<char>,
> {
    match r {
        Ok(p) => Ok(p@),
        Err(e) => Err(e@),
    }
}

/// Handles an encrypted manifest that was parsed, or not.
pub fn manifest_parsed(
    peer: &PeerId,
    parsed: Result<EncryptedManifestPayload, String>,
    state: &mut AppState,
    out: &mut Outbox,
) -> (step: ResponseStep)
    ensures
        manifest_step(peer@, parsed_view(parsed), old(state)@, old(out)@) == (
            final(state)@,
            final(out)@,
            step@,
        ),
{
    let payload = match parsed {
        Ok(p) => p,
        Err(e) => {
            refuse_manifest(peer, e.as_str(), out);
            return ResponseStep::Done;
        },
    };
    state.peer_names.insert(peer.to_text(), payload.node_name.clone());
    if payload.files.len() == 0 {
        out.log(
            "INFO",
            concat2(payload.node_name.as_str(), " encrypted manifest had no files"),
        );
        return ResponseStep::Done;
    }
    let path = match &state.sync_path {
        Some(p) => p.clone(),
        None => {
            out.log("WARN", owned("Received encrypted manifest but no sync folder set!"));
            return ResponseStep::Done;
        },
    };
    state.inbound_file_ids.insert(peer.clone(), collect_inbound(&payload.files));
    let files = collect_blinded(&payload.files);
    ResponseStep::CheckFiles {
        path,
        offer: Offer { peer_name: payload.node_name, files, encrypted: true },
    }
}

fn on_plain_manifest(
    peer: &PeerId,
    node_name: String,
    files: &Vec<FileEntry>,
    state: &mut AppState,
    out: &mut Outbox,
) -> (step: ResponseStep)
    ensures
        plain_manifest_came(
            peer@,
            node_name@,
            files@.map_values(|e: FileEntry| e@),
            old(state)@,
            old(out)@,
        ) == (final(state)@, final(out)@, step@),
{
    state.peer_names.insert(peer.to_text(), node_name.clone());
    if files.len() == 0 {
        out.log("INFO", concat2(node_name.as_str(), " manifest returned no files"));
        return ResponseStep::Done;
    }
    let path = match &state.sync_path {
        Some(p) => p.clone(),
        None => {
            out.log(
                "WARN",
                owned("Received manifest but no sync folder set — set one first!"),
            );
            return ResponseStep::Done;
        },
    };
    let pending = collect_plain(files);
    ResponseStep::CheckFiles {
        path,
        offer: Offer { peer_name: node_name, files: pending, encrypted: false },
    }
}

/// The views of lists of texts.
pub open spec fn text_lists(v: Seq<Vec<String>>) -> Seq<Seq<Seq<char>>> {
    v.map_values(|l: Vec<String>| texts(l@))
}

/// Where an offered file would be on disk: under its name and, if it comes encrypted
/// and files are stored in containers, in its container. A path that names no file
/// has no container.
pub open spec fn places(
    encrypted: bool,
    path: Seq<char>,
    vault_mode: bool,
    file_name: Seq<char>,
) -> Seq<Seq<char>> {
    let plain = absolute(path, file_name);
    if encrypted && vault_mode && has_file_name(plain) {
        seq![plain, vault_path(plain)]
    } else {
        seq![plain]
    }
}

/// For each offered file, the paths of which one at least exists if the file is on
/// disk.
pub fn places_to_check(offer: &Offer, path: &str, vault_mode: bool) -> (r: Vec<Vec<String>>)
    ensures
        text_lists(r@) == offer@.files.map_values(
            |f: PendingFileView| places(offer@.encrypted, path@, vault_mode, f.file_name),
        ),
{
    let ghost want = offer@.files.map_values(
        |f: PendingFileView| places(offer@.encrypted, path@, vault_mode, f.file_name),
    );
    let mut out: Vec<Vec<String>> = Vec::new();
    let mut i: usize = 0;
    assert(text_lists(out@) =~= want.take(0));
    while i < offer.files.len()
        invariant
            want == offer@.files.map_values(
                |f: PendingFileView| places(offer@.encrypted, path@, vault_mode, f.file_name),
            ),
            i <= offer.files@.len(),
            text_lists(out@) == want.take(i as int),
        decreases offer.files.len() - i,
    {
        let ghost before = text_lists(out@);
        let name = offer.files[i].file_name.as_str();
        let mut list: Vec<String> = Vec::new();
        list.push(rel_to_abs(path, name));
        if offer.encrypted && vault_mode && names_file(path, name) {
            list.push(rel_to_vault_abs(path, name));
        }
        assert(texts(list@) =~= want[i as int]);
        out.push(list);
        i = i + 1;
        assert(text_lists(out@) =~= before.push(want[i - 1]));
        assert(want.take(i as int) =~= before.push(want[i - 1]));
    }
    assert(want.take(i as int) =~= want);
    out
}

/// Queues the offered files that are not on disk. The result is whether there is
/// something to download.
pub fn files_checked(
    offer: &Offer,
    on_disk: &Vec<bool>,
    peer: &PeerId,
    transfers: &mut Assoc<PeerId, PeerDownload>,
    out: &mut Outbox,
) -> (r: bool)
    requires
        offer@.files.len() == on_disk@.len(),
    ensures
        ({
            let before = download_of(old(transfers)@, peer@);
            let dl = with_offers(before, offer@.files, on_disk@, on_disk@.len());
            &&& final(transfers)@ == put(old(transfers)@, peer@, dl)
            &&& final(out)@ == old(out)@.push(
                offer_told(offer@, dl, dl.queue.len() - before.queue.len()),
            )
            &&& r == (dl.active.len() > 0 || dl.queue.len() > 0)
            &&& download_ok(before) ==> download_ok(dl)
        }),
{
    let ghost before = download_of(transfers@, peer@);
    let ghost all = transfers@;
    proof {
        if download_ok(before) {
            law_offers_keep_order(before, offer@.files, on_disk@, on_disk@.len());
        }
    }
    if !transfers.contains_key(peer) {
        transfers.insert(peer.clone(), PeerDownload::new());
    }
    let place: usize = match transfers.place(peer) {
        Some(i) => i,
        None => {
            return false;
        },
    };
    let ghost mid = transfers@;
    proof {
        law_put(all, peer@, no_download(), peer@);
        lemma_position(all, peer@);
        lemma_position(mid, peer@);
        assert(lookup(mid, peer@) == Some(before));
    }
    let dl = transfers.value_at_mut(place);
    let newly = queue_offers(dl, &offer.files, on_disk);
    let active_len: usize = dl.active.len();
    let queue_len: usize = dl.queue.len();
    let ghost after = dl@;
    proof {
        assert(after == with_offers(before, offer@.files, on_disk@, on_disk@.len()));
        assert(transfers@ =~= put(all, peer@, after));
    }
    if active_len == 0 && queue_len == 0 {
        let tail = if offer.encrypted {
            " already synced"
        } else {
            " already synced — nothing to do"
        };
        out.log("OK", concat3("All files from ", offer.peer_name.as_str(), tail));
        return false;
    }
    let mark = if offer.encrypted {
        " (encrypted): "
    } else {
        ": "
    };
    out.log(
        "INFO",
        concat8(
            offer.peer_name.as_str(),
            mark,
            decimal_text(newly as u64).as_str(),
            " file(s) queued (",
            decimal_text(active_len as u64).as_str(),
            " active, ",
            decimal_text(queue_len as u64).as_str(),
            " waiting)",
        ),
    );
    true
}

fn test_chunk(ts: &FileTransferState, index: usize, plain: &Vec<u8>, blinding: Option<[u8; 32]>) -> (r:
    bool)
    ensures
        r == chunk_fits(ts@, index, plain@, opt_key(blinding)),
        r ==> index < usize::MAX,
{
    match &ts.metadata {
        None => false,
        Some(m) => {
            if index >= m.chunk_hashes.len() {
                return false;
            }
            assert(hash_strings(m.chunk_hashes@)[index as int] == m.chunk_hashes@[index as int]@);
            match blinding {
                None => verify_chunk(plain.as_slice(), &m.chunk_hashes[index]),
                Some(key) => verify_chunk_blinded(plain.as_slice(), &m.chunk_hashes[index], &key),
            }
        },
    }
}

fn tell_chunk(
    ts: &FileTransferState,
    peer: &PeerId,
    file_id: Option<[u8; 16]>,
    file_name: &String,
    index: usize,
    fits: bool,
    out: &mut Outbox,
)
    requires
        fits ==> index < usize::MAX,
    ensures
        final(out)@ == chunk_told(
            ts@,
            peer@,
            opt_id(file_id),
            file_name@,
            index,
            fits,
            old(out)@,
        ),
{
    let total = ts.total();
    out.tell(
        GuiEvent::ChunkReceived {
            peer_id: peer.to_text(),
            file_name: file_name.clone(),
            chunk_index: index,
            total_chunks: total,
            verified: fits,
        },
    );
    if fits {
        if ts.next_request < total {
            out.ask(peer, make_chunk_request(file_id, file_name, ts.next_request));
        }
        let tail = if file_id.is_some() {
            " (enc)"
        } else {
            ""
        };
        out.log(
            "INFO",
            concat6(
                file_name.as_str(),
                "  ",
                decimal_text((index + 1) as u64).as_str(),
                "/",
                decimal_text(total as u64).as_str(),
                tail,
            ),
        );
    } else {
        let tail = if file_id.is_some() {
            " BLINDED hash mismatch — retrying"
        } else {
            " hash mismatch — retrying"
        };
        out.log(
            "ERROR",
            concat4(
                file_name.as_str(),
                " chunk ",
                decimal_text(index as u64).as_str(),
                tail,
            ),
        );
        out.ask(peer, make_chunk_request(file_id, file_name, index));
    }
}

fn take_chunk(
    peer: &PeerId,
    file_id: Option<[u8; 16]>,
    file_name: String,
    index: usize,
    plain: Vec<u8>,
    blinding: Option<[u8; 32]>,
    now: u64,
    state: &mut AppState,
    transfers: &mut Assoc<PeerId, PeerDownload>,
    out: &mut Outbox,
) -> (step: ResponseStep)
    ensures
        chunk_came(
            peer@,
            opt_id(file_id),
            file_name@,
            index,
            plain@,
            opt_key(blinding),
            now,
            old(state)@,
            old(transfers)@,
            old(out)@,
        ) == (final(state)@, final(transfers)@, final(out)@, step@),
{
    let ghost all = transfers@;
    let p: usize = match transfers.place(peer) {
        Some(i) => i,
        None => {
            return ResponseStep::Done;
        },
    };
    let dl = transfers.value_at_mut(p);
    let ghost dl0 = dl@;
    let f: usize = match dl.active.place(&file_name) {
        Some(i) => i,
        None => {
            assert(transfers@ =~= all);
            return ResponseStep::Done;
        },
    };
    let ts = dl.active.value_at_mut(f);
    let ghost ts0 = ts@;
    let fits = test_chunk(ts, index, &plain, blinding);
    tell_chunk(ts, peer, file_id, &file_name, index, fits, out);
    if !fits {
        assert(dl@.active =~= dl0.active);
        assert(transfers@ =~= all);
        return ResponseStep::Done;
    }
    let total = ts.total();
    ts.store_chunk(index, plain);
    ts.last_activity = now;
    if ts.next_request < total {
        ts.next_request = ts.next_request + 1;
    }
    let complete = ts.received_count() >= total;
    let dest = match &ts.metadata {
        Some(m) => rel_to_abs(ts.sync_dir.as_str(), m.file_name.as_str()),
        None => String::new(),
    };
    let ghost ts1 = ts@;
    proof {
        assert(dl@.active =~= put(dl0.active, file_name@, ts1));
        assert(transfers@ =~= put(
            all,
            peer@,
            PeerDownloadView { active: put(dl0.active, file_name@, ts1), ..dl0 },
        ));
    }
    if !complete {
        return ResponseStep::Done;
    }
    state.writing_files.insert(dest);
    ResponseStep::Write { file_name, encrypted: file_id.is_some() }
}

fn on_plain_chunk(
    peer: &PeerId,
    file_name: String,
    index: usize,
    data: Vec<u8>,
    now: u64,
    state: &mut AppState,
    transfers: &mut Assoc<PeerId, PeerDownload>,
    out: &mut Outbox,
) -> (step: ResponseStep)
    ensures
        plain_chunk_came(
            peer@,
            file_name@,
            index,
            data@,
            now,
            old(state)@,
            old(transfers)@,
            old(out)@,
        ) == (final(state)@, final(transfers)@, final(out)@, step@),
{
    if state.sync_path.is_none() {
        return ResponseStep::Done;
    }
    let plain = match state.key_for_peer(peer) {
        Some(key) => match decrypt(&key, data.as_slice()) {
            Ok(pt) => pt,
            Err(e) => {
                out.log(
                    "ERROR",
                    concat6(
                        file_name.as_str(),
                        " chunk ",
                        decimal_text(index as u64).as_str(),
                        " decryption failed: ",
                        e.message().as_str(),
                        ". Check that all peers use the same key file.",
                    ),
                );
                out.ask(peer, make_chunk_request(None, &file_name, index));
                return ResponseStep::Done;
            },
        },
        None => data,
    };
    take_chunk(peer, None, file_name, index, plain, None, now, state, transfers, out)
}

fn find_inbound(state: &AppState, peer: &PeerId, file_id: &[u8; 16]) -> (r: Option<String>)
    ensures
        opt_text(r) == inbound_name(state@, peer@, file_id@),
{
    match state.inbound_file_ids.get(peer) {
        Some(ids) => match ids.get(file_id) {
            Some(info) => Some(info.file_name.clone()),
            None => None,
        },
        None => None,
    }
}

fn on_sealed_chunk(
    peer: &PeerId,
    file_id: [u8; 16],
    index: u32,
    data: Vec<u8>,
    now: u64,
    state: &mut AppState,
    transfers: &mut Assoc<PeerId, PeerDownload>,
    out: &mut Outbox,
) -> (step: ResponseStep)
    ensures
        sealed_chunk_came(
            peer@,
            file_id@,
            index,
            data@,
            now,
            old(state)@,
            old(transfers)@,
            old(out)@,
        ) == (final(state)@, final(transfers)@, final(out)@, step@),
{
    if state.sync_path.is_none() {
        return ResponseStep::Done;
    }
    let key = match state.key_for_peer(peer) {
        Some(k) => k,
        None => {
            out.log(
                "ERROR",
                concat3(
                    "EncryptedChunkResponse from ",
                    peer.short().as_str(),
                    " but no transport key",
                ),
            );
            return ResponseStep::Done;
        },
    };
    let file_name = match find_inbound(state, peer, &file_id) {
        Some(n) => n,
        None => {
            out.log("WARN", concat2("Unknown file_id from ", peer.short().as_str()));
            return ResponseStep::Done;
        },
    };
    let aad = chunk_aad(&file_id, index);
    match decrypt_with_aad(&key, data.as_slice(), aad.as_slice()) {
        Ok(plain) => take_chunk(
            peer,
            Some(file_id),
            file_name,
            index as usize,
            plain,
            Some(key),
            now,
            state,
            transfers,
            out,
        ),
        Err(e) => {
            out.log(
                "ERROR",
                concat6(
                    "AEAD-decrypt failed for ",
                    file_name.as_str(),
                    " chunk ",
                    decimal_text(index as u64).as_str(),
                    ": ",
                    e.message().as_str(),
                ),
            );
            out.ask(peer, SyncMessage::EncryptedChunkRequest { file_id, chunk_index: index });
            ResponseStep::Done
        },
    }
}

/// Handles a response to one of our requests. The stored key of the peer is
/// loaded before.
pub fn on_response(
    response: SyncMessage,
    peer: &PeerId,
    stored_key: Option<[u8; 32]>,
    now: u64,
    state: &mut AppState,
    transfers: &mut Assoc<PeerId, PeerDownload>,
    out: &mut Outbox,
) -> (step: ResponseStep)
    ensures
        responded(
            response@,
            peer@,
            now,
            with_stored_key(old(state)@, peer@, opt_key(stored_key)),
            old(transfers)@,
            old(out)@,
        ) == (final(state)@, final(transfers)@, final(out)@, step@),
{
    state.load_stored_key(peer, stored_key);
    match response {
        SyncMessage::KeyExchangeAccept { public_key } => {
            accept_key(peer, &public_key, state, out);
            ResponseStep::Done
        },
        SyncMessage::EncryptedManifest { ciphertext } => open_manifest(
            peer,
            ciphertext,
            state,
            out,
        ),
        SyncMessage::Manifest { node_name, files } => on_plain_manifest(
            peer,
            node_name,
            &files,
            state,
            out,
        ),
        SyncMessage::Empty => {
            out.tell(GuiEvent::RemoteEmpty { peer_id: peer.to_text() });
            out.log("INFO", concat2(peer.short().as_str(), " has no sync folder set yet"));
            ResponseStep::Done
        },
        SyncMessage::ChunkResponse { file_name, chunk_index, data, hash: _ } => on_plain_chunk(
            peer,
            file_name,
            chunk_index,
            data,
            now,
            state,
            transfers,
            out,
        ),
        SyncMessage::EncryptedChunkResponse { file_id, chunk_index, data, blinded_hash: _ } =>
            on_sealed_chunk(peer, file_id, chunk_index, data, now, state, transfers, out),
        SyncMessage::Error { message } => {
            out.tell(GuiEvent::PeerError { peer_id: peer.to_text(), message: message.clone() });
            out.log(
                "ERROR",
                concat4("Error from ", peer.short().as_str(), ": ", message.as_str()),
            );
            ResponseStep::Done
        },
        _ => ResponseStep::Done,
    }
}

/// Puts the file of a complete transfer together, if the transfer is there.
pub fn assemble_transfer(
    peer: &PeerId,
    file_name: &String,
    state: &AppState,
    transfers: &Assoc<PeerId, PeerDownload>,
) -> (r: Option<Result<WriteOrder, Error>>)
    requires
        transfer_of(transfers@, peer@, file_name@) matches Some(ts) ==> can_assemble(
            ts,
            state@.vault_mode,
            state@.vault_key,
        ),
    ensures
        match transfer_of(transfers@, peer@, file_name@) {
            None => r is None,
            Some(ts) => match r {
                None => false,
                Some(Ok(order)) => {
                    &&& assembly_fault(ts, state@.vault_mode, state@.vault_key) is None
                    &&& assembles(order@, ts, state@.vault_mode, state@.vault_key)
                },
                Some(Err(e)) => assembly_fault(ts, state@.vault_mode, state@.vault_key) == Some(e@),
            },
        },
{
    match transfers.get(peer) {
        None => None,
        Some(dl) => match dl.active.get(file_name) {
            None => None,
            Some(ts) => {
                let key_ref = match &state.vault_key {
                    Some(k) => Some(k),
                    None => None,
                };
                Some(reassemble_modal(ts, state.vault_mode, key_ref))
            },
        },
    }
}

/// What a written file leads to: the peer is told, and the transfer ends.
pub open spec fn write_done(
    peer: Seq<char>,
    file_name: Seq<char>,
    path: Seq<char>,
    sync_path: Seq<char>,
    transfers: Seq<(Seq<char>, PeerDownloadView)>,
    out: Seq<EffectView>,
) -> (Seq<(Seq<char>, PeerDownloadView)>, Seq<EffectView>) {
    (
        match lookup(transfers, peer) {
            Some(dl) => put(
                transfers,
                peer,
                PeerDownloadView { active: without(dl.active, file_name), ..dl },
            ),
            None => transfers,
        },
        out.push(told(GuiEventView::TransferComplete { peer_id: peer, file_name })).push(
            logged("OK"@, "  "@ + file_name + " saved to disk"@),
        ).push(EffectView::RefreshListing { path: sync_path }).push(
            asked(peer, SyncMessageView::TransferComplete { file_name }),
        ).push(EffectView::ForgetWriting { path }),
    )
}

/// Ends the transfer of a file that was written.
pub fn file_written(
    peer: &PeerId,
    file_name: &String,
    path: String,
    sync_path: &str,
    transfers: &mut Assoc<PeerId, PeerDownload>,
    out: &mut Outbox,
)
    ensures
        write_done(
            peer@,
            file_name@,
            path@,
            sync_path@,
            old(transfers)@,
            old(out)@,
        ) == (final(transfers)@, final(out)@),
{
    out.tell(
        GuiEvent::TransferComplete { peer_id: peer.to_text(), file_name: file_name.clone() },
    );
    out.log("OK", concat3("  ", file_name.as_str(), " saved to disk"));
    out.push(Effect::RefreshListing { path: owned(sync_path) });
    out.ask(peer, SyncMessage::TransferComplete { file_name: file_name.clone() });
    out.push(Effect::ForgetWriting { path });
    let ghost all = transfers@;
    match transfers.place(peer) {
        None => {},
        Some(i) => {
            let dl = transfers.value_at_mut(i);
            let ghost dl0 = dl@;
            dl.active.remove(file_name);
            assert(dl@ =~= PeerDownloadView {
                active: without(dl0.active, file_name@),
                ..dl0
            });
            let ghost dl1 = dl@;
            assert(transfers@ =~= put(all, peer@, dl1));
        },
    }
}

/// Tells of a file that could not be written.
pub fn write_failed(file_name: &str, error: &str, out: &mut Outbox)
    ensures
        final(out)@ == old(out)@.push(
            logged("ERROR"@, "Failed to write "@ + file_name@ + ": "@ + error@),
        ),
{
    out.log("ERROR", concat4("Failed to write ", file_name, ": ", error));
}

/// What is told after a plain file was written and the next files were started.
pub open spec fn summary(peer: Seq<char>, dl: PeerDownloadView) -> EffectView {
    if dl.queue.len() > 0 || dl.active.len() > 0 {
        logged(
            "INFO"@,
            decimal(dl.active.len()) + " active download(s), "@ + decimal(dl.queue.len())
                + " in queue"@,
        )
    } else {
        logged("OK"@, "All downloads from "@ + short_name(peer) + " complete!"@)
    }
}

/// Tells how many downloads are left.
pub fn tell_summary(peer: &PeerId, dl: &PeerDownload, out: &mut Outbox)
    ensures
        final(out)@ == old(out)@.push(summary(peer@, dl@)),
{
    if dl.queue.len() > 0 || dl.active.len() > 0 {
        out.log(
            "INFO",
            concat4(
                decimal_text(dl.active.len() as u64).as_str(),
                " active download(s), ",
                decimal_text(dl.queue.len() as u64).as_str(),
                " in queue",
            ),
        );
    } else {
        out.log("OK", concat3("All downloads from ", peer.short().as_str(), " complete!"));
    }
}

/// A manifest that was read, and the lists of places, are taken as they are.
pub proof fn law_what_was_parsed(
    payload: EncryptedManifestPayload,
    error: String,
    lists: Seq<Vec<String>>,
    i: int,
)
    requires
        0 <= i < lists.len(),
    ensures
        parsed_view(Ok(payload)) == Ok::<EncryptedManifestPayloadView, Seq<char>>(payload@),
        parsed_view(Err(error)) == Err::<EncryptedManifestPayloadView, Seq<char>>(error@),
        text_lists(lists).len() == lists.len(),
        text_lists(lists)[i] == texts(lists[i]@),
{
}

} // verus!
