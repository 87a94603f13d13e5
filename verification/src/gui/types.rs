//! What crosses between the node and its user interface.
use crate::text::{opt_text, texts};
use vstd::prelude::*;

verus! {

/// One file of a folder listing.
#[derive(Debug)]
pub struct GuiFileInfo {
    pub name: String,
    pub size: u64,
    pub chunks: usize,
    /// Whether the file rests encrypted.
    pub is_vault: bool,
}

/// What a `GuiFileInfo` holds.
#[verifier::ext_equal]
pub ghost struct GuiFileInfoView {
    pub name: Seq<char>,
    pub size: u64,
    pub chunks: usize,
    pub is_vault: bool,
}

impl View for GuiFileInfo {
    type V = GuiFileInfoView;

    open spec fn view(&self) -> GuiFileInfoView {
        GuiFileInfoView {
            name: self.name@,
            size: self.size,
            chunks: self.chunks,
            is_vault: self.is_vault,
        }
    }
}

/// What the user asks for.
#[allow(inconsistent_fields)]
#[derive(Debug)]
pub enum GuiCommand {
    /// Set or change the sync folder.
    SetFolder { path: String },
    /// Dial a peer; without an address, one that was discovered.
    DialPeer { peer_id: String, addr: Option<String> },
    /// Ask a peer for its manifest.
    RequestSync { peer_id: String },
    /// Close the connection to a peer.
    Disconnect { peer_id: String },
    ApprovePeer { peer_id: String },
    DenyPeer { peer_id: String },
    /// Decrypt a stored file to a destination.
    DecryptFile { name: String, dest: String },
    /// Forget the key of a peer.
    RevokeKey { peer_id: String },
    /// Store received files encrypted, or not.
    SetVaultMode { enabled: bool },
}

/// What a `GuiCommand` says.
#[allow(inconsistent_fields)]
#[verifier::ext_equal]
pub ghost enum GuiCommandView {
    SetFolder { path: Seq<char> },
    DialPeer { peer_id: Seq<char>, addr: Option<Seq<char>> },
    RequestSync { peer_id: Seq<char> },
    Disconnect { peer_id: Seq<char> },
    ApprovePeer { peer_id: Seq<char> },
    DenyPeer { peer_id: Seq<char> },
    DecryptFile { name: Seq<char>, dest: Seq<char> },
    RevokeKey { peer_id: Seq<char> },
    SetVaultMode { enabled: bool },
}

impl View for GuiCommand {
    type V = GuiCommandView;

    open spec fn view(&self) -> GuiCommandView {
        match *self {
            GuiCommand::SetFolder { path } => GuiCommandView::SetFolder {
                path: path@,
            },
            GuiCommand::DialPeer { peer_id, addr } => GuiCommandView::DialPeer {
                peer_id: peer_id@,
                addr: opt_text(addr),
            },
            GuiCommand::RequestSync { peer_id } => GuiCommandView::RequestSync {
                peer_id: peer_id@,
            },
            GuiCommand::Disconnect { peer_id } => GuiCommandView::Disconnect {
                peer_id: peer_id@,
            },
            GuiCommand::ApprovePeer { peer_id } => GuiCommandView::ApprovePeer {
                peer_id: peer_id@,
            },
            GuiCommand::DenyPeer { peer_id } => GuiCommandView::DenyPeer {
                peer_id: peer_id@,
            },
            GuiCommand::DecryptFile { name, dest } => GuiCommandView::DecryptFile {
                name: name@,
                dest: dest@,
            },
            GuiCommand::RevokeKey { peer_id } => GuiCommandView::RevokeKey {
                peer_id: peer_id@,
            },
            GuiCommand::SetVaultMode { enabled } => GuiCommandView::SetVaultMode {
                enabled: enabled,
            },
        }
    }
}

/// What the user is told.
#[allow(inconsistent_fields)]
#[derive(Debug)]
pub enum GuiEvent {
    Identity { peer_id: String, node_name: String },
    PeerDiscovered { peer_id: String, addr: String, node_name: String },
    PeerConnected { peer_id: String, node_name: String },
    PeerDisconnected { peer_id: String },
    DialFailed { peer_id: Option<String>, error: String },
    FolderListing { files: Vec<GuiFileInfo> },
    TransferStarted { peer_id: String, file_name: String, total_chunks: usize, file_size: u64 },
    /// A chunk came; whether its hash is the expected one.
    ChunkReceived {
        peer_id: String,
        file_name: String,
        chunk_index: usize,
        total_chunks: usize,
        verified: bool,
    },
    TransferComplete { peer_id: String, file_name: String },
    RemoteEmpty { peer_id: String },
    PeerError { peer_id: String, message: String },
    PeerApprovalRequired { peer_id: String, display_name: String },
    Log { level: String, message: String },
    /// Whether there is a transport key, whether the encrypted messages are in
    /// use, and the fingerprint of the key.
    VaultStatus { wire_encrypted: bool, encrypted_protocol: bool, key_fingerprint: String },
    PeerKeyRevoked { peer_id: String },
    VaultModeChanged { vault_mode: bool },
    TrustedPeers { peer_ids: Vec<String> },
    DecryptComplete { name: String, dest: String, size: u64 },
}

/// What a `GuiEvent` says.
#[allow(inconsistent_fields)]
#[verifier::ext_equal]
pub ghost enum GuiEventView {
    Identity { peer_id: Seq<char>, node_name: Seq<char> },
    PeerDiscovered { peer_id: Seq<char>, addr: Seq<char>, node_name: Seq<char> },
    PeerConnected { peer_id: Seq<char>, node_name: Seq<char> },
    PeerDisconnected { peer_id: Seq<char> },
    DialFailed { peer_id: Option<Seq<char>>, error: Seq<char> },
    FolderListing { files: Seq<GuiFileInfoView> },
    TransferStarted {
        peer_id: Seq<char>,
        file_name: Seq<char>,
        total_chunks: usize,
        file_size: u64,
    },
    ChunkReceived {
        peer_id: Seq<char>,
        file_name: Seq<char>,
        chunk_index: usize,
        total_chunks: usize,
        verified: bool,
    },
    TransferComplete { peer_id: Seq<char>, file_name: Seq<char> },
    RemoteEmpty { peer_id: Seq<char> },
    PeerError { peer_id: Seq<char>, message: Seq<char> },
    PeerApprovalRequired { peer_id: Seq<char>, display_name: Seq<char> },
    Log { level: Seq<char>, message: Seq<char> },
    VaultStatus { wire_encrypted: bool, encrypted_protocol: bool, key_fingerprint: Seq<char> },
    PeerKeyRevoked { peer_id: Seq<char> },
    VaultModeChanged { vault_mode: bool },
    TrustedPeers { peer_ids: Seq<Seq<char>> },
    DecryptComplete { name: Seq<char>, dest: Seq<char>, size: u64 },
}

impl View for GuiEvent {
    type V = GuiEventView;

    open spec fn view(&self) -> GuiEventView {
        match *self {
            GuiEvent::Identity { peer_id, node_name } => GuiEventView::Identity {
                peer_id: peer_id@,
                node_name: node_name@,
            },
            GuiEvent::PeerDiscovered { peer_id, addr, node_name } => GuiEventView::PeerDiscovered {
                peer_id: peer_id@,
                addr: addr@,
                node_name: node_name@,
            },
            GuiEvent::PeerConnected { peer_id, node_name } => GuiEventView::PeerConnected {
                peer_id: peer_id@,
                node_name: node_name@,
            },
            GuiEvent::PeerDisconnected { peer_id } => GuiEventView::PeerDisconnected {
                peer_id: peer_id@,
            },
            GuiEvent::DialFailed { peer_id, error } => GuiEventView::DialFailed {
                peer_id: opt_text(peer_id),
                error: error@,
            },
            GuiEvent::FolderListing { files } => GuiEventView::FolderListing {
                files: files@.map_values(|e: GuiFileInfo| e@),
            },
            GuiEvent::TransferStarted {
                peer_id,
                file_name,
                total_chunks,
                file_size,
            } => GuiEventView::TransferStarted {
                peer_id: peer_id@,
                file_name: file_name@,
                total_chunks: total_chunks,
                file_size: file_size,
            },
            GuiEvent::ChunkReceived {
                peer_id,
                file_name,
                chunk_index,
                total_chunks,
                verified,
            } => GuiEventView::ChunkReceived {
                peer_id: peer_id@,
                file_name: file_name@,
                chunk_index: chunk_index,
                total_chunks: total_chunks,
                verified: verified,
            },
            GuiEvent::TransferComplete { peer_id, file_name } => GuiEventView::TransferComplete {
                peer_id: peer_id@,
                file_name: file_name@,
            },
            GuiEvent::RemoteEmpty { peer_id } => GuiEventView::RemoteEmpty {
                peer_id: peer_id@,
            },
            GuiEvent::PeerError { peer_id, message } => GuiEventView::PeerError {
                peer_id: peer_id@,
                message: message@,
            },
            GuiEvent::PeerApprovalRequired {
                peer_id,
                display_name,
            } => GuiEventView::PeerApprovalRequired {
                peer_id: peer_id@,
                display_name: display_name@,
            },
            GuiEvent::Log { level, message } => GuiEventView::Log {
                level: level@,
                message: message@,
            },
            GuiEvent::VaultStatus {
                wire_encrypted,
                encrypted_protocol,
                key_fingerprint,
            } => GuiEventView::VaultStatus {
                wire_encrypted: wire_encrypted,
                encrypted_protocol: encrypted_protocol,
                key_fingerprint: key_fingerprint@,
            },
            GuiEvent::PeerKeyRevoked { peer_id } => GuiEventView::PeerKeyRevoked {
                peer_id: peer_id@,
            },
            GuiEvent::VaultModeChanged { vault_mode } => GuiEventView::VaultModeChanged {
                vault_mode: vault_mode,
            },
            GuiEvent::TrustedPeers { peer_ids } => GuiEventView::TrustedPeers {
                peer_ids: texts(peer_ids@),
            },
            GuiEvent::DecryptComplete { name, dest, size } => GuiEventView::DecryptComplete {
                name: name@,
                dest: dest@,
                size: size,
            },
        }
    }
}

} // verus!
