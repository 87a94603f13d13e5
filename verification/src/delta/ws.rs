//! What the delta engine and a page exchange over a web socket.
use crate::text::{opt_text, owned};
use vstd::prelude::*;

verus! {

/// What the page asks for.
#[allow(inconsistent_fields)]
#[derive(Debug)]
pub enum GuiCommand {
    DialPeer { peer_id: String },
    DialAddr { addr: String },
    Disconnect { peer_id: String },
    SetFolder { path: String },
    RequestSync { peer_id: String },
    GetFileList,
    GetFileHistory { file_name: String },
}

/// What a `GuiCommand` says.
#[allow(inconsistent_fields)]
#[verifier::ext_equal]
pub ghost enum GuiCommandView {
    DialPeer { peer_id: Seq<char> },
    DialAddr { addr: Seq<char> },
    Disconnect { peer_id: Seq<char> },
    SetFolder { path: Seq<char> },
    RequestSync { peer_id: Seq<char> },
    GetFileList,
    GetFileHistory { file_name: Seq<char> },
}

impl View for GuiCommand {
    type V = GuiCommandView;

    open spec fn view(&self) -> GuiCommandView {
        match *self {
            GuiCommand::DialPeer { peer_id } => GuiCommandView::DialPeer {
                peer_id: peer_id@,
            },
            GuiCommand::DialAddr { addr } => GuiCommandView::DialAddr {
                addr: addr@,
            },
            GuiCommand::Disconnect { peer_id } => GuiCommandView::Disconnect {
                peer_id: peer_id@,
            },
            GuiCommand::SetFolder { path } => GuiCommandView::SetFolder {
                path: path@,
            },
            GuiCommand::RequestSync { peer_id } => GuiCommandView::RequestSync {
                peer_id: peer_id@,
            },
            GuiCommand::GetFileList => GuiCommandView::GetFileList,
            GuiCommand::GetFileHistory { file_name } => GuiCommandView::GetFileHistory {
                file_name: file_name@,
            },
        }
    }
}

/// A file, as the page shows it.
#[derive(Debug)]
pub struct FileInfo {
    pub name: String,
    pub size: u64,
}

/// What a `FileInfo` holds.
#[verifier::ext_equal]
pub ghost struct FileInfoView {
    pub name: Seq<char>,
    pub size: u64,
}

impl View for FileInfo {
    type V = FileInfoView;

    open spec fn view(&self) -> FileInfoView {
        FileInfoView {
            name: self.name@,
            size: self.size,
        }
    }
}

/// A version of a file, as the page shows it.
#[derive(Debug)]
pub struct FileVersionInfo {
    /// The first sixteen characters of the hash, in hexadecimal.
    pub file_hash: String,
    /// When the version was made, in seconds.
    pub timestamp: u64,
    pub author: String,
    /// How many chunks are not as in the version before.
    pub changed_chunks: usize,
    pub total_chunks: usize,
}

/// What a `FileVersionInfo` holds.
#[verifier::ext_equal]
pub ghost struct FileVersionInfoView {
    pub file_hash: Seq<char>,
    pub timestamp: u64,
    pub author: Seq<char>,
    pub changed_chunks: usize,
    pub total_chunks: usize,
}

impl View for FileVersionInfo {
    type V = FileVersionInfoView;

    open spec fn view(&self) -> FileVersionInfoView {
        FileVersionInfoView {
            file_hash: self.file_hash@,
            timestamp: self.timestamp,
            author: self.author@,
            changed_chunks: self.changed_chunks,
            total_chunks: self.total_chunks,
        }
    }
}

/// What the page is told.
#[allow(inconsistent_fields)]
#[derive(Debug)]
pub enum GuiEvent {
    Identity { peer_id: String, node_name: String },
    PeerDiscovered { peer_id: String, addr: String, node_name: Option<String> },
    PeerConnected { peer_id: String, node_name: Option<String> },
    PeerDisconnected { peer_id: String },
    TransferStarted { peer_id: String, file_name: String, total_chunks: usize, file_size: u64 },
    ChunkReceived { peer_id: String, file_name: String, chunk_index: usize, verified: bool },
    TransferComplete { peer_id: String, file_name: String },
    FileList { files: Vec<FileInfo> },
    FileHistory { file_name: String, versions: Vec<FileVersionInfo> },
    Log { level: String, message: String },
    Error { message: String },
}

/// What a `GuiEvent` says.
#[allow(inconsistent_fields)]
#[verifier::ext_equal]
pub ghost enum GuiEventView {
    Identity { peer_id: Seq<char>, node_name: Seq<char> },
    PeerDiscovered { peer_id: Seq<char>, addr: Seq<char>, node_name: Option<Seq<char>> },
    PeerConnected { peer_id: Seq<char>, node_name: Option<Seq<char>> },
    PeerDisconnected { peer_id: Seq<char> },
    TransferStarted {
        peer_id: Seq<char>,
        file_name: Seq<char>,
        total_chunks: usize,
        file_size: u64,
    },
    ChunkReceived { peer_id: Seq<char>, file_name: Seq<char>, chunk_index: usize, verified: bool },
    TransferComplete { peer_id: Seq<char>, file_name: Seq<char> },
    FileList { files: Seq<FileInfoView> },
    FileHistory { file_name: Seq<char>, versions: Seq<FileVersionInfoView> },
    Log { level: Seq<char>, message: Seq<char> },
    Error { message: Seq<char> },
}

impl View for GuiEvent {
    type V = GuiEventView;

    open spec fn view(&self) -> GuiEventView {
        match *self {
            GuiEvent::Identity { peer_id, node_name } => GuiEventView::Identity {
                peer_id: peer_id@,
                node_name: node_name@,
            },
            GuiEvent::PeerDiscovered { peer_id, addr, node_name } => GuiEventView::PeerDiscovered {
                peer_id: peer_id@,
                addr: addr@,
                node_name: opt_text(node_name),
            },
            GuiEvent::PeerConnected { peer_id, node_name } => GuiEventView::PeerConnected {
                peer_id: peer_id@,
                node_name: opt_text(node_name),
            },
            GuiEvent::PeerDisconnected { peer_id } => GuiEventView::PeerDisconnected {
                peer_id: peer_id@,
            },
            GuiEvent::TransferStarted {
                peer_id,
                file_name,
                total_chunks,
                file_size,
            } => GuiEventView::TransferStarted {
                peer_id: peer_id@,
                file_name: file_name@,
                total_chunks: total_chunks,
                file_size: file_size,
            },
            GuiEvent::ChunkReceived {
                peer_id,
                file_name,
                chunk_index,
                verified,
            } => GuiEventView::ChunkReceived {
                peer_id: peer_id@,
                file_name: file_name@,
                chunk_index: chunk_index,
                verified: verified,
            },
            GuiEvent::TransferComplete { peer_id, file_name } => GuiEventView::TransferComplete {
                peer_id: peer_id@,
                file_name: file_name@,
            },
            GuiEvent::FileList { files } => GuiEventView::FileList {
                files: files@.map_values(|e: FileInfo| e@),
            },
            GuiEvent::FileHistory { file_name, versions } => GuiEventView::FileHistory {
                file_name: file_name@,
                versions: versions@.map_values(|e: FileVersionInfo| e@),
            },
            GuiEvent::Log { level, message } => GuiEventView::Log {
                level: level@,
                message: message@,
            },
            GuiEvent::Error { message } => GuiEventView::Error {
                message: message@,
            },
        }
    }
}

/// A line for the log of the page.
pub fn log_to_gui(level: &str, message: &str) -> (r: GuiEvent)
    ensures
        r@ == (GuiEventView::Log { level: level@, message: message@ }),
{
    GuiEvent::Log { level: owned(level), message: owned(message) }
}

} // verus!
