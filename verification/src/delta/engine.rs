//! The state of the delta engine, and its peers.
use crate::collections::{
    distinct, law_without_element, lemma_position, position, put, with_element, without,
    without_element, Assoc, Key, KeySet,
};
use crate::delta::chunk::{
    chunk_named_file, chunk_views, chunks_of, named_metadata, Chunk, ChunkView,
};
use crate::delta::effect::{
    asked, noted, opt_peer, target_asked, DeltaEffect, DeltaEffectView, DeltaOutbox, UiEvent,
    UiEventView,
};
use crate::delta::messages::{SyncMessage, SyncMessageView};
use crate::delta::metadata::{FileMetadata, FileMetadataView, FileVersion, FileVersionView};
use crate::delta::operations::all_accepted;
use crate::delta::session::{session_ok, startable, started, SyncSession, SyncSessionView};
use crate::delta::transfer::{FileTransferState, FileTransferStateView};
use crate::peer::PeerId;
use crate::text::{concat2, owned};
use vstd::prelude::*;

verus! {

/// How many files are synced at a time.
pub const MAX_CONCURRENT_FILES: usize = 3;

/// How many chunks of a file are under way at a time.
pub const MAX_CONCURRENT_CHUNKS: usize = 8;

/// What is known of the sync as a whole.
pub struct SyncState {
    pub current_session: Option<SyncSession>,
    pub is_initial_sync_complete: bool,
    pub transfer_states: Assoc<String, FileTransferState>,
    pub connected_peers: KeySet<PeerId>,
    /// The connected peer from which files are fetched.
    pub sync_target_peer: Option<PeerId>,
}

/// What a `SyncState` holds.
#[verifier::ext_equal]
pub ghost struct SyncStateView {
    pub current_session: Option<SyncSessionView>,
    pub is_initial_sync_complete: bool,
    pub transfer_states: Seq<(Seq<char>, FileTransferStateView)>,
    pub connected_peers: Seq<Seq<char>>,
    pub sync_target_peer: Option<Seq<char>>,
}

/// The view of an optional session.
pub open spec fn opt_session(s: Option<SyncSession>) -> Option<SyncSessionView> {
    match s {
        Some(s) => Some(s@),
        None => None,
    }
}

impl View for SyncState {
    type V = SyncStateView;

    open spec fn view(&self) -> SyncStateView {
        SyncStateView {
            current_session: opt_session(self.current_session),
            is_initial_sync_complete: self.is_initial_sync_complete,
            transfer_states: self.transfer_states@,
            connected_peers: self.connected_peers@,
            sync_target_peer: opt_peer(self.sync_target_peer),
        }
    }
}

/// Before the first connection.
pub open spec fn fresh_sync() -> SyncStateView {
    SyncStateView {
        current_session: None,
        is_initial_sync_complete: false,
        transfer_states: Seq::empty(),
        connected_peers: Seq::empty(),
        sync_target_peer: None,
    }
}

impl SyncState {
    pub fn new() -> (r: Self)
        ensures
            r@ == fresh_sync(),
    {
        SyncState {
            current_session: None,
            is_initial_sync_complete: false,
            transfer_states: Assoc::new(),
            connected_peers: KeySet::new(),
            sync_target_peer: None,
        }
    }
}

impl Default for SyncState {
    fn default() -> (r: Self)
        ensures
            r@ == fresh_sync(),
    {
        SyncState::new()
    }
}

/// A file that was cut into chunks for peers.
pub struct CachedFile {
    pub chunks: Vec<Chunk>,
    pub metadata: FileMetadata,
}

/// What a `CachedFile` holds.
#[verifier::ext_equal]
pub ghost struct CachedFileView {
    pub chunks: Seq<ChunkView>,
    pub metadata: FileMetadataView,
}

impl View for CachedFile {
    type V = CachedFileView;

    open spec fn view(&self) -> CachedFileView {
        CachedFileView { chunks: chunk_views(self.chunks@), metadata: self.metadata@ }
    }
}

/// The delta engine. Either it exchanges versions, or it has a window that is
/// told what happens.
pub struct Engine {
    /// The folder that is synced.
    pub root: String,
    /// This peer, as the author of versions.
    pub author: String,
    /// The peer to sync with; without one, peers are waited for.
    pub target: Option<PeerId>,
    /// Whether there is a window. If so, no versions are exchanged.
    pub window: bool,
    pub sync: SyncState,
    /// The files that are being written.
    pub currently_writing: KeySet<String>,
    /// What peers changed here: the next event of the watcher is theirs.
    pub recently_remote: KeySet<String>,
    pub cached: Assoc<String, CachedFile>,
    pub local_versions: Assoc<String, FileVersion>,
    pub remote_versions: Assoc<String, FileVersion>,
}

/// What an `Engine` holds.
#[verifier::ext_equal]
pub ghost struct EngineView {
    pub root: Seq<char>,
    pub author: Seq<char>,
    pub target: Option<Seq<char>>,
    pub window: bool,
    pub sync: SyncStateView,
    pub currently_writing: Seq<Seq<char>>,
    pub recently_remote: Seq<Seq<char>>,
    pub cached: Seq<(Seq<char>, CachedFileView)>,
    pub local_versions: Seq<(Seq<char>, FileVersionView)>,
    pub remote_versions: Seq<(Seq<char>, FileVersionView)>,
}

impl View for Engine {
    type V = EngineView;

    open spec fn view(&self) -> EngineView {
        EngineView {
            root: self.root@,
            author: self.author@,
            target: opt_peer(self.target),
            window: self.window,
            sync: self.sync@,
            currently_writing: self.currently_writing@,
            recently_remote: self.recently_remote@,
            cached: self.cached@,
            local_versions: self.local_versions@,
            remote_versions: self.remote_versions@,
        }
    }
}

/// An engine that has just been made.
pub open spec fn fresh_engine(
    root: Seq<char>,
    author: Seq<char>,
    target: Option<Seq<char>>,
    window: bool,
) -> EngineView {
    EngineView {
        root,
        author,
        target,
        window,
        sync: fresh_sync(),
        currently_writing: Seq::empty(),
        recently_remote: Seq::empty(),
        cached: Seq::empty(),
        local_versions: Seq::empty(),
        remote_versions: Seq::empty(),
    }
}

/// Every chunk of every transfer has the hash that it should have.
pub open spec fn transfers_ok(transfers: Seq<(Seq<char>, FileTransferStateView)>) -> bool {
    forall|i: int| 0 <= i < transfers.len() ==> all_accepted((#[trigger] transfers[i]).1)
}

/// Setting one transfer keeps that.
pub proof fn lemma_put_ok(
    transfers: Seq<(Seq<char>, FileTransferStateView)>,
    name: Seq<char>,
    ts: FileTransferStateView,
)
    requires
        transfers_ok(transfers),
        all_accepted(ts),
    ensures
        transfers_ok(put(transfers, name, ts)),
{
    let after = put(transfers, name, ts);
    lemma_position(transfers, name);
    assert forall|i: int| 0 <= i < after.len() implies all_accepted((#[trigger] after[i]).1) by {
        if i < transfers.len() {
            assert(all_accepted(transfers[i].1));
        }
    }
}

/// Removing one transfer keeps that.
pub proof fn lemma_without_ok(
    transfers: Seq<(Seq<char>, FileTransferStateView)>,
    name: Seq<char>,
)
    requires
        transfers_ok(transfers),
    ensures
        transfers_ok(without(transfers, name)),
{
    let after = without(transfers, name);
    lemma_position(transfers, name);
    assert forall|i: int| 0 <= i < after.len() implies all_accepted((#[trigger] after[i]).1) by {
        if let Some(p) = position(transfers, name) {
            if i < p {
                assert(after[i] == transfers[i]);
            } else {
                assert(after[i] == transfers[i + 1]);
            }
        }
    }
}

/// No name stands twice in any table, no peer is connected twice, the target is
/// connected, no more files are synced at a time than allowed, and every chunk that
/// came has its hash.
pub open spec fn engine_ok(e: EngineView) -> bool {
    &&& distinct(e.sync.transfer_states)
    &&& transfers_ok(e.sync.transfer_states)
    &&& distinct(e.cached)
    &&& distinct(e.local_versions)
    &&& distinct(e.remote_versions)
    &&& e.sync.connected_peers.no_duplicates()
    &&& e.currently_writing.no_duplicates()
    &&& e.recently_remote.no_duplicates()
    &&& e.sync.sync_target_peer matches Some(p) ==> e.sync.connected_peers.contains(p)
    &&& e.sync.current_session matches Some(s) ==> session_ok(s)
}

impl Engine {
    pub fn new(root: String, author: String, target: Option<PeerId>, window: bool) -> (r: Self)
        ensures
            r@ == fresh_engine(root@, author@, opt_peer(target), window),
            engine_ok(r@),
    {
        Engine {
            root,
            author,
            target,
            window,
            sync: SyncState::new(),
            currently_writing: KeySet::new(),
            recently_remote: KeySet::new(),
            cached: Assoc::new(),
            local_versions: Assoc::new(),
            remote_versions: Assoc::new(),
        }
    }

    /// Whether a peer is the one to sync with.
    pub fn is_target(&self, peer: &PeerId) -> (r: bool)
        ensures
            r == (self@.target == Some(peer@)),
    {
        match &self.target {
            Some(t) => t.same(peer),
            None => false,
        }
    }
}

/// What follows when a peer is discovered: the target is dialled.
pub open spec fn discovered(
    e: EngineView,
    peer: Seq<char>,
    addr: Seq<char>,
    out: Seq<DeltaEffectView>,
) -> Seq<DeltaEffectView> {
    let out1 = noted(e.window, out, UiEventView::PeerDiscovered { peer_id: peer, addr });
    if e.target == Some(peer) {
        noted(e.window, out1, UiEventView::Log("Target peer found, dialing..."@)).push(
            DeltaEffectView::Dial { addr },
        )
    } else {
        out1
    }
}

/// A peer was discovered.
pub fn on_discovered(e: &Engine, peer: &PeerId, addr: &str, out: &mut DeltaOutbox)
    ensures
        final(out)@ == discovered(e@, peer@, addr@, old(out)@),
{
    out.note(
        e.window,
        UiEvent::PeerDiscovered { peer_id: peer.to_text(), addr: owned(addr) },
    );
    if e.is_target(peer) {
        out.log(e.window, owned("Target peer found, dialing..."));
        out.push(DeltaEffect::Dial { addr: owned(addr) });
    }
}

/// What follows when a connection stands: the target is asked for its files.
pub open spec fn connected(e: EngineView, peer: Seq<char>, out: Seq<DeltaEffectView>) -> (
    EngineView,
    Seq<DeltaEffectView>,
) {
    let out1 = noted(e.window, out, UiEventView::PeerConnected(peer));
    let sync = SyncStateView {
        connected_peers: with_element(e.sync.connected_peers, peer),
        ..e.sync
    };
    if e.target == Some(peer) {
        (
            EngineView { sync: SyncStateView { sync_target_peer: Some(peer), ..sync }, ..e },
            noted(e.window, out1, UiEventView::Log("Requesting file list..."@)).push(
                asked(peer, SyncMessageView::ListFiles),
            ),
        )
    } else {
        (EngineView { sync, ..e }, out1)
    }
}

/// A connection to a peer stands.
pub fn on_connected(e: &mut Engine, peer: &PeerId, out: &mut DeltaOutbox)
    ensures
        (final(e)@, final(out)@) == connected(old(e)@, peer@, old(out)@),
        engine_ok(old(e)@) ==> engine_ok(final(e)@),
{
    out.note(e.window, UiEvent::PeerConnected(peer.to_text()));
    e.sync.connected_peers.insert(peer.clone());
    let ghost before = old(e)@.sync.connected_peers;
    let ghost now = with_element(before, peer@);
    proof {
        if !before.contains(peer@) {
            assert(now[now.len() - 1] == peer@);
        }
        assert forall|p: Seq<char>| before.contains(p) implies now.contains(p) by {
            let w = choose|w: int| 0 <= w < before.len() && before[w] == p;
            assert(now[w] == p);
        }
    }
    if e.is_target(peer) {
        e.sync.sync_target_peer = Some(peer.clone());
        out.log(e.window, owned("Requesting file list..."));
        out.ask(peer, SyncMessage::ListFiles);
    }
}

/// What follows when a connection is closed.
pub open spec fn closed(e: EngineView, peer: Seq<char>, out: Seq<DeltaEffectView>) -> (
    EngineView,
    Seq<DeltaEffectView>,
) {
    let out1 = noted(e.window, out, UiEventView::PeerDisconnected(peer));
    let sync = SyncStateView {
        connected_peers: without_element(e.sync.connected_peers, peer),
        ..e.sync
    };
    if e.sync.sync_target_peer == Some(peer) {
        (
            EngineView { sync: SyncStateView { sync_target_peer: None, ..sync }, ..e },
            noted(e.window, out1, UiEventView::Log("Sync target disconnected"@)),
        )
    } else {
        (EngineView { sync, ..e }, out1)
    }
}

/// A connection to a peer was closed.
pub fn on_closed(e: &mut Engine, peer: &PeerId, out: &mut DeltaOutbox)
    ensures
        (final(e)@, final(out)@) == closed(old(e)@, peer@, old(out)@),
        engine_ok(old(e)@) ==> engine_ok(final(e)@) && !final(e)@.sync.connected_peers.contains(
            peer@,
        ),
{
    out.note(e.window, UiEvent::PeerDisconnected(peer.to_text()));
    e.sync.connected_peers.remove(peer);
    let was_target = match &e.sync.sync_target_peer {
        Some(t) => t.same(peer),
        None => false,
    };
    proof {
        if engine_ok(old(e)@) {
            law_without_element(old(e)@.sync.connected_peers, peer@, peer@);
            if let Some(t) = old(e)@.sync.sync_target_peer {
                law_without_element(old(e)@.sync.connected_peers, peer@, t);
            }
        }
    }
    if was_target {
        e.sync.sync_target_peer = None;
        out.log(e.window, owned("Sync target disconnected"));
    }
}

/// A peer could not be reached.
pub fn on_connection_error(e: &Engine, error: &str, out: &mut DeltaOutbox)
    ensures
        final(out)@ == noted(
            e@.window,
            old(out)@,
            UiEventView::Error("Connection failed: "@ + error@),
        ),
{
    out.note(e.window, UiEvent::Error(concat2("Connection failed: ", error)));
}

/// A session after as many files as possible were started, and the effects of
/// that: their metadata are asked for.
pub open spec fn filled(
    s: SyncSessionView,
    window: bool,
    target: Option<Seq<char>>,
    words: Seq<char>,
    out: Seq<DeltaEffectView>,
) -> (SyncSessionView, Seq<DeltaEffectView>)
    decreases s.pending_files.len(),
{
    if startable(s) {
        let name = s.pending_files.last();
        let out1 = noted(window, out, UiEventView::Log(words + name));
        filled(
            started(s),
            window,
            target,
            words,
            target_asked(target, out1, SyncMessageView::MetaDataRequest { file_name: name }),
        )
    } else {
        (s, out)
    }
}

/// Starts as many files of a session as possible.
pub fn fill_session(
    s: &mut SyncSession,
    window: bool,
    target: &Option<PeerId>,
    words: &str,
    out: &mut DeltaOutbox,
)
    ensures
        (final(s)@, final(out)@) == filled(
            old(s)@,
            window,
            opt_peer(*target),
            words@,
            old(out)@,
        ),
        session_ok(old(s)@) ==> session_ok(final(s)@),
        !startable(final(s)@),
{
    let ghost s0 = s@;
    let ghost out0 = out@;
    let ghost goal = filled(s0, window, opt_peer(*target), words@, out0);
    while s.can_start_more()
        invariant
            goal == filled(s0, window, opt_peer(*target), words@, out0),
            goal == filled(s@, window, opt_peer(*target), words@, out@),
            session_ok(s0) ==> session_ok(s@),
        decreases s@.pending_files.len(),
    {
        match s.start_next() {
            Some(name) => {
                out.log(window, concat2(words, name.as_str()));
                out.ask_target(target, SyncMessage::MetaDataRequest { file_name: name });
            },
            None => {
                return;
            },
        }
    }
}

/// A file as it is kept for peers.
pub open spec fn cached_of(name: Seq<char>, data: Seq<u8>) -> CachedFileView {
    CachedFileView {
        chunks: chunks_of(data),
        metadata: named_metadata(name, data),
    }
}

/// Cuts a file into chunks that are kept for peers.
pub fn make_cached(name: &str, data: &[u8]) -> (r: CachedFile)
    ensures
        r@ == cached_of(name@, data@),
{
    let (chunks, metadata) = chunk_named_file(name, data);
    CachedFile { chunks, metadata }
}

} // verus!
