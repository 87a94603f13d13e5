//! The state of the window.
use crate::collections::{put, with_element, without, without_element, Assoc, KeySet};
use crate::delta::effect::{UiCommand, UiCommandView, UiEvent, UiEventView};
use crate::text::{
    concat2, concat4, is_white, law_only_white_space_is_trimmed, owned, texts, trim_end, trim_start,
    trim_text,
};
use vstd::prelude::*;

verus! {

/// How much of a file came.
#[derive(Debug)]
pub struct Progress {
    pub received: usize,
    pub required: usize,
}

/// What a `Progress` holds.
#[verifier::ext_equal]
pub ghost struct ProgressView {
    pub received: usize,
    pub required: usize,
}

impl View for Progress {
    type V = ProgressView;

    open spec fn view(&self) -> ProgressView {
        ProgressView {
            received: self.received,
            required: self.required,
        }
    }
}

/// What the window shows.
pub struct VitruviusApp {
    pub local_peer_id: String,
    pub target_peer_id_input: String,
    pub folder_path_input: String,
    pub is_syncing: bool,
    pub connected_peers: KeySet<String>,
    pub active_transfers: Assoc<String, Progress>,
    pub completed_files: Vec<String>,
    pub log_messages: Vec<String>,
}

/// What a `VitruviusApp` holds.
#[verifier::ext_equal]
pub ghost struct VitruviusAppView {
    pub local_peer_id: Seq<char>,
    pub target_peer_id_input: Seq<char>,
    pub folder_path_input: Seq<char>,
    pub is_syncing: bool,
    pub connected_peers: Seq<Seq<char>>,
    pub active_transfers: Seq<(Seq<char>, ProgressView)>,
    pub completed_files: Seq<Seq<char>>,
    pub log_messages: Seq<Seq<char>>,
}

impl View for VitruviusApp {
    type V = VitruviusAppView;

    open spec fn view(&self) -> VitruviusAppView {
        VitruviusAppView {
            local_peer_id: self.local_peer_id@,
            target_peer_id_input: self.target_peer_id_input@,
            folder_path_input: self.folder_path_input@,
            is_syncing: self.is_syncing,
            connected_peers: self.connected_peers@,
            active_transfers: self.active_transfers@,
            completed_files: texts(self.completed_files@),
            log_messages: texts(self.log_messages@),
        }
    }
}

/// The window before anything happened.
pub open spec fn fresh_window() -> VitruviusAppView {
    VitruviusAppView {
        local_peer_id: "Waiting..."@,
        target_peer_id_input: Seq::empty(),
        folder_path_input: Seq::empty(),
        is_syncing: false,
        connected_peers: Seq::empty(),
        active_transfers: Seq::empty(),
        completed_files: Seq::empty(),
        log_messages: Seq::empty(),
    }
}

/// The window with one more line in its log.
pub open spec fn with_line(w: VitruviusAppView, line: Seq<char>) -> VitruviusAppView {
    VitruviusAppView { log_messages: w.log_messages.push(line), ..w }
}

/// The window after an event.
pub open spec fn shown(w: VitruviusAppView, event: UiEventView) -> VitruviusAppView {
    match event {
        UiEventView::LocalPeerId(id) => VitruviusAppView { local_peer_id: id, ..w },
        UiEventView::PeerDiscovered { peer_id, addr } => with_line(
            w,
            "Discovered peer: "@ + peer_id + " at "@ + addr,
        ),
        UiEventView::PeerConnected(id) => with_line(
            VitruviusAppView { connected_peers: with_element(w.connected_peers, id), ..w },
            "Connected to "@ + id,
        ),
        UiEventView::PeerDisconnected(id) => with_line(
            VitruviusAppView { connected_peers: without_element(w.connected_peers, id), ..w },
            "Disconnected from "@ + id,
        ),
        UiEventView::SyncProgress { file_name, received, required } => VitruviusAppView {
            active_transfers: put(
                w.active_transfers,
                file_name,
                ProgressView { received, required },
            ),
            ..w
        },
        UiEventView::FileComplete(name) => with_line(
            VitruviusAppView {
                active_transfers: without(w.active_transfers, name),
                completed_files: w.completed_files.push(name),
                ..w
            },
            "File complete: "@ + name,
        ),
        UiEventView::SyncComplete => with_line(
            VitruviusAppView { active_transfers: Seq::empty(), ..w },
            "Sync complete!"@,
        ),
        UiEventView::Log(line) => with_line(w, line),
        UiEventView::Error(line) => with_line(w, "[ERROR] "@ + line),
    }
}

/// A sync can be started: none is under way, and a folder is named.
pub open spec fn can_start(w: VitruviusAppView) -> bool {
    !w.is_syncing && trim_start(trim_end(w.folder_path_input)).len() > 0
}

impl VitruviusApp {
    pub fn new() -> (r: Self)
        ensures
            r@ == fresh_window(),
    {
        let r = VitruviusApp {
            local_peer_id: owned("Waiting..."),
            target_peer_id_input: owned(""),
            folder_path_input: owned(""),
            is_syncing: false,
            connected_peers: KeySet::new(),
            active_transfers: Assoc::new(),
            completed_files: Vec::new(),
            log_messages: Vec::new(),
        };
        proof {
            reveal_strlit("");
        }
        assert(r@ =~= fresh_window());
        r
    }

    fn write_line(&mut self, line: String)
        ensures
            final(self)@ == with_line(old(self)@, line@),
    {
        let ghost text = line@;
        self.log_messages.push(line);
        assert(texts(self.log_messages@) =~= texts(old(self).log_messages@).push(text));
    }

    /// Shows an event of the backend.
    pub fn show(&mut self, event: UiEvent)
        ensures
            final(self)@ == shown(old(self)@, event@),
    {
        match event {
            UiEvent::LocalPeerId(id) => {
                self.local_peer_id = id;
            },
            UiEvent::PeerDiscovered { peer_id, addr } => {
                self.write_line(
                    concat4("Discovered peer: ", peer_id.as_str(), " at ", addr.as_str()),
                );
            },
            UiEvent::PeerConnected(id) => {
                let line = concat2("Connected to ", id.as_str());
                self.connected_peers.insert(id);
                self.write_line(line);
            },
            UiEvent::PeerDisconnected(id) => {
                self.connected_peers.remove(&id);
                self.write_line(concat2("Disconnected from ", id.as_str()));
            },
            UiEvent::SyncProgress { file_name, received, required } => {
                self.active_transfers.insert(file_name, Progress { received, required });
            },
            UiEvent::FileComplete(name) => {
                let line = concat2("File complete: ", name.as_str());
                self.active_transfers.remove(&name);
                let ghost text = name@;
                self.completed_files.push(name);
                assert(texts(self.completed_files@) =~= texts(old(self).completed_files@).push(
                    text,
                ));
                self.write_line(line);
            },
            UiEvent::SyncComplete => {
                self.active_transfers = Assoc::new();
                self.write_line(owned("Sync complete!"));
            },
            UiEvent::Log(line) => {
                self.write_line(line);
            },
            UiEvent::Error(line) => {
                self.write_line(concat2("[ERROR] ", line.as_str()));
            },
        }
    }

    /// Whether a sync can be started.
    pub fn can_start(&self) -> (r: bool)
        ensures
            r == can_start(self@),
    {
        !self.is_syncing && !trim_text(self.folder_path_input.as_str()).as_str().is_empty()
    }

    /// The user starts a sync, where that is possible.
    pub fn start(&mut self) -> (r: Option<UiCommand>)
        ensures
            match r {
                Some(command) => {
                    &&& can_start(old(self)@)
                    &&& command@ == (UiCommandView::StartSync {
                        peer_id_str: old(self)@.target_peer_id_input,
                        folder_path: old(self)@.folder_path_input,
                    })
                    &&& final(self)@ == with_line(
                        VitruviusAppView { is_syncing: true, ..old(self)@ },
                        "Sync started."@,
                    )
                },
                None => !can_start(old(self)@) && final(self)@ == old(self)@,
            },
    {
        if !self.can_start() {
            return None;
        }
        let command = UiCommand::StartSync {
            peer_id_str: self.target_peer_id_input.clone(),
            folder_path: self.folder_path_input.clone(),
        };
        self.is_syncing = true;
        self.write_line(owned("Sync started."));
        Some(command)
    }

    /// The user stops a sync, if one is under way.
    pub fn stop(&mut self) -> (r: Option<UiCommand>)
        ensures
            match r {
                Some(command) => {
                    &&& old(self)@.is_syncing
                    &&& command@ == UiCommandView::Stop
                    &&& final(self)@ == with_line(
                        VitruviusAppView { is_syncing: false, ..old(self)@ },
                        "Sync stopped."@,
                    )
                },
                None => !old(self)@.is_syncing && final(self)@ == old(self)@,
            },
    {
        if !self.is_syncing {
            return None;
        }
        self.is_syncing = false;
        self.write_line(owned("Sync stopped."));
        Some(UiCommand::Stop)
    }
}

/// The window shows who is connected, how far each file is, what is complete, and every
/// line; nothing that the user entered changes.
pub proof fn law_window_shows_events(
    w: VitruviusAppView,
    id: Seq<char>,
    name: Seq<char>,
    received: usize,
    required: usize,
    line: Seq<char>,
)
    ensures
        shown(w, UiEventView::LocalPeerId(id)) == (VitruviusAppView { local_peer_id: id, ..w }),
        ({
            let w1 = shown(w, UiEventView::PeerConnected(id));
            w1 == (VitruviusAppView {
                connected_peers: with_element(w.connected_peers, id),
                log_messages: w1.log_messages,
                ..w
            }) && w1.log_messages.len() == w.log_messages.len() + 1
        }),
        ({
            let w1 = shown(w, UiEventView::PeerDisconnected(id));
            w1 == (VitruviusAppView {
                connected_peers: without_element(w.connected_peers, id),
                log_messages: w1.log_messages,
                ..w
            }) && w1.log_messages.len() == w.log_messages.len() + 1
        }),
        shown(w, UiEventView::SyncProgress { file_name: name, received, required }) == (
        VitruviusAppView {
            active_transfers: put(
                w.active_transfers,
                name,
                ProgressView { received, required },
            ),
            ..w
        }),
        ({
            let w1 = shown(w, UiEventView::FileComplete(name));
            w1 == (VitruviusAppView {
                active_transfers: without(w.active_transfers, name),
                completed_files: w.completed_files.push(name),
                log_messages: w1.log_messages,
                ..w
            }) && w1.log_messages.len() == w.log_messages.len() + 1
        }),
        ({
            let w1 = shown(w, UiEventView::SyncComplete);
            w1 == (VitruviusAppView {
                active_transfers: Seq::empty(),
                log_messages: w1.log_messages,
                ..w
            }) && w1.log_messages.len() == w.log_messages.len() + 1
        }),
        shown(w, UiEventView::Log(line)) == (VitruviusAppView {
            log_messages: w.log_messages.push(line),
            ..w
        }),
        shown(w, UiEventView::Error(line)) == (VitruviusAppView {
            log_messages: w.log_messages.push("[ERROR] "@ + line),
            ..w
        }),
{
}

/// A sync can be started exactly when none is under way and a folder is entered that is
/// not blank.
pub proof fn law_when_a_sync_can_start(w: VitruviusAppView)
    ensures
        can_start(w) <==> !w.is_syncing && exists|i: int|
            0 <= i < w.folder_path_input.len() && !is_white(#[trigger] w.folder_path_input[i]),
{
    let s = w.folder_path_input;
    law_only_white_space_is_trimmed(s);
    let t = trim_start(trim_end(s));
    let (i, j) = choose|i: int, j: int|
        0 <= i <= j <= s.len() && #[trigger] s.subrange(i, j) == t && (forall|k: int|
            0 <= k < i || j <= k < s.len() ==> is_white(#[trigger] s[k]));
    if t.len() > 0 {
        assert(t[0] == s[i]);
        assert(!is_white(s[i]));
    }
}

/// A window begins with nothing entered, nobody connected and nothing under way.
pub proof fn law_a_window_starts_empty()
    ensures
        ({
            let w = fresh_window();
            &&& !w.is_syncing && !can_start(w)
            &&& w.target_peer_id_input.len() == 0 && w.folder_path_input.len() == 0
            &&& w.connected_peers.len() == 0 && w.active_transfers.len() == 0
            &&& w.completed_files.len() == 0 && w.log_messages.len() == 0
        }),
{
}

} // verus!
