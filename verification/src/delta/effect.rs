//! What the delta engine has the outside world do.
use crate::collections::KeySet;
use crate::delta::messages::{SyncMessage, SyncMessageView};
use crate::peer::PeerId;
use vstd::prelude::*;

verus! {

/// What the window asks for.
#[allow(inconsistent_fields)]
#[derive(Debug)]
pub enum UiCommand {
    StartSync { peer_id_str: String, folder_path: String },
    Stop,
}

/// What an `UiCommand` says.
#[allow(inconsistent_fields)]
#[verifier::ext_equal]
pub ghost enum UiCommandView {
    StartSync { peer_id_str: Seq<char>, folder_path: Seq<char> },
    Stop,
}

impl View for UiCommand {
    type V = UiCommandView;

    open spec fn view(&self) -> UiCommandView {
        match *self {
            UiCommand::StartSync { peer_id_str, folder_path } => UiCommandView::StartSync {
                peer_id_str: peer_id_str@,
                folder_path: folder_path@,
            },
            UiCommand::Stop => UiCommandView::Stop,
        }
    }
}

/// What the window is told.
#[allow(inconsistent_fields)]
#[derive(Debug)]
pub enum UiEvent {
    LocalPeerId(String),
    PeerDiscovered { peer_id: String, addr: String },
    PeerConnected(String),
    PeerDisconnected(String),
    /// How many of the required chunks of a file came.
    SyncProgress { file_name: String, received: usize, required: usize },
    FileComplete(String),
    SyncComplete,
    Log(String),
    Error(String),
}

/// What an `UiEvent` says.
#[allow(inconsistent_fields)]
#[verifier::ext_equal]
pub ghost enum UiEventView {
    LocalPeerId(Seq<char>),
    PeerDiscovered { peer_id: Seq<char>, addr: Seq<char> },
    PeerConnected(Seq<char>),
    PeerDisconnected(Seq<char>),
    SyncProgress { file_name: Seq<char>, received: usize, required: usize },
    FileComplete(Seq<char>),
    SyncComplete,
    Log(Seq<char>),
    Error(Seq<char>),
}

impl View for UiEvent {
    type V = UiEventView;

    open spec fn view(&self) -> UiEventView {
        match *self {
            UiEvent::LocalPeerId(a) => UiEventView::LocalPeerId(a@),
            UiEvent::PeerDiscovered { peer_id, addr } => UiEventView::PeerDiscovered {
                peer_id: peer_id@,
                addr: addr@,
            },
            UiEvent::PeerConnected(a) => UiEventView::PeerConnected(a@),
            UiEvent::PeerDisconnected(a) => UiEventView::PeerDisconnected(a@),
            UiEvent::SyncProgress { file_name, received, required } => UiEventView::SyncProgress {
                file_name: file_name@,
                received: received,
                required: required,
            },
            UiEvent::FileComplete(a) => UiEventView::FileComplete(a@),
            UiEvent::SyncComplete => UiEventView::SyncComplete,
            UiEvent::Log(a) => UiEventView::Log(a@),
            UiEvent::Error(a) => UiEventView::Error(a@),
        }
    }
}

/// Something that is to be done outside.
#[allow(inconsistent_fields)]
#[derive(Debug)]
pub enum DeltaEffect {
    /// Send a request to a peer.
    Request { peer: PeerId, message: SyncMessage },
    /// Answer the request that is being handled.
    Respond { message: SyncMessage },
    /// Dial an address.
    Dial { addr: String },
    /// Tell the window.
    Ui { event: UiEvent },
}

/// What a `DeltaEffect` says.
#[allow(inconsistent_fields)]
#[verifier::ext_equal]
pub ghost enum DeltaEffectView {
    Request { peer: Seq<char>, message: SyncMessageView },
    Respond { message: SyncMessageView },
    Dial { addr: Seq<char> },
    Ui { event: UiEventView },
}

impl View for DeltaEffect {
    type V = DeltaEffectView;

    open spec fn view(&self) -> DeltaEffectView {
        match *self {
            DeltaEffect::Request { peer, message } => DeltaEffectView::Request {
                peer: peer@,
                message: message@,
            },
            DeltaEffect::Respond { message } => DeltaEffectView::Respond {
                message: message@,
            },
            DeltaEffect::Dial { addr } => DeltaEffectView::Dial {
                addr: addr@,
            },
            DeltaEffect::Ui { event } => DeltaEffectView::Ui {
                event: event@,
            },
        }
    }
}

/// A request to a peer.
pub open spec fn asked(peer: Seq<char>, message: SyncMessageView) -> DeltaEffectView {
    DeltaEffectView::Request { peer, message }
}

/// The answer to the request that is being handled.
pub open spec fn answered(message: SyncMessageView) -> DeltaEffectView {
    DeltaEffectView::Respond { message }
}

/// The effects with an event for the window, where there is a window.
pub open spec fn noted(
    window: bool,
    out: Seq<DeltaEffectView>,
    event: UiEventView,
) -> Seq<DeltaEffectView> {
    if window {
        out.push(DeltaEffectView::Ui { event })
    } else {
        out
    }
}

/// The effects with a request to the target, if there is one.
pub open spec fn target_asked(
    target: Option<Seq<char>>,
    out: Seq<DeltaEffectView>,
    message: SyncMessageView,
) -> Seq<DeltaEffectView> {
    match target {
        Some(peer) => out.push(asked(peer, message)),
        None => out,
    }
}

/// The effects with a request to every peer.
pub open spec fn all_asked(
    peers: Seq<Seq<char>>,
    out: Seq<DeltaEffectView>,
    message: SyncMessageView,
) -> Seq<DeltaEffectView> {
    out + peers.map_values(|p: Seq<char>| asked(p, message))
}

/// The effects that a step has, in order.
pub struct DeltaOutbox {
    pub effects: Vec<DeltaEffect>,
}

impl View for DeltaOutbox {
    type V = Seq<DeltaEffectView>;

    open spec fn view(&self) -> Seq<DeltaEffectView> {
        self.effects@.map_values(|e: DeltaEffect| e@)
    }
}

/// The id of a peer, if there is one.
pub open spec fn opt_peer(peer: Option<PeerId>) -> Option<Seq<char>> {
    match peer {
        Some(p) => Some(p@),
        None => None,
    }
}

impl DeltaOutbox {
    pub fn new() -> (r: Self)
        ensures
            r@ == Seq::<DeltaEffectView>::empty(),
    {
        let r = DeltaOutbox { effects: Vec::new() };
        assert(r@ =~= Seq::<DeltaEffectView>::empty());
        r
    }

    pub fn push(&mut self, effect: DeltaEffect)
        ensures
            final(self)@ == old(self)@.push(effect@),
    {
        let ghost e = effect@;
        self.effects.push(effect);
        assert(self@ =~= old(self)@.push(e));
    }

    /// Tells the window of an event, where there is a window.
    pub fn note(&mut self, window: bool, event: UiEvent)
        ensures
            final(self)@ == noted(window, old(self)@, event@),
    {
        if window {
            self.push(DeltaEffect::Ui { event });
        }
    }

    /// Writes a line to the window's log, where there is a window.
    pub fn log(&mut self, window: bool, message: String)
        ensures
            final(self)@ == noted(window, old(self)@, UiEventView::Log(message@)),
    {
        self.note(window, UiEvent::Log(message));
    }

    /// Sends a request to a peer.
    pub fn ask(&mut self, peer: &PeerId, message: SyncMessage)
        ensures
            final(self)@ == old(self)@.push(asked(peer@, message@)),
    {
        self.push(DeltaEffect::Request { peer: peer.clone(), message });
    }

    /// Sends a request to the target, if there is one.
    pub fn ask_target(&mut self, target: &Option<PeerId>, message: SyncMessage)
        ensures
            final(self)@ == target_asked(opt_peer(*target), old(self)@, message@),
    {
        match target {
            Some(peer) => self.ask(peer, message),
            None => {},
        }
    }

    /// Sends a request to every peer.
    pub fn ask_all(&mut self, peers: &KeySet<PeerId>, message: SyncMessage)
        ensures
            final(self)@ == all_asked(peers@, old(self)@, message@),
    {
        let ghost before = self@;
        let ghost requests = peers@.map_values(|p: Seq<char>| asked(p, message@));
        let n: usize = peers.len();
        let mut i: usize = 0;
        assert(before + requests.take(0) =~= before);
        while i < n
            invariant
                n == peers@.len(),
                i <= n,
                requests == peers@.map_values(|p: Seq<char>| asked(p, message@)),
                self@ == before + requests.take(i as int),
            decreases n - i,
        {
            self.ask(peers.at(i), message.clone());
            i = i + 1;
            assert(self@ =~= before + requests.take(i as int));
        }
        assert(requests.take(n as int) =~= requests);
    }

    /// Answers the request that is being handled.
    pub fn answer(&mut self, message: SyncMessage)
        ensures
            final(self)@ == old(self)@.push(answered(message@)),
    {
        self.push(DeltaEffect::Respond { message });
    }
}

} // verus!
