//! What the node has the outside world do.
use crate::gui::types::{GuiEvent, GuiEventView};
use crate::network::{SyncMessage, SyncMessageView};
use crate::peer::PeerId;
use crate::text::owned;
use vstd::prelude::*;

verus! {

/// Something that is to be done outside.
#[allow(inconsistent_fields)]
#[derive(Debug)]
pub enum Effect {
    /// Send a request to a peer.
    Request { peer: PeerId, message: SyncMessage },
    /// Answer the request that is being handled.
    Respond { message: SyncMessage },
    /// Tell the user interface.
    Event { event: GuiEvent },
    /// Store the transport key of a peer.
    PersistKey { peer: PeerId, key: [u8; 32] },
    /// Close the connection to a peer.
    Disconnect { peer: PeerId },
    /// Dial an address.
    Dial { addr: String },
    /// Watch a folder for changes.
    Watch { path: String },
    /// Remove a file, if it is there.
    RemoveFile { path: String },
    /// Forget, after two seconds, that a file is being deleted.
    ForgetDeleting { path: String },
    /// Forget, after a second and a half, that a file is being written.
    ForgetWriting { path: String },
    /// List a folder for the user interface.
    RefreshListing { path: String },
}

/// What an `Effect` says.
#[allow(inconsistent_fields)]
#[verifier::ext_equal]
pub ghost enum EffectView {
    Request { peer: Seq<char>, message: SyncMessageView },
    Respond { message: SyncMessageView },
    Event { event: GuiEventView },
    PersistKey { peer: Seq<char>, key: Seq<u8> },
    Disconnect { peer: Seq<char> },
    Dial { addr: Seq<char> },
    Watch { path: Seq<char> },
    RemoveFile { path: Seq<char> },
    ForgetDeleting { path: Seq<char> },
    ForgetWriting { path: Seq<char> },
    RefreshListing { path: Seq<char> },
}

impl View for Effect {
    type V = EffectView;

    open spec fn view(&self) -> EffectView {
        match *self {
            Effect::Request { peer, message } => EffectView::Request {
                peer: peer@,
                message: message@,
            },
            Effect::Respond { message } => EffectView::Respond {
                message: message@,
            },
            Effect::Event { event } => EffectView::Event {
                event: event@,
            },
            Effect::PersistKey { peer, key } => EffectView::PersistKey {
                peer: peer@,
                key: key@,
            },
            Effect::Disconnect { peer } => EffectView::Disconnect {
                peer: peer@,
            },
            Effect::Dial { addr } => EffectView::Dial {
                addr: addr@,
            },
            Effect::Watch { path } => EffectView::Watch {
                path: path@,
            },
            Effect::RemoveFile { path } => EffectView::RemoveFile {
                path: path@,
            },
            Effect::ForgetDeleting { path } => EffectView::ForgetDeleting {
                path: path@,
            },
            Effect::ForgetWriting { path } => EffectView::ForgetWriting {
                path: path@,
            },
            Effect::RefreshListing { path } => EffectView::RefreshListing {
                path: path@,
            },
        }
    }
}

/// A line in the user's log.
pub open spec fn logged(level: Seq<char>, message: Seq<char>) -> EffectView {
    EffectView::Event { event: GuiEventView::Log { level, message } }
}

/// An event for the user interface.
pub open spec fn told(event: GuiEventView) -> EffectView {
    EffectView::Event { event }
}

/// A request to a peer.
pub open spec fn asked(peer: Seq<char>, message: SyncMessageView) -> EffectView {
    EffectView::Request { peer, message }
}

/// The answer to the request that is being handled.
pub open spec fn answered(message: SyncMessageView) -> EffectView {
    EffectView::Respond { message }
}

/// A transport key that is to be stored.
pub open spec fn kept_key(peer: Seq<char>, key: Seq<u8>) -> EffectView {
    EffectView::PersistKey { peer, key }
}

/// A line in the user's log, whatever it says.
pub open spec fn is_log(e: EffectView) -> bool {
    e matches EffectView::Event { event } && event is Log
}

/// The effects without the lines in the user's log, in order.
pub open spec fn deeds(out: Seq<EffectView>) -> Seq<EffectView>
    decreases out.len(),
{
    if out.len() == 0 {
        out
    } else if is_log(out.last()) {
        deeds(out.drop_last())
    } else {
        deeds(out.drop_last()).push(out.last())
    }
}

/// What a further effect adds.
pub proof fn lemma_deeds()
    ensures
        forall|out: Seq<EffectView>, e: EffectView| #[trigger]
            deeds(out.push(e)) == if is_log(e) {
                deeds(out)
            } else {
                deeds(out).push(e)
            },
{
    assert forall|out: Seq<EffectView>, e: EffectView| #[trigger]
        deeds(out.push(e)) == if is_log(e) {
            deeds(out)
        } else {
            deeds(out).push(e)
        } by {
        assert(out.push(e).drop_last() =~= out);
    }
}

/// The effects that a step has, in order.
pub struct Outbox {
    pub effects: Vec<Effect>,
}

impl View for Outbox {
    type V = Seq<EffectView>;

    open spec fn view(&self) -> Seq<EffectView> {
        self.effects@.map_values(|e: Effect| e@)
    }
}

impl Outbox {
    pub fn new() -> (r: Self)
        ensures
            r@ == Seq::<EffectView>::empty(),
    {
        let r = Outbox { effects: Vec::new() };
        assert(r@ =~= Seq::<EffectView>::empty());
        r
    }

    pub fn push(&mut self, effect: Effect)
        ensures
            final(self)@ == old(self)@.push(effect@),
    {
        let ghost e = effect@;
        self.effects.push(effect);
        assert(self@ =~= old(self)@.push(e));
    }

    /// Writes a line to the user's log.
    pub fn log(&mut self, level: &str, message: String)
        ensures
            final(self)@ == old(self)@.push(logged(level@, message@)),
    {
        self.push(Effect::Event { event: GuiEvent::Log { level: owned(level), message } });
    }

    /// Tells the user interface of an event.
    pub fn tell(&mut self, event: GuiEvent)
        ensures
            final(self)@ == old(self)@.push(told(event@)),
    {
        self.push(Effect::Event { event });
    }

    /// Sends a request to a peer.
    pub fn ask(&mut self, peer: &PeerId, message: SyncMessage)
        ensures
            final(self)@ == old(self)@.push(asked(peer@, message@)),
    {
        self.push(Effect::Request { peer: peer.clone(), message });
    }

    /// Answers the request that is being handled.
    pub fn answer(&mut self, message: SyncMessage)
        ensures
            final(self)@ == old(self)@.push(answered(message@)),
    {
        self.push(Effect::Respond { message });
    }
}

} // verus!
