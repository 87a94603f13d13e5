//! How the window's backend starts.
use crate::delta::effect::{noted, opt_peer, DeltaEffectView, DeltaOutbox, UiEvent, UiEventView};
use crate::delta::engine::{engine_ok, fresh_engine, Engine, EngineView};
use crate::peer::PeerId;
use crate::primitives::peer_id_reading;
use crate::text::{concat2, owned, trim_end, trim_start, trim_text};
use vstd::prelude::*;

verus! {

/// What came of preparing the folder.
#[allow(inconsistent_fields)]
#[derive(Debug)]
pub enum FolderOutcome {
    /// It was not there and could not be made.
    CannotCreate { error: String },
    /// It could not be resolved.
    Invalid { error: String },
    /// Its full path, and how that is shown in logs.
    Ready { path: String, shown: String },
}

/// What a `FolderOutcome` says.
#[allow(inconsistent_fields)]
#[verifier::ext_equal]
pub ghost enum FolderOutcomeView {
    CannotCreate { error: Seq<char> },
    Invalid { error: Seq<char> },
    Ready { path: Seq<char>, shown: Seq<char> },
}

impl View for FolderOutcome {
    type V = FolderOutcomeView;

    open spec fn view(&self) -> FolderOutcomeView {
        match *self {
            FolderOutcome::CannotCreate { error } => FolderOutcomeView::CannotCreate {
                error: error@,
            },
            FolderOutcome::Invalid { error } => FolderOutcomeView::Invalid {
                error: error@,
            },
            FolderOutcome::Ready { path, shown } => FolderOutcomeView::Ready {
                path: path@,
                shown: shown@,
            },
        }
    }
}

/// The peer to sync with, from what the user entered: none if that is blank.
pub open spec fn entered_target(text: Seq<char>) -> Result<Option<Seq<char>>, Seq<char>> {
    let t = trim_start(trim_end(text));
    if t.len() == 0 {
        Ok(None)
    } else {
        match peer_id_reading(t) {
            Ok(id) => Ok(Some(id)),
            Err(fault) => Err("Invalid Peer ID: "@ + fault),
        }
    }
}

/// Reads the peer to sync with, or says what is wrong with it.
pub fn read_target(text: &str) -> (r: Result<Option<PeerId>, UiEvent>)
    ensures
        match r {
            Ok(target) => entered_target(text@) == Ok::<Option<Seq<char>>, Seq<char>>(
                opt_peer(target),
            ),
            Err(event) => entered_target(text@) matches Err(words) && event@
                == UiEventView::Error(words),
        },
{
    let t = trim_text(text);
    if t.as_str().is_empty() {
        return Ok(None);
    }
    match PeerId::read(t.as_str()) {
        Ok(id) => Ok(Some(id)),
        Err(fault) => Err(UiEvent::Error(concat2("Invalid Peer ID: ", fault.as_str()))),
    }
}

/// What the window is told once the folder is prepared, or not.
pub open spec fn start_events(
    target: Option<Seq<char>>,
    outcome: FolderOutcomeView,
    out: Seq<DeltaEffectView>,
) -> Seq<DeltaEffectView> {
    match outcome {
        FolderOutcomeView::CannotCreate { error } => noted(
            true,
            out,
            UiEventView::Error("Cannot create folder: "@ + error),
        ),
        FolderOutcomeView::Invalid { error } => noted(
            true,
            out,
            UiEventView::Error("Invalid folder path: "@ + error),
        ),
        FolderOutcomeView::Ready { path, shown } => noted(
            true,
            noted(true, out, UiEventView::Log("Syncing folder: "@ + shown)),
            UiEventView::Log(
                match target {
                    Some(peer) => "Will sync with peer: "@ + peer,
                    None => "Waiting for incoming connections..."@,
                },
            ),
        ),
    }
}

/// The engine, if the folder could be prepared.
pub open spec fn start_engine(
    author: Seq<char>,
    target: Option<Seq<char>>,
    outcome: FolderOutcomeView,
) -> Option<EngineView> {
    match outcome {
        FolderOutcomeView::Ready { path, shown } => Some(fresh_engine(path, author, target, true)),
        _ => None,
    }
}

/// Starts the engine with a window, if the folder could be prepared.
pub fn start_backend(
    author: String,
    target: Option<PeerId>,
    outcome: FolderOutcome,
    out: &mut DeltaOutbox,
) -> (r: Option<Engine>)
    ensures
        final(out)@ == start_events(opt_peer(target), outcome@, old(out)@),
        match r {
            Some(e) => start_engine(author@, opt_peer(target), outcome@) == Some(e@) && engine_ok(
                e@,
            ),
            None => start_engine(author@, opt_peer(target), outcome@) is None,
        },
{
    match outcome {
        FolderOutcome::CannotCreate { error } => {
            out.note(true, UiEvent::Error(concat2("Cannot create folder: ", error.as_str())));
            None
        },
        FolderOutcome::Invalid { error } => {
            out.note(true, UiEvent::Error(concat2("Invalid folder path: ", error.as_str())));
            None
        },
        FolderOutcome::Ready { path, shown } => {
            out.log(true, concat2("Syncing folder: ", shown.as_str()));
            let words = match &target {
                Some(peer) => concat2("Will sync with peer: ", peer.as_str()),
                None => owned("Waiting for incoming connections..."),
            };
            out.log(true, words);
            Some(Engine::new(path, author, target, true))
        },
    }
}

/// What the user enters as the peer to sync with: nothing, with or without white space,
/// means none; else it must be an id.
pub proof fn law_entered_target(text: Seq<char>)
    ensures
        ({
            let t = trim_start(trim_end(text));
            &&& t.len() == 0 ==> entered_target(text) == Ok::<Option<Seq<char>>, Seq<char>>(None)
            &&& t.len() > 0 && peer_id_reading(t) is Ok ==> entered_target(text) == Ok::<
                Option<Seq<char>>,
                Seq<char>,
            >(Some(peer_id_reading(t)->Ok_0))
            &&& t.len() > 0 && peer_id_reading(t) is Err ==> entered_target(text) == Err::<
                Option<Seq<char>>,
                Seq<char>,
            >("Invalid Peer ID: "@ + peer_id_reading(t)->Err_0)
        }),
{
}

/// The engine starts in a folder that could be prepared, with a window, for this author
/// and this peer to sync with, and not in any other; an error is shown then.
pub proof fn law_engine_starts_in_its_folder(
    author: Seq<char>,
    target: Option<Seq<char>>,
    outcome: FolderOutcomeView,
    out: Seq<DeltaEffectView>,
)
    ensures
        ({
            let started = start_engine(author, target, outcome);
            let shown = start_events(target, outcome, out);
            &&& outcome matches FolderOutcomeView::Ready { path, shown: s } ==> (started matches
                Some(e) && e.root == path && e.author == author && e.target == target && e.window
                && !e.sync.is_initial_sync_complete && e.sync.sync_target_peer is None)
            &&& !(outcome is Ready) ==> started is None && shown.len() == out.len() + 1
                && out.is_prefix_of(shown) && (shown.last() matches DeltaEffectView::Ui { event }
                && event is Error)
        }),
{
}

} // verus!
