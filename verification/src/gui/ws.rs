//! What a user interface is told when it connects.
use crate::collections::{has_key, lookup};
use crate::gui::types::{GuiEvent, GuiEventView};
use crate::listing::metadata_views;
use crate::peer::{
    has_short_id, has_short_name, lemma_short_name_of_ascii, short_id, short_name,
};
use crate::state::{display_name, AppState, AppStateView};
use crate::storage::{FileMetadata, FileMetadataView};
use crate::sync::commands::{gui_files, gui_listing};
use crate::text::{concat2, owned};
use vstd::prelude::*;
use vstd::utf8::is_ascii_chars;

verus! {

/// The views of a list of events.
pub open spec fn event_views(v: Seq<GuiEvent>) -> Seq<GuiEventView> {
    v.map_values(|e: GuiEvent| e@)
}

/// The name under which a discovered peer is shown.
pub open spec fn known_name(s: AppStateView, peer: Seq<char>) -> Seq<char> {
    match lookup(s.peer_names, peer) {
        Some(n) => n,
        None => "Node-"@ + short_name(peer),
    }
}

/// Every discovered peer has a name, or an id that can be shown.
pub open spec fn can_name_peers(s: AppStateView) -> bool {
    forall|i: int|
        0 <= i < s.known_addrs.len() ==> has_key(
            s.peer_names,
            (#[trigger] s.known_addrs[i]).0,
        ) || has_short_name(s.known_addrs[i].0)
}

/// Whether every discovered peer has a name, or an id that can be shown.
pub fn peers_have_names(state: &AppState) -> (r: bool)
    ensures
        r == can_name_peers(state@),
{
    let n: usize = state.known_addrs.len();
    let mut i: usize = 0;
    while i < n
        invariant
            i <= n,
            n == state@.known_addrs.len(),
            forall|j: int|
                0 <= j < i ==> has_key(state@.peer_names, (#[trigger] state@.known_addrs[j]).0)
                    || has_short_name(state@.known_addrs[j].0),
        decreases n - i,
    {
        let peer = state.known_addrs.key_at(i);
        if !state.peer_names.contains_key(peer) && !has_short_id(peer.as_str()) {
            assert(peer@ == state@.known_addrs[i as int].0);
            return false;
        }
        i = i + 1;
    }
    true
}

/// The first `n` discovered peers are told.
pub open spec fn peers_told(s: AppStateView, n: nat, out: Seq<GuiEventView>) -> Seq<GuiEventView>
    decreases n,
{
    if n == 0 {
        out
    } else {
        let (peer, addr) = s.known_addrs[n - 1];
        peers_told(s, (n - 1) as nat, out).push(
            GuiEventView::PeerDiscovered {
                peer_id: peer,
                addr,
                node_name: known_name(s, peer),
            },
        )
    }
}

/// The listing of a folder, if it could be read.
pub open spec fn opt_listing(l: Option<Vec<FileMetadata>>) -> Option<Seq<FileMetadataView>> {
    match l {
        Some(v) => Some(metadata_views(v@)),
        None => None,
    }
}

/// What a user interface is told when it connects: who the node is, the peers it
/// knows, and its folder.
pub open spec fn snapshot_of(
    s: AppStateView,
    peer_id: Seq<char>,
    node_name: Seq<char>,
    listing: Option<Seq<FileMetadataView>>,
) -> Seq<GuiEventView> {
    let out = peers_told(
        s,
        s.known_addrs.len(),
        seq![GuiEventView::Identity { peer_id, node_name }],
    );
    match s.sync_path {
        None => out,
        Some(path) => {
            let out1 = match listing {
                Some(files) => out.push(GuiEventView::FolderListing { files: gui_files(files) }),
                None => out,
            };
            out1.push(GuiEventView::Log { level: "OK"@, message: "Sync folder: "@ + path })
        },
    }
}

/// What a user interface is told when it connects.
pub fn snapshot(
    state: &AppState,
    peer_id: &str,
    node_name: &str,
    listing: Option<Vec<FileMetadata>>,
) -> (r: Vec<GuiEvent>)
    requires
        can_name_peers(state@),
    ensures
        event_views(r@) == snapshot_of(state@, peer_id@, node_name@, opt_listing(listing)),
{
    let mut out: Vec<GuiEvent> = Vec::new();
    out.push(GuiEvent::Identity { peer_id: owned(peer_id), node_name: owned(node_name) });
    let ghost start = seq![
        GuiEventView::Identity { peer_id: peer_id@, node_name: node_name@ },
    ];
    assert(event_views(out@) =~= start);
    let mut i: usize = 0;
    let n: usize = state.known_addrs.len();
    while i < n
        invariant
            i <= n,
            n == state@.known_addrs.len(),
            can_name_peers(state@),
            event_views(out@) == peers_told(state@, i as nat, start),
        decreases n - i,
    {
        let ghost before = event_views(out@);
        let peer = state.known_addrs.key_at(i);
        assert(peer@ == state@.known_addrs[i as int].0);
        let name = match state.peer_names.get(peer) {
            Some(n) => n.clone(),
            None => concat2("Node-", short_id(peer.as_str()).as_str()),
        };
        let event = GuiEvent::PeerDiscovered {
            peer_id: peer.clone(),
            addr: state.known_addrs.value_at(i).clone(),
            node_name: name,
        };
        let ghost ev = event@;
        out.push(event);
        i = i + 1;
        assert(event_views(out@) =~= before.push(ev));
    }
    if let Some(path) = &state.sync_path {
        let ghost before = event_views(out@);
        let ghost l = opt_listing(listing);
        if let Some(files) = listing {
            out.push(GuiEvent::FolderListing { files: gui_listing(&files) });
            assert(event_views(out@) =~= before.push(
                GuiEventView::FolderListing { files: gui_files(metadata_views(files@)) },
            ));
        }
        let ghost mid = event_views(out@);
        out.push(
            GuiEvent::Log { level: owned("OK"), message: concat2("Sync folder: ", path.as_str()) },
        );
        assert(event_views(out@) =~= mid.push(
            GuiEventView::Log { level: "OK"@, message: "Sync folder: "@ + path@ },
        ));
    }
    out
}

proof fn lemma_peers_told(s: AppStateView, n: nat, out: Seq<GuiEventView>, i: int)
    ensures
        ({
            let all = peers_told(s, n, out);
            &&& all.len() == out.len() + n
            &&& out.is_prefix_of(all)
            &&& 0 <= i < n ==> all[out.len() + i] == (GuiEventView::PeerDiscovered {
                peer_id: s.known_addrs[i].0,
                addr: s.known_addrs[i].1,
                node_name: display_name(s, s.known_addrs[i].0),
            })
        }),
    decreases n,
{
    if n > 0 {
        lemma_peers_told(s, (n - 1) as nat, out, i);
    }
}

/// A user interface that connects is told who the node is, then every peer that was
/// discovered, with its address and name, then the files of the folder, if there is one
/// that could be read.
pub proof fn law_snapshot_tells_everything(
    s: AppStateView,
    peer_id: Seq<char>,
    node_name: Seq<char>,
    listing: Option<Seq<FileMetadataView>>,
    i: int,
)
    ensures
        ({
            let all = snapshot_of(s, peer_id, node_name, listing);
            let n = s.known_addrs.len() as int;
            &&& all.len() >= n + 1
            &&& all[0] == (GuiEventView::Identity { peer_id, node_name })
            &&& 0 <= i < n ==> all[1 + i] == (GuiEventView::PeerDiscovered {
                peer_id: s.known_addrs[i].0,
                addr: s.known_addrs[i].1,
                node_name: display_name(s, s.known_addrs[i].0),
            })
            &&& s.sync_path is None ==> all.len() == n + 1
            &&& s.sync_path is Some && listing is None ==> all.len() == n + 2 && all[n + 1] is Log
            &&& s.sync_path is Some && listing is Some ==> all.len() == n + 3 && all[n + 2] is Log
                && (all[n + 1] matches GuiEventView::FolderListing { files } && files.len()
                == listing->0.len() && forall|k: int|
                0 <= k < files.len() ==> (#[trigger] files[k]).name == listing->0[k].file_name
                    && files[k].size == listing->0[k].file_size && files[k].chunks
                    == listing->0[k].total_chunks && files[k].is_vault == listing->0[k].is_vault)
        }),
{
    let first = seq![GuiEventView::Identity { peer_id, node_name }];
    let told = peers_told(s, s.known_addrs.len(), first);
    lemma_peers_told(s, s.known_addrs.len(), first, i);
    assert(told.subrange(0, 1)[0] == told[0]);
    assert(first[0] == (GuiEventView::Identity { peer_id, node_name }));
    let all = snapshot_of(s, peer_id, node_name, listing);
    assert(forall|k: int| 0 <= k < told.len() ==> all[k] == told[k]);
    if s.sync_path is Some && listing is Some {
        assert(all[told.len() as int] == (GuiEventView::FolderListing {
            files: gui_files(listing->0),
        }));
    }
}

/// Peers whose ids are written in ASCII can be named.
pub proof fn law_peers_can_be_named(s: AppStateView)
    requires
        forall|i: int|
            0 <= i < s.known_addrs.len() ==> is_ascii_chars((#[trigger] s.known_addrs[i]).0),
    ensures
        can_name_peers(s),
{
    assert forall|i: int| 0 <= i < s.known_addrs.len() implies has_key(
        s.peer_names,
        (#[trigger] s.known_addrs[i]).0,
    ) || has_short_name(s.known_addrs[i].0) by {
        lemma_short_name_of_ascii(s.known_addrs[i].0);
    }
}

} // verus!
