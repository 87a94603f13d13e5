//! Peers that come and go.
use crate::collections::{
    has_key, law_put, lookup, put, with_element, without, without_element, Assoc,
};
use crate::gui::types::{GuiEvent, GuiEventView};
use crate::network::{SyncMessage, SyncMessageView};
use crate::peer::{short_name, PeerId};
use crate::primitives::x25519_public;
use crate::state::{display_name, with_stored_key, AppState, AppStateView};
use crate::storage::opt_key;
use crate::sync::download::{PeerDownload, PeerDownloadView};
use crate::sync::effect::{asked, logged, told, EffectView, Outbox};
use crate::text::{concat2, concat3, concat5, lemma_text_before_total, less_text, text_before};
use crate::tofu::generate_keypair;
use vstd::prelude::*;

verus! {

/// A peer that was discovered, and where.
#[derive(Debug)]
pub struct Discovery {
    pub peer: PeerId,
    pub addr: String,
}

/// What a `Discovery` holds.
#[verifier::ext_equal]
pub ghost struct DiscoveryView {
    pub peer: Seq<char>,
    pub addr: Seq<char>,
}

impl View for Discovery {
    type V = DiscoveryView;

    open spec fn view(&self) -> DiscoveryView {
        DiscoveryView {
            peer: self.peer@,
            addr: self.addr@,
        }
    }
}

/// What the network tells.
#[allow(inconsistent_fields)]
#[derive(Debug)]
pub enum SwarmNews {
    /// Peers appeared on the local network.
    Discovered { peers: Vec<Discovery> },
    /// Peers vanished from the local network.
    Expired { peers: Vec<PeerId> },
    /// A connection is open.
    Established { peer: PeerId },
    /// A connection was closed.
    Closed { peer: PeerId, reason: String },
    /// A dialed peer was not reached.
    DialFailed { peer: Option<PeerId>, error: String },
    /// A request was not answered.
    OutboundFailure { peer: PeerId, error: String },
}

/// What a `SwarmNews` says.
#[allow(inconsistent_fields)]
#[verifier::ext_equal]
pub ghost enum SwarmNewsView {
    Discovered { peers: Seq<DiscoveryView> },
    Expired { peers: Seq<Seq<char>> },
    Established { peer: Seq<char> },
    Closed { peer: Seq<char>, reason: Seq<char> },
    DialFailed { peer: Option<Seq<char>>, error: Seq<char> },
    OutboundFailure { peer: Seq<char>, error: Seq<char> },
}

impl View for SwarmNews {
    type V = SwarmNewsView;

    open spec fn view(&self) -> SwarmNewsView {
        match *self {
            SwarmNews::Discovered { peers } => SwarmNewsView::Discovered {
                peers: peers@.map_values(|e: Discovery| e@),
            },
            SwarmNews::Expired { peers } => SwarmNewsView::Expired {
                peers: peers@.map_values(|p: PeerId| p@),
            },
            SwarmNews::Established { peer } => SwarmNewsView::Established {
                peer: peer@,
            },
            SwarmNews::Closed { peer, reason } => SwarmNewsView::Closed {
                peer: peer@,
                reason: reason@,
            },
            SwarmNews::DialFailed { peer, error } => SwarmNewsView::DialFailed {
                peer: opt_peer(peer),
                error: error@,
            },
            SwarmNews::OutboundFailure { peer, error } => SwarmNewsView::OutboundFailure {
                peer: peer@,
                error: error@,
            },
        }
    }
}

/// The notation of an optional peer.
pub open spec fn opt_peer(p: Option<PeerId>) -> Option<Seq<char>> {
    match p {
        Some(p) => Some(p@),
        None => None,
    }
}

/// The first `n` discovered peers are remembered and told.
pub open spec fn discovered(
    peers: Seq<DiscoveryView>,
    n: nat,
    s: AppStateView,
    out: Seq<EffectView>,
) -> (AppStateView, Seq<EffectView>)
    decreases n,
{
    if n == 0 {
        (s, out)
    } else {
        let (s1, out1) = discovered(peers, (n - 1) as nat, s, out);
        let d = peers[n - 1];
        (
            AppStateView { known_addrs: put(s1.known_addrs, d.peer, d.addr), ..s1 },
            out1.push(
                told(
                    GuiEventView::PeerDiscovered {
                        peer_id: d.peer,
                        addr: d.addr,
                        node_name: display_name(s1, d.peer),
                    },
                ),
            ),
        )
    }
}

/// The first `n` vanished peers are forgotten.
pub open spec fn expired(peers: Seq<Seq<char>>, n: nat, s: AppStateView) -> AppStateView
    decreases n,
{
    if n == 0 {
        s
    } else {
        let s1 = expired(peers, (n - 1) as nat, s);
        AppStateView { known_addrs: without(s1.known_addrs, peers[n - 1]), ..s1 }
    }
}

/// A key for the peer is there, or stored.
pub open spec fn is_keyed(s: AppStateView, peer: Seq<char>, stored_key: Option<Seq<u8>>) -> bool {
    has_key(s.peer_keys, peer) || stored_key is Some
}

/// The connection is told, and the stored key of the peer is loaded.
pub open spec fn greeted(
    peer: Seq<char>,
    stored_key: Option<Seq<u8>>,
    s: AppStateView,
    out: Seq<EffectView>,
) -> (AppStateView, Seq<EffectView>) {
    let s1 = AppStateView { connected_peers: with_element(s.connected_peers, peer), ..s };
    let shown = display_name(s, peer);
    let out1 = out.push(told(GuiEventView::PeerConnected { peer_id: peer, node_name: shown })).push(
        logged("OK"@, "Connected to "@ + shown),
    );
    (
        with_stored_key(s1, peer, stored_key),
        if is_keyed(s, peer, stored_key) {
            out1.push(logged("OK"@, "Loaded stored TOFU key for "@ + short_name(peer)))
        } else {
            out1
        },
    )
}

/// A peer is told of our folder, if there is one. Its manifest is asked for
/// unless a key has to be agreed on before.
pub open spec fn folder_offered(
    peer: Seq<char>,
    keyed: bool,
    s: AppStateView,
    out: Seq<EffectView>,
) -> (AppStateView, Seq<EffectView>) {
    if s.sync_path is None {
        (s, out)
    } else {
        let out1 = out.push(
            asked(peer, SyncMessageView::FolderAnnouncement { node_name: s.node_name }),
        );
        (
            AppStateView { announced_to: with_element(s.announced_to, peer), ..s },
            if keyed || s.shared_key_from_cli {
                out1.push(asked(peer, SyncMessageView::ManifestRequest)).push(
                    logged(
                        "INFO"@,
                        "Folder already set — announced to "@ + short_name(peer)
                            + " and requesting their manifest"@,
                    ),
                )
            } else {
                out1.push(
                    logged(
                        "INFO"@,
                        "Folder set — waiting for TOFU with "@ + short_name(peer)
                            + " before requesting manifest"@,
                    ),
                )
            },
        )
    }
}

/// The side whose id comes first proposes a key exchange.
pub open spec fn proposes(local: Seq<char>, peer: Seq<char>) -> bool {
    text_before(local, peer)
}

/// Of two peers that meet, exactly one proposes the key exchange.
pub proof fn law_exactly_one_side_proposes(a: Seq<char>, b: Seq<char>)
    requires
        a != b,
    ensures
        proposes(a, b) != proposes(b, a),
{
    lemma_text_before_total(a, b);
}

/// A key exchange is begun, or awaited, where a key has to be agreed on.
pub open spec fn exchange_begun(
    peer: Seq<char>,
    local: Seq<char>,
    keyed: bool,
    secret: Seq<u8>,
    public: Seq<u8>,
    s: AppStateView,
    out: Seq<EffectView>,
) -> (AppStateView, Seq<EffectView>) {
    if keyed || s.shared_key_from_cli {
        (s, out)
    } else if proposes(local, peer) {
        (
            AppStateView { pending_exchanges: put(s.pending_exchanges, peer, secret), ..s },
            out.push(
                asked(peer, SyncMessageView::KeyExchangePropose { public_key: public }),
            ).push(
                logged(
                    "INFO"@,
                    "Initiating TOFU key exchange with "@ + short_name(peer) + " …"@,
                ),
            ),
        )
    } else {
        (
            s,
            out.push(
                logged("INFO"@, "Waiting for TOFU proposal from "@ + short_name(peer) + " …"@),
            ),
        )
    }
}

/// What an open connection leads to.
pub open spec fn established(
    peer: Seq<char>,
    local: Seq<char>,
    stored_key: Option<Seq<u8>>,
    secret: Seq<u8>,
    public: Seq<u8>,
    s: AppStateView,
    out: Seq<EffectView>,
) -> (AppStateView, Seq<EffectView>) {
    let keyed = is_keyed(s, peer, stored_key);
    let (s1, out1) = greeted(peer, stored_key, s, out);
    let (s2, out2) = folder_offered(peer, keyed, s1, out1);
    exchange_begun(peer, local, keyed, secret, public, s2, out2)
}

/// An effect that proposes a key exchange.
pub open spec fn is_proposal(e: EffectView) -> bool {
    e matches EffectView::Request { peer, message } && message is KeyExchangePropose
}

/// An effect that asks for a manifest.
pub open spec fn asks_for_manifest(e: EffectView) -> bool {
    e matches EffectView::Request { peer, message } && message is ManifestRequest
}

/// With a peer whose key is known no key is exchanged again: the known key stays,
/// or the stored one is taken.
pub proof fn law_known_peers_need_no_exchange(
    peer: Seq<char>,
    local: Seq<char>,
    stored_key: Option<Seq<u8>>,
    secret: Seq<u8>,
    public: Seq<u8>,
    s: AppStateView,
)
    requires
        is_keyed(s, peer, stored_key),
    ensures
        ({
            let (s1, out) = established(
                peer,
                local,
                stored_key,
                secret,
                public,
                s,
                Seq::empty(),
            );
            &&& s1.pending_exchanges == s.pending_exchanges
            &&& forall|i: int| 0 <= i < out.len() ==> !is_proposal(#[trigger] out[i])
            &&& lookup(s1.peer_keys, peer) == if has_key(s.peer_keys, peer) {
                lookup(s.peer_keys, peer)
            } else {
                stored_key
            }
        }),
{
    if let Some(key) = stored_key {
        law_put(s.peer_keys, peer, key, peer);
    }
}

/// Where a key has to be agreed on, no manifest is asked for before that.
pub proof fn law_no_manifest_before_the_key(
    peer: Seq<char>,
    local: Seq<char>,
    secret: Seq<u8>,
    public: Seq<u8>,
    s: AppStateView,
)
    requires
        !is_keyed(s, peer, None),
        !s.shared_key_from_cli,
    ensures
        ({
            let out = established(peer, local, None, secret, public, s, Seq::empty()).1;
            forall|i: int| 0 <= i < out.len() ==> !asks_for_manifest(#[trigger] out[i])
        }),
{
}

/// What a closed connection leads to: the peer's downloads are dropped.
pub open spec fn closed_state(peer: Seq<char>, s: AppStateView) -> AppStateView {
    AppStateView {
        connected_peers: without_element(s.connected_peers, peer),
        announced_to: without_element(s.announced_to, peer),
        ..s
    }
}

/// What news of the network lead to: the state, the downloads, and the effects.
pub open spec fn swarm_step(
    news: SwarmNewsView,
    local: Seq<char>,
    stored_key: Option<Seq<u8>>,
    secret: Seq<u8>,
    public: Seq<u8>,
    s: AppStateView,
    transfers: Seq<(Seq<char>, PeerDownloadView)>,
    out: Seq<EffectView>,
) -> (AppStateView, Seq<(Seq<char>, PeerDownloadView)>, Seq<EffectView>) {
    match news {
        SwarmNewsView::Discovered { peers } => {
            let (s1, out1) = discovered(peers, peers.len(), s, out);
            (s1, transfers, out1)
        },
        SwarmNewsView::Expired { peers } => (expired(peers, peers.len(), s), transfers, out),
        SwarmNewsView::Established { peer } => {
            let (s1, out1) = established(peer, local, stored_key, secret, public, s, out);
            (s1, transfers, out1)
        },
        SwarmNewsView::Closed { peer, reason } => (
            closed_state(peer, s),
            without(transfers, peer),
            out.push(told(GuiEventView::PeerDisconnected { peer_id: peer })).push(
                logged(
                    "WARN"@,
                    "Disconnected from "@ + short_name(peer) + " ("@ + reason + ")"@,
                ),
            ),
        ),
        SwarmNewsView::DialFailed { peer, error } => (
            s,
            transfers,
            out.push(told(GuiEventView::DialFailed { peer_id: peer, error })),
        ),
        SwarmNewsView::OutboundFailure { peer, error } => (
            s,
            transfers,
            out.push(
                logged(
                    "ERROR"@,
                    "Request to "@ + short_name(peer) + " failed — "@ + error
                        + ". Check connection and retry."@,
                ),
            ),
        ),
    }
}

fn on_discovered(peers: &Vec<Discovery>, state: &mut AppState, out: &mut Outbox)
    ensures
        ({
            let views = peers@.map_values(|e: Discovery| e@);
            let r = discovered(views, views.len(), old(state)@, old(out)@);
            final(state)@ == r.0 && final(out)@ == r.1
        }),
{
    let ghost views = peers@.map_values(|e: Discovery| e@);
    let mut i: usize = 0;
    while i < peers.len()
        invariant
            i <= peers@.len(),
            views == peers@.map_values(|e: Discovery| e@),
            state@ == discovered(views, i as nat, old(state)@, old(out)@).0,
            out@ == discovered(views, i as nat, old(state)@, old(out)@).1,
        decreases peers.len() - i,
    {
        let d = &peers[i];
        assert(views[i as int] == d@);
        let node_name = state.peer_display_name(&d.peer);
        state.known_addrs.insert(d.peer.to_text(), d.addr.clone());
        out.tell(
            GuiEvent::PeerDiscovered {
                peer_id: d.peer.to_text(),
                addr: d.addr.clone(),
                node_name,
            },
        );
        i = i + 1;
    }
}

fn on_expired(peers: &Vec<PeerId>, state: &mut AppState)
    ensures
        ({
            let views = peers@.map_values(|p: PeerId| p@);
            final(state)@ == expired(views, views.len(), old(state)@)
        }),
{
    let ghost views = peers@.map_values(|p: PeerId| p@);
    let mut i: usize = 0;
    while i < peers.len()
        invariant
            i <= peers@.len(),
            views == peers@.map_values(|p: PeerId| p@),
            state@ == expired(views, i as nat, old(state)@),
        decreases peers.len() - i,
    {
        assert(views[i as int] == peers@[i as int]@);
        state.known_addrs.remove(&peers[i].to_text());
        i = i + 1;
    }
}

fn greet(peer: &PeerId, stored_key: Option<[u8; 32]>, state: &mut AppState, out: &mut Outbox) -> (r:
    bool)
    ensures
        r == is_keyed(old(state)@, peer@, opt_key(stored_key)),
        final(state)@ == greeted(peer@, opt_key(stored_key), old(state)@, old(out)@).0,
        final(out)@ == greeted(peer@, opt_key(stored_key), old(state)@, old(out)@).1,
{
    let keyed = state.peer_keys.contains_key(peer) || stored_key.is_some();
    state.connected_peers.insert(peer.clone());
    let display = state.peer_display_name(peer);
    out.tell(GuiEvent::PeerConnected { peer_id: peer.to_text(), node_name: display.clone() });
    out.log("OK", concat2("Connected to ", display.as_str()));
    state.load_stored_key(peer, stored_key);
    if keyed {
        out.log("OK", concat2("Loaded stored TOFU key for ", peer.short().as_str()));
    }
    keyed
}

fn offer_folder(peer: &PeerId, keyed: bool, state: &mut AppState, out: &mut Outbox)
    ensures
        final(state)@ == folder_offered(peer@, keyed, old(state)@, old(out)@).0,
        final(out)@ == folder_offered(peer@, keyed, old(state)@, old(out)@).1,
{
    if state.sync_path.is_none() {
        return;
    }
    state.announced_to.insert(peer.clone());
    out.ask(peer, SyncMessage::FolderAnnouncement { node_name: state.node_name.clone() });
    if keyed || state.shared_key_from_cli {
        out.ask(peer, SyncMessage::ManifestRequest);
        out.log(
            "INFO",
            concat3(
                "Folder already set — announced to ",
                peer.short().as_str(),
                " and requesting their manifest",
            ),
        );
    } else {
        out.log(
            "INFO",
            concat3(
                "Folder set — waiting for TOFU with ",
                peer.short().as_str(),
                " before requesting manifest",
            ),
        );
    }
}

fn begin_exchange(
    peer: &PeerId,
    local: &PeerId,
    keyed: bool,
    secret: &[u8; 32],
    public: &[u8; 32],
    state: &mut AppState,
    out: &mut Outbox,
)
    ensures
        ({
            let r = exchange_begun(
                peer@,
                local@,
                keyed,
                secret@,
                public@,
                old(state)@,
                old(out)@,
            );
            final(state)@ == r.0 && final(out)@ == r.1
        }),
{
    if keyed || state.shared_key_from_cli {
        return;
    }
    if less_text(local.as_str(), peer.as_str()) {
        state.pending_exchanges.insert(peer.clone(), *secret);
        out.ask(peer, SyncMessage::KeyExchangePropose { public_key: *public });
        out.log(
            "INFO",
            concat3("Initiating TOFU key exchange with ", peer.short().as_str(), " …"),
        );
    } else {
        out.log(
            "INFO",
            concat3("Waiting for TOFU proposal from ", peer.short().as_str(), " …"),
        );
    }
}

/// Handles news of the network with a fresh key pair.
pub fn on_swarm_event_with(
    news: SwarmNews,
    local: &PeerId,
    stored_key: Option<[u8; 32]>,
    secret: &[u8; 32],
    public: &[u8; 32],
    state: &mut AppState,
    transfers: &mut Assoc<PeerId, PeerDownload>,
    out: &mut Outbox,
)
    ensures
        swarm_step(
            news@,
            local@,
            opt_key(stored_key),
            secret@,
            public@,
            old(state)@,
            old(transfers)@,
            old(out)@,
        ) == (final(state)@, final(transfers)@, final(out)@),
{
    match news {
        SwarmNews::Discovered { peers } => {
            on_discovered(&peers, state, out);
        },
        SwarmNews::Expired { peers } => {
            on_expired(&peers, state);
        },
        SwarmNews::Established { peer } => {
            let keyed = greet(&peer, stored_key, state, out);
            offer_folder(&peer, keyed, state, out);
            begin_exchange(&peer, local, keyed, secret, public, state, out);
        },
        SwarmNews::Closed { peer, reason } => {
            state.connected_peers.remove(&peer);
            state.announced_to.remove(&peer);
            transfers.remove(&peer);
            out.tell(GuiEvent::PeerDisconnected { peer_id: peer.to_text() });
            out.log(
                "WARN",
                concat5(
                    "Disconnected from ",
                    peer.short().as_str(),
                    " (",
                    reason.as_str(),
                    ")",
                ),
            );
        },
        SwarmNews::DialFailed { peer, error } => {
            let peer_id = match peer {
                Some(p) => Some(p.to_text()),
                None => None,
            };
            out.tell(GuiEvent::DialFailed { peer_id, error });
        },
        SwarmNews::OutboundFailure { peer, error } => {
            out.log(
                "ERROR",
                concat5(
                    "Request to ",
                    peer.short().as_str(),
                    " failed — ",
                    error.as_str(),
                    ". Check connection and retry.",
                ),
            );
        },
    }
}

/// Handles news of the network. A key exchange that is begun uses a key pair
/// made for it.
pub fn on_swarm_event(
    news: SwarmNews,
    local: &PeerId,
    stored_key: Option<[u8; 32]>,
    state: &mut AppState,
    transfers: &mut Assoc<PeerId, PeerDownload>,
    out: &mut Outbox,
)
    ensures
        exists|secret: Seq<u8>|
            secret.len() == 32 && #[trigger] swarm_step(
                news@,
                local@,
                opt_key(stored_key),
                secret,
                x25519_public(secret),
                old(state)@,
                old(transfers)@,
                old(out)@,
            ) == (final(state)@, final(transfers)@, final(out)@),
{
    let (secret, public) = generate_keypair();
    let ghost n = news@;
    on_swarm_event_with(news, local, stored_key, &secret, &public, state, transfers, out);
    assert(swarm_step(
        n,
        local@,
        opt_key(stored_key),
        secret@,
        x25519_public(secret@),
        old(state)@,
        old(transfers)@,
        old(out)@,
    ) == (state@, transfers@, out@));
}

} // verus!
