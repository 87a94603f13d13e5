//! What the two sides of a key exchange arrive at.
use crate::collections::{has_key, law_put, lookup};
use crate::gui::types::GuiCommandView;
use crate::network::SyncMessageView;
use crate::peer::peer_id_notation;
use crate::primitives::{x25519_public, x25519_shared};
use crate::state::AppStateView;
use crate::sync::commands::commanded;
use crate::sync::connection::{established, proposes};
use crate::sync::effect::EffectView;
use crate::sync::requests::served;
use crate::tofu::shared_key;
use vstd::prelude::*;

verus! {

/// Two peers without a common key meet: `a` proposes, the user of `b` approves, and
/// `b` accepts. Both sides then hold the same key. The two values that X25519 gives
/// the two sides are the same, as `derive_shared_key` states of them.
pub proof fn law_exchange_gives_both_sides_one_key(
    a: Seq<char>,
    b: Seq<char>,
    a_text: Seq<char>,
    a_secret: Seq<u8>,
    b_secret: Seq<u8>,
    a_state: AppStateView,
    b_state: AppStateView,
    out: Seq<EffectView>,
)
    requires
        x25519_shared(a_secret, x25519_public(b_secret)) == x25519_shared(
            b_secret,
            x25519_public(a_secret),
        ),
        proposes(a, b),
        peer_id_notation(a_text) == Some(a),
        !a_state.shared_key_from_cli,
        !has_key(a_state.peer_keys, b),
        !has_key(b_state.peer_keys, a),
    ensures
        ({
            let a1 = established(
                b,
                a,
                None,
                a_secret,
                x25519_public(a_secret),
                a_state,
                out,
            ).0;
            let proposal = SyncMessageView::KeyExchangePropose {
                public_key: x25519_public(a_secret),
            };
            let b1 = served(proposal, a, b_state, out).0;
            let b2 = commanded(
                GuiCommandView::ApprovePeer { peer_id: a_text },
                b_secret,
                x25519_public(b_secret),
                b1,
                out,
            ).0;
            let acceptance = SyncMessageView::KeyExchangeAccept {
                public_key: x25519_public(b_secret),
            };
            let a2 = served(acceptance, b, a1, out).0;
            &&& lookup(a2.peer_keys, b) == Some(shared_key(a_secret, x25519_public(b_secret)))
            &&& lookup(b2.peer_keys, a) == lookup(a2.peer_keys, b)
        }),
{
    let key = shared_key(a_secret, x25519_public(b_secret));
    law_put(a_state.pending_exchanges, b, a_secret, b);
    law_put(b_state.pending_approvals, a, x25519_public(a_secret), a);
    law_put(a_state.peer_keys, b, key, b);
    law_put(b_state.peer_keys, a, key, a);
}

} // verus!
