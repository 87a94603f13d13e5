//! What a running node knows.
use crate::collections::{
    has_key, law_put, law_put_keeps_order, lemma_position, lookup, put, Assoc, KeySet,
};
use crate::crypto::{fingerprint, short_fingerprint};
use crate::peer::{short_name, PeerId};
use crate::storage::opt_key;
use crate::sync::effect::{kept_key, Effect, Outbox};
use crate::text::{concat2, opt_text, owned, trim_end, trim_start, trim_text};
use crate::vault::hash_strings;
use vstd::prelude::*;

verus! {

/// What is needed to check and assemble a file that a peer offers encrypted.
#[derive(Debug)]
pub struct InboundFileInfo {
    pub file_name: String,
    pub file_size: u64,
    pub total_chunks: u32,
    pub blinded_chunk_hashes: Vec<[u8; 32]>,
}

/// What an `InboundFileInfo` holds.
#[verifier::ext_equal]
pub ghost struct InboundFileInfoView {
    pub file_name: Seq<char>,
    pub file_size: u64,
    pub total_chunks: u32,
    pub blinded_chunk_hashes: Seq<Seq<u8>>,
}

impl View for InboundFileInfo {
    type V = InboundFileInfoView;

    open spec fn view(&self) -> InboundFileInfoView {
        InboundFileInfoView {
            file_name: self.file_name@,
            file_size: self.file_size,
            total_chunks: self.total_chunks,
            blinded_chunk_hashes: hash_strings(self.blinded_chunk_hashes@),
        }
    }
}

/// The state of a node.
pub struct AppState {
    /// The last known address of every discovered peer.
    pub known_addrs: Assoc<String, String>,
    pub connected_peers: KeySet<PeerId>,
    /// The folder that is synced, once the user set it.
    pub sync_path: Option<String>,
    pub node_name: String,
    /// The names that peers told of themselves.
    pub peer_names: Assoc<String, String>,
    /// The peers that were told of the folder.
    pub announced_to: KeySet<PeerId>,
    /// The files that the node itself is writing.
    pub writing_files: KeySet<String>,
    /// The files that the node itself is deleting.
    pub deleting_files: KeySet<String>,
    /// When peers were last told of a change of a file, in nanoseconds.
    pub recently_notified: Assoc<String, u64>,
    /// The transport key of every peer that has one.
    pub peer_keys: Assoc<PeerId, [u8; 32]>,
    /// Our secrets in key exchanges that are under way.
    pub pending_exchanges: Assoc<PeerId, [u8; 32]>,
    /// The key that the operator gave.
    pub encryption_key: Option<[u8; 32]>,
    /// Whether the operator gave the same key to all peers.
    pub shared_key_from_cli: bool,
    /// The public keys of peers that wait for the user to approve them.
    pub pending_approvals: Assoc<PeerId, [u8; 32]>,
    /// The key of the files at rest.
    pub vault_key: Option<[u8; 32]>,
    /// Whether files rest encrypted.
    pub vault_mode: bool,
    /// Whether the encrypted messages are in use.
    pub encrypted_protocol: bool,
    /// The files behind the ids that we told each peer.
    pub outbound_file_ids: Assoc<PeerId, Assoc<[u8; 16], String>>,
    /// The files behind the ids that each peer told us.
    pub inbound_file_ids: Assoc<PeerId, Assoc<[u8; 16], InboundFileInfo>>,
}

/// What an `AppState` holds.
#[verifier::ext_equal]
pub ghost struct AppStateView {
    pub known_addrs: Seq<(Seq<char>, Seq<char>)>,
    pub connected_peers: Seq<Seq<char>>,
    pub sync_path: Option<Seq<char>>,
    pub node_name: Seq<char>,
    pub peer_names: Seq<(Seq<char>, Seq<char>)>,
    pub announced_to: Seq<Seq<char>>,
    pub writing_files: Seq<Seq<char>>,
    pub deleting_files: Seq<Seq<char>>,
    pub recently_notified: Seq<(Seq<char>, u64)>,
    pub peer_keys: Seq<(Seq<char>, Seq<u8>)>,
    pub pending_exchanges: Seq<(Seq<char>, Seq<u8>)>,
    pub encryption_key: Option<Seq<u8>>,
    pub shared_key_from_cli: bool,
    pub pending_approvals: Seq<(Seq<char>, Seq<u8>)>,
    pub vault_key: Option<Seq<u8>>,
    pub vault_mode: bool,
    pub encrypted_protocol: bool,
    pub outbound_file_ids: Seq<(Seq<char>, Seq<(Seq<u8>, Seq<char>)>)>,
    pub inbound_file_ids: Seq<(Seq<char>, Seq<(Seq<u8>, InboundFileInfoView)>)>,
}

impl View for AppState {
    type V = AppStateView;

    open spec fn view(&self) -> AppStateView {
        AppStateView {
            known_addrs: self.known_addrs@,
            connected_peers: self.connected_peers@,
            sync_path: opt_text(self.sync_path),
            node_name: self.node_name@,
            peer_names: self.peer_names@,
            announced_to: self.announced_to@,
            writing_files: self.writing_files@,
            deleting_files: self.deleting_files@,
            recently_notified: self.recently_notified@,
            peer_keys: self.peer_keys@,
            pending_exchanges: self.pending_exchanges@,
            encryption_key: opt_key(self.encryption_key),
            shared_key_from_cli: self.shared_key_from_cli,
            pending_approvals: self.pending_approvals@,
            vault_key: opt_key(self.vault_key),
            vault_mode: self.vault_mode,
            encrypted_protocol: self.encrypted_protocol,
            outbound_file_ids: self.outbound_file_ids@,
            inbound_file_ids: self.inbound_file_ids@,
        }
    }
}

/// The state of a node that has just started.
pub open spec fn initial_state(node_name: Seq<char>) -> AppStateView {
    AppStateView {
        known_addrs: Seq::empty(),
        connected_peers: Seq::empty(),
        sync_path: None,
        node_name,
        peer_names: Seq::empty(),
        announced_to: Seq::empty(),
        writing_files: Seq::empty(),
        deleting_files: Seq::empty(),
        recently_notified: Seq::empty(),
        peer_keys: Seq::empty(),
        pending_exchanges: Seq::empty(),
        encryption_key: None,
        shared_key_from_cli: false,
        pending_approvals: Seq::empty(),
        vault_key: None,
        vault_mode: false,
        encrypted_protocol: true,
        outbound_file_ids: Seq::empty(),
        inbound_file_ids: Seq::empty(),
    }
}

/// Some transport encryption is configured.
pub open spec fn has_transport_key(s: AppStateView) -> bool {
    s.encryption_key is Some || s.peer_keys.len() > 0
}

/// The key whose fingerprint is shown: the operator's, else that of the first
/// peer.
pub open spec fn shown_key(s: AppStateView) -> Option<Seq<u8>> {
    match s.encryption_key {
        Some(k) => Some(k),
        None => if s.peer_keys.len() > 0 {
            Some(s.peer_keys[0].1)
        } else {
            None
        },
    }
}

/// The fingerprint that is shown.
pub open spec fn shown_fingerprint(s: AppStateView) -> Seq<char> {
    match shown_key(s) {
        Some(k) => fingerprint(k),
        None => "—"@,
    }
}

/// The state with a key for a peer.
pub open spec fn with_peer_key(s: AppStateView, peer: Seq<char>, key: Seq<u8>) -> AppStateView {
    AppStateView { peer_keys: put(s.peer_keys, peer, key), ..s }
}

/// The state with the stored key of a peer, if it had none and one is stored.
pub open spec fn with_stored_key(
    s: AppStateView,
    peer: Seq<char>,
    stored_key: Option<Seq<u8>>,
) -> AppStateView {
    match stored_key {
        Some(key) => if has_key(s.peer_keys, peer) {
            s
        } else {
            with_peer_key(s, peer, key)
        },
        None => s,
    }
}

/// The state after the operator's key was taken over for a peer without one.
pub open spec fn with_shared_key(s: AppStateView, peer: Seq<char>) -> AppStateView {
    match s.encryption_key {
        Some(key) => if has_key(s.peer_keys, peer) {
            s
        } else {
            with_peer_key(s, peer, key)
        },
        None => s,
    }
}

/// The name under which a peer is shown.
pub open spec fn display_name(s: AppStateView, peer: Seq<char>) -> Seq<char> {
    match lookup(s.peer_names, peer) {
        Some(name) => name,
        None => "Node-"@ + short_name(peer),
    }
}

/// A key is loaded from the store, or taken over from the operator, only for a peer that
/// has none; nothing else changes.
pub proof fn law_known_keys_stay(
    s: AppStateView,
    peer: Seq<char>,
    stored_key: Option<Seq<u8>>,
    other: Seq<char>,
)
    ensures
        ({
            let s1 = with_stored_key(s, peer, stored_key);
            &&& s1 == (AppStateView { peer_keys: s1.peer_keys, ..s })
            &&& lookup(s1.peer_keys, peer) == if lookup(s.peer_keys, peer) is Some {
                lookup(s.peer_keys, peer)
            } else {
                stored_key
            }
            &&& other != peer ==> lookup(s1.peer_keys, other) == lookup(s.peer_keys, other)
        }),
        ({
            let s1 = with_shared_key(s, peer);
            &&& s1 == (AppStateView { peer_keys: s1.peer_keys, ..s })
            &&& lookup(s1.peer_keys, peer) == if lookup(s.peer_keys, peer) is Some {
                lookup(s.peer_keys, peer)
            } else {
                s.encryption_key
            }
            &&& other != peer ==> lookup(s1.peer_keys, other) == lookup(s.peer_keys, other)
        }),
{
    if let Some(key) = stored_key {
        law_put(s.peer_keys, peer, key, other);
    }
    if let Some(key) = s.encryption_key {
        law_put(s.peer_keys, peer, key, other);
    }
}

/// The key that is set for a peer is the one that is used for it from then on, and no
/// other peer's key changes.
pub proof fn law_set_key_is_used(s: AppStateView, peer: Seq<char>, key: Seq<u8>, other: Seq<char>)
    ensures
        ({
            let s1 = with_peer_key(s, peer, key);
            &&& s1 == (AppStateView { peer_keys: s1.peer_keys, ..s })
            &&& lookup(s1.peer_keys, peer) == Some(key)
            &&& other != peer ==> lookup(s1.peer_keys, other) == lookup(s.peer_keys, other)
            &&& has_transport_key(s1)
        }),
{
    law_put(s.peer_keys, peer, key, other);
    law_put_keeps_order(s.peer_keys, peer, key);
    lemma_position(s.peer_keys, peer);
}

/// A peer is shown under the name that it told, else under the end of its id. What is
/// shown as the fingerprint is that of the operator's key, else of some peer's key; where
/// there is no key at all, the connection counts as unencrypted.
pub proof fn law_what_is_shown(s: AppStateView, peer: Seq<char>, key: Seq<u8>)
    ensures
        lookup(s.peer_names, peer) matches Some(name) ==> display_name(s, peer) == name,
        lookup(s.peer_names, peer) is None ==> display_name(s, peer) == "Node-"@ + short_name(peer),
        has_transport_key(s) <==> s.encryption_key is Some || s.peer_keys.len() > 0,
        s.encryption_key == Some(key) ==> shown_fingerprint(s) == fingerprint(key),
        s.encryption_key is None && s.peer_keys.len() > 0 ==> shown_fingerprint(s) == fingerprint(
            s.peer_keys[0].1,
        ),
        !has_transport_key(s) ==> shown_fingerprint(s) == "—"@,
{
}

/// A node that starts knows nobody, has no folder and no keys, stores files as they are,
/// and speaks the encrypted protocol.
pub proof fn law_a_node_starts_empty(node_name: Seq<char>, peer: Seq<char>)
    ensures
        ({
            let s = initial_state(node_name);
            &&& s.node_name == node_name
            &&& s.sync_path is None && s.connected_peers.len() == 0 && s.announced_to.len() == 0
            &&& s.known_addrs.len() == 0 && s.peer_names.len() == 0
            &&& s.peer_keys.len() == 0 && s.pending_exchanges.len() == 0
                && s.pending_approvals.len() == 0
            &&& s.writing_files.len() == 0 && s.deleting_files.len() == 0
                && s.recently_notified.len() == 0
            &&& s.outbound_file_ids.len() == 0 && s.inbound_file_ids.len() == 0
            &&& s.encryption_key is None && s.vault_key is None && !s.shared_key_from_cli
            &&& !s.vault_mode && s.encrypted_protocol
        }),
{
}

impl AppState {
    pub fn new(node_name: String) -> (r: Self)
        ensures
            r@ == initial_state(node_name@),
    {
        AppState {
            known_addrs: Assoc::new(),
            connected_peers: KeySet::new(),
            sync_path: None,
            node_name,
            peer_names: Assoc::new(),
            announced_to: KeySet::new(),
            writing_files: KeySet::new(),
            deleting_files: KeySet::new(),
            recently_notified: Assoc::new(),
            peer_keys: Assoc::new(),
            pending_exchanges: Assoc::new(),
            encryption_key: None,
            shared_key_from_cli: false,
            pending_approvals: Assoc::new(),
            vault_key: None,
            vault_mode: false,
            encrypted_protocol: true,
            outbound_file_ids: Assoc::new(),
            inbound_file_ids: Assoc::new(),
        }
    }

    /// Whether any transport encryption is configured.
    pub fn is_encrypted(&self) -> (r: bool)
        ensures
            r == has_transport_key(self@),
    {
        self.encryption_key.is_some() || self.peer_keys.len() > 0
    }

    /// The transport key of a peer. The operator's key is no substitute.
    pub fn key_for_peer(&self, peer: &PeerId) -> (r: Option<[u8; 32]>)
        ensures
            opt_key(r) == lookup(self@.peer_keys, peer@),
    {
        match self.peer_keys.get(peer) {
            Some(key) => Some(*key),
            None => None,
        }
    }

    /// Sets the transport key of a peer and has it stored.
    pub fn set_peer_key(&mut self, peer: &PeerId, key: [u8; 32], out: &mut Outbox)
        ensures
            final(self)@ == with_peer_key(old(self)@, peer@, key@),
            final(out)@ == old(out)@.push(kept_key(peer@, key@)),
    {
        out.push(Effect::PersistKey { peer: peer.clone(), key });
        self.peer_keys.insert(peer.clone(), key);
    }

    /// Takes over the stored key of a peer that has none.
    pub fn load_stored_key(&mut self, peer: &PeerId, stored_key: Option<[u8; 32]>)
        ensures
            final(self)@ == with_stored_key(old(self)@, peer@, opt_key(stored_key)),
    {
        if let Some(key) = stored_key {
            if !self.peer_keys.contains_key(peer) {
                self.peer_keys.insert(peer.clone(), key);
            }
        }
    }

    /// Takes over the operator's key for a peer that has none. It is not
    /// stored.
    pub fn mirror_shared_key(&mut self, peer: &PeerId)
        ensures
            final(self)@ == with_shared_key(old(self)@, peer@),
    {
        if let Some(key) = self.encryption_key {
            if !self.peer_keys.contains_key(peer) {
                self.peer_keys.insert(peer.clone(), key);
            }
        }
    }

    /// The fingerprint that is shown.
    pub fn status_fingerprint(&self) -> (r: String)
        ensures
            r@ == shown_fingerprint(self@),
    {
        match &self.encryption_key {
            Some(k) => short_fingerprint(k),
            None => if self.peer_keys.len() > 0 {
                short_fingerprint(self.peer_keys.value_at(0))
            } else {
                owned("—")
            },
        }
    }

    /// The name under which a peer is shown.
    pub fn peer_display_name(&self, peer: &PeerId) -> (r: String)
        ensures
            r@ == display_name(self@, peer@),
    {
        match self.peer_names.get(&peer.to_text()) {
            Some(name) => name.clone(),
            None => concat2("Node-", peer.short().as_str()),
        }
    }
}

/// The first of the offered names that is not blank, else a fixed one.
pub open spec fn chosen_name(env: Option<Seq<char>>, file: Option<Seq<char>>) -> Seq<char> {
    if env is Some && trim_start(trim_end(env->0)).len() > 0 {
        trim_start(trim_end(env->0))
    } else if file is Some && trim_start(trim_end(file->0)).len() > 0 {
        trim_start(trim_end(file->0))
    } else {
        "Vitruvius-Node"@
    }
}

/// The name of this device, from the environment's host name and the content of
/// the host name file, as far as there are any.
pub fn node_name_from(env: Option<String>, file: Option<String>) -> (r: String)
    ensures
        r@ == chosen_name(opt_text(env), opt_text(file)),
{
    if let Some(h) = env {
        let h = trim_text(h.as_str());
        if !h.as_str().is_empty() {
            return h;
        }
    }
    if let Some(h) = file {
        let h = trim_text(h.as_str());
        if !h.as_str().is_empty() {
            return h;
        }
    }
    owned("Vitruvius-Node")
}

/// The name of a device is the first that is not blank, without white space around it.
pub proof fn law_device_has_a_name(env: Option<Seq<char>>, file: Option<Seq<char>>)
    ensures
        ({
            let of_env = match env {
                Some(e) => trim_start(trim_end(e)),
                None => Seq::empty(),
            };
            let of_file = match file {
                Some(f) => trim_start(trim_end(f)),
                None => Seq::empty(),
            };
            chosen_name(env, file) == if of_env.len() > 0 {
                of_env
            } else if of_file.len() > 0 {
                of_file
            } else {
                "Vitruvius-Node"@
            }
        }),
{
}

} // verus!
