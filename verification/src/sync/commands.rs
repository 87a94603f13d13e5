//! What the user asks for.
use crate::collections::{has_key, lookup, with_element, without};
use crate::gui::types::{
    GuiCommand, GuiCommandView, GuiEvent, GuiEventView, GuiFileInfo, GuiFileInfoView,
};
use crate::listing::metadata_views;
use crate::network::{SyncMessage, SyncMessageView};
use crate::paths::{
    absolute, has_file_name, law_plain_name_names_a_file, names, rel_to_vault_abs, trimmed,
    vault_path,
};
use crate::peer::{
    has_short_id, has_short_name, lemma_short_name_of_ascii, peer_id_notation, short_id,
    short_name, PeerId,
};
use crate::primitives::{check_multiaddr, multiaddr_fault, x25519_public};
use crate::state::{
    has_transport_key, shown_fingerprint, with_peer_key, AppState, AppStateView,
};
use crate::storage::{FileMetadata, FileMetadataView};
use crate::sync::effect::{asked, kept_key, logged, told, Effect, EffectView, Outbox};
use crate::text::{
    concat2, concat3, concat4, concat5, concat7, decimal, decimal_text, opt_text, owned, texts,
};
use crate::tofu::{
    derive_shared_key, generate_keypair, group_fingerprint, key_fingerprint, shared_key,
};
use crate::transfer::names_file;
use vstd::prelude::*;
use vstd::utf8::is_ascii_chars;

verus! {

/// What a command still needs from outside.
#[allow(inconsistent_fields)]
#[derive(Debug)]
pub enum CommandStep {
    /// Nothing.
    Done,
    /// The folder is to be made, watched and listed.
    PrepareFolder { path: String },
    /// The stored key of a peer is to be removed.
    Revoke { peer: PeerId, peer_id: String },
    /// The vault key is to be loaded, if there is one.
    FindVaultKey,
    /// A vault key is to be made.
    MakeVaultKey,
    /// A container is to be decrypted.
    Export { name: String, dest: String, container: String, key: [u8; 32] },
}

/// What a `CommandStep` says.
#[allow(inconsistent_fields)]
#[verifier::ext_equal]
pub ghost enum CommandStepView {
    Done,
    PrepareFolder { path: Seq<char> },
    Revoke { peer: Seq<char>, peer_id: Seq<char> },
    FindVaultKey,
    MakeVaultKey,
    Export { name: Seq<char>, dest: Seq<char>, container: Seq<char>, key: Seq<u8> },
}

impl View for CommandStep {
    type V = CommandStepView;

    open spec fn view(&self) -> CommandStepView {
        match *self {
            CommandStep::Done => CommandStepView::Done,
            CommandStep::PrepareFolder { path } => CommandStepView::PrepareFolder {
                path: path@,
            },
            CommandStep::Revoke { peer, peer_id } => CommandStepView::Revoke {
                peer: peer@,
                peer_id: peer_id@,
            },
            CommandStep::FindVaultKey => CommandStepView::FindVaultKey,
            CommandStep::MakeVaultKey => CommandStepView::MakeVaultKey,
            CommandStep::Export { name, dest, container, key } => CommandStepView::Export {
                name: name@,
                dest: dest@,
                container: container@,
                key: key@,
            },
        }
    }
}

/// How the preparation of a folder went.
#[allow(inconsistent_fields)]
#[derive(Debug)]
pub enum FolderOutcome {
    CreateFailed { error: String },
    BadPath { error: String },
    Listed { path: String, files: Vec<FileMetadata> },
    ListFailed { path: String, error: String },
}

/// What a `FolderOutcome` says.
#[allow(inconsistent_fields)]
#[verifier::ext_equal]
pub ghost enum FolderOutcomeView {
    CreateFailed { error: Seq<char> },
    BadPath { error: Seq<char> },
    Listed { path: Seq<char>, files: Seq<FileMetadataView> },
    ListFailed { path: Seq<char>, error: Seq<char> },
}

impl View for FolderOutcome {
    type V = FolderOutcomeView;

    open spec fn view(&self) -> FolderOutcomeView {
        match *self {
            FolderOutcome::CreateFailed { error } => FolderOutcomeView::CreateFailed {
                error: error@,
            },
            FolderOutcome::BadPath { error } => FolderOutcomeView::BadPath {
                error: error@,
            },
            FolderOutcome::Listed { path, files } => FolderOutcomeView::Listed {
                path: path@,
                files: files@.map_values(|e: FileMetadata| e@),
            },
            FolderOutcome::ListFailed { path, error } => FolderOutcomeView::ListFailed {
                path: path@,
                error: error@,
            },
        }
    }
}

/// How the making of a vault key went.
#[allow(inconsistent_fields)]
#[derive(Debug)]
pub enum VaultKeyOutcome {
    GenerateFailed { error: String },
    LoadFailed { error: String },
    Made { key: [u8; 32], path: String },
}

/// What a `VaultKeyOutcome` says.
#[allow(inconsistent_fields)]
#[verifier::ext_equal]
pub ghost enum VaultKeyOutcomeView {
    GenerateFailed { error: Seq<char> },
    LoadFailed { error: Seq<char> },
    Made { key: Seq<u8>, path: Seq<char> },
}

impl View for VaultKeyOutcome {
    type V = VaultKeyOutcomeView;

    open spec fn view(&self) -> VaultKeyOutcomeView {
        match *self {
            VaultKeyOutcome::GenerateFailed { error } => VaultKeyOutcomeView::GenerateFailed {
                error: error@,
            },
            VaultKeyOutcome::LoadFailed { error } => VaultKeyOutcomeView::LoadFailed {
                error: error@,
            },
            VaultKeyOutcome::Made { key, path } => VaultKeyOutcomeView::Made {
                key: key@,
                path: path@,
            },
        }
    }
}

/// How the decryption of a container went.
#[allow(inconsistent_fields)]
#[derive(Debug)]
pub enum ExportOutcome {
    NotFound { path: String },
    Failed { error: String },
    Written { size: u64 },
}

/// What an `ExportOutcome` says.
#[allow(inconsistent_fields)]
#[verifier::ext_equal]
pub ghost enum ExportOutcomeView {
    NotFound { path: Seq<char> },
    Failed { error: Seq<char> },
    Written { size: u64 },
}

impl View for ExportOutcome {
    type V = ExportOutcomeView;

    open spec fn view(&self) -> ExportOutcomeView {
        match *self {
            ExportOutcome::NotFound { path } => ExportOutcomeView::NotFound {
                path: path@,
            },
            ExportOutcome::Failed { error } => ExportOutcomeView::Failed {
                error: error@,
            },
            ExportOutcome::Written { size } => ExportOutcomeView::Written {
                size: size,
            },
        }
    }
}

/// The security status as the user interface shows it.
pub open spec fn status_event(s: AppStateView) -> GuiEventView {
    GuiEventView::VaultStatus {
        wire_encrypted: has_transport_key(s),
        encrypted_protocol: s.encrypted_protocol,
        key_fingerprint: shown_fingerprint(s),
    }
}

/// The security status as the user interface shows it.
pub fn vault_status(state: &AppState) -> (r: GuiEvent)
    ensures
        r@ == status_event(state@),
{
    GuiEvent::VaultStatus {
        wire_encrypted: state.is_encrypted(),
        encrypted_protocol: state.encrypted_protocol,
        key_fingerprint: state.status_fingerprint(),
    }
}

/// A file as the user interface lists it.
pub open spec fn gui_file(m: FileMetadataView) -> GuiFileInfoView {
    GuiFileInfoView {
        name: m.file_name,
        size: m.file_size,
        chunks: m.total_chunks,
        is_vault: m.is_vault,
    }
}

/// A folder as the user interface lists it.
pub open spec fn gui_files(files: Seq<FileMetadataView>) -> Seq<GuiFileInfoView> {
    files.map_values(|m: FileMetadataView| gui_file(m))
}

/// A folder as the user interface lists it.
pub fn gui_listing(files: &Vec<FileMetadata>) -> (r: Vec<GuiFileInfo>)
    ensures
        r@.map_values(|e: GuiFileInfo| e@) == gui_files(metadata_views(files@)),
{
    let mut out: Vec<GuiFileInfo> = Vec::new();
    let ghost want = gui_files(metadata_views(files@));
    let mut i: usize = 0;
    while i < files.len()
        invariant
            i <= files@.len(),
            want == gui_files(metadata_views(files@)),
            out@.map_values(|e: GuiFileInfo| e@) == want.take(i as int),
        decreases files.len() - i,
    {
        let ghost before = out@.map_values(|e: GuiFileInfo| e@);
        let f = &files[i];
        out.push(
            GuiFileInfo {
                name: f.file_name.clone(),
                size: f.file_size,
                chunks: f.total_chunks,
                is_vault: f.is_vault,
            },
        );
        i = i + 1;
        assert(out@.map_values(|e: GuiFileInfo| e@) =~= before.push(want[i - 1]));
        assert(want.take(i as int) =~= before.push(want[i - 1]));
    }
    assert(want.take(i as int) =~= want);
    out
}

/// A peer is approved: the key is derived from a fresh secret, kept, and our
/// public key is sent.
pub open spec fn approved(
    peer_id: Seq<char>,
    secret: Seq<u8>,
    public: Seq<u8>,
    s: AppStateView,
    out: Seq<EffectView>,
) -> (AppStateView, Seq<EffectView>) {
    match peer_id_notation(peer_id) {
        None => (s, out),
        Some(pid) => match lookup(s.pending_approvals, pid) {
            None => (
                s,
                out.push(logged("WARN"@, "No pending approval for "@ + short_name(peer_id))),
            ),
            Some(theirs) => {
                let key = shared_key(secret, theirs);
                (
                    with_peer_key(
                        AppStateView { pending_approvals: without(s.pending_approvals, pid), ..s },
                        pid,
                        key,
                    ),
                    out.push(kept_key(pid, key)).push(
                        asked(pid, SyncMessageView::KeyExchangeAccept { public_key: public }),
                    ).push(
                        logged(
                            "OK"@,
                            "Approved "@ + short_name(peer_id)
                                + " — key established | fingerprint: "@ + group_fingerprint(key),
                        ),
                    ),
                )
            },
        },
    }
}

fn approve_peer(
    peer_id: &str,
    secret: &[u8; 32],
    public: &[u8; 32],
    state: &mut AppState,
    out: &mut Outbox,
)
    ensures
        final(state)@ == approved(peer_id@, secret@, public@, old(state)@, old(out)@).0,
        final(out)@ == approved(peer_id@, secret@, public@, old(state)@, old(out)@).1,
{
    let pid = match PeerId::parse(peer_id) {
        Some(p) => p,
        None => {
            return;
        },
    };
    proof {
        lemma_short_name_of_ascii(peer_id@);
    }
    match state.pending_approvals.remove(&pid) {
        None => {
            out.log("WARN", concat2("No pending approval for ", short_id(peer_id).as_str()));
        },
        Some(theirs) => {
            if let Ok(key) = derive_shared_key(secret, &theirs) {
                let fp = key_fingerprint(&key);
                state.set_peer_key(&pid, key, out);
                out.ask(&pid, SyncMessage::KeyExchangeAccept { public_key: *public });
                out.log(
                    "OK",
                    concat4(
                        "Approved ",
                        short_id(peer_id).as_str(),
                        " — key established | fingerprint: ",
                        fp.as_str(),
                    ),
                );
            }
        },
    }
}

/// The address to dial: the given one, else the one that was discovered.
pub open spec fn dial_addr(
    peer_id: Seq<char>,
    addr: Option<Seq<char>>,
    s: AppStateView,
) -> Option<Seq<char>> {
    match addr {
        Some(a) => Some(a),
        None => lookup(s.known_addrs, peer_id),
    }
}

/// A peer is dialed.
pub open spec fn dialed(
    peer_id: Seq<char>,
    addr: Option<Seq<char>>,
    s: AppStateView,
    out: Seq<EffectView>,
) -> Seq<EffectView> {
    match dial_addr(peer_id, addr, s) {
        None => out.push(logged("WARN"@, "No address known for "@ + short_name(peer_id))),
        Some(a) => match multiaddr_fault(a) {
            Some(e) => out.push(logged("ERROR"@, "Invalid multiaddr: "@ + e)),
            None => out.push(logged("INFO"@, "Dialing "@ + short_name(peer_id) + " …"@)).push(
                EffectView::Dial { addr: a },
            ),
        },
    }
}

fn dial_peer(peer_id: &String, addr: Option<String>, state: &AppState, out: &mut Outbox)
    requires
        has_short_name(peer_id@) || (dial_addr(peer_id@, opt_text(addr), state@) matches Some(a)
            && multiaddr_fault(a) is Some),
    ensures
        final(out)@ == dialed(peer_id@, opt_text(addr), state@, old(out)@),
{
    let target = match addr {
        Some(a) => Some(a),
        None => match state.known_addrs.get(peer_id) {
            Some(a) => Some(a.clone()),
            None => None,
        },
    };
    match target {
        None => {
            out.log(
                "WARN",
                concat2("No address known for ", short_id(peer_id.as_str()).as_str()),
            );
        },
        Some(a) => match check_multiaddr(a.as_str()) {
            Some(e) => {
                out.log("ERROR", concat2("Invalid multiaddr: ", e.as_str()));
            },
            None => {
                out.log("INFO", concat3("Dialing ", short_id(peer_id.as_str()).as_str(), " …"));
                out.push(Effect::Dial { addr: a });
            },
        },
    }
}

/// Vault mode is set, and the user told of it.
pub open spec fn mode_set(enabled: bool, s: AppStateView, out: Seq<EffectView>) -> (
    AppStateView,
    Seq<EffectView>,
) {
    (
        AppStateView { vault_mode: enabled, ..s },
        out.push(
            logged(
                "OK"@,
                if enabled {
                    "Vault mode enabled — new received files stored as encrypted .vit blobs"@
                } else {
                    "Vault mode disabled — received files stored as readable plaintext"@
                },
            ),
        ).push(told(GuiEventView::VaultModeChanged { vault_mode: enabled })),
    )
}

fn set_mode(enabled: bool, state: &mut AppState, out: &mut Outbox)
    ensures
        final(state)@ == mode_set(enabled, old(state)@, old(out)@).0,
        final(out)@ == mode_set(enabled, old(state)@, old(out)@).1,
{
    state.vault_mode = enabled;
    out.log(
        "OK",
        if enabled {
            owned("Vault mode enabled — new received files stored as encrypted .vit blobs")
        } else {
            owned("Vault mode disabled — received files stored as readable plaintext")
        },
    );
    out.tell(GuiEvent::VaultModeChanged { vault_mode: enabled });
}

/// What a command does: the new state, the effects, and what is still needed
/// from outside. The key pair is fresh.
pub open spec fn commanded(
    cmd: GuiCommandView,
    secret: Seq<u8>,
    public: Seq<u8>,
    s: AppStateView,
    out: Seq<EffectView>,
) -> (AppStateView, Seq<EffectView>, CommandStepView) {
    match cmd {
        GuiCommandView::ApprovePeer { peer_id } => {
            let (s1, out1) = approved(peer_id, secret, public, s, out);
            (s1, out1.push(told(status_event(s1))), CommandStepView::Done)
        },
        GuiCommandView::DenyPeer { peer_id } => match peer_id_notation(peer_id) {
            None => (s, out, CommandStepView::Done),
            Some(pid) => (
                AppStateView { pending_approvals: without(s.pending_approvals, pid), ..s },
                out.push(
                    logged(
                        "WARN"@,
                        "Denied sync request from "@ + short_name(peer_id) + " — disconnecting"@,
                    ),
                ).push(EffectView::Disconnect { peer: pid }),
                CommandStepView::Done,
            ),
        },
        GuiCommandView::SetFolder { path } => (s, out, CommandStepView::PrepareFolder { path }),
        GuiCommandView::DialPeer { peer_id, addr } => (
            s,
            dialed(peer_id, addr, s, out),
            CommandStepView::Done,
        ),
        GuiCommandView::RequestSync { peer_id } => match peer_id_notation(peer_id) {
            None => (s, out, CommandStepView::Done),
            Some(pid) => (
                s,
                out.push(
                    logged("INFO"@, "Requesting manifest from "@ + short_name(peer_id) + " …"@),
                ).push(asked(pid, SyncMessageView::ManifestRequest)),
                CommandStepView::Done,
            ),
        },
        GuiCommandView::Disconnect { peer_id } => match peer_id_notation(peer_id) {
            None => (s, out, CommandStepView::Done),
            Some(pid) => (
                s,
                out.push(EffectView::Disconnect { peer: pid }),
                CommandStepView::Done,
            ),
        },
        GuiCommandView::RevokeKey { peer_id } => match peer_id_notation(peer_id) {
            None => (s, out, CommandStepView::Done),
            Some(pid) => (s, out, CommandStepView::Revoke { peer: pid, peer_id }),
        },
        GuiCommandView::SetVaultMode { enabled } => if enabled && s.vault_key is None {
            (s, out, CommandStepView::FindVaultKey)
        } else {
            let (s1, out1) = mode_set(enabled, s, out);
            (s1, out1, CommandStepView::Done)
        },
        GuiCommandView::DecryptFile { name, dest } => match (s.vault_key, s.sync_path) {
            (None, _) => (
                s,
                out.push(
                    logged("ERROR"@, "DecryptFile: no vault key loaded — start with --vault"@),
                ),
                CommandStepView::Done,
            ),
            (Some(_), None) => (
                s,
                out.push(logged("ERROR"@, "DecryptFile: no sync folder set"@)),
                CommandStepView::Done,
            ),
            (Some(key), Some(folder)) => (
                s,
                out,
                CommandStepView::Export {
                    name,
                    dest,
                    container: vault_path(absolute(folder, name)),
                    key,
                },
            ),
        },
    }
}

/// What a command must satisfy: an id that can be shown, where it is shown, and a
/// name that names a file.
pub open spec fn command_ok(cmd: GuiCommandView, s: AppStateView) -> bool {
    match cmd {
        GuiCommandView::DialPeer { peer_id, addr } => has_short_name(peer_id) || (dial_addr(
            peer_id,
            addr,
            s,
        ) matches Some(a) && multiaddr_fault(a) is Some),
        GuiCommandView::DecryptFile { name, dest } => s.vault_key is Some && s.sync_path is Some
            ==> has_file_name(absolute(s.sync_path->0, name)),
        _ => true,
    }
}

/// Handles a command with a fresh key pair.
pub fn on_command_with(
    cmd: GuiCommand,
    secret: &[u8; 32],
    public: &[u8; 32],
    state: &mut AppState,
    out: &mut Outbox,
) -> (step: CommandStep)
    requires
        command_ok(cmd@, old(state)@),
    ensures
        final(state)@ == commanded(cmd@, secret@, public@, old(state)@, old(out)@).0,
        final(out)@ == commanded(cmd@, secret@, public@, old(state)@, old(out)@).1,
        step@ == commanded(cmd@, secret@, public@, old(state)@, old(out)@).2,
{
    match cmd {
        GuiCommand::ApprovePeer { peer_id } => {
            approve_peer(peer_id.as_str(), secret, public, state, out);
            out.tell(vault_status(state));
            CommandStep::Done
        },
        GuiCommand::DenyPeer { peer_id } => {
            if let Some(pid) = PeerId::parse(peer_id.as_str()) {
                proof {
                    lemma_short_name_of_ascii(peer_id@);
                }
                state.pending_approvals.remove(&pid);
                out.log(
                    "WARN",
                    concat3(
                        "Denied sync request from ",
                        short_id(peer_id.as_str()).as_str(),
                        " — disconnecting",
                    ),
                );
                out.push(Effect::Disconnect { peer: pid });
            }
            CommandStep::Done
        },
        GuiCommand::SetFolder { path } => CommandStep::PrepareFolder { path },
        GuiCommand::DialPeer { peer_id, addr } => {
            dial_peer(&peer_id, addr, state, out);
            CommandStep::Done
        },
        GuiCommand::RequestSync { peer_id } => {
            if let Some(pid) = PeerId::parse(peer_id.as_str()) {
                proof {
                    lemma_short_name_of_ascii(peer_id@);
                }
                out.log(
                    "INFO",
                    concat3(
                        "Requesting manifest from ",
                        short_id(peer_id.as_str()).as_str(),
                        " …",
                    ),
                );
                out.ask(&pid, SyncMessage::ManifestRequest);
            }
            CommandStep::Done
        },
        GuiCommand::Disconnect { peer_id } => {
            if let Some(pid) = PeerId::parse(peer_id.as_str()) {
                out.push(Effect::Disconnect { peer: pid });
            }
            CommandStep::Done
        },
        GuiCommand::RevokeKey { peer_id } => {
            match PeerId::parse(peer_id.as_str()) {
                Some(pid) => CommandStep::Revoke { peer: pid, peer_id },
                None => CommandStep::Done,
            }
        },
        GuiCommand::SetVaultMode { enabled } => {
            if enabled && state.vault_key.is_none() {
                CommandStep::FindVaultKey
            } else {
                set_mode(enabled, state, out);
                CommandStep::Done
            }
        },
        GuiCommand::DecryptFile { name, dest } => {
            let key = match state.vault_key {
                Some(k) => k,
                None => {
                    out.log(
                        "ERROR",
                        owned("DecryptFile: no vault key loaded — start with --vault"),
                    );
                    return CommandStep::Done;
                },
            };
            match &state.sync_path {
                Some(folder) => {
                    let container = rel_to_vault_abs(folder.as_str(), name.as_str());
                    CommandStep::Export { name, dest, container, key }
                },
                None => {
                    out.log("ERROR", owned("DecryptFile: no sync folder set"));
                    CommandStep::Done
                },
            }
        },
    }
}

/// Handles a command. A key that is established comes from a key pair made for
/// this command.
pub fn on_command(cmd: GuiCommand, state: &mut AppState, out: &mut Outbox) -> (step: CommandStep)
    requires
        command_ok(cmd@, old(state)@),
    ensures
        exists|secret: Seq<u8>|
            secret.len() == 32 && #[trigger] commanded(
                cmd@,
                secret,
                x25519_public(secret),
                old(state)@,
                old(out)@,
            ) == (final(state)@, final(out)@, step@),
{
    let (secret, public) = generate_keypair();
    let ghost c = cmd@;
    let step = on_command_with(cmd, &secret, &public, state, out);
    proof {
        let r = commanded(c, secret@, x25519_public(secret@), old(state)@, old(out)@);
        assert(r == (state@, out@, step@));
    }
    step
}

/// Whether a command can be handled.
pub fn fits(cmd: &GuiCommand, state: &AppState) -> (r: bool)
    ensures
        r == command_ok(cmd@, state@),
{
    match cmd {
        GuiCommand::DialPeer { peer_id, addr } => {
            if has_short_id(peer_id.as_str()) {
                return true;
            }
            match addr {
                Some(a) => check_multiaddr(a.as_str()).is_some(),
                None => match state.known_addrs.get(peer_id) {
                    Some(a) => check_multiaddr(a.as_str()).is_some(),
                    None => false,
                },
            }
        },
        GuiCommand::DecryptFile { name, .. } => match (&state.vault_key, &state.sync_path) {
            (Some(_), Some(folder)) => names_file(folder.as_str(), name.as_str()),
            _ => true,
        },
        _ => true,
    }
}

/// Handles a command if it can be handled; if not, nothing changes.
pub fn try_command(cmd: GuiCommand, state: &mut AppState, out: &mut Outbox) -> (r: Option<
    CommandStep,
>)
    ensures
        match r {
            Some(step) => command_ok(cmd@, old(state)@) && exists|secret: Seq<u8>|
                secret.len() == 32 && #[trigger] commanded(
                    cmd@,
                    secret,
                    x25519_public(secret),
                    old(state)@,
                    old(out)@,
                ) == (final(state)@, final(out)@, step@),
            None => {
                &&& !command_ok(cmd@, old(state)@)
                &&& final(state)@ == old(state)@
                &&& final(out)@ == old(out)@
            },
        },
{
    if fits(&cmd, state) {
        Some(on_command(cmd, state, out))
    } else {
        None
    }
}

/// The folder is announced to the first `n` connected peers, and their manifests
/// are asked for.
pub open spec fn announced(
    peers: Seq<Seq<char>>,
    node_name: Seq<char>,
    n: nat,
    out: Seq<EffectView>,
) -> Seq<EffectView>
    decreases n,
{
    if n == 0 {
        out
    } else {
        let peer = peers[n - 1];
        announced(peers, node_name, (n - 1) as nat, out).push(
            asked(peer, SyncMessageView::FolderAnnouncement { node_name }),
        ).push(asked(peer, SyncMessageView::ManifestRequest)).push(
            logged(
                "INFO"@,
                "Announced folder to "@ + short_name(peer) + " and requested their manifest"@,
            ),
        )
    }
}

/// The set of the first `n` elements.
pub open spec fn gathered(peers: Seq<Seq<char>>, n: nat) -> Seq<Seq<char>>
    decreases n,
{
    if n == 0 {
        Seq::empty()
    } else {
        with_element(gathered(peers, (n - 1) as nat), peers[n - 1])
    }
}

/// What is told when a folder is set.
pub open spec fn encryption_note(s: AppStateView) -> EffectView {
    if has_transport_key(s) {
        logged("OK"@, "Encryption enabled — chunks will be encrypted before sending"@)
    } else {
        logged(
            "WARN"@,
            "No key loaded — running in plaintext mode. Use --key-path to enable encryption."@,
        )
    }
}

/// The folder is taken into use: it is announced to all connected peers.
pub open spec fn folder_used(
    path: Seq<char>,
    node_name: Seq<char>,
    s: AppStateView,
    out: Seq<EffectView>,
) -> (AppStateView, Seq<EffectView>) {
    (
        AppStateView {
            sync_path: Some(path),
            announced_to: gathered(s.connected_peers, s.connected_peers.len()),
            ..s
        },
        announced(s.connected_peers, node_name, s.connected_peers.len(), out),
    )
}

/// What the preparation of a folder leads to.
pub open spec fn folder_set(
    outcome: FolderOutcomeView,
    node_name: Seq<char>,
    s: AppStateView,
    out: Seq<EffectView>,
) -> (AppStateView, Seq<EffectView>) {
    match outcome {
        FolderOutcomeView::CreateFailed { error } => (
            s,
            out.push(logged("ERROR"@, "Cannot create folder: "@ + error)),
        ),
        FolderOutcomeView::BadPath { error } => (
            s,
            out.push(logged("ERROR"@, "Bad path: "@ + error)),
        ),
        FolderOutcomeView::Listed { path, files } => folder_used(
            path,
            node_name,
            s,
            out.push(EffectView::Watch { path }).push(encryption_note(s)).push(
                told(GuiEventView::FolderListing { files: gui_files(files) }),
            ).push(
                logged(
                    "OK"@,
                    "Sync folder set: "@ + path + " ("@ + decimal(files.len()) + " file(s))"@,
                ),
            ),
        ),
        FolderOutcomeView::ListFailed { path, error } => folder_used(
            path,
            node_name,
            s,
            out.push(EffectView::Watch { path }).push(encryption_note(s)).push(
                logged("WARN"@, "Folder set but listing failed: "@ + error),
            ),
        ),
    }
}

fn start_folder(path: &String, state: &AppState, out: &mut Outbox)
    ensures
        final(out)@ == old(out)@.push(EffectView::Watch { path: path@ }).push(
            encryption_note(state@),
        ),
{
    out.push(Effect::Watch { path: path.clone() });
    if state.is_encrypted() {
        out.log("OK", owned("Encryption enabled — chunks will be encrypted before sending"));
    } else {
        out.log(
            "WARN",
            owned(
                "No key loaded — running in plaintext mode. Use --key-path to enable encryption.",
            ),
        );
    }
}

fn use_folder(path: String, node_name: &str, state: &mut AppState, out: &mut Outbox)
    ensures
        final(state)@ == folder_used(path@, node_name@, old(state)@, old(out)@).0,
        final(out)@ == folder_used(path@, node_name@, old(state)@, old(out)@).1,
{
    state.sync_path = Some(path);
    state.announced_to.clear();
    let ghost before = state@;
    let ghost start = out@;
    let n: usize = state.connected_peers.len();
    let mut i: usize = 0;
    while i < n
        invariant
            i <= n,
            n == before.connected_peers.len(),
            state@ == (AppStateView {
                announced_to: gathered(before.connected_peers, i as nat),
                ..before
            }),
            out@ == announced(before.connected_peers, node_name@, i as nat, start),
        decreases n - i,
    {
        let peer = state.connected_peers.at(i).clone();
        state.announced_to.insert(peer.clone());
        out.ask(&peer, SyncMessage::FolderAnnouncement { node_name: owned(node_name) });
        out.ask(&peer, SyncMessage::ManifestRequest);
        out.log(
            "INFO",
            concat3(
                "Announced folder to ",
                peer.short().as_str(),
                " and requested their manifest",
            ),
        );
        i = i + 1;
    }
}

/// Takes a folder that was prepared into use.
pub fn folder_prepared(
    outcome: FolderOutcome,
    node_name: &str,
    state: &mut AppState,
    out: &mut Outbox,
)
    ensures
        final(state)@ == folder_set(outcome@, node_name@, old(state)@, old(out)@).0,
        final(out)@ == folder_set(outcome@, node_name@, old(state)@, old(out)@).1,
{
    match outcome {
        FolderOutcome::CreateFailed { error } => {
            out.log("ERROR", concat2("Cannot create folder: ", error.as_str()));
        },
        FolderOutcome::BadPath { error } => {
            out.log("ERROR", concat2("Bad path: ", error.as_str()));
        },
        FolderOutcome::Listed { path, files } => {
            start_folder(&path, state, out);
            out.tell(GuiEvent::FolderListing { files: gui_listing(&files) });
            out.log(
                "OK",
                concat5(
                    "Sync folder set: ",
                    path.as_str(),
                    " (",
                    decimal_text(files.len() as u64).as_str(),
                    " file(s))",
                ),
            );
            use_folder(path, node_name, state, out);
        },
        FolderOutcome::ListFailed { path, error } => {
            start_folder(&path, state, out);
            out.log("WARN", concat2("Folder set but listing failed: ", error.as_str()));
            use_folder(path, node_name, state, out);
        },
    }
}

/// What is told of a dial that failed at once.
pub fn dial_refused(error: &str, out: &mut Outbox)
    ensures
        final(out)@ == old(out)@.push(logged("ERROR"@, "Dial error: "@ + error@)),
{
    out.log("ERROR", concat2("Dial error: ", error));
}

/// What the removal of a stored key leads to: on success, the peers that are
/// still trusted are told.
pub open spec fn revoked(
    peer: Seq<char>,
    peer_id: Seq<char>,
    outcome: Result<Seq<Seq<char>>, Seq<char>>,
    s: AppStateView,
    out: Seq<EffectView>,
) -> (AppStateView, Seq<EffectView>) {
    match outcome {
        Err(error) => (
            s,
            out.push(
                logged(
                    "ERROR"@,
                    "Failed to revoke key for "@ + short_name(peer_id) + ": "@ + error,
                ),
            ),
        ),
        Ok(trusted) => (
            AppStateView { peer_keys: without(s.peer_keys, peer), ..s },
            out.push(
                logged(
                    "WARN"@,
                    "Revoked trust for "@ + short_name(peer_id)
                        + " — re-approval required on next connection"@,
                ),
            ).push(told(GuiEventView::PeerKeyRevoked { peer_id })).push(
                told(GuiEventView::TrustedPeers { peer_ids: trusted }),
            ),
        ),
    }
}

/// The views of a result of strings.
pub open spec fn trusted_or_error(r: Result<Vec<String>, String>) -> Result<
    Seq<Seq<char>>,
    Seq<char>,
> {
    match r {
        Ok(v) => Ok(texts(v@)),
        Err(e) => Err(e@),
    }
}

/// Drops the key of a peer once its stored key was removed.
pub fn key_revoked(
    peer: &PeerId,
    peer_id: String,
    outcome: Result<Vec<String>, String>,
    state: &mut AppState,
    out: &mut Outbox,
)
    requires
        has_short_name(peer_id@),
    ensures
        final(state)@ == revoked(
            peer@,
            peer_id@,
            trusted_or_error(outcome),
            old(state)@,
            old(out)@,
        ).0,
        final(out)@ == revoked(
            peer@,
            peer_id@,
            trusted_or_error(outcome),
            old(state)@,
            old(out)@,
        ).1,
        outcome is Ok ==> !has_key(final(state)@.peer_keys, peer@),
{
    match outcome {
        Err(error) => {
            out.log(
                "ERROR",
                concat4(
                    "Failed to revoke key for ",
                    short_id(peer_id.as_str()).as_str(),
                    ": ",
                    error.as_str(),
                ),
            );
        },
        Ok(trusted) => {
            state.peer_keys.remove(peer);
            out.log(
                "WARN",
                concat3(
                    "Revoked trust for ",
                    short_id(peer_id.as_str()).as_str(),
                    " — re-approval required on next connection",
                ),
            );
            out.tell(GuiEvent::PeerKeyRevoked { peer_id });
            out.tell(GuiEvent::TrustedPeers { peer_ids: trusted });
        },
    }
}

/// The view of a key that was looked for.
pub open spec fn looked_up(found: Option<Result<[u8; 32], String>>) -> Option<
    Result<Seq<u8>, Seq<char>>,
> {
    match found {
        Some(Ok(key)) => Some(Ok(key@)),
        Some(Err(e)) => Some(Err(e@)),
        None => None,
    }
}

/// What the search for a vault key leads to: one that is there is used, and only
/// where there is none is one made.
pub open spec fn vault_key_found(
    found: Option<Result<Seq<u8>, Seq<char>>>,
    s: AppStateView,
    out: Seq<EffectView>,
) -> (AppStateView, Seq<EffectView>, CommandStepView) {
    match found {
        Some(Ok(key)) => {
            let (s1, out1) = mode_set(true, AppStateView { vault_key: Some(key), ..s }, out);
            (s1, out1, CommandStepView::Done)
        },
        Some(Err(e)) => (
            s,
            out.push(logged("ERROR"@, "Failed to load vault key: "@ + e)),
            CommandStepView::Done,
        ),
        None => (s, out, CommandStepView::MakeVaultKey),
    }
}

/// Turns vault mode on with the vault key that is there, or has one made where there
/// is none.
pub fn vault_key_looked_up(
    found: Option<Result<[u8; 32], String>>,
    state: &mut AppState,
    out: &mut Outbox,
) -> (step: CommandStep)
    ensures
        vault_key_found(looked_up(found), old(state)@, old(out)@) == (
            final(state)@,
            final(out)@,
            step@,
        ),
        found matches Some(Ok(key)) ==> {
            &&& final(state)@.vault_key == Some(key@)
            &&& final(state)@.vault_mode
            &&& step@ is Done
        },
        found matches Some(Err(_)) ==> final(state)@ == old(state)@ && step@ is Done,
        step@ is MakeVaultKey <==> found is None,
{
    match found {
        Some(Ok(key)) => {
            state.vault_key = Some(key);
            set_mode(true, state, out);
            CommandStep::Done
        },
        Some(Err(e)) => {
            out.log("ERROR", concat2("Failed to load vault key: ", e.as_str()));
            CommandStep::Done
        },
        None => CommandStep::MakeVaultKey,
    }
}

/// What the making of a vault key leads to.
pub open spec fn vault_keyed(
    outcome: VaultKeyOutcomeView,
    s: AppStateView,
    out: Seq<EffectView>,
) -> (AppStateView, Seq<EffectView>) {
    match outcome {
        VaultKeyOutcomeView::GenerateFailed { error } => (
            s,
            out.push(logged("ERROR"@, "Failed to generate vault key: "@ + error)),
        ),
        VaultKeyOutcomeView::LoadFailed { error } => (
            s,
            out.push(logged("ERROR"@, "Failed to load vault key: "@ + error)),
        ),
        VaultKeyOutcomeView::Made { key, path } => mode_set(
            true,
            AppStateView { vault_key: Some(key), ..s },
            out.push(logged("OK"@, "Vault key auto-generated at "@ + path)),
        ),
    }
}

/// Turns vault mode on once a key was made for it.
pub fn vault_key_made(outcome: VaultKeyOutcome, state: &mut AppState, out: &mut Outbox)
    ensures
        final(state)@ == vault_keyed(outcome@, old(state)@, old(out)@).0,
        final(out)@ == vault_keyed(outcome@, old(state)@, old(out)@).1,
{
    match outcome {
        VaultKeyOutcome::GenerateFailed { error } => {
            out.log("ERROR", concat2("Failed to generate vault key: ", error.as_str()));
        },
        VaultKeyOutcome::LoadFailed { error } => {
            out.log("ERROR", concat2("Failed to load vault key: ", error.as_str()));
        },
        VaultKeyOutcome::Made { key, path } => {
            state.vault_key = Some(key);
            out.log("OK", concat2("Vault key auto-generated at ", path.as_str()));
            set_mode(true, state, out);
        },
    }
}

/// What is told of the decryption of a container.
pub open spec fn export_told(
    name: Seq<char>,
    dest: Seq<char>,
    outcome: ExportOutcomeView,
    out: Seq<EffectView>,
) -> Seq<EffectView> {
    match outcome {
        ExportOutcomeView::NotFound { path } => out.push(
            logged("ERROR"@, "DecryptFile: "@ + path + " not found"@),
        ),
        ExportOutcomeView::Failed { error } => out.push(
            logged("ERROR"@, "DecryptFile failed for "@ + name + ": "@ + error),
        ),
        ExportOutcomeView::Written { size } => out.push(
            logged(
                "OK"@,
                "Decrypted "@ + name + " → "@ + dest + " ("@ + decimal(size as nat) + " bytes)"@,
            ),
        ).push(told(GuiEventView::DecryptComplete { name, dest, size })),
    }
}

/// Tells of the decryption of a container.
pub fn export_finished(name: String, dest: String, outcome: ExportOutcome, out: &mut Outbox)
    ensures
        final(out)@ == export_told(name@, dest@, outcome@, old(out)@),
{
    match outcome {
        ExportOutcome::NotFound { path } => {
            out.log("ERROR", concat3("DecryptFile: ", path.as_str(), " not found"));
        },
        ExportOutcome::Failed { error } => {
            out.log(
                "ERROR",
                concat4("DecryptFile failed for ", name.as_str(), ": ", error.as_str()),
            );
        },
        ExportOutcome::Written { size } => {
            out.log(
                "OK",
                concat7(
                    "Decrypted ",
                    name.as_str(),
                    " → ",
                    dest.as_str(),
                    " (",
                    decimal_text(size).as_str(),
                    " bytes)",
                ),
            );
            out.tell(GuiEvent::DecryptComplete { name, dest, size });
        },
    }
}

/// Every command can be carried out, except that a peer that is dialed needs an id that
/// can be shown, as every id of ASCII characters can, and that a name under which nothing
/// can be stored cannot be decrypted.
pub proof fn law_commands_can_be_carried_out(cmd: GuiCommandView, s: AppStateView)
    ensures
        !(cmd is DialPeer) && !(cmd is DecryptFile) ==> command_ok(cmd, s),
        cmd matches GuiCommandView::DialPeer { peer_id, addr } ==> (is_ascii_chars(peer_id)
            ==> command_ok(cmd, s)),
        cmd is DecryptFile && (s.vault_key is None || s.sync_path is None) ==> command_ok(cmd, s),
        cmd matches GuiCommandView::DecryptFile { name, dest } ==> (s.sync_path matches Some(root)
            ==> root.len() > 0 && trimmed(root) == root && root.last() != '/' && names(name)
            ==> command_ok(cmd, s)),
{
    if let GuiCommandView::DialPeer { peer_id, addr } = cmd {
        if is_ascii_chars(peer_id) {
            lemma_short_name_of_ascii(peer_id);
        }
    }
    if let GuiCommandView::DecryptFile { name, dest } = cmd {
        if let Some(root) = s.sync_path {
            if root.len() > 0 && trimmed(root) == root && root.last() != '/' && names(name) {
                law_plain_name_names_a_file(root, name);
            }
        }
    }
}

/// What is looked up or listed outside comes in as it was found.
pub proof fn law_what_comes_in(
    key: [u8; 32],
    error: String,
    trusted: Vec<String>,
)
    ensures
        looked_up(Some(Ok(key))) == Some(Ok::<Seq<u8>, Seq<char>>(key@)),
        looked_up(Some(Err(error))) == Some(Err::<Seq<u8>, Seq<char>>(error@)),
        looked_up(None) is None,
        trusted_or_error(Ok(trusted)) == Ok::<Seq<Seq<char>>, Seq<char>>(texts(trusted@)),
        trusted_or_error(Err(error)) == Err::<Seq<Seq<char>>, Seq<char>>(error@),
{
}

/// The user is told that chunks are encrypted exactly if there is a key: one that was set,
/// or one of a peer.
pub proof fn law_encryption_is_told_truly(s: AppStateView)
    ensures
        encryption_note(s) matches EffectView::Event { event } && (event matches
            GuiEventView::Log { level, message } && (level == "OK"@ <==> s.encryption_key is Some
            || s.peer_keys.len() > 0)),
{
    reveal_strlit("OK");
    reveal_strlit("WARN");
    assert("OK"@.len() != "WARN"@.len());
}

} // verus!
