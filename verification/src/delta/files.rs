//! Changes in the folder, in the delta protocol.
use crate::collections::{law_put, law_without_element, lookup, put, without, without_element};
use crate::delta::chunk::{
    chunk_data, chunk_named_file, hashes_of, lemma_contents, make_version, named_metadata,
    version_of,
};
use crate::delta::effect::{all_asked, noted, DeltaEffectView, DeltaOutbox, UiEventView};
use crate::delta::engine::{engine_ok, Engine, EngineView};
use crate::delta::messages::{SyncMessage, SyncMessageView};
use crate::delta::metadata::FileVersionView;
use crate::delta::operations::{
    brings, is_listed, law_all_chunks_make_the_new_file, law_changed_chunks_make_the_new_file,
    list_name, rebuilt,
};
use crate::delta::requests::{looked_answer, FileOutcomeView};
use crate::delta::responses::{law_only_the_parent_is_built_upon, parent_of, version_came};
use crate::delta::transfer::FileTransferStateView;
use crate::paths::{joined, remainder, rest_of_path};
use crate::primitives::blake3_digest;
use crate::text::{concat2, join, owned};
use vstd::prelude::*;

verus! {

/// What stands at a path that changed.
#[allow(inconsistent_fields)]
#[derive(Debug)]
pub enum PathKind {
    Directory,
    File,
    /// Nothing that is synced, or nothing any more.
    Nothing,
}

/// What a `PathKind` says.
#[allow(inconsistent_fields)]
#[verifier::ext_equal]
pub ghost enum PathKindView {
    Directory,
    File,
    Nothing,
}

impl View for PathKind {
    type V = PathKindView;

    open spec fn view(&self) -> PathKindView {
        match *self {
            PathKind::Directory => PathKindView::Directory,
            PathKind::File => PathKindView::File,
            PathKind::Nothing => PathKindView::Nothing,
        }
    }
}

/// What is to be done on disk after a change.
#[allow(inconsistent_fields)]
#[derive(Debug)]
pub enum ChangeStep {
    /// Nothing.
    Done,
    /// Read the file that changed.
    ReadChanged { file_name: String, path: String },
}

/// What a `ChangeStep` says.
#[allow(inconsistent_fields)]
#[verifier::ext_equal]
pub ghost enum ChangeStepView {
    Done,
    ReadChanged { file_name: Seq<char>, path: Seq<char> },
}

impl View for ChangeStep {
    type V = ChangeStepView;

    open spec fn view(&self) -> ChangeStepView {
        match *self {
            ChangeStep::Done => ChangeStepView::Done,
            ChangeStep::ReadChanged { file_name, path } => ChangeStepView::ReadChanged {
                file_name: file_name@,
                path: path@,
            },
        }
    }
}

/// The name that peers know a path by: relative to the folder where it is inside.
pub open spec fn shared_name(root: Seq<char>, path: Seq<char>) -> Seq<char> {
    match remainder(root, path) {
        Some(rest) => join(rest, "/"@),
        None => path,
    }
}

/// The name that peers know a path by.
pub fn name_for_peers(root: &str, path: &str) -> (r: String)
    ensures
        r@ == shared_name(root@, path@),
{
    match rest_of_path(root, path) {
        Some(rel) => rel,
        None => owned(path),
    }
}

/// The engine after it skipped the change that a peer made.
pub open spec fn skipped(e: EngineView, rel: Seq<char>) -> EngineView {
    EngineView { recently_remote: without_element(e.recently_remote, rel), ..e }
}

fn skip_remote(e: &mut Engine, rel: &String) -> (r: bool)
    ensures
        r == old(e)@.recently_remote.contains(rel@),
        final(e)@ == (if r {
            skipped(old(e)@, rel@)
        } else {
            old(e)@
        }),
        engine_ok(old(e)@) ==> engine_ok(final(e)@),
{
    if e.recently_remote.contains(rel) {
        e.recently_remote.remove(rel);
        true
    } else {
        false
    }
}

/// What follows when something was made or changed. Nothing does before the first
/// sync is complete, nor where a peer made the change.
pub open spec fn path_changed(
    e: EngineView,
    path: Seq<char>,
    kind: PathKindView,
    out: Seq<DeltaEffectView>,
) -> (EngineView, Seq<DeltaEffectView>, ChangeStepView) {
    let rel = shared_name(e.root, path);
    if !e.sync.is_initial_sync_complete {
        (e, out, ChangeStepView::Done)
    } else if e.recently_remote.contains(rel) {
        (skipped(e, rel), out, ChangeStepView::Done)
    } else {
        match kind {
            PathKindView::Nothing => (e, out, ChangeStepView::Done),
            PathKindView::Directory => (
                e,
                all_asked(
                    e.sync.connected_peers,
                    noted(e.window, out, UiEventView::Log("Directory created: "@ + rel)),
                    SyncMessageView::DirectoryCreated { path: rel },
                ),
                ChangeStepView::Done,
            ),
            PathKindView::File => if e.currently_writing.contains(rel) || !is_listed(rel) {
                (e, out, ChangeStepView::Done)
            } else {
                let e1 = EngineView { cached: without(e.cached, rel), ..e };
                let out1 = noted(e.window, out, UiEventView::Log("File changed: "@ + rel));
                if e.window {
                    (
                        e1,
                        all_asked(
                            e.sync.connected_peers,
                            out1,
                            SyncMessageView::FileChanged { file_name: rel },
                        ),
                        ChangeStepView::Done,
                    )
                } else {
                    (e1, out1, ChangeStepView::ReadChanged { file_name: rel, path })
                }
            },
        }
    }
}

/// Something was made or changed in the folder.
pub fn on_path_changed(e: &mut Engine, path: &str, kind: PathKind, out: &mut DeltaOutbox) -> (r:
    ChangeStep)
    ensures
        (final(e)@, final(out)@, r@) == path_changed(old(e)@, path@, kind@, old(out)@),
        engine_ok(old(e)@) ==> engine_ok(final(e)@),
{
    if !e.sync.is_initial_sync_complete {
        return ChangeStep::Done;
    }
    let rel = name_for_peers(e.root.as_str(), path);
    if skip_remote(e, &rel) {
        return ChangeStep::Done;
    }
    match kind {
        PathKind::Nothing => ChangeStep::Done,
        PathKind::Directory => {
            out.log(e.window, concat2("Directory created: ", rel.as_str()));
            out.ask_all(&e.sync.connected_peers, SyncMessage::DirectoryCreated { path: rel });
            ChangeStep::Done
        },
        PathKind::File => {
            if e.currently_writing.contains(&rel) || !list_name(rel.as_str()) {
                return ChangeStep::Done;
            }
            out.log(e.window, concat2("File changed: ", rel.as_str()));
            e.cached.remove(&rel);
            if e.window {
                out.ask_all(
                    &e.sync.connected_peers,
                    SyncMessage::FileChanged { file_name: rel },
                );
                ChangeStep::Done
            } else {
                ChangeStep::ReadChanged { file_name: rel, path: owned(path) }
            }
        },
    }
}

/// The version that a changed file becomes.
pub open spec fn changed_version(
    e: EngineView,
    rel: Seq<char>,
    data: Seq<u8>,
    timestamp: u64,
) -> FileVersionView {
    version_of(
        blake3_digest(data),
        named_metadata(rel, data),
        e.author,
        lookup(e.local_versions, rel),
        timestamp,
    )
}

/// What follows once a changed file was read: its version goes on record, and
/// every peer is told of it.
pub open spec fn content_changed(
    e: EngineView,
    rel: Seq<char>,
    data: Seq<u8>,
    timestamp: u64,
    out: Seq<DeltaEffectView>,
) -> (EngineView, Seq<DeltaEffectView>) {
    let v = changed_version(e, rel, data, timestamp);
    (
        EngineView { local_versions: put(e.local_versions, rel, v), ..e },
        all_asked(
            e.sync.connected_peers,
            out,
            SyncMessageView::FileChangedWithVersion {
                file_name: rel,
                file_hash: v.file_hash,
                changed_chunk_count: v.changed_chunks.len() as usize,
                timestamp: v.timestamp,
            },
        ),
    )
}

/// A file that changed was read.
pub fn on_content_changed(
    e: &mut Engine,
    rel: String,
    data: &[u8],
    timestamp: u64,
    out: &mut DeltaOutbox,
)
    ensures
        (final(e)@, final(out)@) == content_changed(
            old(e)@,
            rel@,
            data@,
            timestamp,
            old(out)@,
        ),
        engine_ok(old(e)@) ==> engine_ok(final(e)@),
{
    let (chunks, metadata) = chunk_named_file(rel.as_str(), data);
    proof {
        lemma_contents(data@);
    }
    let parent = e.local_versions.get(&rel);
    let v = make_version(&chunks, metadata, e.author.clone(), parent, timestamp);
    out.ask_all(
        &e.sync.connected_peers,
        SyncMessage::FileChangedWithVersion {
            file_name: rel.clone(),
            file_hash: v.file_hash,
            changed_chunk_count: v.changed_chunks.len(),
            timestamp: v.timestamp,
        },
    );
    e.local_versions.insert(rel, v);
}

/// What follows when something was removed. A removed file has no version any
/// more.
pub open spec fn path_removed(
    e: EngineView,
    path: Seq<char>,
    folder: bool,
    out: Seq<DeltaEffectView>,
) -> (EngineView, Seq<DeltaEffectView>) {
    let rel = shared_name(e.root, path);
    if !e.sync.is_initial_sync_complete {
        (e, out)
    } else if e.recently_remote.contains(rel) {
        (skipped(e, rel), out)
    } else if folder {
        (
            e,
            all_asked(
                e.sync.connected_peers,
                noted(e.window, out, UiEventView::Log("Directory removed: "@ + rel)),
                SyncMessageView::DirectoryDeleted { path: rel },
            ),
        )
    } else {
        (
            EngineView {
                cached: without(e.cached, rel),
                local_versions: without(e.local_versions, rel),
                ..e
            },
            all_asked(
                e.sync.connected_peers,
                noted(e.window, out, UiEventView::Log("File removed: "@ + rel)),
                SyncMessageView::FileDeleted { file_name: rel },
            ),
        )
    }
}

/// Something was removed from the folder.
pub fn on_path_removed(e: &mut Engine, path: &str, folder: bool, out: &mut DeltaOutbox)
    ensures
        (final(e)@, final(out)@) == path_removed(old(e)@, path@, folder, old(out)@),
        engine_ok(old(e)@) ==> engine_ok(final(e)@),
{
    if !e.sync.is_initial_sync_complete {
        return;
    }
    let rel = name_for_peers(e.root.as_str(), path);
    if skip_remote(e, &rel) {
        return;
    }
    if folder {
        out.log(e.window, concat2("Directory removed: ", rel.as_str()));
        out.ask_all(&e.sync.connected_peers, SyncMessage::DirectoryDeleted { path: rel });
    } else {
        out.log(e.window, concat2("File removed: ", rel.as_str()));
        e.cached.remove(&rel);
        e.local_versions.remove(&rel);
        out.ask_all(&e.sync.connected_peers, SyncMessage::FileDeleted { file_name: rel });
    }
}

/// What a peer changed here is not sent back: the watcher's next event for it
/// makes no request, and the event after that is the user's own.
pub proof fn law_remote_changes_are_not_sent_back(
    e: EngineView,
    path: Seq<char>,
    kind: PathKindView,
    folder: bool,
    out: Seq<DeltaEffectView>,
)
    requires
        engine_ok(e),
        e.recently_remote.contains(shared_name(e.root, path)),
    ensures
        path_changed(e, path, kind, out).1 == out,
        path_removed(e, path, folder, out).1 == out,
        e.sync.is_initial_sync_complete ==> !path_changed(
            e,
            path,
            kind,
            out,
        ).0.recently_remote.contains(shared_name(e.root, path)) && !path_removed(
            e,
            path,
            folder,
            out,
        ).0.recently_remote.contains(shared_name(e.root, path)),
{
    let rel = shared_name(e.root, path);
    law_without_element(e.recently_remote, rel, rel);
}

/// Who asks for a file after it changed learns the version that the peers were told
/// of: what follows on which version, and which chunks changed since.
pub proof fn law_peers_learn_what_changed(
    e: EngineView,
    rel: Seq<char>,
    data: Seq<u8>,
    timestamp: u64,
    later: u64,
    out: Seq<DeltaEffectView>,
)
    requires
        !e.window,
    ensures
        ({
            let v = changed_version(e, rel, data, timestamp);
            let e1 = content_changed(e, rel, data, timestamp, out).0;
            looked_answer(e1, rel, FileOutcomeView::Content { data }, later) == (
            SyncMessageView::VersionedMetadata {
                file_name: rel,
                file_hash: v.file_hash,
                parent_hash: v.parent_hash,
                total_chunks: v.metadata.total_chunks,
                file_size: v.metadata.file_size,
                chunk_hashes: v.metadata.chunk_hashes,
                changed_chunks: v.changed_chunks,
                timestamp,
                author: e.author,
            })
        }),
{
    let v = changed_version(e, rel, data, timestamp);
    law_put(e.local_versions, rel, v, rel);
}

/// A change reaches a peer: from the version that it is told, and the chunks that it
/// then needs, it puts the new file together. Where it has the version before, the old
/// file on disk is built upon, and where it has another one or none, nothing on disk
/// matters. This rests on no two different chunks in one place having the same hash.
pub proof fn law_change_reaches_a_peer(
    a: EngineView,
    b: EngineView,
    rel: Seq<char>,
    old_version: FileVersionView,
    old_data: Seq<u8>,
    new_data: Seq<u8>,
    timestamp: u64,
    ts: FileTransferStateView,
    existing: Option<Seq<u8>>,
    out: Seq<DeltaEffectView>,
)
    requires
        lookup(a.local_versions, rel) == Some(old_version),
        old_version.metadata.chunk_hashes == hashes_of(old_data),
        ({
            let v = changed_version(a, rel, new_data, timestamp);
            let begun = lookup(version_came(b, v, out).0.sync.transfer_states, rel);
            &&& begun matches Some(t) && ts.required_chunks == t.required_chunks
            &&& parent_of(v, lookup(b.local_versions, rel)) is Some ==> existing == Some(old_data)
        }),
        brings(ts, rel, new_data),
        forall|i: int|
            0 <= i < chunk_data(old_data).len() && i < chunk_data(new_data).len()
                && blake3_digest(#[trigger] chunk_data(old_data)[i]) == blake3_digest(
                chunk_data(new_data)[i],
            ) ==> chunk_data(old_data)[i] == chunk_data(new_data)[i],
    ensures
        rebuilt(ts, existing) matches Ok(f) && f.data == new_data && f.path == joined(
            ts.file_path,
            rel,
        ),
{
    let v = changed_version(a, rel, new_data, timestamp);
    law_only_the_parent_is_built_upon(b, v, out);
    match lookup(version_came(b, v, out).0.sync.transfer_states, rel)->0.previous_version {
        Some(p) => {
            law_changed_chunks_make_the_new_file(ts, v, p, rel, old_data, new_data);
        },
        None => {
            law_all_chunks_make_the_new_file(ts, rel, new_data, existing);
        },
    }
}

} // verus!
