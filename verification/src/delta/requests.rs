//! Requests of peers, in the delta protocol.
use crate::collections::{
    has_key, lookup, put, with_element, without, Assoc, Key,
};
use crate::delta::chunk::{
    chunk_named_file, lemma_contents, make_version, named_metadata, version_of,
};
use crate::delta::effect::{
    answered, asked, noted, DeltaEffectView, DeltaOutbox, UiEventView,
};
use crate::delta::engine::{
    cached_of, engine_ok, make_cached, CachedFile, CachedFileView, Engine, EngineView,
};
use crate::delta::messages::{SyncMessage, SyncMessageView};
use crate::delta::metadata::{FileVersion, FileVersionView};
use crate::delta::operations::{is_listed, is_safe_name, list_name, safe_name};
use crate::paths::{join_path, joined};
use crate::peer::PeerId;
use crate::primitives::blake3_digest;
use crate::text::{concat2, concat3, decimal, decimal_text, owned, texts};
use vstd::prelude::*;
use vstd::slice::slice_to_vec;

verus! {

/// What is to be done on disk before a request can be answered.
#[allow(inconsistent_fields)]
#[derive(Debug)]
pub enum RequestStep {
    /// Nothing: the request was answered.
    Done,
    /// List all files of the folder.
    ListFiles,
    /// Look at a file and read it.
    ReadMetadata { file_name: String, path: String },
    /// Read a file for later requests, if it can be read.
    ReadForCache { file_name: String, path: String },
    /// Read a file of which a chunk is wanted.
    ReadChunk { file_name: String, chunk_index: usize, path: String },
    /// Make a folder, with those above it.
    MakeDirectory { path: String, target: String },
    /// Remove a folder, if it is there, with all that is in it.
    RemoveDirectory { path: String, target: String },
    /// Remove a file, if it is there.
    RemoveFile { file_name: String, target: String },
}

/// What a `RequestStep` says.
#[allow(inconsistent_fields)]
#[verifier::ext_equal]
pub ghost enum RequestStepView {
    Done,
    ListFiles,
    ReadMetadata { file_name: Seq<char>, path: Seq<char> },
    ReadForCache { file_name: Seq<char>, path: Seq<char> },
    ReadChunk { file_name: Seq<char>, chunk_index: usize, path: Seq<char> },
    MakeDirectory { path: Seq<char>, target: Seq<char> },
    RemoveDirectory { path: Seq<char>, target: Seq<char> },
    RemoveFile { file_name: Seq<char>, target: Seq<char> },
}

impl View for RequestStep {
    type V = RequestStepView;

    open spec fn view(&self) -> RequestStepView {
        match *self {
            RequestStep::Done => RequestStepView::Done,
            RequestStep::ListFiles => RequestStepView::ListFiles,
            RequestStep::ReadMetadata { file_name, path } => RequestStepView::ReadMetadata {
                file_name: file_name@,
                path: path@,
            },
            RequestStep::ReadForCache { file_name, path } => RequestStepView::ReadForCache {
                file_name: file_name@,
                path: path@,
            },
            RequestStep::ReadChunk { file_name, chunk_index, path } => RequestStepView::ReadChunk {
                file_name: file_name@,
                chunk_index: chunk_index,
                path: path@,
            },
            RequestStep::MakeDirectory { path, target } => RequestStepView::MakeDirectory {
                path: path@,
                target: target@,
            },
            RequestStep::RemoveDirectory { path, target } => RequestStepView::RemoveDirectory {
                path: path@,
                target: target@,
            },
            RequestStep::RemoveFile { file_name, target } => RequestStepView::RemoveFile {
                file_name: file_name@,
                target: target@,
            },
        }
    }
}

/// What came of looking at a file.
#[allow(inconsistent_fields)]
#[derive(Debug)]
pub enum FileOutcome {
    /// There is no such file.
    NotFound,
    /// The file is outside the folder.
    Outside,
    /// It could not be read.
    Failed { error: String },
    /// Its content.
    Content { data: Vec<u8> },
}

/// What a `FileOutcome` says.
#[allow(inconsistent_fields)]
#[verifier::ext_equal]
pub ghost enum FileOutcomeView {
    NotFound,
    Outside,
    Failed { error: Seq<char> },
    Content { data: Seq<u8> },
}

impl View for FileOutcome {
    type V = FileOutcomeView;

    open spec fn view(&self) -> FileOutcomeView {
        match *self {
            FileOutcome::NotFound => FileOutcomeView::NotFound,
            FileOutcome::Outside => FileOutcomeView::Outside,
            FileOutcome::Failed { error } => FileOutcomeView::Failed {
                error: error@,
            },
            FileOutcome::Content { data } => FileOutcomeView::Content {
                data: data@,
            },
        }
    }
}

/// What came of a change on disk.
#[allow(inconsistent_fields)]
#[derive(Debug)]
pub enum DiskOutcome {
    /// It was made.
    Changed,
    /// It was not made.
    Unchanged,
    /// It would have been outside the folder.
    Outside,
}

/// What a `DiskOutcome` says.
#[allow(inconsistent_fields)]
#[verifier::ext_equal]
pub ghost enum DiskOutcomeView {
    Changed,
    Unchanged,
    Outside,
}

impl View for DiskOutcome {
    type V = DiskOutcomeView;

    open spec fn view(&self) -> DiskOutcomeView {
        match *self {
            DiskOutcome::Changed => DiskOutcomeView::Changed,
            DiskOutcome::Unchanged => DiskOutcomeView::Unchanged,
            DiskOutcome::Outside => DiskOutcomeView::Outside,
        }
    }
}

/// The first `n` names that are listed to peers.
pub open spec fn listed_names(names: Seq<Seq<char>>, n: nat) -> Seq<Seq<char>>
    decreases n,
{
    if n == 0 {
        Seq::empty()
    } else {
        let before = listed_names(names, (n - 1) as nat);
        if is_listed(names[n - 1]) {
            before.push(names[n - 1])
        } else {
            before
        }
    }
}

/// The files that are listed to peers, of all files in the folder.
pub fn get_file_list(names: &Vec<String>) -> (r: Vec<String>)
    ensures
        texts(r@) == listed_names(texts(names@), names@.len()),
{
    let mut out: Vec<String> = Vec::new();
    let mut i: usize = 0;
    assert(texts(out@) =~= Seq::empty());
    while i < names.len()
        invariant
            i <= names@.len(),
            texts(out@) == listed_names(texts(names@), i as nat),
        decreases names.len() - i,
    {
        let ghost before = texts(out@);
        if list_name(names[i].as_str()) {
            out.push(names[i].clone());
            assert(texts(out@) =~= before.push(names@[i as int]@));
        }
        i = i + 1;
    }
    out
}

/// The answer to a request for metadata, without versions.
pub open spec fn metadata_answer(
    file_name: Seq<char>,
    outcome: FileOutcomeView,
) -> SyncMessageView {
    match outcome {
        FileOutcomeView::NotFound => SyncMessageView::Error {
            message: "File '"@ + file_name + "' not found"@,
        },
        FileOutcomeView::Outside => invalid_path(),
        FileOutcomeView::Failed { error } => SyncMessageView::Error {
            message: "Failed to get metadata: "@ + error,
        },
        FileOutcomeView::Content { data } => {
            let m = named_metadata(file_name, data);
            SyncMessageView::Metadata {
                file_name,
                total_chunks: m.total_chunks,
                file_size: m.file_size,
                chunk_hashes: m.chunk_hashes,
            }
        },
    }
}

/// The answer where a path is not inside the folder.
pub open spec fn invalid_path() -> SyncMessageView {
    SyncMessageView::Error { message: "Invalid file path"@ }
}

fn path_refused() -> (r: SyncMessage)
    ensures
        r@ == invalid_path(),
{
    SyncMessage::Error { message: owned("Invalid file path") }
}

/// The answer where the file was not read.
fn no_metadata(file_name: &str, outcome: &FileOutcome) -> (r: Option<SyncMessage>)
    ensures
        r is None <==> outcome@ is Content,
        r matches Some(m) ==> m@ == metadata_answer(file_name@, outcome@),
{
    match outcome {
        FileOutcome::NotFound => Some(
            SyncMessage::Error { message: concat3("File '", file_name, "' not found") },
        ),
        FileOutcome::Outside => Some(path_refused()),
        FileOutcome::Failed { error } => Some(
            SyncMessage::Error { message: concat2("Failed to get metadata: ", error.as_str()) },
        ),
        FileOutcome::Content { .. } => None,
    }
}

/// Answers a request for metadata, without versions. The answer has the name that was
/// asked for, so that files in folders are found again.
pub fn get_file_metadata(file_name: &str, outcome: &FileOutcome) -> (r: SyncMessage)
    ensures
        r@ == metadata_answer(file_name@, outcome@),
{
    if let Some(answer) = no_metadata(file_name, outcome) {
        return answer;
    }
    match outcome {
        FileOutcome::Content { data } => {
            let (_, m) = chunk_named_file(file_name, data.as_slice());
            SyncMessage::Metadata {
                file_name: m.file_name,
                total_chunks: m.total_chunks,
                file_size: m.file_size,
                chunk_hashes: m.chunk_hashes,
            }
        },
        _ => SyncMessage::Empty,
    }
}

/// The version of a file that peers are told: the one that is on record if the
/// content is still the same, else a new one that follows it.
pub open spec fn told_version(
    recorded: Option<FileVersionView>,
    file_name: Seq<char>,
    data: Seq<u8>,
    author: Seq<char>,
    timestamp: u64,
) -> FileVersionView {
    match recorded {
        Some(v) => if v.file_hash == blake3_digest(data) {
            v
        } else {
            version_of(
                blake3_digest(data),
                named_metadata(file_name, data),
                author,
                recorded,
                timestamp,
            )
        },
        None => version_of(
            blake3_digest(data),
            named_metadata(file_name, data),
            author,
            recorded,
            timestamp,
        ),
    }
}

/// The answer to a request for metadata, with the version.
pub open spec fn versioned_answer(
    file_name: Seq<char>,
    outcome: FileOutcomeView,
    author: Seq<char>,
    versions: Seq<(Seq<char>, FileVersionView)>,
    timestamp: u64,
) -> SyncMessageView {
    match outcome {
        FileOutcomeView::Content { data } => {
            let m = named_metadata(file_name, data);
            let v = told_version(lookup(versions, file_name), file_name, data, author, timestamp);
            SyncMessageView::VersionedMetadata {
                file_name,
                file_hash: v.file_hash,
                parent_hash: v.parent_hash,
                total_chunks: m.total_chunks,
                file_size: m.file_size,
                chunk_hashes: m.chunk_hashes,
                changed_chunks: v.changed_chunks,
                timestamp: v.timestamp,
                author: v.author,
            }
        },
        _ => metadata_answer(file_name, outcome),
    }
}

/// Answers a request for metadata, with the version.
pub fn get_versioned_metadata(
    file_name: &str,
    outcome: &FileOutcome,
    author: &str,
    versions: &Assoc<String, FileVersion>,
    timestamp: u64,
) -> (r: SyncMessage)
    ensures
        r@ == versioned_answer(
            file_name@,
            outcome@,
            author@,
            versions@,
            timestamp,
        ),
{
    if let Some(answer) = no_metadata(file_name, outcome) {
        return answer;
    }
    match outcome {
        FileOutcome::Content { data } => {
            let (chunks, m) = chunk_named_file(file_name, data.as_slice());
            let key = owned(file_name);
            let recorded = versions.get(&key);
            let fresh = make_version(&chunks, m.clone(), owned(author), recorded, timestamp);
            proof {
                lemma_contents(data@);
            }
            let v = match recorded {
                Some(r) => if r.file_hash.same(&fresh.file_hash) {
                    r.clone()
                } else {
                    fresh
                },
                None => fresh,
            };
            SyncMessage::VersionedMetadata {
                file_name: m.file_name,
                file_hash: v.file_hash,
                parent_hash: v.parent_hash,
                total_chunks: m.total_chunks,
                file_size: m.file_size,
                chunk_hashes: m.chunk_hashes,
                changed_chunks: v.changed_chunks,
                timestamp: v.timestamp,
                author: v.author,
            }
        },
        _ => SyncMessage::Empty,
    }
}

/// The answer to a request for a chunk of a file that is kept.
pub open spec fn chunk_answer(
    file: CachedFileView,
    file_name: Seq<char>,
    index: usize,
) -> SyncMessageView {
    if index < file.chunks.len() {
        SyncMessageView::ChunkResponse {
            chunk_index: file.chunks[index as int].index,
            data: file.chunks[index as int].data,
            hash: file.chunks[index as int].hash,
            file_name,
        }
    } else {
        SyncMessageView::Error { message: "Chunk "@ + decimal(index as nat) + " out of range"@ }
    }
}

/// Answers a request for a chunk of a file that is kept.
pub fn answer_chunk(file: &CachedFile, file_name: &str, index: usize) -> (r: SyncMessage)
    ensures
        r@ == chunk_answer(file@, file_name@, index),
{
    if index < file.chunks.len() {
        let c = &file.chunks[index];
        assert(file@.chunks[index as int] == c@);
        SyncMessage::ChunkResponse {
            chunk_index: c.index,
            data: slice_to_vec(c.data.as_slice()),
            hash: c.hash,
            file_name: owned(file_name),
        }
    } else {
        SyncMessage::Error {
            message: concat3("Chunk ", decimal_text(index as u64).as_str(), " out of range"),
        }
    }
}

/// Whether a file has yet to be read for later requests.
pub open spec fn cache_step(e: EngineView, file_name: Seq<char>) -> RequestStepView {
    if has_key(e.cached, file_name) {
        RequestStepView::Done
    } else {
        RequestStepView::ReadForCache { file_name, path: joined(e.root, file_name) }
    }
}

fn next_cache_step(e: &Engine, file_name: String) -> (r: RequestStep)
    ensures
        r@ == cache_step(e@, file_name@),
{
    if e.cached.contains_key(&file_name) {
        RequestStep::Done
    } else {
        let path = join_path(e.root.as_str(), file_name.as_str());
        RequestStep::ReadForCache { file_name, path }
    }
}

/// The engine after a peer told that it changed a file: its metadata are asked
/// for.
pub open spec fn change_noticed(
    e: EngineView,
    peer: Seq<char>,
    file_name: Seq<char>,
    out: Seq<DeltaEffectView>,
) -> (EngineView, Seq<DeltaEffectView>) {
    (
        EngineView {
            cached: without(e.cached, file_name),
            recently_remote: with_element(e.recently_remote, file_name),
            ..e
        },
        out.push(asked(peer, SyncMessageView::MetaDataRequest { file_name })).push(
            answered(SyncMessageView::TransferComplete),
        ),
    )
}

fn notice_change(e: &mut Engine, peer: &PeerId, file_name: String, out: &mut DeltaOutbox)
    ensures
        (final(e)@, final(out)@) == change_noticed(old(e)@, peer@, file_name@, old(out)@),
        engine_ok(old(e)@) ==> engine_ok(final(e)@),
{
    e.cached.remove(&file_name);
    e.recently_remote.insert(file_name.clone());
    out.ask(peer, SyncMessage::MetaDataRequest { file_name });
    out.answer(SyncMessage::TransferComplete);
}

/// A version that a peer tells of is of no use: it is here already, or the
/// version that is here is later.
pub open spec fn version_unwanted(
    e: EngineView,
    file_name: Seq<char>,
    file_hash: Seq<u8>,
    timestamp: u64,
) -> bool {
    ||| lookup(e.remote_versions, file_name) matches Some(v) && v.file_hash == file_hash
    ||| lookup(e.local_versions, file_name) matches Some(v) && v.timestamp > timestamp
}

/// Of two peers that changed one file at different times, each tells the other:
/// the one with the later version keeps its own, and the other one, unless it
/// has that version already, takes it.
pub proof fn law_later_version_wins(
    a: EngineView,
    b: EngineView,
    file_name: Seq<char>,
    va: FileVersionView,
    vb: FileVersionView,
)
    requires
        lookup(a.local_versions, file_name) == Some(va),
        lookup(b.local_versions, file_name) == Some(vb),
        va.timestamp < vb.timestamp,
    ensures
        version_unwanted(b, file_name, va.file_hash, va.timestamp),
        version_unwanted(a, file_name, vb.file_hash, vb.timestamp) <==> (lookup(
            a.remote_versions,
            file_name,
        ) matches Some(v) && v.file_hash == vb.file_hash),
{
}

fn unwanted(e: &Engine, file_name: &String, file_hash: &[u8; 32], timestamp: u64) -> (r: bool)
    ensures
        r == version_unwanted(e@, file_name@, file_hash@, timestamp),
{
    if let Some(v) = e.remote_versions.get(file_name) {
        if v.file_hash.same(file_hash) {
            return true;
        }
    }
    match e.local_versions.get(file_name) {
        Some(v) => v.timestamp > timestamp,
        None => false,
    }
}

/// The answer to a request that no peer should make.
pub open spec fn unexpected() -> DeltaEffectView {
    answered(SyncMessageView::Error { message: "Unexpected request type"@ })
}

/// The path that a request speaks of.
pub open spec fn named_path(request: SyncMessageView) -> Option<Seq<char>> {
    match request {
        SyncMessageView::MetaDataRequest { file_name } => Some(file_name),
        SyncMessageView::ChunkRequest { file_name, chunk_index } => Some(file_name),
        SyncMessageView::FileChangedWithVersion {
            file_name,
            file_hash,
            changed_chunk_count,
            timestamp,
        } => Some(file_name),
        SyncMessageView::FileChanged { file_name } => Some(file_name),
        SyncMessageView::DirectoryCreated { path } => Some(path),
        SyncMessageView::DirectoryDeleted { path } => Some(path),
        SyncMessageView::FileDeleted { file_name } => Some(file_name),
        _ => None,
    }
}

/// A request speaks of a path that does not lead into the folder.
pub open spec fn leads_astray(root: Seq<char>, request: SyncMessageView) -> bool {
    named_path(request) matches Some(path) && !is_safe_name(root, path)
}

fn goes_astray(root: &str, request: &SyncMessage) -> (r: bool)
    ensures
        r == leads_astray(root@, request@),
{
    match request {
        SyncMessage::MetaDataRequest { file_name } => !safe_name(root, file_name.as_str()),
        SyncMessage::ChunkRequest { file_name, .. } => !safe_name(root, file_name.as_str()),
        SyncMessage::FileChangedWithVersion { file_name, .. } => !safe_name(
            root,
            file_name.as_str(),
        ),
        SyncMessage::FileChanged { file_name } => !safe_name(root, file_name.as_str()),
        SyncMessage::DirectoryCreated { path } => !safe_name(root, path.as_str()),
        SyncMessage::DirectoryDeleted { path } => !safe_name(root, path.as_str()),
        SyncMessage::FileDeleted { file_name } => !safe_name(root, file_name.as_str()),
        _ => false,
    }
}

/// What follows on a request. One that does not lead into the folder is refused.
pub open spec fn requested(
    e: EngineView,
    peer: Seq<char>,
    request: SyncMessageView,
    out: Seq<DeltaEffectView>,
) -> (EngineView, Seq<DeltaEffectView>, RequestStepView) {
    if leads_astray(e.root, request) {
        (e, out.push(answered(invalid_path())), RequestStepView::Done)
    } else {
        handled(e, peer, request, out)
    }
}

/// Where on disk a step acts.
pub open spec fn acts_at(step: RequestStepView) -> Option<Seq<char>> {
    match step {
        RequestStepView::ReadMetadata { file_name, path } => Some(path),
        RequestStepView::ReadChunk { file_name, chunk_index, path } => Some(path),
        RequestStepView::MakeDirectory { path, target } => Some(target),
        RequestStepView::RemoveDirectory { path, target } => Some(target),
        RequestStepView::RemoveFile { file_name, target } => Some(target),
        _ => None,
    }
}

/// No request has anything read, made or removed but under a name that leads into the
/// folder; where the name does not, nothing changes and an error is answered.
pub proof fn law_requests_stay_in_the_folder(
    e: EngineView,
    peer: Seq<char>,
    request: SyncMessageView,
    out: Seq<DeltaEffectView>,
)
    ensures
        ({
            let (e1, out1, step) = requested(e, peer, request, out);
            &&& acts_at(step) matches Some(path) ==> exists|name: Seq<char>| #[trigger]
                is_safe_name(e.root, name) && path == joined(e.root, name)
            &&& leads_astray(e.root, request) ==> e1 == e && out1 == out.push(
                answered(invalid_path()),
            ) && step is Done
        }),
{
    if let Some(name) = named_path(request) {
        if is_safe_name(e.root, name) {
            assert(is_safe_name(e.root, name));
        }
    }
}

/// What follows on a request that leads into the folder.
pub open spec fn handled(
    e: EngineView,
    peer: Seq<char>,
    request: SyncMessageView,
    out: Seq<DeltaEffectView>,
) -> (EngineView, Seq<DeltaEffectView>, RequestStepView) {
    match request {
        SyncMessageView::ListFiles => (
            e,
            noted(e.window, out, UiEventView::Log("Peer requested file list"@)),
            RequestStepView::ListFiles,
        ),
        SyncMessageView::MetaDataRequest { file_name } => match lookup(e.cached, file_name) {
            Some(file) => if e.window {
                (
                    e,
                    out.push(
                        answered(
                            SyncMessageView::Metadata {
                                file_name: file.metadata.file_name,
                                total_chunks: file.metadata.total_chunks,
                                file_size: file.metadata.file_size,
                                chunk_hashes: file.metadata.chunk_hashes,
                            },
                        ),
                    ),
                    cache_step(e, file.metadata.file_name),
                )
            } else {
                (
                    e,
                    out,
                    RequestStepView::ReadMetadata { file_name, path: joined(e.root, file_name) },
                )
            },
            None => (
                e,
                out,
                RequestStepView::ReadMetadata { file_name, path: joined(e.root, file_name) },
            ),
        },
        SyncMessageView::ChunkRequest { file_name, chunk_index } => match lookup(
            e.cached,
            file_name,
        ) {
            Some(file) => (
                e,
                out.push(answered(chunk_answer(file, file_name, chunk_index))),
                RequestStepView::Done,
            ),
            None => (
                e,
                out,
                RequestStepView::ReadChunk {
                    file_name,
                    chunk_index,
                    path: joined(e.root, file_name),
                },
            ),
        },
        SyncMessageView::FileChangedWithVersion {
            file_name,
            file_hash,
            changed_chunk_count,
            timestamp,
        } => if e.window {
            (e, out.push(unexpected()), RequestStepView::Done)
        } else if version_unwanted(e, file_name, file_hash, timestamp) {
            (e, out.push(answered(SyncMessageView::TransferComplete)), RequestStepView::Done)
        } else {
            let (e1, out1) = change_noticed(e, peer, file_name, out);
            (e1, out1, RequestStepView::Done)
        },
        SyncMessageView::FileChanged { file_name } => {
            let (e1, out1) = change_noticed(
                e,
                peer,
                file_name,
                noted(
                    e.window,
                    out,
                    UiEventView::Log("Peer notified file changed: "@ + file_name),
                ),
            );
            (e1, out1, RequestStepView::Done)
        },
        SyncMessageView::DirectoryCreated { path } => (
            e,
            noted(e.window, out, UiEventView::Log("Peer requested directory create: "@ + path)),
            RequestStepView::MakeDirectory { path, target: joined(e.root, path) },
        ),
        SyncMessageView::DirectoryDeleted { path } => (
            e,
            noted(e.window, out, UiEventView::Log("Peer requested directory delete: "@ + path)),
            RequestStepView::RemoveDirectory { path, target: joined(e.root, path) },
        ),
        SyncMessageView::FileDeleted { file_name } => if e.window {
            (e, out.push(unexpected()), RequestStepView::Done)
        } else {
            (
                e,
                out,
                RequestStepView::RemoveFile { file_name, target: joined(e.root, file_name) },
            )
        },
        _ => (e, out.push(unexpected()), RequestStepView::Done),
    }
}

/// A peer makes a request.
pub fn on_request(e: &mut Engine, peer: &PeerId, request: SyncMessage, out: &mut DeltaOutbox) -> (r:
    RequestStep)
    ensures
        (final(e)@, final(out)@, r@) == requested(old(e)@, peer@, request@, old(out)@),
        engine_ok(old(e)@) ==> engine_ok(final(e)@),
{
    if goes_astray(e.root.as_str(), &request) {
        out.answer(path_refused());
        return RequestStep::Done;
    }
    match request {
        SyncMessage::ListFiles => {
            out.log(e.window, owned("Peer requested file list"));
            RequestStep::ListFiles
        },
        SyncMessage::MetaDataRequest { file_name } => {
            if e.window {
                if let Some(file) = e.cached.get(&file_name) {
                    let m = file.metadata.clone();
                    let name = m.file_name.clone();
                    out.answer(
                        SyncMessage::Metadata {
                            file_name: m.file_name,
                            total_chunks: m.total_chunks,
                            file_size: m.file_size,
                            chunk_hashes: m.chunk_hashes,
                        },
                    );
                    return next_cache_step(e, name);
                }
            }
            let path = join_path(e.root.as_str(), file_name.as_str());
            RequestStep::ReadMetadata { file_name, path }
        },
        SyncMessage::ChunkRequest { file_name, chunk_index } => match e.cached.get(&file_name) {
            Some(file) => {
                out.answer(answer_chunk(file, file_name.as_str(), chunk_index));
                RequestStep::Done
            },
            None => {
                let path = join_path(e.root.as_str(), file_name.as_str());
                RequestStep::ReadChunk { file_name, chunk_index, path }
            },
        },
        SyncMessage::FileChangedWithVersion { file_name, file_hash, timestamp, .. } => {
            if e.window {
                out.answer(SyncMessage::Error { message: owned("Unexpected request type") });
            } else if unwanted(e, &file_name, &file_hash, timestamp) {
                out.answer(SyncMessage::TransferComplete);
            } else {
                notice_change(e, peer, file_name, out);
            }
            RequestStep::Done
        },
        SyncMessage::FileChanged { file_name } => {
            out.log(e.window, concat2("Peer notified file changed: ", file_name.as_str()));
            notice_change(e, peer, file_name, out);
            RequestStep::Done
        },
        SyncMessage::DirectoryCreated { path } => {
            out.log(e.window, concat2("Peer requested directory create: ", path.as_str()));
            let target = join_path(e.root.as_str(), path.as_str());
            RequestStep::MakeDirectory { path, target }
        },
        SyncMessage::DirectoryDeleted { path } => {
            out.log(e.window, concat2("Peer requested directory delete: ", path.as_str()));
            let target = join_path(e.root.as_str(), path.as_str());
            RequestStep::RemoveDirectory { path, target }
        },
        SyncMessage::FileDeleted { file_name } => {
            if e.window {
                out.answer(SyncMessage::Error { message: owned("Unexpected request type") });
                RequestStep::Done
            } else {
                let target = join_path(e.root.as_str(), file_name.as_str());
                RequestStep::RemoveFile { file_name, target }
            }
        },
        _ => {
            out.answer(SyncMessage::Error { message: owned("Unexpected request type") });
            RequestStep::Done
        },
    }
}

/// The files of the folder were listed.
pub fn files_listed(names: &Vec<String>, out: &mut DeltaOutbox)
    ensures
        final(out)@ == old(out)@.push(
            answered(
                SyncMessageView::FileList {
                    file_names: listed_names(texts(names@), names@.len()),
                },
            ),
        ),
{
    out.answer(SyncMessage::FileList { file_names: get_file_list(names) });
}

/// The answer once a file was looked at.
pub open spec fn looked_answer(
    e: EngineView,
    file_name: Seq<char>,
    outcome: FileOutcomeView,
    timestamp: u64,
) -> SyncMessageView {
    if e.window {
        metadata_answer(file_name, outcome)
    } else {
        versioned_answer(file_name, outcome, e.author, e.local_versions, timestamp)
    }
}

/// A file of which the metadata are wanted was looked at.
pub fn metadata_ready(
    e: &Engine,
    file_name: &str,
    outcome: &FileOutcome,
    timestamp: u64,
    out: &mut DeltaOutbox,
) -> (r: RequestStep)
    ensures
        final(out)@ == old(out)@.push(
            answered(looked_answer(e@, file_name@, outcome@, timestamp)),
        ),
        r@ == (match outcome@ {
            FileOutcomeView::Content { data } => cache_step(e@, file_name@),
            _ => RequestStepView::Done,
        }),
{
    let answer = if e.window {
        get_file_metadata(file_name, outcome)
    } else {
        get_versioned_metadata(
            file_name,
            outcome,
            e.author.as_str(),
            &e.local_versions,
            timestamp,
        )
    };
    out.answer(answer);
    match outcome {
        FileOutcome::Content { .. } => next_cache_step(e, owned(file_name)),
        _ => RequestStep::Done,
    }
}

/// A file was read for later requests.
pub fn keep_file(e: &mut Engine, file_name: String, data: &[u8])
    ensures
        final(e)@ == (EngineView {
            cached: put(old(e)@.cached, file_name@, cached_of(file_name@, data@)),
            ..old(e)@
        }),
        engine_ok(old(e)@) ==> engine_ok(final(e)@),
{
    let file = make_cached(file_name.as_str(), data);
    e.cached.insert(file_name, file);
}

/// What follows once a file of which a chunk is wanted was read, or not.
pub open spec fn chunk_read(
    e: EngineView,
    file_name: Seq<char>,
    index: usize,
    outcome: FileOutcomeView,
    out: Seq<DeltaEffectView>,
) -> (EngineView, Seq<DeltaEffectView>) {
    match outcome {
        FileOutcomeView::Content { data } => (
            EngineView { cached: put(e.cached, file_name, cached_of(file_name, data)), ..e },
            out.push(answered(chunk_answer(cached_of(file_name, data), file_name, index))),
        ),
        FileOutcomeView::Failed { error } => (
            e,
            out.push(
                answered(SyncMessageView::Error { message: "Failed to read file: "@ + error }),
            ),
        ),
        FileOutcomeView::NotFound => (
            e,
            out.push(
                answered(
                    SyncMessageView::Error { message: "File '"@ + file_name + "' not found"@ },
                ),
            ),
        ),
        FileOutcomeView::Outside => (e, out.push(answered(invalid_path()))),
    }
}

/// A file of which a chunk is wanted was read, or not.
pub fn chunk_file_ready(
    e: &mut Engine,
    file_name: String,
    index: usize,
    outcome: &FileOutcome,
    out: &mut DeltaOutbox,
)
    ensures
        (final(e)@, final(out)@) == chunk_read(
            old(e)@,
            file_name@,
            index,
            outcome@,
            old(out)@,
        ),
        engine_ok(old(e)@) ==> engine_ok(final(e)@),
{
    match outcome {
        FileOutcome::Content { data } => {
            let file = make_cached(file_name.as_str(), data.as_slice());
            out.answer(answer_chunk(&file, file_name.as_str(), index));
            e.cached.insert(file_name, file);
        },
        FileOutcome::Failed { error } => {
            out.answer(
                SyncMessage::Error { message: concat2("Failed to read file: ", error.as_str()) },
            );
        },
        FileOutcome::NotFound => {
            out.answer(
                SyncMessage::Error {
                    message: concat3("File '", file_name.as_str(), "' not found"),
                },
            );
        },
        FileOutcome::Outside => {
            out.answer(path_refused());
        },
    }
}

/// What follows once a folder was made or removed, or not.
pub open spec fn folder_changed(
    e: EngineView,
    path: Seq<char>,
    outcome: DiskOutcomeView,
    out: Seq<DeltaEffectView>,
) -> (EngineView, Seq<DeltaEffectView>) {
    match outcome {
        DiskOutcomeView::Changed => (
            EngineView { recently_remote: with_element(e.recently_remote, path), ..e },
            out.push(answered(SyncMessageView::TransferComplete)),
        ),
        DiskOutcomeView::Unchanged => (
            e,
            out.push(answered(SyncMessageView::TransferComplete)),
        ),
        DiskOutcomeView::Outside => (e, out.push(answered(invalid_path()))),
    }
}

/// A folder was made or removed, or not.
pub fn directory_done(e: &mut Engine, path: String, outcome: &DiskOutcome, out: &mut DeltaOutbox)
    ensures
        (final(e)@, final(out)@) == folder_changed(old(e)@, path@, outcome@, old(out)@),
        engine_ok(old(e)@) ==> engine_ok(final(e)@),
{
    match outcome {
        DiskOutcome::Changed => {
            e.recently_remote.insert(path);
            out.answer(SyncMessage::TransferComplete);
        },
        DiskOutcome::Unchanged => {
            out.answer(SyncMessage::TransferComplete);
        },
        DiskOutcome::Outside => {
            out.answer(path_refused());
        },
    }
}

/// What follows once a file was removed for a peer, or not: nothing that is known
/// of it from peers stays, unless it is outside the folder.
pub open spec fn removal_done(
    e: EngineView,
    file_name: Seq<char>,
    outcome: DiskOutcomeView,
    out: Seq<DeltaEffectView>,
) -> (EngineView, Seq<DeltaEffectView>) {
    let (e1, out1) = folder_changed(e, file_name, outcome, out);
    if outcome is Outside {
        (e1, out1)
    } else {
        (
            EngineView {
                cached: without(e1.cached, file_name),
                remote_versions: without(e1.remote_versions, file_name),
                ..e1
            },
            out1,
        )
    }
}

/// A file was removed for a peer, or not.
pub fn file_removed(e: &mut Engine, file_name: String, outcome: &DiskOutcome, out: &mut DeltaOutbox)
    ensures
        (final(e)@, final(out)@) == removal_done(old(e)@, file_name@, outcome@, old(out)@),
        engine_ok(old(e)@) ==> engine_ok(final(e)@),
        !(outcome@ is Outside) ==> !has_key(final(e)@.cached, file_name@) && !has_key(
            final(e)@.remote_versions,
            file_name@,
        ),
{
    if let DiskOutcome::Outside = outcome {
        directory_done(e, file_name, outcome, out);
        return;
    }
    e.cached.remove(&file_name);
    e.remote_versions.remove(&file_name);
    directory_done(e, file_name, outcome, out);
}

/// How many of the first `n` effects are answers.
pub open spec fn answers(out: Seq<DeltaEffectView>, n: nat) -> nat
    decreases n,
{
    if n == 0 {
        0
    } else {
        answers(out, (n - 1) as nat) + if out[n - 1] is Respond {
            1nat
        } else {
            0nat
        }
    }
}

/// Every request is answered once: at once, or, where something is to be done on
/// disk first, not before that is done. Only the reading for later requests comes
/// after the answer.
pub proof fn law_every_request_is_answered_once(
    e: EngineView,
    peer: Seq<char>,
    request: SyncMessageView,
)
    ensures
        ({
            let (_, out, step) = requested(e, peer, request, Seq::empty());
            answers(out, out.len()) == if step is Done || step is ReadForCache {
                1nat
            } else {
                0nat
            }
        }),
{
    reveal_with_fuel(answers, 4);
}

} // verus!
