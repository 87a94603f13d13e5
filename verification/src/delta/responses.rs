//! Responses of peers, in the delta protocol.
use crate::collections::{law_put, lookup, put, without, without_element, Key, KeySet};
use crate::delta::effect::{
    asked, noted, opt_peer, target_asked, DeltaEffectView, DeltaOutbox, UiEvent, UiEventView,
};
use crate::delta::engine::{
    engine_ok, fill_session, filled, lemma_put_ok, lemma_without_ok, Engine, EngineView,
    SyncStateView, MAX_CONCURRENT_CHUNKS, MAX_CONCURRENT_FILES,
};
use crate::delta::messages::{SyncMessage, SyncMessageView};
use crate::delta::metadata::{
    numbers_below, FileMetadata, FileMetadataView, FileVersion, FileVersionView,
};
use crate::delta::operations::{
    acceptable, chunk_processed, is_partial, is_safe_name, needs_existing, opt_slice,
    process_received_chunk, reassemble_file, rebuilt, safe_name, Rebuilt, RebuiltView,
};
use crate::delta::session::{
    completed, finished, law_session_stays_bounded, new_session, session_ok, SyncSession,
};
use crate::delta::transfer::{
    all_chunks, came, law_complete_means_all_came, lemma_all_chunks, needed_chunks, new_transfer,
    transfer_complete, with_required, FileTransferState, FileTransferStateView,
};
use crate::error::{Error, ErrorView};
use crate::paths::{join_path, joined};
use crate::peer::PeerId;
use crate::text::{concat3, concat4, concat7, decimal, decimal_text, opt_text, owned, texts};
use vstd::prelude::*;

verus! {

/// What is to be done on disk after a response.
#[allow(inconsistent_fields)]
#[derive(Debug)]
pub enum ResponseStep {
    /// Nothing.
    Done,
    /// Put a file together and write it. Where only part of it was transferred,
    /// the file that is on disk is needed.
    Assemble { file_name: String, chunk_index: usize, existing: Option<String> },
}

/// What a `ResponseStep` says.
#[allow(inconsistent_fields)]
#[verifier::ext_equal]
pub ghost enum ResponseStepView {
    Done,
    Assemble { file_name: Seq<char>, chunk_index: usize, existing: Option<Seq<char>> },
}

impl View for ResponseStep {
    type V = ResponseStepView;

    open spec fn view(&self) -> ResponseStepView {
        match *self {
            ResponseStep::Done => ResponseStepView::Done,
            ResponseStep::Assemble {
                file_name,
                chunk_index,
                existing,
            } => ResponseStepView::Assemble {
                file_name: file_name@,
                chunk_index: chunk_index,
                existing: opt_text(existing),
            },
        }
    }
}

/// The least of two numbers.
pub open spec fn least(a: nat, b: nat) -> nat {
    if a < b {
        a
    } else {
        b
    }
}

/// The effects with requests for the first `n` of the numbered chunks.
pub open spec fn chunks_asked(
    target: Option<Seq<char>>,
    file_name: Seq<char>,
    numbers: Seq<usize>,
    n: nat,
    out: Seq<DeltaEffectView>,
) -> Seq<DeltaEffectView>
    decreases n,
{
    if n == 0 {
        out
    } else {
        target_asked(
            target,
            chunks_asked(target, file_name, numbers, (n - 1) as nat, out),
            SyncMessageView::ChunkRequest { file_name, chunk_index: numbers[n - 1] },
        )
    }
}

/// Asks for the first of the numbered chunks, as many as may be under way.
fn ask_first_chunks(
    target: &Option<PeerId>,
    file_name: &String,
    numbers: &KeySet<usize>,
    out: &mut DeltaOutbox,
)
    ensures
        final(out)@ == chunks_asked(
            opt_peer(*target),
            file_name@,
            numbers@,
            least(MAX_CONCURRENT_CHUNKS as nat, numbers@.len()),
            old(out)@,
        ),
{
    let count: usize = numbers.len();
    let n: usize = if count < MAX_CONCURRENT_CHUNKS {
        count
    } else {
        MAX_CONCURRENT_CHUNKS
    };
    let ghost before = out@;
    let mut i: usize = 0;
    while i < n
        invariant
            i <= n <= numbers@.len(),
            out@ == chunks_asked(opt_peer(*target), file_name@, numbers@, i as nat, before),
        decreases n - i,
    {
        out.ask_target(
            target,
            SyncMessage::ChunkRequest { file_name: file_name.clone(), chunk_index: *numbers.at(i) },
        );
        i = i + 1;
    }
}

/// What follows on a list of files: a session with them.
pub open spec fn files_offered(
    e: EngineView,
    names: Seq<Seq<char>>,
    out: Seq<DeltaEffectView>,
) -> (EngineView, Seq<DeltaEffectView>) {
    let out1 = noted(
        e.window,
        out,
        UiEventView::Log("Received file list with "@ + decimal(names.len()) + " files"@),
    );
    if names.len() == 0 {
        (
            EngineView { sync: SyncStateView { is_initial_sync_complete: true, ..e.sync }, ..e },
            noted(
                e.window,
                noted(
                    e.window,
                    out1,
                    UiEventView::Log("Remote folder is empty, sync complete"@),
                ),
                UiEventView::SyncComplete,
            ),
        )
    } else {
        let (s, out2) = filled(
            new_session(names, MAX_CONCURRENT_FILES),
            e.window,
            e.sync.sync_target_peer,
            "Requesting metadata for: "@,
            out1,
        );
        (
            EngineView { sync: SyncStateView { current_session: Some(s), ..e.sync }, ..e },
            out2,
        )
    }
}

fn take_file_list(e: &mut Engine, names: Vec<String>, out: &mut DeltaOutbox)
    ensures
        (final(e)@, final(out)@) == files_offered(old(e)@, texts(names@), old(out)@),
        engine_ok(old(e)@) ==> engine_ok(final(e)@),
{
    out.log(
        e.window,
        concat3(
            "Received file list with ",
            decimal_text(names.len() as u64).as_str(),
            " files",
        ),
    );
    if names.len() == 0 {
        out.log(e.window, owned("Remote folder is empty, sync complete"));
        out.note(e.window, UiEvent::SyncComplete);
        e.sync.is_initial_sync_complete = true;
        return;
    }
    let mut session = SyncSession::new(names, MAX_CONCURRENT_FILES);
    proof {
        law_session_stays_bounded(
            texts(names@),
            MAX_CONCURRENT_FILES,
            session@,
            Seq::<char>::empty(),
        );
    }
    fill_session(
        &mut session,
        e.window,
        &e.sync.sync_target_peer,
        "Requesting metadata for: ",
        out,
    );
    e.sync.current_session = Some(session);
}

/// The transfer of a file of which no version is known: all chunks are needed.
pub open spec fn plain_transfer(root: Seq<char>, m: FileMetadataView) -> FileTransferStateView {
    FileTransferStateView {
        metadata: Some(m),
        chunks_expected: m.total_chunks,
        required_chunks: all_chunks(m.total_chunks as nat),
        ..new_transfer(root)
    }
}

/// What the window is told of a transfer.
pub open spec fn progress_of(file_name: Seq<char>, ts: FileTransferStateView) -> UiEventView {
    UiEventView::SyncProgress {
        file_name,
        received: came(ts.required_chunks, ts.received_chunks, ts.required_chunks.len()) as usize,
        required: ts.required_chunks.len() as usize,
    }
}

fn note_progress(window: bool, file_name: &String, ts: &FileTransferState, out: &mut DeltaOutbox)
    ensures
        final(out)@ == noted(window, old(out)@, progress_of(file_name@, ts@)),
{
    let (received, required) = ts.progress();
    out.note(
        window,
        UiEvent::SyncProgress { file_name: file_name.clone(), received, required },
    );
}

/// The engine with a transfer.
pub open spec fn with_transfer(
    e: EngineView,
    file_name: Seq<char>,
    ts: FileTransferStateView,
) -> EngineView {
    EngineView {
        sync: SyncStateView {
            transfer_states: put(e.sync.transfer_states, file_name, ts),
            ..e.sync
        },
        ..e
    }
}

/// What follows on metadata without a version: all chunks are wanted.
pub open spec fn metadata_came(e: EngineView, m: FileMetadataView, out: Seq<DeltaEffectView>) -> (
    EngineView,
    Seq<DeltaEffectView>,
) {
    let ts = plain_transfer(e.root, m);
    let words = "Received metadata for '"@ + m.file_name + "' ("@ + decimal(m.total_chunks as nat)
        + " chunks, "@ + decimal(m.file_size as nat) + " bytes)"@;
    let out1 = noted(
        e.window,
        noted(e.window, out, UiEventView::Log(words)),
        progress_of(m.file_name, ts),
    );
    (
        with_transfer(e, m.file_name, ts),
        chunks_asked(
            e.sync.sync_target_peer,
            m.file_name,
            ts.required_chunks,
            least(MAX_CONCURRENT_CHUNKS as nat, ts.required_chunks.len()),
            out1,
        ),
    )
}

fn take_metadata(e: &mut Engine, m: FileMetadata, out: &mut DeltaOutbox)
    ensures
        (final(e)@, final(out)@) == metadata_came(old(e)@, m@, old(out)@),
        engine_ok(old(e)@) ==> engine_ok(final(e)@),
{
    out.log(
        e.window,
        concat7(
            "Received metadata for '",
            m.file_name.as_str(),
            "' (",
            decimal_text(m.total_chunks as u64).as_str(),
            " chunks, ",
            decimal_text(m.file_size).as_str(),
            " bytes)",
        ),
    );
    let name = m.file_name.clone();
    let mut ts = FileTransferState::new(e.root.clone());
    ts.require_all_chunks(m.total_chunks);
    ts.metadata = Some(m);
    assert(ts@ =~= plain_transfer(e@.root, m@));
    note_progress(e.window, &name, &ts, out);
    ask_first_chunks(&e.sync.sync_target_peer, &name, &ts.required_chunks, out);
    proof {
        if engine_ok(old(e)@) {
            lemma_put_ok(e@.sync.transfer_states, name@, ts@);
        }
    }
    e.sync.transfer_states.insert(name, ts);
}

/// The version from which a new one can be made: the one that is here, if the new one
/// follows on it and some chunk changed.
pub open spec fn parent_of(
    version: FileVersionView,
    local: Option<FileVersionView>,
) -> Option<FileVersionView> {
    match local {
        Some(p) => if version.parent_hash == Some(p.file_hash) && version.changed_chunks.len()
            > 0 {
            Some(p)
        } else {
            None
        },
        None => None,
    }
}

/// The transfer of a version: if the version before is here, only the chunks that
/// changed are needed.
pub open spec fn versioned_transfer(
    root: Seq<char>,
    version: FileVersionView,
    previous: Option<FileVersionView>,
) -> FileTransferStateView {
    with_required(
        FileTransferStateView {
            metadata: Some(version.metadata),
            current_version: Some(version),
            previous_version: previous,
            ..new_transfer(root)
        },
    )
}

/// What follows on metadata with a version: the chunks that are needed are asked
/// for.
pub open spec fn version_came(e: EngineView, v: FileVersionView, out: Seq<DeltaEffectView>) -> (
    EngineView,
    Seq<DeltaEffectView>,
) {
    let name = v.metadata.file_name;
    let e1 = EngineView { remote_versions: put(e.remote_versions, name, v), ..e };
    let ts = versioned_transfer(e.root, v, parent_of(v, lookup(e.local_versions, name)));
    (
        with_transfer(e1, name, ts),
        chunks_asked(
            e.sync.sync_target_peer,
            name,
            ts.required_chunks,
            least(MAX_CONCURRENT_CHUNKS as nat, ts.required_chunks.len()),
            out,
        ),
    )
}

/// Whether a version follows on another.
fn follows(v: &FileVersion, p: &FileVersion) -> (r: bool)
    ensures
        r == (v@.parent_hash == Some(p@.file_hash)),
{
    match &v.parent_hash {
        Some(h) => h.same(&p.file_hash),
        None => false,
    }
}

fn take_version(e: &mut Engine, v: FileVersion, out: &mut DeltaOutbox)
    ensures
        (final(e)@, final(out)@) == version_came(old(e)@, v@, old(out)@),
        engine_ok(old(e)@) ==> engine_ok(final(e)@),
{
    let name = v.metadata.file_name.clone();
    let mut ts = FileTransferState::new(e.root.clone());
    ts.metadata = Some(v.metadata.clone());
    ts.current_version = Some(v.clone());
    ts.previous_version = match e.local_versions.get(&name) {
        Some(p) => if follows(&v, p) && v.changed_chunks.len() > 0 {
            Some(p.clone())
        } else {
            None
        },
        None => None,
    };
    ts.set_required_chunks();
    ask_first_chunks(&e.sync.sync_target_peer, &name, &ts.required_chunks, out);
    e.remote_versions.insert(name.clone(), v);
    proof {
        if engine_ok(old(e)@) {
            lemma_put_ok(e@.sync.transfer_states, name@, ts@);
        }
    }
    e.sync.transfer_states.insert(name, ts);
}

/// Whether a chunk is taken into a transfer.
pub open spec fn chunk_wanted(window: bool, ts: FileTransferStateView, index: usize) -> bool {
    match ts.metadata {
        None => false,
        Some(m) => if window {
            ts.received_chunks.len() < m.total_chunks
        } else {
            ts.required_chunks.len() > 0 && !ts.received_chunks.dom().contains(index)
        },
    }
}

fn wants_chunk(window: bool, ts: &FileTransferState, index: usize) -> (r: bool)
    ensures
        r == chunk_wanted(window, ts@, index),
{
    match &ts.metadata {
        None => false,
        Some(m) => if window {
            ts.received_count() < m.total_chunks
        } else {
            ts.required_chunks.len() > 0 && !ts.has_chunk(index)
        },
    }
}

/// The first required chunk from `i` on that did not come.
pub open spec fn first_missing(required: Seq<usize>, received: Map<usize, Seq<u8>>, i: nat) -> Option<
    usize,
>
    decreases required.len() - i,
{
    if i >= required.len() {
        None
    } else if !received.dom().contains(required[i as int]) {
        Some(required[i as int])
    } else {
        first_missing(required, received, i + 1)
    }
}

/// The transfer after the next chunk was chosen, and that chunk.
pub open spec fn next_chunk(
    window: bool,
    has_target: bool,
    ts: FileTransferStateView,
) -> (FileTransferStateView, Option<usize>) {
    let total = match ts.metadata {
        Some(m) => m.total_chunks,
        None => 0,
    };
    if ts.chunks_in_flight >= MAX_CONCURRENT_CHUNKS {
        (ts, None)
    } else if window {
        if ts.next_chunk_to_request < total {
            (
                FileTransferStateView {
                    next_chunk_to_request: (ts.next_chunk_to_request + 1) as usize,
                    chunks_in_flight: (ts.chunks_in_flight + 1) as usize,
                    ..ts
                },
                Some(ts.next_chunk_to_request),
            )
        } else {
            (ts, None)
        }
    } else {
        match first_missing(ts.required_chunks, ts.received_chunks, 0) {
            Some(i) => if has_target {
                (
                    FileTransferStateView {
                        chunks_in_flight: (ts.chunks_in_flight + 1) as usize,
                        ..ts
                    },
                    Some(i),
                )
            } else {
                (ts, None)
            },
            None => (ts, None),
        }
    }
}

/// No more chunks come under way than allowed.
pub proof fn law_chunks_under_way_stay_bounded(
    window: bool,
    has_target: bool,
    ts: FileTransferStateView,
    index: usize,
    data: Seq<u8>,
)
    requires
        ts.chunks_in_flight <= MAX_CONCURRENT_CHUNKS,
    ensures
        next_chunk(window, has_target, ts).0.chunks_in_flight <= MAX_CONCURRENT_CHUNKS,
        chunk_processed(ts, index, data).chunks_in_flight <= MAX_CONCURRENT_CHUNKS,
{
}

proof fn lemma_first_missing(required: Seq<usize>, received: Map<usize, Seq<u8>>, i: nat)
    ensures
        first_missing(required, received, i) matches Some(c) ==> required.contains(c)
            && !received.dom().contains(c),
        first_missing(required, received, i) is None ==> forall|j: int|
            i <= j < required.len() ==> received.dom().contains(#[trigger] required[j]),
    decreases required.len() - i,
{
    if i < required.len() && received.dom().contains(required[i as int]) {
        lemma_first_missing(required, received, i + 1);
    }
}

/// While a required chunk is missing, fewer chunks are under way than allowed and
/// there is a target, a missing chunk is asked for; a chunk that came with another
/// hash than it should is among the missing ones.
pub proof fn law_missing_chunks_are_asked_for(
    ts: FileTransferStateView,
    index: usize,
    data: Seq<u8>,
)
    requires
        ts.chunks_in_flight <= MAX_CONCURRENT_CHUNKS,
    ensures
        ({
            let t = chunk_processed(ts, index, data);
            let (_, asked_for) = next_chunk(false, true, t);
            &&& !acceptable(ts, index, data) && !ts.received_chunks.dom().contains(index)
                ==> !t.received_chunks.dom().contains(index)
            &&& asked_for matches Some(c) ==> t.required_chunks.contains(c)
                && !t.received_chunks.dom().contains(c)
            &&& t.chunks_in_flight < MAX_CONCURRENT_CHUNKS && asked_for is None ==> forall|j: int|
                0 <= j < t.required_chunks.len() ==> t.received_chunks.dom().contains(
                    #[trigger] t.required_chunks[j],
                )
        }),
{
    let t = chunk_processed(ts, index, data);
    lemma_first_missing(t.required_chunks, t.received_chunks, 0);
}

fn choose_next_chunk(window: bool, has_target: bool, ts: &mut FileTransferState) -> (r: Option<
    usize,
>)
    ensures
        (final(ts)@, r) == next_chunk(window, has_target, old(ts)@),
{
    if ts.chunks_in_flight >= MAX_CONCURRENT_CHUNKS {
        return None;
    }
    if window {
        let total: usize = match &ts.metadata {
            Some(m) => m.total_chunks,
            None => 0,
        };
        let next: usize = ts.next_chunk_to_request;
        if next < total {
            ts.next_chunk_to_request = next + 1;
            ts.chunks_in_flight = ts.chunks_in_flight + 1;
            return Some(next);
        }
        return None;
    }
    let n: usize = ts.required_chunks.len();
    let mut i: usize = 0;
    while i < n && ts.has_chunk(*ts.required_chunks.at(i))
        invariant
            *ts == *old(ts),
            n == ts@.required_chunks.len(),
            i <= n,
            first_missing(ts@.required_chunks, ts@.received_chunks, 0) == first_missing(
                ts@.required_chunks,
                ts@.received_chunks,
                i as nat,
            ),
        decreases n - i,
    {
        i = i + 1;
    }
    if i < n && has_target {
        let missing: usize = *ts.required_chunks.at(i);
        ts.chunks_in_flight = ts.chunks_in_flight + 1;
        return Some(missing);
    }
    None
}

/// Where the file is that is on disk, if it is needed.
pub open spec fn existing_at(ts: FileTransferStateView) -> Option<Seq<char>> {
    match ts.metadata {
        Some(m) => if is_partial(ts) && is_safe_name(ts.file_path, m.file_name) {
            Some(joined(ts.file_path, m.file_name))
        } else {
            None
        },
        None => None,
    }
}

fn existing_path(ts: &FileTransferState) -> (r: Option<String>)
    ensures
        opt_text(r) == existing_at(ts@),
{
    match &ts.metadata {
        Some(m) => if needs_existing(ts) && safe_name(
            ts.file_path.as_str(),
            m.file_name.as_str(),
        ) {
            Some(join_path(ts.file_path.as_str(), m.file_name.as_str()))
        } else {
            None
        },
        None => None,
    }
}

/// What follows on a chunk: the next one is asked for, or the file is put
/// together.
pub open spec fn chunk_came(
    e: EngineView,
    file_name: Seq<char>,
    index: usize,
    data: Seq<u8>,
    out: Seq<DeltaEffectView>,
) -> (EngineView, Seq<DeltaEffectView>, ResponseStepView) {
    match lookup(e.sync.transfer_states, file_name) {
        None => (e, out, ResponseStepView::Done),
        Some(ts) => if !chunk_wanted(e.window, ts, index) {
            (e, out, ResponseStepView::Done)
        } else {
            let t = chunk_processed(ts, index, data);
            if acceptable(ts, index, data) && transfer_complete(t) {
                (
                    with_transfer(e, file_name, t),
                    out,
                    ResponseStepView::Assemble {
                        file_name,
                        chunk_index: index,
                        existing: existing_at(t),
                    },
                )
            } else {
                let target = e.sync.sync_target_peer;
                let (t2, asked_for) = next_chunk(e.window, target is Some, t);
                let out1 = noted(e.window, out, progress_of(file_name, t));
                (
                    with_transfer(e, file_name, t2),
                    match asked_for {
                        Some(i) => target_asked(
                            target,
                            out1,
                            SyncMessageView::ChunkRequest { file_name, chunk_index: i },
                        ),
                        None => out1,
                    },
                    ResponseStepView::Done,
                )
            }
        },
    }
}

fn take_chunk(
    e: &mut Engine,
    file_name: String,
    index: usize,
    data: Vec<u8>,
    out: &mut DeltaOutbox,
) -> (r: ResponseStep)
    ensures
        (final(e)@, final(out)@, r@) == chunk_came(
            old(e)@,
            file_name@,
            index,
            data@,
            old(out)@,
        ),
        engine_ok(old(e)@) ==> engine_ok(final(e)@),
{
    let place: usize = match e.sync.transfer_states.place(&file_name) {
        Some(place) => place,
        None => {
            return ResponseStep::Done;
        },
    };
    let window = e.window;
    let has_target = e.sync.sync_target_peer.is_some();
    if !wants_chunk(window, e.sync.transfer_states.value_at(place), index) {
        return ResponseStep::Done;
    }
    let ts = e.sync.transfer_states.value_at_mut(place);
    if process_received_chunk(index, data, ts) {
        let existing = existing_path(ts);
        return ResponseStep::Assemble { file_name, chunk_index: index, existing };
    }
    note_progress(window, &file_name, ts, out);
    let next = choose_next_chunk(window, has_target, ts);
    match next {
        Some(i) => out.ask_target(
            &e.sync.sync_target_peer,
            SyncMessage::ChunkRequest { file_name, chunk_index: i },
        ),
        None => {},
    }
    ResponseStep::Done
}

/// How many of the effects are requests.
pub open spec fn request_count(out: Seq<DeltaEffectView>) -> nat
    decreases out.len(),
{
    if out.len() == 0 {
        0
    } else {
        request_count(out.drop_last()) + if out.last() is Request {
            1nat
        } else {
            0nat
        }
    }
}

proof fn lemma_count_push(out: Seq<DeltaEffectView>, effect: DeltaEffectView)
    ensures
        request_count(out.push(effect)) == request_count(out) + if effect is Request {
            1nat
        } else {
            0nat
        },
{
    assert(out.push(effect).drop_last() =~= out);
}

proof fn lemma_count_noted(window: bool, out: Seq<DeltaEffectView>, event: UiEventView)
    ensures
        request_count(noted(window, out, event)) == request_count(out),
{
    lemma_count_push(out, DeltaEffectView::Ui { event });
}

proof fn lemma_count_asked(
    target: Option<Seq<char>>,
    file_name: Seq<char>,
    numbers: Seq<usize>,
    n: nat,
    out: Seq<DeltaEffectView>,
)
    ensures
        request_count(chunks_asked(target, file_name, numbers, n, out)) <= request_count(out) + n,
    decreases n,
{
    if n > 0 {
        lemma_count_asked(target, file_name, numbers, (n - 1) as nat, out);
        if let Some(peer) = target {
            lemma_count_push(
                chunks_asked(target, file_name, numbers, (n - 1) as nat, out),
                asked(
                    peer,
                    SyncMessageView::ChunkRequest { file_name, chunk_index: numbers[n - 1] },
                ),
            );
        }
    }
}

/// At most so many chunks of a file are asked for at a time: a transfer begins with no
/// more requests, and each chunk that comes leads to one at most.
pub proof fn law_chunk_requests_are_limited(
    e: EngineView,
    v: FileVersionView,
    m: FileMetadataView,
    file_name: Seq<char>,
    index: usize,
    data: Seq<u8>,
    out: Seq<DeltaEffectView>,
)
    ensures
        request_count(version_came(e, v, out).1) <= request_count(out) + MAX_CONCURRENT_CHUNKS,
        request_count(metadata_came(e, m, out).1) <= request_count(out) + MAX_CONCURRENT_CHUNKS,
        request_count(chunk_came(e, file_name, index, data, out).1) <= request_count(out) + 1,
{
    let target = e.sync.sync_target_peer;
    let ts = versioned_transfer(
        e.root,
        v,
        parent_of(v, lookup(e.local_versions, v.metadata.file_name)),
    );
    lemma_count_asked(
        target,
        v.metadata.file_name,
        ts.required_chunks,
        least(MAX_CONCURRENT_CHUNKS as nat, ts.required_chunks.len()),
        out,
    );
    let plain = plain_transfer(e.root, m);
    let words = "Received metadata for '"@ + m.file_name + "' ("@ + decimal(m.total_chunks as nat)
        + " chunks, "@ + decimal(m.file_size as nat) + " bytes)"@;
    let out1 = noted(e.window, out, UiEventView::Log(words));
    lemma_count_noted(e.window, out, UiEventView::Log(words));
    lemma_count_noted(e.window, out1, progress_of(m.file_name, plain));
    lemma_count_asked(
        target,
        m.file_name,
        plain.required_chunks,
        least(MAX_CONCURRENT_CHUNKS as nat, plain.required_chunks.len()),
        noted(e.window, out1, progress_of(m.file_name, plain)),
    );
    if let Some(old_ts) = lookup(e.sync.transfer_states, file_name) {
        let t = chunk_processed(old_ts, index, data);
        let told = noted(e.window, out, progress_of(file_name, t));
        lemma_count_noted(e.window, out, progress_of(file_name, t));
        if let Some(peer) = target {
            if let Some(i) = next_chunk(e.window, true, t).1 {
                lemma_count_push(
                    told,
                    asked(peer, SyncMessageView::ChunkRequest { file_name, chunk_index: i }),
                );
            }
        }
    }
}

/// The numbers below `n`, as a set.
spec fn set_below(n: nat) -> Set<usize>
    decreases n,
{
    if n == 0 {
        Set::empty()
    } else {
        set_below((n - 1) as nat).insert((n - 1) as usize)
    }
}

proof fn lemma_set_below(n: nat)
    requires
        n <= usize::MAX,
    ensures
        set_below(n).finite(),
        set_below(n).len() == n,
        forall|i: usize| #[trigger] set_below(n).contains(i) <==> i < n,
    decreases n,
{
    if n > 0 {
        lemma_set_below((n - 1) as nat);
    }
}

/// A transfer ends: when all chunks of a file are needed, all but one came, and that
/// one comes with the right hash, the file is put together.
pub proof fn law_last_chunk_completes_the_file(
    e: EngineView,
    file_name: Seq<char>,
    ts: FileTransferStateView,
    m: FileMetadataView,
    index: usize,
    data: Seq<u8>,
    out: Seq<DeltaEffectView>,
)
    requires
        lookup(e.sync.transfer_states, file_name) == Some(ts),
        ts.metadata == Some(m),
        ts.required_chunks == all_chunks(m.total_chunks as nat),
        index < m.total_chunks,
        forall|i: usize|
            #[trigger] ts.received_chunks.dom().contains(i) <==> i < m.total_chunks && i != index,
        acceptable(ts, index, data),
    ensures
        chunk_came(e, file_name, index, data, out).2 is Assemble,
{
    let n = m.total_chunks as nat;
    let t = chunk_processed(ts, index, data);
    lemma_all_chunks(n);
    lemma_set_below(n);
    assert(ts.received_chunks.dom() =~= set_below(n).remove(index));
    assert(ts.received_chunks.len() < m.total_chunks);
    assert(t.required_chunks == numbers_below(n));
    assert forall|i: int| 0 <= i < t.required_chunks.len() implies t.received_chunks.dom().contains(
        #[trigger] t.required_chunks[i],
    ) by {
        assert(t.required_chunks[i] == i as usize);
        if i != index {
            assert(ts.received_chunks.dom().contains(i as usize));
        }
    }
    law_complete_means_all_came(t);
}

/// Only the version on which the announced one follows is built upon; where another
/// one is here, or none, all chunks are needed.
pub proof fn law_only_the_parent_is_built_upon(
    e: EngineView,
    v: FileVersionView,
    out: Seq<DeltaEffectView>,
)
    ensures
        ({
            let name = v.metadata.file_name;
            let e1 = version_came(e, v, out).0;
            &&& lookup(e1.sync.transfer_states, name) matches Some(ts) && ts.metadata == Some(
                v.metadata,
            ) && ts.current_version == Some(v) && match ts.previous_version {
                Some(p) => lookup(e.local_versions, name) == Some(p) && v.parent_hash == Some(
                    p.file_hash,
                ) && ts.required_chunks == needed_chunks(v, Some(p)),
                None => ts.required_chunks == all_chunks(v.metadata.total_chunks as nat),
            }
        }),
{
    let name = v.metadata.file_name;
    let ts = versioned_transfer(e.root, v, parent_of(v, lookup(e.local_versions, name)));
    law_put(e.sync.transfer_states, name, ts, name);
}

/// Once a file was written, the version that was announced is the one on record, so
/// that two peers of which one took the other's version have the same.
pub proof fn law_written_version_is_on_record(
    e: EngineView,
    file_name: Seq<char>,
    ts: FileTransferStateView,
    v: FileVersionView,
    out: Seq<DeltaEffectView>,
)
    requires
        lookup(e.sync.transfer_states, file_name) == Some(ts),
        ts.current_version == Some(v),
    ensures
        lookup(written(e, file_name, out).0.local_versions, file_name) == Some(v),
{
    law_put(e.local_versions, file_name, v, file_name);
}

/// What follows on a response.
pub open spec fn responded(
    e: EngineView,
    peer: Seq<char>,
    response: SyncMessageView,
    out: Seq<DeltaEffectView>,
) -> (EngineView, Seq<DeltaEffectView>, ResponseStepView) {
    match response {
        SyncMessageView::FileList { file_names } => {
            let (e1, out1) = files_offered(e, file_names, out);
            (e1, out1, ResponseStepView::Done)
        },
        SyncMessageView::Metadata { file_name, total_chunks, file_size, chunk_hashes } => {
            let (e1, out1) = metadata_came(
                e,
                FileMetadataView { file_name, total_chunks, file_size, chunk_hashes },
                out,
            );
            (e1, out1, ResponseStepView::Done)
        },
        SyncMessageView::VersionedMetadata {
            file_name,
            file_hash,
            parent_hash,
            total_chunks,
            file_size,
            chunk_hashes,
            changed_chunks,
            timestamp,
            author,
        } => if e.window {
            (e, out, ResponseStepView::Done)
        } else {
            let metadata = FileMetadataView { file_name, total_chunks, file_size, chunk_hashes };
            let (e1, out1) = version_came(
                e,
                FileVersionView {
                    file_hash,
                    parent_hash,
                    metadata,
                    timestamp,
                    author,
                    changed_chunks,
                },
                out,
            );
            (e1, out1, ResponseStepView::Done)
        },
        SyncMessageView::ChunkResponse { chunk_index, data, hash, file_name } => chunk_came(
            e,
            file_name,
            chunk_index,
            data,
            out,
        ),
        SyncMessageView::TransferComplete => (
            e,
            noted(
                e.window,
                out,
                UiEventView::Log("Peer acknowledged file change notification"@),
            ),
            ResponseStepView::Done,
        ),
        SyncMessageView::Empty => (
            EngineView { sync: SyncStateView { is_initial_sync_complete: true, ..e.sync }, ..e },
            noted(
                e.window,
                noted(e.window, out, UiEventView::Log("Remote folder is empty"@)),
                UiEventView::SyncComplete,
            ),
            ResponseStepView::Done,
        ),
        SyncMessageView::Error { message } => (
            e,
            noted(
                e.window,
                out,
                UiEventView::Error("Error from "@ + peer + ": "@ + message),
            ),
            ResponseStepView::Done,
        ),
        _ => (e, out, ResponseStepView::Done),
    }
}

/// A peer answers.
pub fn on_response(e: &mut Engine, peer: &PeerId, response: SyncMessage, out: &mut DeltaOutbox) -> (r:
    ResponseStep)
    ensures
        (final(e)@, final(out)@, r@) == responded(old(e)@, peer@, response@, old(out)@),
        engine_ok(old(e)@) ==> engine_ok(final(e)@),
{
    match response {
        SyncMessage::FileList { file_names } => {
            take_file_list(e, file_names, out);
            ResponseStep::Done
        },
        SyncMessage::Metadata { file_name, total_chunks, file_size, chunk_hashes } => {
            take_metadata(
                e,
                FileMetadata { file_name, total_chunks, file_size, chunk_hashes },
                out,
            );
            ResponseStep::Done
        },
        SyncMessage::VersionedMetadata {
            file_name,
            file_hash,
            parent_hash,
            total_chunks,
            file_size,
            chunk_hashes,
            changed_chunks,
            timestamp,
            author,
        } => {
            if !e.window {
                let metadata = FileMetadata { file_name, total_chunks, file_size, chunk_hashes };
                take_version(
                    e,
                    FileVersion {
                        file_hash,
                        parent_hash,
                        metadata,
                        timestamp,
                        author,
                        changed_chunks,
                    },
                    out,
                );
            }
            ResponseStep::Done
        },
        SyncMessage::ChunkResponse { chunk_index, data, file_name, .. } => take_chunk(
            e,
            file_name,
            chunk_index,
            data,
            out,
        ),
        SyncMessage::TransferComplete => {
            out.log(e.window, owned("Peer acknowledged file change notification"));
            ResponseStep::Done
        },
        SyncMessage::Empty => {
            out.log(e.window, owned("Remote folder is empty"));
            out.note(e.window, UiEvent::SyncComplete);
            e.sync.is_initial_sync_complete = true;
            ResponseStep::Done
        },
        SyncMessage::Error { message } => {
            out.note(
                e.window,
                UiEvent::Error(concat4("Error from ", peer.as_str(), ": ", message.as_str())),
            );
            ResponseStep::Done
        },
        _ => ResponseStep::Done,
    }
}

/// What a transfer of the engine is put together to.
pub open spec fn assembled(e: EngineView, file_name: Seq<char>, existing: Option<Seq<u8>>) -> Result<
    RebuiltView,
    ErrorView,
> {
    match lookup(e.sync.transfer_states, file_name) {
        Some(ts) => rebuilt(ts, existing),
        None => Err(ErrorView::NoMetadataAvailable),
    }
}

/// Puts a file together, with the file on disk where only part of it was
/// transferred.
pub fn assemble(e: &Engine, file_name: &String, existing: Option<&Vec<u8>>) -> (r: Result<
    Rebuilt,
    Error,
>)
    ensures
        match r {
            Ok(f) => assembled(e@, file_name@, opt_slice(existing)) == Ok::<
                RebuiltView,
                ErrorView,
            >(f@),
            Err(error) => assembled(e@, file_name@, opt_slice(existing)) == Err::<
                RebuiltView,
                ErrorView,
            >(error@),
        },
{
    match e.sync.transfer_states.get(file_name) {
        Some(ts) => reassemble_file(ts, existing),
        None => Err(Error::NoMetadataAvailable),
    }
}

/// The engine without a transfer, and with its version on record.
pub open spec fn transfer_closed(e: EngineView, file_name: Seq<char>) -> EngineView {
    EngineView {
        sync: SyncStateView {
            transfer_states: without(e.sync.transfer_states, file_name),
            ..e.sync
        },
        currently_writing: without_element(e.currently_writing, file_name),
        cached: without(e.cached, file_name),
        local_versions: match lookup(e.sync.transfer_states, file_name) {
            Some(ts) => match ts.current_version {
                Some(v) => put(e.local_versions, file_name, v),
                None => e.local_versions,
            },
            None => e.local_versions,
        },
        ..e
    }
}

/// What follows once a file was written: the session goes on.
pub open spec fn written(e: EngineView, file_name: Seq<char>, out: Seq<DeltaEffectView>) -> (
    EngineView,
    Seq<DeltaEffectView>,
) {
    let out1 = match lookup(e.sync.transfer_states, file_name) {
        Some(ts) => noted(e.window, out, progress_of(file_name, ts)),
        None => out,
    };
    let out2 = noted(e.window, out1, UiEventView::FileComplete(file_name));
    let e1 = transfer_closed(e, file_name);
    match e1.sync.current_session {
        None => (e1, out2),
        Some(s) => {
            let (s1, out3) = filled(
                completed(s, file_name),
                e.window,
                e.sync.sync_target_peer,
                "Starting next file: "@,
                out2,
            );
            if finished(s1) {
                (
                    EngineView {
                        sync: SyncStateView {
                            current_session: None,
                            is_initial_sync_complete: true,
                            ..e1.sync
                        },
                        ..e1
                    },
                    noted(
                        e.window,
                        noted(
                            e.window,
                            out3,
                            UiEventView::Log("All files synchronized successfully"@),
                        ),
                        UiEventView::SyncComplete,
                    ),
                )
            } else {
                (
                    EngineView {
                        sync: SyncStateView { current_session: Some(s1), ..e1.sync },
                        ..e1
                    },
                    out3,
                )
            }
        },
    }
}

/// A file was put together and written.
pub fn file_written(e: &mut Engine, file_name: &String, out: &mut DeltaOutbox)
    ensures
        (final(e)@, final(out)@) == written(old(e)@, file_name@, old(out)@),
        engine_ok(old(e)@) ==> engine_ok(final(e)@),
{
    proof {
        if engine_ok(old(e)@) {
            lemma_without_ok(e@.sync.transfer_states, file_name@);
        }
    }
    match e.sync.transfer_states.remove(file_name) {
        Some(ts) => {
            note_progress(e.window, file_name, &ts, out);
            if let Some(v) = ts.current_version {
                e.local_versions.insert(file_name.clone(), v);
            }
        },
        None => {},
    }
    e.currently_writing.remove(file_name);
    e.cached.remove(file_name);
    out.note(e.window, UiEvent::FileComplete(file_name.clone()));
    let session = e.sync.current_session.take();
    match session {
        None => {},
        Some(s) => {
            let mut s = s;
            proof {
                if session_ok(s@) {
                    law_session_stays_bounded(Seq::empty(), 0, s@, file_name@);
                }
            }
            s.mark_complete(file_name.as_str());
            fill_session(
                &mut s,
                e.window,
                &e.sync.sync_target_peer,
                "Starting next file: ",
                out,
            );
            if s.is_done() {
                out.log(e.window, owned("All files synchronized successfully"));
                out.note(e.window, UiEvent::SyncComplete);
                e.sync.is_initial_sync_complete = true;
            } else {
                e.sync.current_session = Some(s);
            }
        },
    }
}

/// A file could not be put together or written.
pub fn write_failed(e: &Engine, chunk_index: usize, error: &str, out: &mut DeltaOutbox)
    ensures
        final(out)@ == noted(
            e@.window,
            old(out)@,
            UiEventView::Error(
                "Chunk "@ + decimal(chunk_index as nat) + " error: "@ + error@,
            ),
        ),
{
    out.note(
        e.window,
        UiEvent::Error(
            concat4("Chunk ", decimal_text(chunk_index as u64).as_str(), " error: ", error),
        ),
    );
}

} // verus!
