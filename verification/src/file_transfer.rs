//! Sending whole files to all peers at once.
//!
//! A file travels as a message with its size and number of chunks, one message
//! per chunk, and a closing message. The receiver collects the chunks and writes
//! the file once all came.
use crate::collections::{distinct, has_key, law_put, law_without, lookup, put, without, Assoc};
use crate::error::{Error, ErrorView};
use crate::paths::{file_name, has_file_name, join_path, joined, last_component};
use crate::pieces::{cut, law_pieces_make_up_the_whole, pieces};
use crate::vault::{byte_strings, concatenation};
use std::collections::HashMap;
use vstd::prelude::*;
use vstd::slice::slice_to_vec;

verus! {

/// The length of every chunk but the last.
pub const CHUNK_SIZE: usize = 1048576;

/// A message of the file transfer.
#[allow(inconsistent_fields)]
#[derive(Debug)]
pub enum FileMessage {
    RequestFile { name: String },
    Metadata { name: String, size: u64, total_chunks: u32 },
    Chunk { file_name: String, index: u32, data: Vec<u8> },
    Complete { file_name: String },
    Ack { file_name: String },
}

/// What a `FileMessage` says.
#[allow(inconsistent_fields)]
#[verifier::ext_equal]
pub ghost enum FileMessageView {
    RequestFile { name: Seq<char> },
    Metadata { name: Seq<char>, size: u64, total_chunks: u32 },
    Chunk { file_name: Seq<char>, index: u32, data: Seq<u8> },
    Complete { file_name: Seq<char> },
    Ack { file_name: Seq<char> },
}

impl View for FileMessage {
    type V = FileMessageView;

    open spec fn view(&self) -> FileMessageView {
        match *self {
            FileMessage::RequestFile { name } => FileMessageView::RequestFile {
                name: name@,
            },
            FileMessage::Metadata { name, size, total_chunks } => FileMessageView::Metadata {
                name: name@,
                size: size,
                total_chunks: total_chunks,
            },
            FileMessage::Chunk { file_name, index, data } => FileMessageView::Chunk {
                file_name: file_name@,
                index: index,
                data: data@,
            },
            FileMessage::Complete { file_name } => FileMessageView::Complete {
                file_name: file_name@,
            },
            FileMessage::Ack { file_name } => FileMessageView::Ack {
                file_name: file_name@,
            },
        }
    }
}

/// A file that came whole.
#[derive(Debug)]
pub struct Delivery {
    pub path: String,
    pub data: Vec<u8>,
}

/// What a `Delivery` holds.
#[verifier::ext_equal]
pub ghost struct DeliveryView {
    pub path: Seq<char>,
    pub data: Seq<u8>,
}

impl View for Delivery {
    type V = DeliveryView;

    open spec fn view(&self) -> DeliveryView {
        DeliveryView {
            path: self.path@,
            data: self.data@,
        }
    }
}

/// A file that is being received.
pub struct ReceiveState {
    pub file_name: String,
    pub total_chunks: u32,
    pub received_chunks: HashMap<u32, Vec<u8>>,
    pub output_path: String,
}

/// What a `ReceiveState` holds.
#[verifier::ext_equal]
pub ghost struct ReceiveStateView {
    pub file_name: Seq<char>,
    pub total_chunks: u32,
    pub received_chunks: Map<u32, Seq<u8>>,
    pub output_path: Seq<char>,
}

impl View for ReceiveState {
    type V = ReceiveStateView;

    open spec fn view(&self) -> ReceiveStateView {
        ReceiveStateView {
            file_name: self.file_name@,
            total_chunks: self.total_chunks,
            received_chunks: self.received_chunks@.map_values(|v: Vec<u8>| v@),
            output_path: self.output_path@,
        }
    }
}

/// Nothing of a file has come.
pub open spec fn receiving(
    file_name: Seq<char>,
    total_chunks: u32,
    output_dir: Seq<char>,
) -> ReceiveStateView {
    ReceiveStateView {
        file_name,
        total_chunks,
        received_chunks: Map::empty(),
        output_path: joined(output_dir, file_name),
    }
}

/// As many chunks came as the file has.
pub open spec fn all_came(s: ReceiveStateView) -> bool {
    s.received_chunks.len() == s.total_chunks
}

/// The state with one chunk more.
pub open spec fn with_chunk(s: ReceiveStateView, index: u32, data: Seq<u8>) -> ReceiveStateView {
    ReceiveStateView { received_chunks: s.received_chunks.insert(index, data), ..s }
}

/// The content of the first `n` chunks, or the first that is missing.
pub open spec fn content_below(received: Map<u32, Seq<u8>>, n: nat) -> Result<Seq<u8>, ErrorView>
    decreases n,
{
    if n == 0 {
        Ok(Seq::empty())
    } else {
        let i = (n - 1) as u32;
        match content_below(received, (n - 1) as nat) {
            Err(e) => Err(e),
            Ok(before) => if received.dom().contains(i) {
                Ok(before + received[i])
            } else {
                Err(ErrorView::LostChunk { index: i as nat })
            },
        }
    }
}

proof fn lemma_loss_stays(received: Map<u32, Seq<u8>>, i: nat, n: nat)
    requires
        i <= n,
        content_below(received, i) is Err,
    ensures
        content_below(received, n) == content_below(received, i),
    decreases n,
{
    if i < n {
        lemma_loss_stays(received, i, (n - 1) as nat);
    }
}

impl ReceiveState {
    pub fn new(file_name: String, total_chunks: u32, output_dir: &str) -> (r: Self)
        ensures
            r@ == receiving(file_name@, total_chunks, output_dir@),
    {
        let output_path = join_path(output_dir, file_name.as_str());
        let r = ReceiveState {
            file_name,
            total_chunks,
            received_chunks: HashMap::new(),
            output_path,
        };
        assert(r@.received_chunks =~= Map::empty());
        r
    }

    /// Whether as many chunks came as the file has.
    pub fn is_complete(&self) -> (r: bool)
        ensures
            r == all_came(self@),
    {
        assert(self@.received_chunks.dom() =~= self.received_chunks@.dom());
        self.received_chunks.len() == self.total_chunks as usize
    }

    /// Takes a chunk.
    pub fn add_chunk(&mut self, index: u32, data: Vec<u8>)
        ensures
            final(self)@ == with_chunk(old(self)@, index, data@),
    {
        let ghost bytes = data@;
        self.received_chunks.insert(index, data);
        assert(self@.received_chunks =~= old(self)@.received_chunks.insert(index, bytes));
    }

    /// The content that is to be written to disk: the chunks in order.
    pub fn content(&self) -> (r: Result<Vec<u8>, Error>)
        ensures
            match r {
                Ok(data) => content_below(self@.received_chunks, self@.total_chunks as nat) == Ok::<
                    Seq<u8>,
                    ErrorView,
                >(data@),
                Err(e) => content_below(self@.received_chunks, self@.total_chunks as nat) == Err::<
                    Seq<u8>,
                    ErrorView,
                >(e@),
            },
    {
        let mut out: Vec<u8> = Vec::new();
        let mut i: u32 = 0;
        assert(self@.received_chunks.dom() =~= self.received_chunks@.dom());
        while i < self.total_chunks
            invariant
                i <= self.total_chunks,
                self@.received_chunks.dom() == self.received_chunks@.dom(),
                content_below(self@.received_chunks, i as nat) == Ok::<Seq<u8>, ErrorView>(out@),
            decreases self.total_chunks - i,
        {
            match self.received_chunks.get(&i) {
                Some(chunk) => {
                    let ghost before = out@;
                    out.extend_from_slice(chunk.as_slice());
                    assert(out@ =~= before + chunk@);
                },
                None => {
                    proof {
                        lemma_loss_stays(
                            self@.received_chunks,
                            (i + 1) as nat,
                            self.total_chunks as nat,
                        );
                    }
                    return Err(Error::LostChunk { index: i });
                },
            }
            i = i + 1;
        }
        Ok(out)
    }
}

/// Cuts a file into chunks; an empty file has none.
pub fn chunk_file(data: &[u8]) -> (r: Vec<Vec<u8>>)
    ensures
        byte_strings(r@) == pieces(data@, CHUNK_SIZE as nat),
{
    cut(data, CHUNK_SIZE)
}

/// The messages of the first `n` chunks.
pub open spec fn chunk_messages(name: Seq<char>, chunks: Seq<Seq<u8>>, n: nat) -> Seq<
    FileMessageView,
> {
    Seq::new(
        n,
        |i: int| FileMessageView::Chunk { file_name: name, index: i as u32, data: chunks[i] },
    )
}

/// The messages by which a file is sent.
pub open spec fn transfer_messages(name: Seq<char>, data: Seq<u8>) -> Seq<FileMessageView> {
    let chunks = pieces(data, CHUNK_SIZE as nat);
    seq![
        FileMessageView::Metadata {
            name,
            size: data.len() as u64,
            total_chunks: chunks.len() as u32,
        },
    ] + chunk_messages(name, chunks, chunks.len()) + seq![
        FileMessageView::Complete { file_name: name },
    ]
}

/// The views of a list of messages.
pub open spec fn message_views(v: Seq<FileMessage>) -> Seq<FileMessageView> {
    v.map_values(|m: FileMessage| m@)
}

/// The messages by which a file is sent.
pub fn prepare_file_transfer(file_path: &str, data: &[u8]) -> (r: Result<Vec<FileMessage>, Error>)
    ensures
        match r {
            Ok(messages) => {
                &&& has_file_name(file_path@)
                &&& message_views(messages@) == transfer_messages(
                    last_component(file_path@),
                    data@,
                )
            },
            Err(e) => !has_file_name(file_path@) && e@ == ErrorView::InvalidFileName,
        },
{
    let name = match file_name(file_path) {
        Some(n) => n,
        None => {
            return Err(Error::InvalidFileName);
        },
    };
    let chunks = chunk_file(data);
    let ghost all = pieces(data@, CHUNK_SIZE as nat);
    let mut messages: Vec<FileMessage> = Vec::new();
    messages.push(
        FileMessage::Metadata {
            name: name.clone(),
            size: data.len() as u64,
            total_chunks: chunks.len() as u32,
        },
    );
    let ghost first = FileMessageView::Metadata {
        name: name@,
        size: data@.len() as u64,
        total_chunks: all.len() as u32,
    };
    assert(message_views(messages@) =~= seq![first] + chunk_messages(name@, all, 0));
    let mut i: usize = 0;
    while i < chunks.len()
        invariant
            byte_strings(chunks@) == all,
            i <= chunks@.len(),
            message_views(messages@) == seq![first] + chunk_messages(name@, all, i as nat),
        decreases chunks.len() - i,
    {
        let ghost before = message_views(messages@);
        assert(all[i as int] == chunks@[i as int]@);
        let m = FileMessage::Chunk {
            file_name: name.clone(),
            index: i as u32,
            data: slice_to_vec(chunks[i].as_slice()),
        };
        let ghost mv = m@;
        messages.push(m);
        i = i + 1;
        assert(message_views(messages@) =~= before.push(mv));
        assert(message_views(messages@) =~= seq![first] + chunk_messages(name@, all, i as nat));
    }
    let ghost before = message_views(messages@);
    messages.push(FileMessage::Complete { file_name: name });
    assert(message_views(messages@) =~= transfer_messages(last_component(file_path@), data@));
    Ok(messages)
}

/// What a message does to the files that are being received.
pub open spec fn message_state(
    message: FileMessageView,
    states: Seq<(Seq<char>, ReceiveStateView)>,
    output_dir: Seq<char>,
) -> Seq<(Seq<char>, ReceiveStateView)> {
    match message {
        FileMessageView::Metadata { name, size, total_chunks } => put(
            states,
            name,
            receiving(name, total_chunks, output_dir),
        ),
        FileMessageView::Chunk { file_name, index, data } => match lookup(states, file_name) {
            Some(s) => put(states, file_name, with_chunk(s, index, data)),
            None => states,
        },
        _ => states,
    }
}

/// The file that a message completes, if it does.
pub open spec fn message_delivers(
    message: FileMessageView,
    states: Seq<(Seq<char>, ReceiveStateView)>,
) -> Option<Result<DeliveryView, ErrorView>> {
    match message {
        FileMessageView::Chunk { file_name, index, data } => match lookup(states, file_name) {
            Some(s) => {
                let s1 = with_chunk(s, index, data);
                if all_came(s1) {
                    match content_below(s1.received_chunks, s1.total_chunks as nat) {
                        Ok(content) => Some(
                            Ok(DeliveryView { path: s1.output_path, data: content }),
                        ),
                        Err(e) => Some(Err(e)),
                    }
                } else {
                    None
                }
            },
            None => None,
        },
        _ => None,
    }
}

/// Handles a message. With the last chunk of a file the file is delivered, and
/// stays known until it was written.
pub fn handle_file_message(
    message: FileMessage,
    receive_states: &mut Assoc<String, ReceiveState>,
    output_dir: &str,
) -> (r: Result<Option<Delivery>, Error>)
    ensures
        final(receive_states)@ == message_state(message@, old(receive_states)@, output_dir@),
        match message_delivers(message@, old(receive_states)@) {
            None => r matches Ok(None),
            Some(Ok(d)) => r matches Ok(Some(delivery)) && delivery@ == d,
            Some(Err(e)) => r matches Err(e2) && e2@ == e,
        },
{
    match message {
        FileMessage::Metadata { name, size: _, total_chunks } => {
            let state = ReceiveState::new(name.clone(), total_chunks, output_dir);
            receive_states.insert(name, state);
            Ok(None)
        },
        FileMessage::Chunk { file_name, index, data } => {
            let ghost all = receive_states@;
            match receive_states.place(&file_name) {
                None => Ok(None),
                Some(i) => {
                    let state = receive_states.value_at_mut(i);
                    state.add_chunk(index, data);
                    let complete = state.is_complete();
                    let ghost s1 = state@;
                    let r = if complete {
                        match state.content() {
                            Ok(data) => Ok(
                                Some(Delivery { path: state.output_path.clone(), data }),
                            ),
                            Err(e) => Err(e),
                        }
                    } else {
                        Ok(None)
                    };
                    assert(receive_states@ =~= put(all, file_name@, s1));
                    r
                },
            }
        },
        FileMessage::Complete { file_name: _ } => Ok(None),
        FileMessage::Ack { file_name: _ } => Ok(None),
        FileMessage::RequestFile { name: _ } => Ok(None),
    }
}

/// Forgets a file that was written.
pub fn file_delivered(file_name: &String, receive_states: &mut Assoc<String, ReceiveState>)
    ensures
        final(receive_states)@ == without(old(receive_states)@, file_name@),
{
    receive_states.remove(file_name);
}

/// What the first `n` messages do to the files that are being received.
pub open spec fn messages_state(
    messages: Seq<FileMessageView>,
    n: nat,
    states: Seq<(Seq<char>, ReceiveStateView)>,
    output_dir: Seq<char>,
) -> Seq<(Seq<char>, ReceiveStateView)>
    decreases n,
{
    if n == 0 {
        states
    } else {
        message_state(
            messages[n - 1],
            messages_state(messages, (n - 1) as nat, states, output_dir),
            output_dir,
        )
    }
}

/// The first `k` chunks by their indices.
pub open spec fn first_chunks(chunks: Seq<Seq<u8>>, k: nat) -> Map<u32, Seq<u8>> {
    Map::new(|i: u32| i < k, |i: u32| chunks[i as int])
}

proof fn lemma_first_chunks(chunks: Seq<Seq<u8>>, k: nat)
    requires
        k <= chunks.len(),
        k <= u32::MAX,
    ensures
        first_chunks(chunks, k).dom().finite(),
        first_chunks(chunks, k).len() == k,
        k < chunks.len() && k < u32::MAX ==> first_chunks(chunks, k).insert(
            k as u32,
            chunks[k as int],
        ) == first_chunks(chunks, k + 1),
        content_below(first_chunks(chunks, k), k) == Ok::<Seq<u8>, ErrorView>(
            concatenation(chunks.take(k as int)),
        ),
    decreases k,
{
    if k == 0 {
        assert(first_chunks(chunks, 0) =~= Map::empty());
        assert(chunks.take(0) =~= Seq::empty());
    } else {
        let j = (k - 1) as nat;
        lemma_first_chunks(chunks, j);
        assert(first_chunks(chunks, j).insert(j as u32, chunks[j as int]) =~= first_chunks(
            chunks,
            k,
        ));
        lemma_content_prefix(chunks, j, k, j);
        assert(chunks.take(k as int).drop_last() =~= chunks.take(j as int));
    }
    if k < chunks.len() && k < u32::MAX {
        assert(first_chunks(chunks, k).insert(k as u32, chunks[k as int]) =~= first_chunks(
            chunks,
            k + 1,
        ));
    }
}

proof fn lemma_content_prefix(chunks: Seq<Seq<u8>>, j: nat, k: nat, n: nat)
    requires
        n <= j <= k <= chunks.len(),
        k <= u32::MAX,
    ensures
        content_below(first_chunks(chunks, k), n) == content_below(first_chunks(chunks, j), n),
    decreases n,
{
    if n > 0 {
        lemma_content_prefix(chunks, j, k, (n - 1) as nat);
    }
}

proof fn lemma_after_chunks(
    name: Seq<char>,
    data: Seq<u8>,
    k: nat,
    states: Seq<(Seq<char>, ReceiveStateView)>,
    output_dir: Seq<char>,
)
    requires
        k <= pieces(data, CHUNK_SIZE as nat).len() <= u32::MAX,
    ensures
        lookup(
            messages_state(transfer_messages(name, data), k + 1, states, output_dir),
            name,
        ) == Some(
            ReceiveStateView {
                received_chunks: first_chunks(pieces(data, CHUNK_SIZE as nat), k),
                ..receiving(
                    name,
                    pieces(data, CHUNK_SIZE as nat).len() as u32,
                    output_dir,
                )
            },
        ),
    decreases k,
{
    let chunks = pieces(data, CHUNK_SIZE as nat);
    let messages = transfer_messages(name, data);
    let total = chunks.len() as u32;
    if k == 0 {
        assert(messages_state(messages, 0, states, output_dir) == states);
        law_put(states, name, receiving(name, total, output_dir), name);
        assert(first_chunks(chunks, 0) =~= Map::empty());
    } else {
        let j = (k - 1) as nat;
        lemma_after_chunks(name, data, j, states, output_dir);
        let before = messages_state(messages, k, states, output_dir);
        assert(messages[k as int] == (FileMessageView::Chunk {
            file_name: name,
            index: j as u32,
            data: chunks[j as int],
        }));
        let s = lookup(before, name)->0;
        law_put(before, name, with_chunk(s, j as u32, chunks[j as int]), name);
        lemma_first_chunks(chunks, j);
    }
}

/// A file that is not empty arrives as it was sent: its last chunk delivers it.
pub proof fn law_sent_file_arrives(
    name: Seq<char>,
    data: Seq<u8>,
    states: Seq<(Seq<char>, ReceiveStateView)>,
    output_dir: Seq<char>,
)
    requires
        data.len() > 0,
        pieces(data, CHUNK_SIZE as nat).len() <= u32::MAX,
    ensures
        ({
            let n = pieces(data, CHUNK_SIZE as nat).len();
            let messages = transfer_messages(name, data);
            &&& messages.len() == n + 2
            &&& message_delivers(
                messages[n as int],
                messages_state(messages, n, states, output_dir),
            ) == Some(
                Ok::<DeliveryView, ErrorView>(
                    DeliveryView { path: joined(output_dir, name), data },
                ),
            )
        }),
{
    let chunks = pieces(data, CHUNK_SIZE as nat);
    let n = chunks.len();
    let messages = transfer_messages(name, data);
    law_pieces_make_up_the_whole(data, CHUNK_SIZE as nat);
    if n == 0 {
        assert(concatenation(chunks) =~= Seq::empty());
    }
    let j = (n - 1) as nat;
    lemma_after_chunks(name, data, j, states, output_dir);
    assert(messages[n as int] == (FileMessageView::Chunk {
        file_name: name,
        index: j as u32,
        data: chunks[j as int],
    }));
    lemma_first_chunks(chunks, j);
    lemma_first_chunks(chunks, n);
    assert(chunks.take(n as int) =~= chunks);
}

/// The messages by which the chunks of a file come in some order.
pub open spec fn messages_in_order(
    name: Seq<char>,
    size: u64,
    chunks: Seq<Seq<u8>>,
    order: Seq<u32>,
) -> Seq<FileMessageView> {
    seq![FileMessageView::Metadata { name, size, total_chunks: chunks.len() as u32 }]
        + order.map_values(
        |i: u32| FileMessageView::Chunk { file_name: name, index: i, data: chunks[i as int] },
    )
}

/// The order names every chunk once.
pub open spec fn is_order_of(order: Seq<u32>, n: nat) -> bool {
    &&& order.len() == n
    &&& order.no_duplicates()
    &&& forall|i: int| 0 <= i < order.len() ==> #[trigger] order[i] < n
}

/// The chunks that the first `k` places of the order name.
spec fn picked(chunks: Seq<Seq<u8>>, order: Seq<u32>, k: nat) -> Map<u32, Seq<u8>>
    decreases k,
{
    if k == 0 {
        Map::empty()
    } else {
        picked(chunks, order, (k - 1) as nat).insert(order[k - 1], chunks[order[k - 1] as int])
    }
}

proof fn lemma_picked(chunks: Seq<Seq<u8>>, order: Seq<u32>, k: nat)
    requires
        is_order_of(order, chunks.len()),
        k <= order.len(),
    ensures
        picked(chunks, order, k).dom().finite(),
        picked(chunks, order, k).len() == k,
        forall|i: u32| #[trigger]
            picked(chunks, order, k).dom().contains(i) ==> i < chunks.len() && picked(
                chunks,
                order,
                k,
            )[i] == chunks[i as int] && exists|j: int| 0 <= j < k && order[j] == i,
    decreases k,
{
    if k > 0 {
        let before = picked(chunks, order, (k - 1) as nat);
        lemma_picked(chunks, order, (k - 1) as nat);
        let last = order[k - 1];
        if before.dom().contains(last) {
            let j = choose|j: int| 0 <= j < k - 1 && order[j] == last;
            assert(order[j] == order[k - 1]);
        }
        assert forall|i: u32| #[trigger] picked(chunks, order, k).dom().contains(i) implies i
            < chunks.len() && picked(chunks, order, k)[i] == chunks[i as int] && exists|j: int|
            0 <= j < k && order[j] == i by {
            if i == last {
                assert(order[k - 1] == i);
            } else {
                assert(before.dom().contains(i));
                let j = choose|j: int| 0 <= j < k - 1 && order[j] == i;
                assert(order[j] == i);
            }
        }
    }
}

proof fn lemma_all_picked(chunks: Seq<Seq<u8>>, order: Seq<u32>)
    requires
        is_order_of(order, chunks.len()),
        chunks.len() <= u32::MAX,
    ensures
        picked(chunks, order, order.len()) == first_chunks(chunks, chunks.len()),
{
    let n = chunks.len();
    lemma_picked(chunks, order, n);
    lemma_first_chunks(chunks, n);
    let some = picked(chunks, order, n);
    let all = first_chunks(chunks, n);
    assert(some.dom().subset_of(all.dom()));
    vstd::set_lib::lemma_subset_equality(some.dom(), all.dom());
    assert(some =~= all);
}

proof fn lemma_after_picked(
    name: Seq<char>,
    size: u64,
    chunks: Seq<Seq<u8>>,
    order: Seq<u32>,
    k: nat,
    states: Seq<(Seq<char>, ReceiveStateView)>,
    output_dir: Seq<char>,
    other: Seq<char>,
)
    requires
        is_order_of(order, chunks.len()),
        k <= order.len(),
    ensures
        ({
            let after = messages_state(
                messages_in_order(name, size, chunks, order),
                k + 1,
                states,
                output_dir,
            );
            &&& lookup(after, name) == Some(
                ReceiveStateView {
                    received_chunks: picked(chunks, order, k),
                    ..receiving(name, chunks.len() as u32, output_dir)
                },
            )
            &&& other != name ==> lookup(after, other) == lookup(states, other)
            &&& distinct(states) ==> distinct(after)
        }),
    decreases k,
{
    let messages = messages_in_order(name, size, chunks, order);
    let total = chunks.len() as u32;
    if k == 0 {
        assert(messages_state(messages, 0, states, output_dir) == states);
        law_put(states, name, receiving(name, total, output_dir), name);
        law_put(states, name, receiving(name, total, output_dir), other);
    } else {
        let j = (k - 1) as nat;
        lemma_after_picked(name, size, chunks, order, j, states, output_dir, other);
        let before = messages_state(messages, k, states, output_dir);
        let s = lookup(before, name)->0;
        let index = order[j as int];
        assert(messages[k as int] == (FileMessageView::Chunk {
            file_name: name,
            index,
            data: chunks[index as int],
        }));
        law_put(before, name, with_chunk(s, index, chunks[index as int]), name);
        law_put(before, name, with_chunk(s, index, chunks[index as int]), other);
    }
}

/// The chunks of a file may come in any order: no chunk but the last delivers the
/// file, the last one delivers it whole, no other file is touched, and once it was
/// written the file is forgotten.
pub proof fn law_chunks_may_come_in_any_order(
    name: Seq<char>,
    size: u64,
    chunks: Seq<Seq<u8>>,
    order: Seq<u32>,
    states: Seq<(Seq<char>, ReceiveStateView)>,
    output_dir: Seq<char>,
    k: int,
    other: Seq<char>,
)
    requires
        1 <= chunks.len() <= u32::MAX,
        is_order_of(order, chunks.len()),
        distinct(states),
    ensures
        ({
            let n = chunks.len();
            let messages = messages_in_order(name, size, chunks, order);
            let after = messages_state(messages, n + 1, states, output_dir);
            &&& messages.len() == n + 1
            &&& message_delivers(messages[0], states) is None
            &&& 1 <= k < n ==> message_delivers(
                messages[k],
                messages_state(messages, k as nat, states, output_dir),
            ) is None
            &&& message_delivers(
                messages[n as int],
                messages_state(messages, n, states, output_dir),
            ) == Some(
                Ok::<DeliveryView, ErrorView>(
                    DeliveryView { path: joined(output_dir, name), data: concatenation(chunks) },
                ),
            )
            &&& !has_key(without(after, name), name)
            &&& other != name ==> lookup(without(after, name), other) == lookup(states, other)
        }),
{
    let n = chunks.len();
    let messages = messages_in_order(name, size, chunks, order);
    let last = (n - 1) as nat;
    if 1 <= k < n {
        let j = (k - 1) as nat;
        lemma_after_picked(name, size, chunks, order, j, states, output_dir, other);
        lemma_picked(chunks, order, k as nat);
        assert(messages[k] == (FileMessageView::Chunk {
            file_name: name,
            index: order[j as int],
            data: chunks[order[j as int] as int],
        }));
    }
    lemma_after_picked(name, size, chunks, order, last, states, output_dir, other);
    lemma_after_picked(name, size, chunks, order, n, states, output_dir, other);
    lemma_picked(chunks, order, n);
    lemma_all_picked(chunks, order);
    lemma_first_chunks(chunks, n);
    assert(messages[n as int] == (FileMessageView::Chunk {
        file_name: name,
        index: order[last as int],
        data: chunks[order[last as int] as int],
    }));
    assert(chunks.take(n as int) =~= chunks);
    let after = messages_state(messages, n + 1, states, output_dir);
    law_without(after, name, name);
    law_without(after, name, other);
}

/// A file is sent as its name, size and number of chunks, then every chunk with its place,
/// then the word that it is complete. Every chunk but the last has a mebibyte, the last is
/// not empty, and put together they are the file.
pub proof fn law_file_is_sent_whole(name: Seq<char>, data: Seq<u8>, i: int)
    requires
        data.len() <= u64::MAX,
        pieces(data, 1048576).len() <= u32::MAX,
    ensures
        ({
            let messages = transfer_messages(name, data);
            let chunks = pieces(data, 1048576);
            let n = chunks.len();
            &&& messages.len() == n + 2
            &&& messages[0] == (FileMessageView::Metadata {
                name,
                size: data.len() as u64,
                total_chunks: n as u32,
            })
            &&& 0 <= i < n ==> messages[1 + i] == (FileMessageView::Chunk {
                file_name: name,
                index: i as u32,
                data: chunks[i],
            })
            &&& messages.last() == (FileMessageView::Complete { file_name: name })
            &&& concatenation(chunks) == data
            &&& 0 <= i < n ==> 0 < chunks[i].len() <= 1048576
        }),
{
    law_pieces_make_up_the_whole(data, 1048576);
}

/// An announced file is received from its beginning, to be written under its name in the
/// folder. A chunk goes to its place in the file that it belongs to; one of a file that
/// was not announced is dropped. No other file is touched, and other messages change
/// nothing.
pub proof fn law_messages_reach_their_file(
    states: Seq<(Seq<char>, ReceiveStateView)>,
    output_dir: Seq<char>,
    name: Seq<char>,
    size: u64,
    total: u32,
    index: u32,
    data: Seq<u8>,
    other: Seq<char>,
)
    ensures
        ({
            let announced = message_state(
                FileMessageView::Metadata { name, size, total_chunks: total },
                states,
                output_dir,
            );
            let chunk = FileMessageView::Chunk { file_name: name, index, data };
            let after = message_state(chunk, states, output_dir);
            &&& lookup(announced, name) == Some(
                ReceiveStateView {
                    file_name: name,
                    total_chunks: total,
                    received_chunks: Map::empty(),
                    output_path: joined(output_dir, name),
                },
            )
            &&& other != name ==> lookup(announced, other) == lookup(states, other)
            &&& lookup(states, name) is None ==> after == states && message_delivers(
                chunk,
                states,
            ) is None
            &&& lookup(states, name) matches Some(s) ==> lookup(after, name) == Some(
                ReceiveStateView {
                    received_chunks: s.received_chunks.insert(index, data),
                    ..s
                },
            ) && (other != name ==> lookup(after, other) == lookup(states, other))
            &&& message_state(
                FileMessageView::Complete { file_name: name },
                states,
                output_dir,
            ) == states
            &&& message_state(FileMessageView::Ack { file_name: name }, states, output_dir)
                == states
            &&& message_state(FileMessageView::RequestFile { name }, states, output_dir) == states
        }),
{
    law_put(
        states,
        name,
        ReceiveStateView {
            file_name: name,
            total_chunks: total,
            received_chunks: Map::empty(),
            output_path: joined(output_dir, name),
        },
        other,
    );
    if let Some(s) = lookup(states, name) {
        law_put(
            states,
            name,
            ReceiveStateView { received_chunks: s.received_chunks.insert(index, data), ..s },
            other,
        );
    }
}

/// What is delivered is every chunk of the file, in order; a file of which a chunk is
/// missing is not delivered.
pub proof fn law_only_whole_files_are_delivered(
    message: FileMessageView,
    states: Seq<(Seq<char>, ReceiveStateView)>,
    i: int,
)
    ensures
        message_delivers(message, states) matches Some(Ok(d)) ==> (message matches
            FileMessageView::Chunk { file_name, index, data } && (lookup(states, file_name)
            matches Some(s) && {
            let came = s.received_chunks.insert(index, data);
            &&& d.path == s.output_path
            &&& came.len() == s.total_chunks
            &&& 0 <= i < s.total_chunks ==> came.dom().contains(i as u32)
            &&& d.data == concatenation(
                Seq::new(s.total_chunks as nat, |k: int| came[k as u32]),
            )
        })),
{
    if let FileMessageView::Chunk { file_name, index, data } = message {
        if let Some(s) = lookup(states, file_name) {
            let came = s.received_chunks.insert(index, data);
            lemma_content(came, s.total_chunks as nat, i);
        }
    }
}

proof fn lemma_content(received: Map<u32, Seq<u8>>, n: nat, i: int)
    requires
        n <= u32::MAX,
    ensures
        content_below(received, n) matches Ok(data) ==> (0 <= i < n ==> received.dom().contains(
            i as u32,
        )) && data == concatenation(Seq::new(n, |k: int| received[k as u32])),
    decreases n,
{
    let all = Seq::new(n, |k: int| received[k as u32]);
    if n > 0 {
        lemma_content(received, (n - 1) as nat, i);
        let some = Seq::new((n - 1) as nat, |k: int| received[k as u32]);
        assert(all.drop_last() =~= some);
    } else {
        assert(all =~= Seq::<Seq<u8>>::empty());
    }
}

/// Of a file that is not whole, the first chunk that did not come is named.
pub proof fn law_first_lost_chunk_is_named(received: Map<u32, Seq<u8>>, n: nat, first: u32)
    requires
        first < n <= u32::MAX,
        !received.dom().contains(first),
        forall|i: u32| i < first ==> #[trigger] received.dom().contains(i),
    ensures
        content_below(received, n) == Err::<Seq<u8>, ErrorView>(
            ErrorView::LostChunk { index: first as nat },
        ),
    decreases n,
{
    lemma_present_chunks(received, first as nat);
    if n > first + 1 {
        law_first_lost_chunk_is_named(received, (n - 1) as nat, first);
    }
}

proof fn lemma_present_chunks(received: Map<u32, Seq<u8>>, n: nat)
    requires
        n <= u32::MAX,
        forall|i: u32| i < n ==> #[trigger] received.dom().contains(i),
    ensures
        content_below(received, n) is Ok,
    decreases n,
{
    if n > 0 {
        lemma_present_chunks(received, (n - 1) as nat);
        assert(received.dom().contains((n - 1) as u32));
    }
}

} // verus!
