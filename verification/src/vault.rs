//! The container in which a file rests encrypted.
//!
//! A container begins with a header of 40 bytes: a magic of 8 bytes, the random
//! id of the file (16), the number of chunks (4), the size of the plaintext (8)
//! and 4 reserved bytes. One record per chunk follows: the hash of the
//! plaintext (32), the length of the block (4), and the encrypted block, whose
//! associated data is the file's id and the chunk's position. Numbers are
//! little-endian.
use crate::crypto::{
    decrypt_with_aad, encrypt_with_aad, id_array, key_array, opened_block, position_aad,
    sealed_block,
};
use crate::error::{Error, ErrorView};
use crate::primitives::{blake3_digest, blake3_hash, random_bytes, AEAD_MESSAGE_MAX};
use vstd::bytes::{
    lemma_auto_spec_u32_to_from_le_bytes, lemma_auto_spec_u64_to_from_le_bytes,
    spec_u32_from_le_bytes, spec_u32_to_le_bytes, spec_u64_from_le_bytes, spec_u64_to_le_bytes,
    u32_from_le_bytes, u32_to_le_bytes, u64_from_le_bytes, u64_to_le_bytes,
};
use vstd::prelude::*;
use vstd::slice::slice_subrange;

verus! {

/// The first bytes of every container.
pub const VAULT_MAGIC: [u8; 8] = [86, 73, 84, 86, 48, 49, 0, 0];

/// The mark at the beginning of a stored chunk's associated data.
pub const VAULT_TAG: [u8; 16] = [
    118, 105, 116, 118, 48, 50, 45, 118, 97, 117, 108, 116, 0, 0, 0, 0,
];

pub const VAULT_HEADER_LEN: usize = 40;

/// The length of a record's hash and length prefix.
pub const VAULT_RECORD_HEAD_LEN: usize = 36;

/// The byte strings that a list of buffers holds.
pub open spec fn byte_strings(v: Seq<Vec<u8>>) -> Seq<Seq<u8>> {
    v.map_values(|b: Vec<u8>| b@)
}

/// The arrays of a list as byte strings.
pub open spec fn hash_strings(v: Seq<[u8; 32]>) -> Seq<Seq<u8>> {
    v.map_values(|h: [u8; 32]| h@)
}

/// All bytes of a list of byte strings, in order.
pub open spec fn concatenation(parts: Seq<Seq<u8>>) -> Seq<u8>
    decreases parts.len(),
{
    if parts.len() == 0 {
        Seq::empty()
    } else {
        concatenation(parts.drop_last()) + parts.last()
    }
}

/// The length that a record at `at` gives its block.
pub open spec fn block_len(file: Seq<u8>, at: int) -> int {
    spec_u32_from_le_bytes(file.subrange(at + 32, at + 36)) as int
}

/// Where record `i` begins.
pub open spec fn record_start(file: Seq<u8>, i: nat) -> int
    decreases i,
{
    if i == 0 {
        VAULT_HEADER_LEN as int
    } else {
        let before = record_start(file, (i - 1) as nat);
        before + VAULT_RECORD_HEAD_LEN + block_len(file, before)
    }
}

/// The hash and the length of record `i` are there.
pub open spec fn has_record_head(file: Seq<u8>, i: nat) -> bool {
    record_start(file, i) + VAULT_RECORD_HEAD_LEN <= file.len()
}

/// Record `i` is there as a whole.
pub open spec fn has_record(file: Seq<u8>, i: nat) -> bool {
    record_start(file, i + 1) <= file.len()
}

pub open spec fn record_hash(file: Seq<u8>, i: nat) -> Seq<u8> {
    file.subrange(record_start(file, i), record_start(file, i) + 32)
}

pub open spec fn record_block(file: Seq<u8>, i: nat) -> Seq<u8> {
    file.subrange(record_start(file, i) + VAULT_RECORD_HEAD_LEN, record_start(file, i + 1))
}

/// What the header says: the file's id, how many chunks it has, and how long
/// the plaintext is.
pub open spec fn vault_header(file: Seq<u8>) -> Result<(Seq<u8>, u32, u64), ErrorView> {
    if file.len() < VAULT_HEADER_LEN {
        Err(ErrorView::VaultHeaderRead)
    } else if file.take(8) != VAULT_MAGIC@ {
        Err(ErrorView::BadMagic)
    } else {
        Ok(
            (
                file.subrange(8, 24),
                spec_u32_from_le_bytes(file.subrange(24, 28)),
                spec_u64_from_le_bytes(file.subrange(28, 36)),
            ),
        )
    }
}

/// The hashes of the first `n` records.
pub open spec fn vault_hashes(file: Seq<u8>, n: nat) -> Result<Seq<Seq<u8>>, ErrorView> {
    if n > 0 && !has_record_head(file, (n - 1) as nat) {
        Err(ErrorView::UnexpectedEnd)
    } else {
        Ok(Seq::new(n, |i: int| record_hash(file, i as nat)))
    }
}

/// The plaintext of chunk `index`.
pub open spec fn vault_chunk(file: Seq<u8>, index: u32, key: Seq<u8>) -> Result<
    Seq<u8>,
    ErrorView,
> {
    match vault_header(file) {
        Err(e) => Err(e),
        Ok((uuid, total, size)) => if index >= total {
            Err(ErrorView::ChunkOutOfRange { index: index as nat, total: total as nat })
        } else if !has_record_head(file, index as nat) || !has_record(file, index as nat) {
            Err(ErrorView::UnexpectedEnd)
        } else {
            match opened_block(
                key,
                record_block(file, index as nat),
                position_aad(VAULT_TAG@, uuid, index),
            ) {
                None => Err(ErrorView::VaultChunkDecrypt),
                Some(plain) => Ok(plain),
            }
        },
    }
}

/// The plaintext of the first `n` chunks, or what stopped its reading.
pub open spec fn exported(file: Seq<u8>, uuid: Seq<u8>, n: nat, key: Seq<u8>) -> Result<
    Seq<u8>,
    ErrorView,
>
    decreases n,
{
    if n == 0 {
        Ok(Seq::empty())
    } else {
        let i = (n - 1) as nat;
        match exported(file, uuid, i, key) {
            Err(e) => Err(e),
            Ok(before) => if !has_record_head(file, i) || !has_record(file, i) {
                Err(ErrorView::UnexpectedEnd)
            } else {
                match opened_block(
                    key,
                    record_block(file, i),
                    position_aad(VAULT_TAG@, uuid, i as u32),
                ) {
                    None => Err(ErrorView::VaultExportDecrypt),
                    Some(plain) => Ok(before + plain),
                }
            },
        }
    }
}

/// The size and the whole plaintext of a container.
pub open spec fn vault_plaintext(file: Seq<u8>, key: Seq<u8>) -> Result<
    (u64, Seq<u8>),
    ErrorView,
> {
    match vault_header(file) {
        Err(e) => Err(e),
        Ok((uuid, total, size)) => match exported(file, uuid, total as nat, key) {
            Err(e) => Err(e),
            Ok(plain) => Ok((size, plain)),
        },
    }
}

/// Why a chunk cannot be stored, if it cannot.
pub open spec fn chunk_fault(chunk: Seq<u8>) -> Option<ErrorView> {
    if chunk.len() > AEAD_MESSAGE_MAX {
        Some(ErrorView::VaultChunkEncrypt)
    } else if chunk.len() + 28 > u32::MAX {
        Some(ErrorView::ChunkTooBig)
    } else {
        None
    }
}

/// The first reason against storing these chunks, if there is one.
pub open spec fn chunks_fault(chunks: Seq<Seq<u8>>) -> Option<ErrorView>
    decreases chunks.len(),
{
    if chunks.len() == 0 {
        None
    } else {
        match chunks_fault(chunks.drop_last()) {
            Some(e) => Some(e),
            None => chunk_fault(chunks.last()),
        }
    }
}

/// Why these chunks cannot become a container, if they cannot.
pub open spec fn vault_fault(chunks: Seq<Seq<u8>>) -> Option<ErrorView> {
    if chunks.len() > u32::MAX {
        Some(ErrorView::TooManyChunks)
    } else {
        chunks_fault(chunks)
    }
}

/// The header of a container.
pub open spec fn header_bytes(uuid: Seq<u8>, total: u32, size: u64) -> Seq<u8> {
    VAULT_MAGIC@ + uuid + spec_u32_to_le_bytes(total) + spec_u64_to_le_bytes(size)
        + seq![0u8, 0u8, 0u8, 0u8]
}

/// Record `i` of the file holds this chunk under this key, with some nonce.
pub open spec fn holds_chunk(
    file: Seq<u8>,
    i: nat,
    uuid: Seq<u8>,
    chunk: Seq<u8>,
    key: Seq<u8>,
) -> bool {
    let block = record_block(file, i);
    let aad = position_aad(VAULT_TAG@, uuid, i as u32);
    &&& has_record_head(file, i)
    &&& has_record(file, i)
    &&& record_hash(file, i) == blake3_digest(chunk)
    &&& block.len() == chunk.len() + 28
    &&& block == sealed_block(key, block.take(12), chunk, aad)
    &&& opened_block(key, block, aad) == Some(chunk)
}

/// The file is a container of these chunks: the header, one record for each
/// chunk, and nothing more.
pub open spec fn is_vault_of(
    file: Seq<u8>,
    uuid: Seq<u8>,
    chunks: Seq<Seq<u8>>,
    key: Seq<u8>,
) -> bool {
    &&& uuid.len() == 16
    &&& chunks.len() <= u32::MAX
    &&& concatenation(chunks).len() <= u64::MAX
    &&& file.len() >= VAULT_HEADER_LEN
    &&& file.take(40) == header_bytes(
        uuid,
        chunks.len() as u32,
        concatenation(chunks).len() as u64,
    )
    &&& forall|i: int|
        0 <= i < chunks.len() ==> #[trigger] holds_chunk(file, i as nat, uuid, chunks[i], key)
    &&& record_start(file, chunks.len()) == file.len()
}

proof fn lemma_starts_grow(file: Seq<u8>, i: nat, j: nat)
    requires
        i <= j,
    ensures
        record_start(file, i) + 36 * (j - i) <= record_start(file, j),
        record_start(file, i) >= 40,
    decreases j,
{
    if i < j {
        lemma_starts_grow(file, i, (j - 1) as nat);
    } else if i > 0 {
        lemma_starts_grow(file, (i - 1) as nat, (i - 1) as nat);
    }
}

/// What stands in a file stays where it is when more is appended.
proof fn lemma_starts_stay(file: Seq<u8>, longer: Seq<u8>, i: nat)
    requires
        file.len() <= longer.len(),
        longer.take(file.len() as int) == file,
        record_start(file, i) <= file.len(),
    ensures
        record_start(longer, i) == record_start(file, i),
    decreases i,
{
    if i > 0 {
        let k = (i - 1) as nat;
        lemma_starts_grow(file, k, i);
        lemma_starts_stay(file, longer, k);
        let at = record_start(file, k);
        assert(longer.subrange(at + 32, at + 36) =~= file.subrange(at + 32, at + 36));
    }
}

proof fn lemma_holds_stays(
    file: Seq<u8>,
    longer: Seq<u8>,
    i: nat,
    uuid: Seq<u8>,
    chunk: Seq<u8>,
    key: Seq<u8>,
)
    requires
        file.len() <= longer.len(),
        longer.take(file.len() as int) == file,
        holds_chunk(file, i, uuid, chunk, key),
    ensures
        holds_chunk(longer, i, uuid, chunk, key),
{
    lemma_starts_grow(file, i, i + 1);
    lemma_starts_stay(file, longer, i);
    lemma_starts_stay(file, longer, i + 1);
    assert(record_hash(longer, i) =~= record_hash(file, i));
    assert(record_block(longer, i) =~= record_block(file, i));
}

/// Once the reading of chunks has failed, more chunks change nothing.
proof fn lemma_failure_stays(file: Seq<u8>, uuid: Seq<u8>, i: nat, n: nat, key: Seq<u8>)
    requires
        i <= n,
        exported(file, uuid, i, key) is Err,
    ensures
        exported(file, uuid, n, key) == exported(file, uuid, i, key),
    decreases n,
{
    if i < n {
        lemma_failure_stays(file, uuid, i, (n - 1) as nat, key);
    }
}

proof fn lemma_fault_stays(chunks: Seq<Seq<u8>>, n: int)
    requires
        0 <= n <= chunks.len(),
        chunks_fault(chunks.take(n)) is Some,
    ensures
        chunks_fault(chunks) == chunks_fault(chunks.take(n)),
    decreases chunks.len(),
{
    if n == chunks.len() {
        assert(chunks.take(n) =~= chunks);
    } else {
        assert(chunks.drop_last().take(n) =~= chunks.take(n));
        lemma_fault_stays(chunks.drop_last(), n);
    }
}

/// Chunks that can be stored have together at most so many bytes.
proof fn lemma_stored_len(chunks: Seq<Seq<u8>>)
    requires
        chunks_fault(chunks) is None,
    ensures
        concatenation(chunks).len() <= chunks.len() * u32::MAX,
    decreases chunks.len(),
{
    if chunks.len() > 0 {
        lemma_stored_len(chunks.drop_last());
        let n = (chunks.len() - 1) as int;
        assert((n + 1) * u32::MAX == n * u32::MAX + u32::MAX) by (nonlinear_arith);
    }
}

/// The first `n` chunks of a container are read back in order.
proof fn lemma_exported_prefix(
    file: Seq<u8>,
    uuid: Seq<u8>,
    chunks: Seq<Seq<u8>>,
    key: Seq<u8>,
    n: nat,
)
    requires
        is_vault_of(file, uuid, chunks, key),
        n <= chunks.len(),
    ensures
        exported(file, uuid, n, key) == Ok::<Seq<u8>, ErrorView>(
            concatenation(chunks.take(n as int)),
        ),
    decreases n,
{
    if n > 0 {
        let i = (n - 1) as nat;
        lemma_exported_prefix(file, uuid, chunks, key, i);
        assert(holds_chunk(file, i as int as nat, uuid, chunks[i as int], key));
        assert(chunks.take(n as int).drop_last() =~= chunks.take(i as int));
    } else {
        assert(chunks.take(0) =~= Seq::empty());
    }
}

/// What a container was made of is read back from it: the header, every hash,
/// every chunk by itself, and the whole plaintext.
pub proof fn law_vault_gives_back_what_was_stored(
    file: Seq<u8>,
    uuid: Seq<u8>,
    chunks: Seq<Seq<u8>>,
    key: Seq<u8>,
)
    requires
        is_vault_of(file, uuid, chunks, key),
    ensures
        vault_header(file) == Ok::<(Seq<u8>, u32, u64), ErrorView>(
            (uuid, chunks.len() as u32, concatenation(chunks).len() as u64),
        ),
        vault_hashes(file, chunks.len()) == Ok::<Seq<Seq<u8>>, ErrorView>(
            chunks.map_values(|c: Seq<u8>| blake3_digest(c)),
        ),
        forall|i: u32|
            i < chunks.len() ==> #[trigger] vault_chunk(file, i, key) == Ok::<Seq<u8>, ErrorView>(
                chunks[i as int],
            ),
        vault_plaintext(file, key) == Ok::<(u64, Seq<u8>), ErrorView>(
            (concatenation(chunks).len() as u64, concatenation(chunks)),
        ),
{
    let total = chunks.len() as u32;
    let size = concatenation(chunks).len() as u64;
    let head = header_bytes(uuid, total, size);
    lemma_auto_spec_u32_to_from_le_bytes();
    lemma_auto_spec_u64_to_from_le_bytes();
    assert(head =~= file.take(40));
    assert(file.take(8) =~= head.subrange(0, 8));
    assert(head.subrange(0, 8) =~= VAULT_MAGIC@);
    assert(file.subrange(8, 24) =~= head.subrange(8, 24));
    assert(head.subrange(8, 24) =~= uuid);
    assert(file.subrange(24, 28) =~= head.subrange(24, 28));
    assert(head.subrange(24, 28) =~= spec_u32_to_le_bytes(total));
    assert(file.subrange(28, 36) =~= head.subrange(28, 36));
    assert(head.subrange(28, 36) =~= spec_u64_to_le_bytes(size));
    assert(spec_u32_from_le_bytes(spec_u32_to_le_bytes(total)) == total);
    assert(spec_u64_from_le_bytes(spec_u64_to_le_bytes(size)) == size);
    if chunks.len() > 0 {
        let last = (chunks.len() - 1) as nat;
        assert(holds_chunk(file, last as int as nat, uuid, chunks[last as int], key));
    }
    assert forall|i: int| 0 <= i < chunks.len() implies record_hash(file, i as nat)
        == blake3_digest(chunks[i]) by {
        assert(holds_chunk(file, i as nat, uuid, chunks[i], key));
    }
    assert(Seq::new(chunks.len(), |i: int| record_hash(file, i as nat)) =~= chunks.map_values(
        |c: Seq<u8>| blake3_digest(c),
    ));
    assert forall|i: u32| i < chunks.len() implies #[trigger] vault_chunk(file, i, key) == Ok::<
        Seq<u8>,
        ErrorView,
    >(chunks[i as int]) by {
        assert(holds_chunk(file, i as int as nat, uuid, chunks[i as int], key));
    }
    lemma_exported_prefix(file, uuid, chunks, key, chunks.len());
    assert(chunks.take(chunks.len() as int) =~= chunks);
}

/// The associated data of a stored chunk.
pub fn vault_chunk_aad(file_uuid: &[u8; 16], chunk_index: u32) -> (r: Vec<u8>)
    ensures
        r@ == position_aad(VAULT_TAG@, file_uuid@, chunk_index),
{
    let mut aad: Vec<u8> = Vec::new();
    aad.extend_from_slice(VAULT_TAG.as_slice());
    aad.extend_from_slice(file_uuid.as_slice());
    let index_bytes = u32_to_le_bytes(chunk_index);
    aad.extend_from_slice(index_bytes.as_slice());
    assert(aad@ =~= position_aad(VAULT_TAG@, file_uuid@, chunk_index));
    aad
}

/// Reads the header of a container: the file's id, the number of chunks, and
/// the size of the plaintext.
pub fn read_vault_header(file: &[u8]) -> (r: Result<([u8; 16], u32, u64), Error>)
    ensures
        match r {
            Ok((uuid, total, size)) => vault_header(file@) == Ok::<
                (Seq<u8>, u32, u64),
                ErrorView,
            >((uuid@, total, size)),
            Err(e) => vault_header(file@) == Err::<(Seq<u8>, u32, u64), ErrorView>(e@),
        },
{
    if file.len() < VAULT_HEADER_LEN {
        return Err(Error::VaultHeaderRead);
    }
    let mut i: usize = 0;
    while i < 8
        invariant
            i <= 8,
            file@.len() >= VAULT_HEADER_LEN,
            forall|j: int| 0 <= j < i ==> file@[j] == VAULT_MAGIC@[j],
        decreases 8 - i,
    {
        if file[i] != VAULT_MAGIC[i] {
            assert(file@.take(8)[i as int] != VAULT_MAGIC@[i as int]);
            return Err(Error::BadMagic);
        }
        i = i + 1;
    }
    assert(file@.take(8) =~= VAULT_MAGIC@);
    let uuid = id_array(slice_subrange(file, 8, 24));
    assert(file@.subrange(8, 24).take(16) =~= file@.subrange(8, 24));
    let total = u32_from_le_bytes(slice_subrange(file, 24, 28));
    let size = u64_from_le_bytes(slice_subrange(file, 28, 36));
    Ok((uuid, total, size))
}

/// The length of the block whose record begins at `at`, if its head is there.
fn read_block_len(file: &[u8], at: usize) -> (r: Option<u32>)
    requires
        at <= file@.len(),
    ensures
        r is Some <==> at + VAULT_RECORD_HEAD_LEN <= file@.len(),
        r matches Some(n) ==> n == block_len(file@, at as int),
{
    if file.len() - at < VAULT_RECORD_HEAD_LEN {
        return None;
    }
    Some(u32_from_le_bytes(slice_subrange(file, at + 32, at + 36)))
}

/// Where record `index` begins, if its head is there.
fn find_record(file: &[u8], index: u32) -> (r: Option<usize>)
    requires
        file@.len() >= VAULT_HEADER_LEN,
    ensures
        r is Some <==> has_record_head(file@, index as nat),
        r matches Some(at) ==> at == record_start(file@, index as nat),
{
    let mut at: usize = VAULT_HEADER_LEN;
    let mut i: u32 = 0;
    while i < index
        invariant
            i <= index,
            at <= file@.len(),
            at == record_start(file@, i as nat),
        decreases index - i,
    {
        proof {
            lemma_starts_grow(file@, i as nat, index as nat);
            lemma_starts_grow(file@, (i + 1) as nat, index as nat);
        }
        match read_block_len(file, at) {
            None => {
                return None;
            },
            Some(n) => {
                if (n as u64) > (file.len() - at - VAULT_RECORD_HEAD_LEN) as u64 {
                    assert(record_start(file@, (i + 1) as nat) > file@.len());
                    return None;
                }
                at = at + VAULT_RECORD_HEAD_LEN + n as usize;
            },
        }
        i = i + 1;
    }
    if file.len() - at < VAULT_RECORD_HEAD_LEN {
        None
    } else {
        Some(at)
    }
}

/// Reads the hash of every chunk without decrypting any.
pub fn read_vault_chunk_hashes(file: &[u8], total_chunks: u32) -> (r: Result<
    Vec<[u8; 32]>,
    Error,
>)
    ensures
        match r {
            Ok(hashes) => vault_hashes(file@, total_chunks as nat) == Ok::<
                Seq<Seq<u8>>,
                ErrorView,
            >(hash_strings(hashes@)),
            Err(e) => vault_hashes(file@, total_chunks as nat) == Err::<Seq<Seq<u8>>, ErrorView>(
                e@,
            ),
        },
{
    let mut out: Vec<[u8; 32]> = Vec::new();
    if total_chunks == 0 {
        assert(hash_strings(out@) =~= Seq::new(0, |i: int| record_hash(file@, i as nat)));
        return Ok(out);
    }
    if file.len() < VAULT_HEADER_LEN {
        proof {
            lemma_starts_grow(file@, 0, (total_chunks - 1) as nat);
        }
        return Err(Error::UnexpectedEnd);
    }
    let mut at: usize = VAULT_HEADER_LEN;
    let mut i: u32 = 0;
    while i < total_chunks
        invariant
            i <= total_chunks,
            i < total_chunks ==> at <= file@.len() && at == record_start(file@, i as nat),
            i > 0 ==> has_record_head(file@, (i - 1) as nat),
            out@.len() == i,
            forall|j: int| 0 <= j < i ==> (#[trigger] out@[j])@ == record_hash(file@, j as nat),
        decreases total_chunks - i,
    {
        proof {
            let last = (total_chunks - 1) as nat;
            lemma_starts_grow(file@, i as nat, last);
            if i < last {
                lemma_starts_grow(file@, (i + 1) as nat, last);
            }
        }
        match read_block_len(file, at) {
            None => {
                return Err(Error::UnexpectedEnd);
            },
            Some(n) => {
                let available: usize = file.len() - at;
                assert(available >= VAULT_RECORD_HEAD_LEN);
                let head = slice_subrange(file, at, at + 32);
                let hash = key_array(head);
                assert(head@.take(32) =~= head@);
                assert(head@ == record_hash(file@, i as nat));
                out.push(hash);
                if (n as u64) > (file.len() - at - VAULT_RECORD_HEAD_LEN) as u64 {
                    assert(record_start(file@, (i + 1) as nat) > file@.len());
                    if i + 1 < total_chunks {
                        return Err(Error::UnexpectedEnd);
                    }
                } else {
                    at = at + VAULT_RECORD_HEAD_LEN + n as usize;
                }
            },
        }
        i = i + 1;
    }
    assert(hash_strings(out@) =~= Seq::new(
        total_chunks as nat,
        |i: int| record_hash(file@, i as nat),
    ));
    Ok(out)
}

/// Decrypts one chunk of a container.
pub fn vault_read_chunk(file: &[u8], chunk_index: u32, vault_key: &[u8; 32]) -> (r: Result<
    Vec<u8>,
    Error,
>)
    ensures
        match r {
            Ok(plain) => vault_chunk(file@, chunk_index, vault_key@) == Ok::<Seq<u8>, ErrorView>(
                plain@,
            ),
            Err(e) => vault_chunk(file@, chunk_index, vault_key@) == Err::<Seq<u8>, ErrorView>(
                e@,
            ),
        },
{
    let (uuid, total, size) = match read_vault_header(file) {
        Err(e) => {
            return Err(e);
        },
        Ok(h) => h,
    };
    if chunk_index >= total {
        return Err(Error::ChunkOutOfRange { index: chunk_index, total });
    }
    match find_record(file, chunk_index) {
        None => Err(Error::UnexpectedEnd),
        Some(at) => {
            match read_block_len(file, at) {
                None => Err(Error::UnexpectedEnd),
                Some(n) => {
                    assert(record_start(file@, (chunk_index + 1) as nat) == at
                        + VAULT_RECORD_HEAD_LEN + n);
                    if (n as u64) > (file.len() - at - VAULT_RECORD_HEAD_LEN) as u64 {
                        return Err(Error::UnexpectedEnd);
                    }
                    let from: usize = at + VAULT_RECORD_HEAD_LEN;
                    let block = slice_subrange(file, from, from + n as usize);
                    let aad = vault_chunk_aad(&uuid, chunk_index);
                    match decrypt_with_aad(vault_key, block, aad.as_slice()) {
                        Ok(plain) => Ok(plain),
                        Err(_) => Err(Error::VaultChunkDecrypt),
                    }
                },
            }
        },
    }
}

/// Decrypts a whole container: the recorded size, and the plaintext.
pub fn vault_export_to_plaintext(file: &[u8], vault_key: &[u8; 32]) -> (r: Result<
    (u64, Vec<u8>),
    Error,
>)
    ensures
        match r {
            Ok((size, plain)) => vault_plaintext(file@, vault_key@) == Ok::<
                (u64, Seq<u8>),
                ErrorView,
            >((size, plain@)),
            Err(e) => vault_plaintext(file@, vault_key@) == Err::<(u64, Seq<u8>), ErrorView>(e@),
        },
{
    let (uuid, total, size) = match read_vault_header(file) {
        Err(e) => {
            return Err(e);
        },
        Ok(h) => h,
    };
    let mut out: Vec<u8> = Vec::new();
    let mut at: usize = VAULT_HEADER_LEN;
    let mut i: u32 = 0;
    while i < total
        invariant
            vault_header(file@) == Ok::<(Seq<u8>, u32, u64), ErrorView>((uuid@, total, size)),
            i <= total,
            at <= file@.len(),
            at == record_start(file@, i as nat),
            exported(file@, uuid@, i as nat, vault_key@) == Ok::<Seq<u8>, ErrorView>(out@),
        decreases total - i,
    {
        let ghost next = (i + 1) as nat;
        match read_block_len(file, at) {
            None => {
                proof {
                    lemma_failure_stays(file@, uuid@, next, total as nat, vault_key@);
                }
                return Err(Error::UnexpectedEnd);
            },
            Some(n) => {
                assert(record_start(file@, next) == at + VAULT_RECORD_HEAD_LEN + n);
                if (n as u64) > (file.len() - at - VAULT_RECORD_HEAD_LEN) as u64 {
                    proof {
                        lemma_failure_stays(file@, uuid@, next, total as nat, vault_key@);
                    }
                    return Err(Error::UnexpectedEnd);
                }
                let from: usize = at + VAULT_RECORD_HEAD_LEN;
                let block = slice_subrange(file, from, from + n as usize);
                let aad = vault_chunk_aad(&uuid, i);
                match decrypt_with_aad(vault_key, block, aad.as_slice()) {
                    Ok(plain) => {
                        let ghost before = out@;
                        out.extend_from_slice(plain.as_slice());
                        assert(out@ =~= before + plain@);
                        assert(record_block(file@, i as nat) == block@);
                    },
                    Err(_) => {
                        proof {
                            lemma_failure_stays(file@, uuid@, next, total as nat, vault_key@);
                        }
                        return Err(Error::VaultExportDecrypt);
                    },
                }
                at = from + n as usize;
            },
        }
        i = i + 1;
    }
    Ok((size, out))
}

/// How many bytes the chunks have together, where that is a number of 64 bits.
fn total_len(chunks: &[Vec<u8>]) -> (r: u64)
    ensures
        concatenation(byte_strings(chunks@)).len() <= u64::MAX ==> r == concatenation(
            byte_strings(chunks@),
        ).len(),
{
    let mut sum: u64 = 0;
    let mut i: usize = 0;
    let ghost all = byte_strings(chunks@);
    assert(all.take(0) =~= Seq::empty());
    while i < chunks.len()
        invariant
            all == byte_strings(chunks@),
            i <= chunks@.len(),
            concatenation(all.take(i as int)).len() <= u64::MAX ==> sum == concatenation(
                all.take(i as int),
            ).len(),
        decreases chunks.len() - i,
    {
        proof {
            assert(all.take(i + 1).drop_last() =~= all.take(i as int));
            assert(all.take(i + 1).last() == chunks@[i as int]@);
        }
        sum = sum.wrapping_add(chunks[i].len() as u64);
        i = i + 1;
    }
    assert(all.take(i as int) =~= all);
    sum
}

/// Makes a container of chunks under a given file id.
pub fn seal_vault(file_uuid: &[u8; 16], plaintext_chunks: &[Vec<u8>], vault_key: &[u8; 32]) -> (r:
    Result<Vec<u8>, Error>)
    ensures
        match r {
            Ok(file) => {
                &&& vault_fault(byte_strings(plaintext_chunks@)) is None
                &&& is_vault_of(
                    file@,
                    file_uuid@,
                    byte_strings(plaintext_chunks@),
                    vault_key@,
                )
            },
            Err(e) => vault_fault(byte_strings(plaintext_chunks@)) == Some(e@),
        },
{
    let ghost all = byte_strings(plaintext_chunks@);
    if plaintext_chunks.len() as u64 > u32::MAX as u64 {
        return Err(Error::TooManyChunks);
    }
    let total: u32 = plaintext_chunks.len() as u32;
    let size: u64 = total_len(plaintext_chunks);
    let ghost head = header_bytes(file_uuid@, total, size);
    let mut file: Vec<u8> = Vec::new();
    file.extend_from_slice(VAULT_MAGIC.as_slice());
    file.extend_from_slice(file_uuid.as_slice());
    file.extend_from_slice(u32_to_le_bytes(total).as_slice());
    file.extend_from_slice(u64_to_le_bytes(size).as_slice());
    let reserved: [u8; 4] = [0, 0, 0, 0];
    file.extend_from_slice(reserved.as_slice());
    proof {
        lemma_auto_spec_u32_to_from_le_bytes();
        lemma_auto_spec_u64_to_from_le_bytes();
        assert(file@ =~= head);
        assert(file@.take(40) =~= head);
        assert(all.take(0) =~= Seq::empty());
    }
    let mut i: u32 = 0;
    while i < total
        invariant
            all == byte_strings(plaintext_chunks@),
            total == plaintext_chunks@.len(),
            i <= total,
            chunks_fault(all.take(i as int)) is None,
            file@.len() >= VAULT_HEADER_LEN,
            file@.take(40) == head,
            record_start(file@, i as nat) == file@.len(),
            forall|j: int|
                0 <= j < i ==> #[trigger] holds_chunk(
                    file@,
                    j as nat,
                    file_uuid@,
                    all[j],
                    vault_key@,
                ),
        decreases total - i,
    {
        let chunk = &plaintext_chunks[i as usize];
        let ghost before = file@;
        proof {
            assert(all.take(i + 1).drop_last() =~= all.take(i as int));
            assert(all.take(i + 1).last() == chunk@);
        }
        let hash = blake3_hash(chunk.as_slice());
        let aad = vault_chunk_aad(file_uuid, i);
        let block = match encrypt_with_aad(vault_key, chunk.as_slice(), aad.as_slice()) {
            Ok(b) => b,
            Err(_) => {
                proof {
                    lemma_fault_stays(all, i + 1);
                }
                return Err(Error::VaultChunkEncrypt);
            },
        };
        if block.len() as u64 > u32::MAX as u64 {
            proof {
                lemma_fault_stays(all, i + 1);
            }
            return Err(Error::ChunkTooBig);
        }
        let len_bytes = u32_to_le_bytes(block.len() as u32);
        file.extend_from_slice(hash.as_slice());
        file.extend_from_slice(len_bytes.as_slice());
        file.extend_from_slice(block.as_slice());
        proof {
            let at = before.len() as int;
            let n = i as nat;
            lemma_auto_spec_u32_to_from_le_bytes();
            assert(file@.take(at) =~= before);
            assert(file@.take(40) =~= before.take(40));
            lemma_starts_stay(before, file@, n);
            assert(file@.subrange(at + 32, at + 36) =~= len_bytes@);
            assert(block_len(file@, at) == block@.len());
            assert(record_start(file@, n + 1) == file@.len());
            assert(record_hash(file@, n) =~= hash@);
            assert(record_block(file@, n) =~= block@);
            assert(holds_chunk(file@, i as int as nat, file_uuid@, all[i as int], vault_key@));
            assert forall|j: int| 0 <= j < i implies #[trigger] holds_chunk(
                file@,
                j as nat,
                file_uuid@,
                all[j],
                vault_key@,
            ) by {
                assert(holds_chunk(before, j as nat, file_uuid@, all[j], vault_key@));
                lemma_holds_stays(before, file@, j as nat, file_uuid@, all[j], vault_key@);
            }
        }
        i = i + 1;
    }
    assert(all.take(i as int) =~= all);
    proof {
        lemma_stored_len(all);
        assert(total * u32::MAX <= u64::MAX) by (nonlinear_arith);
    }
    Ok(file)
}

/// Makes a container of chunks under a fresh file id.
pub fn seal_new_vault(plaintext_chunks: &[Vec<u8>], vault_key: &[u8; 32]) -> (r: Result<
    Vec<u8>,
    Error,
>)
    ensures
        match r {
            Ok(file) => {
                &&& vault_fault(byte_strings(plaintext_chunks@)) is None
                &&& is_vault_of(
                    file@,
                    file@.subrange(8, 24),
                    byte_strings(plaintext_chunks@),
                    vault_key@,
                )
            },
            Err(e) => vault_fault(byte_strings(plaintext_chunks@)) == Some(e@),
        },
{
    let uuid = id_array(random_bytes(16).as_slice());
    let r = seal_vault(&uuid, plaintext_chunks, vault_key);
    proof {
        if r is Ok {
            law_vault_gives_back_what_was_stored(
                r->Ok_0@,
                uuid@,
                byte_strings(plaintext_chunks@),
                vault_key@,
            );
        }
    }
    r
}

/// How a container is laid out: the mark, the id, the number of chunks, the size, four
/// zeros; then for each chunk its hash, the length of its block, and the block, which is
/// tied to the id and the place.
pub proof fn law_container_is_laid_out(
    file: Seq<u8>,
    uuid: Seq<u8>,
    chunks: Seq<Seq<u8>>,
    key: Seq<u8>,
    i: int,
)
    requires
        is_vault_of(file, uuid, chunks, key),
        0 <= i < chunks.len(),
    ensures
        file.take(8) == seq![86u8, 73, 84, 86, 48, 49, 0, 0],
        file.subrange(8, 24) == uuid,
        spec_u32_from_le_bytes(file.subrange(24, 28)) == chunks.len(),
        spec_u64_from_le_bytes(file.subrange(28, 36)) == concatenation(chunks).len(),
        file.subrange(36, 40) == seq![0u8, 0, 0, 0],
        record_start(file, 0) == 40,
        ({
            let at = record_start(file, i as nat);
            let end = at + 36 + chunks[i].len() + 28;
            let block = file.subrange(at + 36, end);
            let mark = seq![
                118u8, 105, 116, 118, 48, 50, 45, 118, 97, 117, 108, 116, 0, 0, 0, 0,
            ];
            &&& 40 <= at && end <= file.len()
            &&& record_start(file, (i + 1) as nat) == end
            &&& file.subrange(at, at + 32) == blake3_digest(chunks[i])
            &&& spec_u32_from_le_bytes(file.subrange(at + 32, at + 36)) == chunks[i].len() + 28
            &&& opened_block(key, block, mark + uuid + spec_u32_to_le_bytes(i as u32)) == Some(
                chunks[i],
            )
            &&& i == chunks.len() - 1 ==> end == file.len()
        }),
{
    lemma_auto_spec_u32_to_from_le_bytes();
    lemma_auto_spec_u64_to_from_le_bytes();
    let total = chunks.len() as u32;
    let size = concatenation(chunks).len() as u64;
    let head = header_bytes(uuid, total, size);
    assert(file.take(40) == head);
    assert(head.len() == 40);
    assert(file.take(8) =~= head.take(8));
    assert(head.take(8) =~= VAULT_MAGIC@);
    assert(VAULT_MAGIC@ =~= seq![86u8, 73, 84, 86, 48, 49, 0, 0]);
    assert(file.subrange(8, 24) =~= head.subrange(8, 24));
    assert(head.subrange(8, 24) =~= uuid);
    assert(file.subrange(24, 28) =~= head.subrange(24, 28));
    assert(head.subrange(24, 28) =~= spec_u32_to_le_bytes(total));
    assert(file.subrange(28, 36) =~= head.subrange(28, 36));
    assert(head.subrange(28, 36) =~= spec_u64_to_le_bytes(size));
    assert(file.subrange(36, 40) =~= head.subrange(36, 40));
    assert(head.subrange(36, 40) =~= seq![0u8, 0, 0, 0]);
    assert(holds_chunk(file, i as nat, uuid, chunks[i], key));
    lemma_starts_grow(file, 0, i as nat);
    lemma_starts_grow(file, i as nat, (i + 1) as nat);
    lemma_starts_grow(file, (i + 1) as nat, chunks.len());
    let at = record_start(file, i as nat);
    assert(record_block(file, i as nat).len() == block_len(file, at));
    assert(VAULT_TAG@ =~= seq![
        118u8, 105, 116, 118, 48, 50, 45, 118, 97, 117, 108, 116, 0, 0, 0, 0,
    ]);
}

/// Only what opens with the key, for the id of the container and its place, is read from
/// a container.
pub proof fn law_only_authentic_chunks_are_read(file: Seq<u8>, index: u32, key: Seq<u8>)
    ensures
        vault_chunk(file, index, key) matches Ok(plain) ==> {
            let at = record_start(file, index as nat);
            &&& file.len() >= 40
            &&& file.take(8) == VAULT_MAGIC@
            &&& index < spec_u32_from_le_bytes(file.subrange(24, 28))
            &&& at + 36 + block_len(file, at) <= file.len()
            &&& opened_block(
                key,
                file.subrange(at + 36, at + 36 + block_len(file, at)),
                VAULT_TAG@ + file.subrange(8, 24) + spec_u32_to_le_bytes(index),
            ) == Some(plain)
        },
        file.len() < 40 ==> vault_chunk(file, index, key) is Err && vault_plaintext(file, key)
            is Err,
        file.len() >= 40 && file.take(8) != VAULT_MAGIC@ ==> vault_chunk(file, index, key) is Err
            && vault_plaintext(file, key) is Err,
{
}

/// A whole container is read only if every chunk of it is, and then the chunks in order
/// are what is read.
pub proof fn law_export_reads_every_chunk(file: Seq<u8>, uuid: Seq<u8>, n: nat, key: Seq<u8>, i: int)
    requires
        n <= u32::MAX,
        0 <= i < n,
        vault_header(file) matches Ok((id, total, size)) && id == uuid && n == total,
        exported(file, uuid, n, key) is Ok,
    ensures
        vault_chunk(file, i as u32, key) is Ok,
        exported(file, uuid, n, key)->Ok_0 == concatenation(
            Seq::new(n, |j: int| vault_chunk(file, j as u32, key)->Ok_0),
        ),
{
    lemma_export_reads(file, uuid, n, n, key, i);
}

proof fn lemma_export_reads(
    file: Seq<u8>,
    uuid: Seq<u8>,
    total: nat,
    n: nat,
    key: Seq<u8>,
    i: int,
)
    requires
        n <= total <= u32::MAX,
        vault_header(file) matches Ok((id, t, size)) && id == uuid && total == t,
        exported(file, uuid, n, key) is Ok,
    ensures
        0 <= i < n ==> vault_chunk(file, i as u32, key) is Ok,
        exported(file, uuid, n, key)->Ok_0 == concatenation(
            Seq::new(n, |j: int| vault_chunk(file, j as u32, key)->Ok_0),
        ),
    decreases n,
{
    let all = Seq::new(n, |j: int| vault_chunk(file, j as u32, key)->Ok_0);
    if n > 0 {
        lemma_export_reads(file, uuid, total, (n - 1) as nat, key, i);
        let some = Seq::new((n - 1) as nat, |j: int| vault_chunk(file, j as u32, key)->Ok_0);
        assert(all.drop_last() =~= some);
        assert(((n - 1) as u32) as nat == n - 1);
    } else {
        assert(all =~= Seq::<Seq<u8>>::empty());
    }
}

/// Chunks can be stored exactly if there are not too many and none is too long.
pub proof fn law_what_can_be_stored(chunks: Seq<Seq<u8>>)
    ensures
        vault_fault(chunks) is None <==> chunks.len() <= u32::MAX && forall|i: int|
            0 <= i < chunks.len() ==> (#[trigger] chunks[i]).len() + 28 <= u32::MAX,
{
    lemma_storable(chunks);
}

proof fn lemma_storable(chunks: Seq<Seq<u8>>)
    ensures
        chunks_fault(chunks) is None <==> forall|i: int|
            0 <= i < chunks.len() ==> (#[trigger] chunks[i]).len() + 28 <= u32::MAX,
    decreases chunks.len(),
{
    if chunks.len() > 0 {
        let d = chunks.drop_last();
        lemma_storable(d);
        if chunks_fault(chunks) is None {
            assert forall|i: int| 0 <= i < chunks.len() implies (#[trigger] chunks[i]).len() + 28
                <= u32::MAX by {
                if i < d.len() {
                    assert(d[i] == chunks[i]);
                }
            }
        }
        if forall|i: int|
            0 <= i < chunks.len() ==> (#[trigger] chunks[i]).len() + 28 <= u32::MAX {
            assert forall|i: int| 0 <= i < d.len() implies (#[trigger] d[i]).len() + 28
                <= u32::MAX by {
                assert(d[i] == chunks[i]);
            }
            assert(chunks[chunks.len() - 1].len() + 28 <= u32::MAX);
        }
    }
}

/// The records of a container stand behind each other, from the end of the header on, each
/// behind the length of the one before. The hashes stand at their beginnings; they can be
/// read if the beginning of the last is there, whole or not.
pub proof fn law_hashes_stand_before_the_blocks(file: Seq<u8>, n: nat, i: nat)
    requires
        i < n,
    ensures
        record_start(file, 0) == 40,
        record_start(file, i + 1) == record_start(file, i) + 36 + spec_u32_from_le_bytes(
            file.subrange(record_start(file, i) + 32, record_start(file, i) + 36),
        ),
        vault_hashes(file, n) is Ok <==> record_start(file, (n - 1) as nat) + 36 <= file.len(),
        vault_hashes(file, n) is Err ==> vault_hashes(file, n)->Err_0 == ErrorView::UnexpectedEnd,
        vault_hashes(file, n) matches Ok(hashes) ==> hashes.len() == n && hashes[i as int]
            == file.subrange(record_start(file, i), record_start(file, i) + 32),
        vault_hashes(file, 0) == Ok::<Seq<Seq<u8>>, ErrorView>(Seq::empty()),
{
    assert(Seq::new(0, |j: int| record_hash(file, j as nat)) =~= Seq::<Seq<u8>>::empty());
}

/// What is read of the header of a container, and why it may not be read; the size of a
/// whole container is the one that the header tells.
pub proof fn law_header_is_read(file: Seq<u8>, key: Seq<u8>)
    ensures
        file.len() < 40 ==> vault_header(file) == Err::<(Seq<u8>, u32, u64), ErrorView>(
            ErrorView::VaultHeaderRead,
        ),
        file.len() >= 40 && file.take(8) != seq![86u8, 73, 84, 86, 48, 49, 0, 0]
            ==> vault_header(file) == Err::<(Seq<u8>, u32, u64), ErrorView>(ErrorView::BadMagic),
        file.len() >= 40 && file.take(8) == seq![86u8, 73, 84, 86, 48, 49, 0, 0]
            ==> vault_header(file) == Ok::<(Seq<u8>, u32, u64), ErrorView>(
            (
                file.subrange(8, 24),
                spec_u32_from_le_bytes(file.subrange(24, 28)),
                spec_u64_from_le_bytes(file.subrange(28, 36)),
            ),
        ),
        vault_plaintext(file, key) matches Ok((size, plain)) ==> size == spec_u64_from_le_bytes(
            file.subrange(28, 36),
        ),
        vault_header(file) matches Err(e) ==> vault_plaintext(file, key) == Err::<
            (u64, Seq<u8>),
            ErrorView,
        >(e),
{
    assert(VAULT_MAGIC@ =~= seq![86u8, 73, 84, 86, 48, 49, 0, 0]);
}

/// A chunk of a container is read if it is there, whole, and opens; else it is told why
/// not.
pub proof fn law_why_a_chunk_is_not_read(
    file: Seq<u8>,
    index: u32,
    key: Seq<u8>,
    uuid: Seq<u8>,
    total: u32,
    size: u64,
)
    requires
        vault_header(file) == Ok::<(Seq<u8>, u32, u64), ErrorView>((uuid, total, size)),
    ensures
        ({
            let at = record_start(file, index as nat);
            let end = at + 36 + spec_u32_from_le_bytes(file.subrange(at + 32, at + 36));
            let opened = opened_block(
                key,
                file.subrange(at + 36, end),
                VAULT_TAG@ + uuid + spec_u32_to_le_bytes(index),
            );
            vault_chunk(file, index, key) == if index >= total {
                Err(ErrorView::ChunkOutOfRange { index: index as nat, total: total as nat })
            } else if at + 36 > file.len() || end > file.len() {
                Err(ErrorView::UnexpectedEnd)
            } else {
                match opened {
                    Some(plain) => Ok(plain),
                    None => Err(ErrorView::VaultChunkDecrypt),
                }
            }
        }),
{
}

/// A container of which every chunk is read, in order, is exported; the first that is not
/// is why it is not.
pub proof fn law_export_fails_with_its_chunks(
    file: Seq<u8>,
    key: Seq<u8>,
    uuid: Seq<u8>,
    total: u32,
    size: u64,
)
    requires
        vault_header(file) == Ok::<(Seq<u8>, u32, u64), ErrorView>((uuid, total, size)),
    ensures
        vault_plaintext(file, key) is Ok <==> forall|i: u32|
            i < total ==> #[trigger] vault_chunk(file, i, key) is Ok,
        vault_plaintext(file, key) matches Err(e) ==> e is UnexpectedEnd || e is VaultExportDecrypt,
{
    lemma_export_succeeds(file, key, uuid, total, size, total as nat);
    if exported(file, uuid, total as nat, key) is Ok {
        assert forall|i: u32| i < total implies #[trigger] vault_chunk(file, i, key) is Ok by {
            lemma_export_reads(file, uuid, total as nat, total as nat, key, i as int);
        }
    }
}

proof fn lemma_export_succeeds(
    file: Seq<u8>,
    key: Seq<u8>,
    uuid: Seq<u8>,
    total: u32,
    size: u64,
    n: nat,
)
    requires
        n <= total,
        vault_header(file) == Ok::<(Seq<u8>, u32, u64), ErrorView>((uuid, total, size)),
    ensures
        (forall|i: u32| i < n ==> #[trigger] vault_chunk(file, i, key) is Ok) ==> exported(
            file,
            uuid,
            n,
            key,
        ) is Ok,
        exported(file, uuid, n, key) matches Err(e) ==> e is UnexpectedEnd
            || e is VaultExportDecrypt,
    decreases n,
{
    if n > 0 {
        lemma_export_succeeds(file, key, uuid, total, size, (n - 1) as nat);
        if forall|i: u32| i < n ==> #[trigger] vault_chunk(file, i, key) is Ok {
            assert(vault_chunk(file, (n - 1) as u32, key) is Ok);
        }
    }
}

/// Why chunks cannot be stored: there are too many, or the first that is too long is
/// longer than can be sealed, or than a length can tell.
pub proof fn law_why_chunks_are_not_stored(chunks: Seq<Seq<u8>>, first: int)
    ensures
        chunks.len() > u32::MAX ==> vault_fault(chunks) == Some(ErrorView::TooManyChunks),
        chunks.len() <= u32::MAX && 0 <= first < chunks.len() && (forall|i: int|
            0 <= i < first ==> (#[trigger] chunks[i]).len() + 28 <= u32::MAX) ==> {
            &&& chunks[first].len() > AEAD_MESSAGE_MAX ==> vault_fault(chunks) == Some(
                ErrorView::VaultChunkEncrypt,
            )
            &&& chunks[first].len() + 28 > u32::MAX && chunks[first].len() <= AEAD_MESSAGE_MAX
                ==> vault_fault(chunks) == Some(ErrorView::ChunkTooBig)
        },
    decreases chunks.len(),
{
    if 0 <= first < chunks.len() <= u32::MAX {
        let d = chunks.drop_last();
        if first < d.len() {
            assert forall|i: int| 0 <= i < d.len() implies #[trigger] d[i] == chunks[i] by {}
            law_why_chunks_are_not_stored(d, first);
        } else if forall|i: int|
            0 <= i < first ==> (#[trigger] chunks[i]).len() + 28 <= u32::MAX {
            assert forall|i: int| 0 <= i < d.len() implies (#[trigger] d[i]).len() + 28
                <= u32::MAX by {
                assert(d[i] == chunks[i]);
            }
            lemma_storable(d);
        }
    }
}

} // verus!
