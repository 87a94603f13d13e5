//! Symmetric encryption, key derivation, and the blinding of names and hashes.
//!
//! An encrypted block is a nonce of 12 bytes, the ciphertext, and a tag of 16
//! bytes. The associated data of a block is authenticated and not transmitted:
//! it ties a chunk to its file and its position.
use crate::error::{Error, ErrorView};
use crate::primitives::{
    aead_open, aead_opened, aead_seal, aead_sealed, blake3_derive_key, blake3_derived_key,
    blake3_digest, blake3_hash, blake3_keyed_digest, blake3_keyed_hash, hex_encode, hex_text,
    random_bytes, wipe, AEAD_MESSAGE_MAX,
};
use crate::text::concat3;
use vstd::bytes::{
    lemma_auto_spec_u32_to_from_le_bytes, spec_u32_from_le_bytes, spec_u32_to_le_bytes,
    u32_to_le_bytes,
};
use vstd::prelude::*;
use vstd::slice::slice_subrange;
use vstd::utf8::encode_utf8;

verus! {

/// How many bytes of nonce stand before a ciphertext.
pub const NONCE_LEN: usize = 12;

/// How many bytes a tag has.
pub const TAG_LEN: usize = 16;

/// The mark at the beginning of a chunk's associated data.
pub const CHUNK_TAG: [u8; 16] = [
    118, 105, 116, 118, 48, 50, 45, 99, 104, 117, 110, 107, 0, 0, 0, 0,
];

/// A symmetric key, wiped when it is dropped.
pub struct SecretKey(pub [u8; 32]);

impl View for SecretKey {
    type V = Seq<u8>;

    open spec fn view(&self) -> Seq<u8> {
        self.0@
    }
}

impl Clone for SecretKey {
    fn clone(&self) -> (r: Self)
        ensures
            r@ == self@,
    {
        SecretKey(self.0)
    }
}

impl Drop for SecretKey {
    fn drop(&mut self)
        opens_invariants none
        no_unwind
    {
        wipe(&mut self.0);
    }
}

impl SecretKey {
    pub fn new(bytes: [u8; 32]) -> (r: Self)
        ensures
            r@ == bytes@,
    {
        SecretKey(bytes)
    }

    pub fn as_bytes(&self) -> (r: &[u8; 32])
        ensures
            r@ == self@,
    {
        &self.0
    }

    /// A key of random bytes.
    pub fn random() -> (r: Self)
        ensures
            r@.len() == 32,
    {
        SecretKey(key_array(&random_bytes(32)))
    }

    /// What may be shown of the key: its fingerprint, never its bytes.
    pub fn debug_text(&self) -> (r: String)
        ensures
            r@ == "SecretKey(<redacted, fp="@ + fingerprint(self@) + ">)"@,
    {
        concat3("SecretKey(<redacted, fp=", short_fingerprint(&self.0).as_str(), ">)")
    }
}

/// Sixteen hexadecimal digits by which a key is recognised.
pub open spec fn fingerprint(key: Seq<u8>) -> Seq<char> {
    hex_text(blake3_digest(key).take(8))
}

/// An encrypted block: the nonce, then the ciphertext with its tag.
pub open spec fn sealed_block(
    key: Seq<u8>,
    nonce: Seq<u8>,
    msg: Seq<u8>,
    aad: Seq<u8>,
) -> Seq<u8> {
    nonce + aead_sealed(key, nonce, msg, aad)
}

/// What an encrypted block holds, if the key and the associated data fit.
pub open spec fn opened_block(key: Seq<u8>, data: Seq<u8>, aad: Seq<u8>) -> Option<Seq<u8>> {
    if NONCE_LEN + TAG_LEN <= data.len() <= NONCE_LEN + AEAD_MESSAGE_MAX + TAG_LEN {
        aead_opened(key, data.take(NONCE_LEN as int), data.skip(NONCE_LEN as int), aad)
    } else {
        None
    }
}

/// The subkey of `master` for one purpose.
pub open spec fn subkey(master: Seq<u8>, context: Seq<char>) -> Seq<u8> {
    blake3_keyed_digest(master, encode_utf8(context))
}

/// The opaque id by which two peers with a common key speak of a file.
pub open spec fn blinded_name(key: Seq<u8>, rel_path: Seq<char>) -> Seq<u8> {
    blake3_derived_key(
        "vitruvius v0.2 file-id"@,
        key + seq![0u8] + encode_utf8(rel_path),
    ).take(16)
}

/// A content hash as a holder of the key recognises it.
pub open spec fn blinded_hash(key: Seq<u8>, plaintext_hash: Seq<u8>) -> Seq<u8> {
    blake3_derived_key("vitruvius v0.2 chunk-hash"@, key + seq![0u8] + plaintext_hash)
}

/// A mark, a file's id and a position: what a chunk is tied to.
pub open spec fn position_aad(tag: Seq<u8>, id: Seq<u8>, index: u32) -> Seq<u8> {
    tag + id + spec_u32_to_le_bytes(index)
}

/// The first 32 bytes of a slice.
pub(crate) fn key_array(bytes: &[u8]) -> (r: [u8; 32])
    requires
        bytes@.len() >= 32,
    ensures
        r@ == bytes@.take(32),
{
    let mut out = [0u8; 32];
    let mut i: usize = 0;
    while i < 32
        invariant
            i <= 32 <= bytes@.len(),
            out@.take(i as int) == bytes@.take(i as int),
        decreases 32 - i,
    {
        out[i] = bytes[i];
        i = i + 1;
        assert(out@.take(i as int) =~= bytes@.take(i as int));
    }
    assert(out@ =~= out@.take(32));
    out
}

/// The first 16 bytes of a slice.
pub(crate) fn id_array(bytes: &[u8]) -> (r: [u8; 16])
    requires
        bytes@.len() >= 16,
    ensures
        r@ == bytes@.take(16),
{
    let mut out = [0u8; 16];
    let mut i: usize = 0;
    while i < 16
        invariant
            i <= 16 <= bytes@.len(),
            out@.take(i as int) == bytes@.take(i as int),
        decreases 16 - i,
    {
        out[i] = bytes[i];
        i = i + 1;
        assert(out@.take(i as int) =~= bytes@.take(i as int));
    }
    assert(out@ =~= out@.take(16));
    out
}

/// The first 12 bytes of a slice.
fn nonce_array(bytes: &[u8]) -> (r: [u8; 12])
    requires
        bytes@.len() >= 12,
    ensures
        r@ == bytes@.take(12),
{
    let mut out = [0u8; 12];
    let mut i: usize = 0;
    while i < 12
        invariant
            i <= 12 <= bytes@.len(),
            out@.take(i as int) == bytes@.take(i as int),
        decreases 12 - i,
    {
        out[i] = bytes[i];
        i = i + 1;
        assert(out@.take(i as int) =~= bytes@.take(i as int));
    }
    assert(out@ =~= out@.take(12));
    out
}

/// The hexadecimal fingerprint by which users compare keys.
pub fn short_fingerprint(key: &[u8; 32]) -> (r: String)
    ensures
        r@ == fingerprint(key@),
        r@.len() == 16,
{
    let digest = blake3_hash(key.as_slice());
    hex_encode(slice_subrange(digest.as_slice(), 0, 8))
}

/// The key that a key file holds: it must have 32 bytes.
pub fn key_from_file(bytes: &[u8]) -> (r: Result<[u8; 32], Error>)
    ensures
        match r {
            Ok(key) => bytes@.len() == 32 && key@ == bytes@,
            Err(e) => bytes@.len() != 32 && e@ == (ErrorView::KeyFileLength {
                len: bytes@.len(),
            }),
        },
{
    if bytes.len() != 32 {
        return Err(Error::KeyFileLength { len: bytes.len() });
    }
    assert(bytes@.take(32) =~= bytes@);
    Ok(key_array(bytes))
}

/// Encrypts with a given nonce.
pub fn seal_with_nonce(key: &[u8; 32], nonce: &[u8; 12], plaintext: &[u8], aad: &[u8]) -> (r: Result<
    Vec<u8>,
    Error,
>)
    ensures
        match r {
            Ok(block) => {
                &&& plaintext@.len() <= AEAD_MESSAGE_MAX
                &&& block@ == sealed_block(key@, nonce@, plaintext@, aad@)
                &&& block@.len() == plaintext@.len() + NONCE_LEN + TAG_LEN
                &&& opened_block(key@, block@, aad@) == Some(plaintext@)
            },
            Err(e) => plaintext@.len() > AEAD_MESSAGE_MAX && e@ == ErrorView::EncryptionFailed,
        },
{
    if plaintext.len() as u64 > AEAD_MESSAGE_MAX {
        return Err(Error::EncryptionFailed);
    }
    match aead_seal(key, nonce, plaintext, aad) {
        Some(sealed) => {
            let mut out: Vec<u8> = Vec::new();
            out.extend_from_slice(nonce.as_slice());
            out.extend_from_slice(sealed.as_slice());
            proof {
                assert(out@ =~= nonce@ + sealed@);
                assert(out@.take(12) =~= nonce@);
                assert(out@.skip(12) =~= sealed@);
            }
            Ok(out)
        },
        None => Err(Error::EncryptionFailed),
    }
}

/// Encrypts without associated data.
pub fn encrypt(key: &[u8; 32], plaintext: &[u8]) -> (r: Result<Vec<u8>, Error>)
    ensures
        match r {
            Ok(block) => {
                &&& plaintext@.len() <= AEAD_MESSAGE_MAX
                &&& block@ == sealed_block(key@, block@.take(12), plaintext@, seq![])
                &&& block@.len() == plaintext@.len() + NONCE_LEN + TAG_LEN
                &&& opened_block(key@, block@, seq![]) == Some(plaintext@)
            },
            Err(e) => plaintext@.len() > AEAD_MESSAGE_MAX && e@ == ErrorView::EncryptionFailed,
        },
{
    let none: [u8; 0] = [];
    assert(none@ =~= seq![]);
    encrypt_with_aad(key, plaintext, none.as_slice())
}

/// Decrypts what `encrypt` made.
pub fn decrypt(key: &[u8; 32], data: &[u8]) -> (r: Result<Vec<u8>, Error>)
    ensures
        match r {
            Ok(msg) => {
                &&& opened_block(key@, data@, seq![]) == Some(msg@)
                &&& data@ == sealed_block(key@, data@.take(12), msg@, seq![])
                &&& data@.len() == msg@.len() + NONCE_LEN + TAG_LEN
            },
            Err(e) => {
                &&& opened_block(key@, data@, seq![]) is None
                &&& e@ == refusal(data@)
            },
        },
{
    let none: [u8; 0] = [];
    assert(none@ =~= seq![]);
    decrypt_with_aad(key, data, none.as_slice())
}

/// Encrypts under a fresh nonce. The associated data is authenticated and not
/// encrypted; whoever decrypts must supply the same.
pub fn encrypt_with_aad(key: &[u8; 32], plaintext: &[u8], aad: &[u8]) -> (r: Result<Vec<u8>, Error>)
    ensures
        match r {
            Ok(block) => {
                &&& plaintext@.len() <= AEAD_MESSAGE_MAX
                &&& block@ == sealed_block(key@, block@.take(12), plaintext@, aad@)
                &&& block@.len() == plaintext@.len() + NONCE_LEN + TAG_LEN
                &&& opened_block(key@, block@, aad@) == Some(plaintext@)
            },
            Err(e) => plaintext@.len() > AEAD_MESSAGE_MAX && e@ == ErrorView::EncryptionFailed,
        },
{
    let nonce = nonce_array(random_bytes(NONCE_LEN).as_slice());
    let r = seal_with_nonce(key, &nonce, plaintext, aad);
    assert(r matches Ok(block) ==> block@.take(12) =~= nonce@);
    r
}

/// Why a block cannot be decrypted.
pub open spec fn refusal(data: Seq<u8>) -> ErrorView {
    if data.len() < NONCE_LEN + TAG_LEN {
        ErrorView::TooShort { len: data.len() }
    } else {
        ErrorView::DecryptionFailed
    }
}

/// Decrypts what `encrypt_with_aad` made under the same associated data.
pub fn decrypt_with_aad(key: &[u8; 32], data: &[u8], aad: &[u8]) -> (r: Result<Vec<u8>, Error>)
    ensures
        match r {
            Ok(msg) => {
                &&& opened_block(key@, data@, aad@) == Some(msg@)
                &&& data@ == sealed_block(key@, data@.take(12), msg@, aad@)
                &&& data@.len() == msg@.len() + NONCE_LEN + TAG_LEN
            },
            Err(e) => {
                &&& opened_block(key@, data@, aad@) is None
                &&& e@ == refusal(data@)
            },
        },
{
    if data.len() < NONCE_LEN + TAG_LEN {
        return Err(Error::TooShort { len: data.len() });
    }
    if (data.len() - NONCE_LEN - TAG_LEN) as u64 > AEAD_MESSAGE_MAX {
        return Err(Error::DecryptionFailed);
    }
    let nonce = nonce_array(data);
    let sealed = slice_subrange(data, NONCE_LEN, data.len());
    assert(sealed@ =~= data@.skip(12));
    match aead_open(key, &nonce, sealed, aad) {
        Some(msg) => {
            assert(data@ =~= data@.take(12) + data@.skip(12));
            Ok(msg)
        },
        None => Err(Error::DecryptionFailed),
    }
}

/// Derives a key for one purpose from a master key.
pub fn derive_subkey(master: &[u8; 32], context: &str) -> (r: [u8; 32])
    ensures
        r@ == subkey(master@, context@),
{
    blake3_keyed_hash(master, context.as_bytes())
}

/// The opaque id of a file: the same for both peers that hold the key.
pub fn blind_filename(transport_key: &[u8; 32], rel_path: &str) -> (r: [u8; 16])
    ensures
        r@ == blinded_name(transport_key@, rel_path@),
{
    let mut material: Vec<u8> = Vec::new();
    material.extend_from_slice(transport_key.as_slice());
    material.push(0);
    material.extend_from_slice(rel_path.as_bytes());
    assert(material@ =~= transport_key@ + seq![0u8] + encode_utf8(rel_path@));
    let full = blake3_derive_key("vitruvius v0.2 file-id", material.as_slice());
    id_array(full.as_slice())
}

/// A content hash blinded with the transport key.
pub fn blind_chunk_hash(transport_key: &[u8; 32], plaintext_hash: &[u8; 32]) -> (r: [u8; 32])
    ensures
        r@ == blinded_hash(transport_key@, plaintext_hash@),
{
    let mut material: Vec<u8> = Vec::new();
    material.extend_from_slice(transport_key.as_slice());
    material.push(0);
    material.extend_from_slice(plaintext_hash.as_slice());
    assert(material@ =~= transport_key@ + seq![0u8] + plaintext_hash@);
    blake3_derive_key("vitruvius v0.2 chunk-hash", material.as_slice())
}

/// The associated data of a chunk in transit.
pub fn chunk_aad(file_id: &[u8; 16], chunk_index: u32) -> (r: [u8; 36])
    ensures
        r@ == position_aad(CHUNK_TAG@, file_id@, chunk_index),
{
    let index_bytes = u32_to_le_bytes(chunk_index);
    let mut out = [0u8; 36];
    let mut i: usize = 0;
    let ghost want = position_aad(CHUNK_TAG@, file_id@, chunk_index);
    while i < 36
        invariant
            i <= 36,
            index_bytes@ == spec_u32_to_le_bytes(chunk_index),
            index_bytes@.len() == 4,
            want == position_aad(CHUNK_TAG@, file_id@, chunk_index),
            out@.take(i as int) == want.take(i as int),
        decreases 36 - i,
    {
        if i < 16 {
            out[i] = CHUNK_TAG[i];
        } else if i < 32 {
            out[i] = file_id[i - 16];
        } else {
            out[i] = index_bytes[i - 32];
        }
        i = i + 1;
        assert(out@.take(i as int) =~= want.take(i as int));
    }
    assert(out@ =~= out@.take(36));
    assert(want =~= want.take(36));
    out
}

/// Chunks of different files, or at different positions, never have the same
/// associated data, nor do blocks of different kinds.
pub proof fn law_position_aad_distinguishes(
    tag1: Seq<u8>,
    id1: Seq<u8>,
    index1: u32,
    tag2: Seq<u8>,
    id2: Seq<u8>,
    index2: u32,
)
    requires
        tag1.len() == tag2.len(),
        id1.len() == id2.len(),
        position_aad(tag1, id1, index1) == position_aad(tag2, id2, index2),
    ensures
        tag1 == tag2,
        id1 == id2,
        index1 == index2,
{
    lemma_auto_spec_u32_to_from_le_bytes();
    let a = position_aad(tag1, id1, index1);
    let n = tag1.len() as int;
    let m = id1.len() as int;
    assert(a.subrange(0, n) =~= tag1);
    assert(a.subrange(0, n) =~= tag2);
    assert(a.subrange(n, n + m) =~= id1);
    assert(a.subrange(n, n + m) =~= id2);
    assert(a.subrange(n + m, n + m + 4) =~= spec_u32_to_le_bytes(index1));
    assert(a.subrange(n + m, n + m + 4) =~= spec_u32_to_le_bytes(index2));
    assert(spec_u32_from_le_bytes(spec_u32_to_le_bytes(index1)) == index1);
    assert(spec_u32_from_le_bytes(spec_u32_to_le_bytes(index2)) == index2);
}

/// How encrypted blocks, associated data, ids, blinded hashes and fingerprints are made
/// up. Two nodes have to agree on all of it.
pub proof fn law_how_things_are_made_up(
    key: Seq<u8>,
    nonce: Seq<u8>,
    msg: Seq<u8>,
    aad: Seq<u8>,
    tag: Seq<u8>,
    id: Seq<u8>,
    index: u32,
    path: Seq<char>,
)
    requires
        nonce.len() == 12,
        aead_sealed(key, nonce, msg, aad).len() == msg.len() + 16,
        msg.len() <= AEAD_MESSAGE_MAX,
        tag.len() == 16,
        id.len() == 16,
    ensures
        sealed_block(key, nonce, msg, aad).take(12) == nonce,
        sealed_block(key, nonce, msg, aad).skip(12) == aead_sealed(key, nonce, msg, aad),
        opened_block(key, sealed_block(key, nonce, msg, aad), aad) == aead_opened(
            key,
            nonce,
            aead_sealed(key, nonce, msg, aad),
            aad,
        ),
        msg.len() < 28 ==> opened_block(key, msg, aad) is None,
        position_aad(tag, id, index).len() == 36,
        position_aad(tag, id, index).take(16) == tag,
        position_aad(tag, id, index).subrange(16, 32) == id,
        spec_u32_from_le_bytes(position_aad(tag, id, index).skip(32)) == index,
        CHUNK_TAG@ == seq![118u8, 105, 116, 118, 48, 50, 45, 99, 104, 117, 110, 107, 0, 0, 0, 0],
        blinded_name(key, path) == blake3_derived_key(
            "vitruvius v0.2 file-id"@,
            (key.push(0u8) + encode_utf8(path)),
        ).take(16),
        blinded_hash(key, msg) == blake3_derived_key(
            "vitruvius v0.2 chunk-hash"@,
            (key.push(0u8) + msg),
        ),
        subkey(key, path) == blake3_keyed_digest(key, encode_utf8(path)),
        fingerprint(key) == hex_text(blake3_digest(key).take(8)),
{
    lemma_auto_spec_u32_to_from_le_bytes();
    let block = sealed_block(key, nonce, msg, aad);
    assert(block.take(12) =~= nonce);
    assert(block.skip(12) =~= aead_sealed(key, nonce, msg, aad));
    let p = position_aad(tag, id, index);
    assert(p.take(16) =~= tag);
    assert(p.subrange(16, 32) =~= id);
    assert(p.skip(32) =~= spec_u32_to_le_bytes(index));
    assert(CHUNK_TAG@ =~= seq![
        118u8, 105, 116, 118, 48, 50, 45, 99, 104, 117, 110, 107, 0, 0, 0, 0,
    ]);
    assert(key.push(0u8) + encode_utf8(path) =~= key + seq![0u8] + encode_utf8(path));
    assert(key.push(0u8) + msg =~= key + seq![0u8] + msg);
}

/// Data that is shorter than a nonce and a tag is called too short; other data that does
/// not open was changed, or has another key.
pub proof fn law_why_data_is_refused(data: Seq<u8>)
    ensures
        data.len() < 28 ==> refusal(data) == (ErrorView::TooShort { len: data.len() }),
        data.len() >= 28 ==> refusal(data) == ErrorView::DecryptionFailed,
{
}

} // verus!
