//! The outside primitives that the library is built on, each behind one
//! function: hashing, authenticated encryption, key agreement, random bytes,
//! hexadecimal notation, the reading of peer ids, addresses and key pairs, and the
//! showing of paths.
use chacha20poly1305::aead::Aead;
use chacha20poly1305::KeyInit;
use rand::TryRng;
use std::collections::BTreeMap;
use vstd::prelude::*;
use vstd::utf8::is_ascii_chars;
use zeroize::Zeroize;

verus! {

/// The longest message that one nonce can encrypt: the block counter of
/// ChaCha20 has 32 bits, blocks have 64 bytes, and the first block makes the
/// tag's key.
pub const AEAD_MESSAGE_MAX: u64 = 274877906816;

/// What `blake3::hash` returns for `data`.
pub uninterp spec fn blake3_digest(data: Seq<u8>) -> Seq<u8>;

/// What `blake3::keyed_hash` returns for `key` and `data`.
pub uninterp spec fn blake3_keyed_digest(key: Seq<u8>, data: Seq<u8>) -> Seq<u8>;

/// What `blake3::derive_key` returns for `context` and `material`.
pub uninterp spec fn blake3_derived_key(context: Seq<char>, material: Seq<u8>) -> Seq<u8>;

/// What ChaCha20-Poly1305 makes of `msg`: the ciphertext and its tag.
pub uninterp spec fn aead_sealed(
    key: Seq<u8>,
    nonce: Seq<u8>,
    msg: Seq<u8>,
    aad: Seq<u8>,
) -> Seq<u8>;

/// What ChaCha20-Poly1305 gives back of `sealed`, if the tag fits.
pub uninterp spec fn aead_opened(
    key: Seq<u8>,
    nonce: Seq<u8>,
    sealed: Seq<u8>,
    aad: Seq<u8>,
) -> Option<Seq<u8>>;

/// The X25519 public key that belongs to `secret`.
pub uninterp spec fn x25519_public(secret: Seq<u8>) -> Seq<u8>;

/// The X25519 function of `secret` and the other side's `public` key.
pub uninterp spec fn x25519_shared(secret: Seq<u8>, public: Seq<u8>) -> Seq<u8>;

/// The notation of the `libp2p::PeerId` that a text denotes, or the parser's
/// complaint.
pub uninterp spec fn peer_id_reading(text: Seq<char>) -> Result<Seq<char>, Seq<char>>;

/// The encoding of the `libp2p` key pair that `bytes` encode, or the decoder's
/// complaint.
pub uninterp spec fn keypair_reading(bytes: Seq<u8>) -> Result<Seq<u8>, Seq<char>>;

/// The JSON object of strings that `text` denotes, if it denotes one.
pub uninterp spec fn json_object(text: Seq<char>) -> Option<Map<Seq<char>, Seq<char>>>;

/// What is wrong with `text` as a multiaddr, or nothing.
pub uninterp spec fn multiaddr_fault(text: Seq<char>) -> Option<Seq<char>>;

/// How `std::path::Path` shows a path in messages: in quotes, with what cannot be
/// printed escaped.
pub uninterp spec fn path_shown(path: Seq<char>) -> Seq<char>;

/// Calls `blake3::hash`, which hashes its input to 32 bytes.
#[verifier::external_body]
pub(crate) fn blake3_hash(data: &[u8]) -> (r: [u8; 32])
    ensures
        r@ == blake3_digest(data@),
{
    blake3::hash(data).into()
}

/// Calls `blake3::keyed_hash`, which hashes its input under a 32-byte key.
#[verifier::external_body]
pub(crate) fn blake3_keyed_hash(key: &[u8; 32], data: &[u8]) -> (r: [u8; 32])
    ensures
        r@ == blake3_keyed_digest(key@, data@),
{
    blake3::keyed_hash(key, data).into()
}

/// Calls `blake3::derive_key`, which derives 32 bytes from key material in a
/// named context.
#[verifier::external_body]
pub(crate) fn blake3_derive_key(context: &str, material: &[u8]) -> (r: [u8; 32])
    ensures
        r@ == blake3_derived_key(context@, material@),
{
    blake3::derive_key(context, material)
}

/// Calls `encrypt` of `chacha20poly1305::ChaCha20Poly1305`. It appends a tag of
/// 16 bytes to a ciphertext of the message's length; it refuses messages only
/// for their length; and decryption under the same key, nonce and associated
/// data gives the message back.
#[verifier::external_body]
pub(crate) fn aead_seal(key: &[u8; 32], nonce: &[u8; 12], msg: &[u8], aad: &[u8]) -> (r: Option<
    Vec<u8>,
>)
    requires
        msg@.len() <= AEAD_MESSAGE_MAX,
    ensures
        r is Some,
        r matches Some(sealed) ==> {
            &&& sealed@ == aead_sealed(key@, nonce@, msg@, aad@)
            &&& sealed@.len() == msg@.len() + 16
            &&& aead_opened(key@, nonce@, sealed@, aad@) == Some(msg@)
        },
{
    let cipher = chacha20poly1305::ChaCha20Poly1305::new(key.into());
    cipher.encrypt(nonce.into(), chacha20poly1305::aead::Payload { msg, aad }).ok()
}

/// Calls `decrypt` of `chacha20poly1305::ChaCha20Poly1305`. It succeeds only on
/// what encryption under the same key, nonce and associated data makes of the
/// message it returns.
#[verifier::external_body]
pub(crate) fn aead_open(key: &[u8; 32], nonce: &[u8; 12], sealed: &[u8], aad: &[u8]) -> (r: Option<
    Vec<u8>,
>)
    requires
        sealed@.len() <= AEAD_MESSAGE_MAX + 16,
    ensures
        r is Some <==> aead_opened(key@, nonce@, sealed@, aad@) is Some,
        r matches Some(msg) ==> {
            &&& aead_opened(key@, nonce@, sealed@, aad@) == Some(msg@)
            &&& sealed@.len() == msg@.len() + 16
            &&& aead_sealed(key@, nonce@, msg@, aad@) == sealed@
        },
{
    let cipher = chacha20poly1305::ChaCha20Poly1305::new(key.into());
    cipher.decrypt(nonce.into(), chacha20poly1305::aead::Payload { msg: sealed, aad }).ok()
}

/// Calls `try_fill_bytes` of the generator that `rand::rng` gives, whose error
/// type has no values. Of the bytes nothing is known but how many there are.
#[verifier::external_body]
pub(crate) fn random_bytes(len: usize) -> (r: Vec<u8>)
    requires
        len <= isize::MAX,
    ensures
        r@.len() == len,
{
    let mut bytes = vec![0u8; len];
    let Ok(()) = rand::rng().try_fill_bytes(&mut bytes);
    bytes
}

/// Calls `x25519_dalek::StaticSecret::random_from_rng` with the operating
/// system's generator. Of the secret nothing is known.
#[verifier::external_body]
pub(crate) fn x25519_random_secret() -> (r: [u8; 32]) {
    x25519_dalek::StaticSecret::random_from_rng(rand_core::OsRng).to_bytes()
}

/// Calls `x25519_dalek::PublicKey::from`, which computes the public key of a
/// secret.
#[verifier::external_body]
pub(crate) fn x25519_public_key(secret: &[u8; 32]) -> (r: [u8; 32])
    ensures
        r@ == x25519_public(secret@),
{
    x25519_dalek::PublicKey::from(&x25519_dalek::StaticSecret::from(*secret)).to_bytes()
}

/// Calls `x25519_dalek::StaticSecret::diffie_hellman`. Two sides that hold each
/// other's public keys compute the same value.
#[verifier::external_body]
pub(crate) fn x25519_agree(secret: &[u8; 32], public: &[u8; 32]) -> (r: [u8; 32])
    ensures
        r@ == x25519_shared(secret@, public@),
        forall|other: Seq<u8>|
            #![trigger x25519_public(other)]
            other.len() == 32 && public@ == x25519_public(other) ==> r@ == x25519_shared(
                other,
                x25519_public(secret@),
            ),
{
    let ours = x25519_dalek::StaticSecret::from(*secret);
    ours.diffie_hellman(&x25519_dalek::PublicKey::from(*public)).to_bytes()
}

/// Calls `zeroize::Zeroize::zeroize`, which overwrites the bytes with zeros.
#[verifier::external_body]
pub(crate) fn wipe(bytes: &mut [u8; 32])
    ensures
        final(bytes)@ == Seq::new(32, |i: int| 0u8),
    opens_invariants none
    no_unwind
{
    bytes.zeroize()
}

/// The lower-case hexadecimal digit of a number below sixteen.
pub open spec fn hex_digit(n: int) -> char {
    if n < 10 {
        (('0' as u32) + n) as char
    } else {
        (('a' as u32) + n - 10) as char
    }
}

/// Two lower-case hexadecimal digits per byte, the high half first.
pub open spec fn hex_text(data: Seq<u8>) -> Seq<char> {
    Seq::new(
        2 * data.len(),
        |i: int|
            if i % 2 == 0 {
                hex_digit(data[i / 2] as int / 16)
            } else {
                hex_digit(data[i / 2] as int % 16)
            },
    )
}

/// The value of a hexadecimal digit of either case.
pub open spec fn hex_value(c: char) -> Option<int> {
    if '0' <= c <= '9' {
        Some(c as int - '0' as int)
    } else if 'a' <= c <= 'f' {
        Some(c as int - 'a' as int + 10)
    } else if 'A' <= c <= 'F' {
        Some(c as int - 'A' as int + 10)
    } else {
        None
    }
}

/// An even number of hexadecimal digits and nothing else.
pub open spec fn is_hex_text(s: Seq<char>) -> bool {
    &&& s.len() % 2 == 0
    &&& forall|i: int| 0 <= i < s.len() ==> (#[trigger] hex_value(s[i])) is Some
}

/// The bytes that hexadecimal digits denote.
pub open spec fn hex_bytes(s: Seq<char>) -> Seq<u8> {
    Seq::new(
        s.len() / 2,
        |i: int| (16 * hex_value(s[2 * i])->0 + hex_value(s[2 * i + 1])->0) as u8,
    )
}

/// Calls `hex::encode`, which writes two lower-case digits per byte.
#[verifier::external_body]
pub(crate) fn hex_encode(data: &[u8]) -> (r: String)
    ensures
        r@ == hex_text(data@),
{
    hex::encode(data)
}

/// Calls `hex::decode`, which reads digits of either case and refuses an odd
/// number of them and every other character.
#[verifier::external_body]
pub(crate) fn hex_decode(s: &str) -> (r: Option<Vec<u8>>)
    ensures
        r is Some <==> is_hex_text(s@),
        r matches Some(data) ==> data@ == hex_bytes(s@),
{
    hex::decode(s).ok()
}

/// Parses a `libp2p::PeerId` and gives its base-58 notation back, which is
/// ASCII, or the parser's complaint; the parser accepts nothing but ASCII.
#[verifier::external_body]
pub(crate) fn parse_peer_id(text: &str) -> (r: Result<String, String>)
    ensures
        match r {
            Ok(id) => {
                &&& peer_id_reading(text@) == Ok::<Seq<char>, Seq<char>>(id@)
                &&& is_ascii_chars(id@)
                &&& is_ascii_chars(text@)
            },
            Err(fault) => peer_id_reading(text@) == Err::<Seq<char>, Seq<char>>(fault@),
        },
{
    text.parse::<libp2p::PeerId>().map(|id| id.to_string()).map_err(|e| e.to_string())
}

/// Calls `libp2p::identity::Keypair::from_protobuf_encoding` and gives the encoding of
/// the key pair back, or the decoder's complaint.
#[verifier::external_body]
pub(crate) fn read_keypair(bytes: &[u8]) -> (r: Result<Vec<u8>, String>)
    ensures
        match r {
            Ok(k) => keypair_reading(bytes@) == Ok::<Seq<u8>, Seq<char>>(k@),
            Err(e) => keypair_reading(bytes@) == Err::<Seq<u8>, Seq<char>>(e@),
        },
{
    libp2p::identity::Keypair::from_protobuf_encoding(bytes)
        .and_then(|k| k.to_protobuf_encoding())
        .map_err(|e| e.to_string())
}

/// Calls `libp2p::identity::Keypair::generate_ed25519` and encodes the key pair, which
/// fails for no key pair of this kind. Of the key pair nothing is known but that its
/// encoding is decoded to it.
#[verifier::external_body]
pub(crate) fn fresh_keypair() -> (r: Option<Vec<u8>>)
    ensures
        r is Some,
        r matches Some(k) ==> (keypair_reading(k@) matches Ok(again) && again == k@),
{
    libp2p::identity::Keypair::generate_ed25519().to_protobuf_encoding().ok()
}

/// The map that a list of pairs denotes; of two pairs with one key the later
/// counts.
pub open spec fn pairs_map(pairs: Seq<(String, String)>) -> Map<Seq<char>, Seq<char>>
    decreases pairs.len(),
{
    if pairs.len() == 0 {
        Map::empty()
    } else {
        pairs_map(pairs.drop_last()).insert(pairs.last().0@, pairs.last().1@)
    }
}

/// Calls `serde_json::from_str` for an object whose values are strings.
#[verifier::external_body]
pub(crate) fn parse_json_object(text: &str) -> (r: Option<Vec<(String, String)>>)
    ensures
        r is Some <==> json_object(text@) is Some,
        r matches Some(pairs) ==> json_object(text@) == Some(pairs_map(pairs@)),
{
    serde_json::from_str::<BTreeMap<String, String>>(text).ok().map(|m| m.into_iter().collect())
}

/// Calls `serde_json::to_string_pretty` on an object whose values are strings,
/// which fails on no such object. What it writes is read back as the same
/// object.
#[verifier::external_body]
pub(crate) fn write_json_object(pairs: &Vec<(String, String)>) -> (r: Option<String>)
    ensures
        r is Some,
        r matches Some(text) ==> json_object(text@) == Some(pairs_map(pairs@)),
{
    serde_json::to_string_pretty(&pairs.iter().cloned().collect::<BTreeMap<String, String>>()).ok()
}

/// Parses a `libp2p::Multiaddr` and gives the parser's complaint back, if it
/// has one.
#[verifier::external_body]
pub(crate) fn check_multiaddr(text: &str) -> (r: Option<String>)
    ensures
        r is Some <==> multiaddr_fault(text@) is Some,
        r matches Some(fault) ==> multiaddr_fault(text@) == Some(fault@),
{
    text.parse::<libp2p::Multiaddr>().err().map(|e| e.to_string())
}

/// Formats a `std::path::Path` with its `Debug` implementation, which quotes and
/// escapes it.
#[verifier::external_body]
pub(crate) fn show_path(path: &str) -> (r: String)
    ensures
        r@ == path_shown(path@),
{
    format!("{:?}", std::path::Path::new(path))
}

} // verus!
