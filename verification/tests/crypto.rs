use vitruvius::crypto::{
    blind_chunk_hash, blind_filename, chunk_aad, decrypt, decrypt_with_aad, derive_subkey, encrypt,
    encrypt_with_aad, key_from_file, seal_with_nonce, short_fingerprint, SecretKey,
};
use vitruvius::error::Error;

fn test_key() -> [u8; 32] {
    [0xAB; 32]
}

#[test]
fn round_trip_small() {
    let key = test_key();
    let plaintext = b"hello vitruvius";
    let encrypted = encrypt(&key, plaintext).unwrap();
    let decrypted = decrypt(&key, &encrypted).unwrap();
    assert_eq!(decrypted, plaintext);
}

#[test]
fn round_trip_empty() {
    let key = test_key();
    let encrypted = encrypt(&key, b"").unwrap();
    let decrypted = decrypt(&key, &encrypted).unwrap();
    assert_eq!(decrypted, b"");
}

#[test]
fn nonces_are_unique() {
    let key = test_key();
    let a = encrypt(&key, b"same input").unwrap();
    let b = encrypt(&key, b"same input").unwrap();
    assert_ne!(a, b);
}

#[test]
fn tamper_detection() {
    let key = test_key();
    let mut encrypted = encrypt(&key, b"secret data").unwrap();
    let last = encrypted.len() - 1;
    encrypted[last] ^= 0xFF;
    assert!(decrypt(&key, &encrypted).is_err());
}

#[test]
fn wrong_key_fails() {
    let key_a = [0xAAu8; 32];
    let key_b = [0xBBu8; 32];
    let encrypted = encrypt(&key_a, b"secret").unwrap();
    assert!(decrypt(&key_b, &encrypted).is_err());
}

#[test]
fn short_data_fails() {
    let key = test_key();
    assert!(decrypt(&key, &[0u8; 10]).is_err());
}

#[test]
fn aad_round_trip() {
    let key = test_key();
    let aad = chunk_aad(&[0x42; 16], 7);
    let ct = encrypt_with_aad(&key, b"hello", &aad).unwrap();
    let pt = decrypt_with_aad(&key, &ct, &aad).unwrap();
    assert_eq!(pt, b"hello");
}

#[test]
fn aad_mismatch_fails() {
    let key = test_key();
    let aad1 = chunk_aad(&[0x42; 16], 7);
    let aad2 = chunk_aad(&[0x42; 16], 8); // different chunk index
    let ct = encrypt_with_aad(&key, b"hello", &aad1).unwrap();
    assert!(decrypt_with_aad(&key, &ct, &aad2).is_err());
}

#[test]
fn aad_swap_file_fails() {
    let key = test_key();
    let aad1 = chunk_aad(&[0x11; 16], 0);
    let aad2 = chunk_aad(&[0x22; 16], 0); // different file_id
    let ct = encrypt_with_aad(&key, b"hello", &aad1).unwrap();
    assert!(decrypt_with_aad(&key, &ct, &aad2).is_err());
}

#[test]
fn blinded_filenames_deterministic_per_key() {
    let k1 = [0x01u8; 32];
    let k2 = [0x02u8; 32];
    let a = blind_filename(&k1, "secret/path.txt");
    let b = blind_filename(&k1, "secret/path.txt");
    let c = blind_filename(&k2, "secret/path.txt");
    assert_eq!(a, b, "deterministic for same key+path");
    assert_ne!(a, c, "different keys must yield different ids");
}

#[test]
fn blinded_chunk_hash_hides_plaintext_hash() {
    let key = test_key();
    let hash = [0x99u8; 32];
    let blinded = blind_chunk_hash(&key, &hash);
    assert_ne!(blinded, hash, "blinded must differ from plaintext hash");
    // Recomputing yields the same blinded value.
    assert_eq!(blinded, blind_chunk_hash(&key, &hash));
}

#[test]
fn derive_subkey_is_context_separated() {
    let master = test_key();
    let a = derive_subkey(&master, "ctx-A");
    let b = derive_subkey(&master, "ctx-B");
    assert_ne!(a, b);
    // Same context yields the same subkey.
    assert_eq!(a, derive_subkey(&master, "ctx-A"));
}

#[test]
fn fingerprint_does_not_leak_full_key() {
    let key = test_key();
    let fp = short_fingerprint(&key);
    assert_eq!(fp.len(), 16); // 8 bytes hex
    assert!(!fp.contains("ab"), "fingerprint is hash, not raw bytes");
}

#[test]
fn secret_key_debug_is_redacted() {
    let sk = SecretKey::new(test_key());
    let s = sk.debug_text();
    assert!(s.contains("redacted"));
    assert!(!s.contains("AB"));
}

fn hex(bytes: &[u8]) -> String {
    bytes.iter().map(|b| format!("{:02x}", b)).collect()
}

#[test]
fn a_block_is_nonce_and_sealed_text() {
    let key = test_key();
    let nonce = [9u8; 12];
    let block = seal_with_nonce(&key, &nonce, b"twelve bytes", b"context").unwrap();
    assert_eq!(block.len(), 12 + 12 + 16);
    assert_eq!(&block[..12], &nonce);
    assert_eq!(decrypt_with_aad(&key, &block, b"context").unwrap(), b"twelve bytes");
    assert_eq!(
        block,
        seal_with_nonce(&key, &nonce, b"twelve bytes", b"context").unwrap()
    );
    assert_ne!(
        block,
        seal_with_nonce(&key, &nonce, b"twelve bytes", b"other").unwrap()
    );
}

#[test]
fn refused_blocks_say_why() {
    let key = test_key();
    let short = decrypt(&key, &[0u8; 27]);
    assert!(matches!(short, Err(Error::TooShort { len: 27 })));
    let wrong = decrypt(&key, &[0u8; 28]);
    assert!(matches!(wrong, Err(Error::DecryptionFailed)));
    assert_eq!(Error::DecryptionFailed.message(), wrong.unwrap_err().message());
    assert!(short.unwrap_err().message().contains("27"));
}

#[test]
fn fingerprint_is_the_beginning_of_the_digest() {
    let key = test_key();
    let digest = blake3::hash(&key);
    assert_eq!(short_fingerprint(&key), hex(&digest.as_bytes()[..8]));
}

#[test]
fn subkeys_are_keyed_digests() {
    let master = test_key();
    let mac = blake3::keyed_hash(&master, b"ctx-A");
    assert_eq!(&derive_subkey(&master, "ctx-A"), mac.as_bytes());
}

#[test]
fn blinding_goes_through_the_derived_keys() {
    let key = [3u8; 32];
    let mut h = blake3::Hasher::new_derive_key("vitruvius v0.2 file-id");
    h.update(&key);
    h.update(&[0]);
    h.update(b"secret/path.txt");
    assert_eq!(&blind_filename(&key, "secret/path.txt")[..], &h.finalize().as_bytes()[..16]);
    let hash = [7u8; 32];
    let mut h = blake3::Hasher::new_derive_key("vitruvius v0.2 chunk-hash");
    h.update(&key);
    h.update(&[0]);
    h.update(&hash);
    assert_eq!(&blind_chunk_hash(&key, &hash), h.finalize().as_bytes());
}

#[test]
fn chunk_aad_holds_id_and_place() {
    let a = chunk_aad(&[0x42; 16], 7);
    assert_eq!(&a[..16], b"vitv02-chunk\0\0\0\0");
    assert_eq!(&a[16..32], &[0x42; 16]);
    assert_eq!(&a[32..], &7u32.to_le_bytes());
    assert_ne!(a, chunk_aad(&[0x42; 16], 8));
    assert_ne!(a, chunk_aad(&[0x43; 16], 7));
}

#[test]
fn key_files_hold_thirty_two_bytes() {
    assert_eq!(key_from_file(&[5u8; 32]).unwrap(), [5u8; 32]);
    assert!(matches!(key_from_file(&[5u8; 31]), Err(Error::KeyFileLength { len: 31 })));
}

#[test]
fn secret_keys_hold_their_bytes() {
    let sk = SecretKey::new(test_key());
    assert_eq!(sk.as_bytes(), &test_key());
    assert_eq!(sk.clone().as_bytes(), &test_key());
    assert_ne!(SecretKey::random().as_bytes(), SecretKey::random().as_bytes());
}
