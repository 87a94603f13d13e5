//! What can go wrong, and how it is told.
use crate::primitives::{path_shown, show_path};
use crate::text::{concat2, concat3, concat4, decimal, decimal_text, owned};
use vstd::prelude::*;

verus! {

/// Why an operation of the library did not succeed.
#[allow(inconsistent_fields)]
#[derive(Debug)]
pub enum Error {
    /// The message is longer than one nonce can encrypt.
    EncryptionFailed,
    /// An encrypted block without room for a nonce and a tag.
    TooShort { len: usize },
    /// The tag does not fit the key, the context and the data.
    DecryptionFailed,
    /// A key file that does not hold 32 bytes.
    KeyFileLength { len: usize },
    /// A container shorter than its header.
    VaultHeaderRead,
    /// A file that does not begin as a container does.
    BadMagic,
    /// A container that ends in the middle of a record.
    UnexpectedEnd,
    /// A chunk that a container does not have.
    ChunkOutOfRange { index: u32, total: u32 },
    /// A stored chunk that the vault key does not open.
    VaultChunkDecrypt,
    /// A stored chunk that the vault key does not open, met in an export.
    VaultExportDecrypt,
    /// A chunk too long to encrypt.
    VaultChunkEncrypt,
    /// A block whose length does not fit in its prefix.
    ChunkTooBig,
    /// More chunks than a header can count.
    TooManyChunks,
    /// A relative path that might lead out of the folder.
    UnsafePath { path: String },
    /// Vault mode without a key.
    VaultKeyMissing,
    /// A path outside the folder.
    NotRelative { path: String },
    /// A container outside the folder.
    VaultOutsideRoot { path: String },
    /// A path without a file name.
    BadVaultName { path: String },
    /// A file name without the extension of containers.
    NotVaultFile,
    /// A path outside the folder that is imported.
    RelPathFailed { path: String },
    /// A chunk beyond the end of its file.
    ChunkPastEnd { index: usize, name: String },
    /// A chunk that could not be encrypted for transport.
    ChunkEncryption,
    /// A chunk that could not be sealed for transport.
    EncryptedChunkAead,
    /// A manifest that could not be sealed.
    ManifestEncrypt,
    /// A manifest that the transport key does not open.
    ManifestDecrypt,
    /// A transfer without metadata.
    NoMetadata,
    /// A chunk that did not come.
    MissingChunk { index: usize, name: String },
    /// A chunk that did not come, of a file to be stored encrypted.
    MissingVaultChunk { index: usize, name: String },
    /// What the operating system complained of.
    Io { message: String },
    /// A chunk of a sent file that did not come.
    LostChunk { index: u32 },
    /// A path that names no file.
    InvalidFileName,
    /// A delta transfer without metadata.
    NoMetadataAvailable,
    /// A chunk that neither came nor is on disk.
    LostDeltaChunk { index: usize },
    /// A chunk that neither came nor is in the file on disk.
    LostBlendChunk { index: usize },
    /// A file that was put together and is not the one that was announced.
    WrongFileHash { name: String },
    /// A path that leads out of the folder.
    InvalidFilePath,
}

/// What an `Error` says.
#[allow(inconsistent_fields)]
#[verifier::ext_equal]
pub ghost enum ErrorView {
    EncryptionFailed,
    TooShort { len: nat },
    DecryptionFailed,
    KeyFileLength { len: nat },
    VaultHeaderRead,
    BadMagic,
    UnexpectedEnd,
    ChunkOutOfRange { index: nat, total: nat },
    VaultChunkDecrypt,
    VaultExportDecrypt,
    VaultChunkEncrypt,
    ChunkTooBig,
    TooManyChunks,
    UnsafePath { path: Seq<char> },
    VaultKeyMissing,
    NotRelative { path: Seq<char> },
    VaultOutsideRoot { path: Seq<char> },
    BadVaultName { path: Seq<char> },
    NotVaultFile,
    RelPathFailed { path: Seq<char> },
    ChunkPastEnd { index: nat, name: Seq<char> },
    ChunkEncryption,
    EncryptedChunkAead,
    ManifestEncrypt,
    ManifestDecrypt,
    NoMetadata,
    MissingChunk { index: nat, name: Seq<char> },
    MissingVaultChunk { index: nat, name: Seq<char> },
    Io { message: Seq<char> },
    LostChunk { index: nat },
    InvalidFileName,
    NoMetadataAvailable,
    LostDeltaChunk { index: nat },
    LostBlendChunk { index: nat },
    WrongFileHash { name: Seq<char> },
    InvalidFilePath,
}

impl View for Error {
    type V = ErrorView;

    open spec fn view(&self) -> ErrorView {
        match *self {
            Error::EncryptionFailed => ErrorView::EncryptionFailed,
            Error::TooShort { len } => ErrorView::TooShort { len: len as nat },
            Error::DecryptionFailed => ErrorView::DecryptionFailed,
            Error::KeyFileLength { len } => ErrorView::KeyFileLength { len: len as nat },
            Error::VaultHeaderRead => ErrorView::VaultHeaderRead,
            Error::BadMagic => ErrorView::BadMagic,
            Error::UnexpectedEnd => ErrorView::UnexpectedEnd,
            Error::ChunkOutOfRange { index, total } => {
                ErrorView::ChunkOutOfRange { index: index as nat, total: total as nat }
            }
            Error::VaultChunkDecrypt => ErrorView::VaultChunkDecrypt,
            Error::VaultExportDecrypt => ErrorView::VaultExportDecrypt,
            Error::VaultChunkEncrypt => ErrorView::VaultChunkEncrypt,
            Error::ChunkTooBig => ErrorView::ChunkTooBig,
            Error::TooManyChunks => ErrorView::TooManyChunks,
            Error::UnsafePath { path } => ErrorView::UnsafePath { path: path@ },
            Error::VaultKeyMissing => ErrorView::VaultKeyMissing,
            Error::NotRelative { path } => ErrorView::NotRelative { path: path@ },
            Error::VaultOutsideRoot { path } => ErrorView::VaultOutsideRoot { path: path@ },
            Error::BadVaultName { path } => ErrorView::BadVaultName { path: path@ },
            Error::NotVaultFile => ErrorView::NotVaultFile,
            Error::RelPathFailed { path } => ErrorView::RelPathFailed { path: path@ },
            Error::ChunkPastEnd { index, name } => {
                ErrorView::ChunkPastEnd { index: index as nat, name: name@ }
            }
            Error::ChunkEncryption => ErrorView::ChunkEncryption,
            Error::EncryptedChunkAead => ErrorView::EncryptedChunkAead,
            Error::ManifestEncrypt => ErrorView::ManifestEncrypt,
            Error::ManifestDecrypt => ErrorView::ManifestDecrypt,
            Error::NoMetadata => ErrorView::NoMetadata,
            Error::MissingChunk { index, name } => {
                ErrorView::MissingChunk { index: index as nat, name: name@ }
            }
            Error::MissingVaultChunk { index, name } => {
                ErrorView::MissingVaultChunk { index: index as nat, name: name@ }
            }
            Error::Io { message } => ErrorView::Io { message: message@ },
            Error::LostChunk { index } => ErrorView::LostChunk { index: index as nat },
            Error::InvalidFileName => ErrorView::InvalidFileName,
            Error::NoMetadataAvailable => ErrorView::NoMetadataAvailable,
            Error::LostDeltaChunk { index } => ErrorView::LostDeltaChunk { index: index as nat },
            Error::LostBlendChunk { index } => ErrorView::LostBlendChunk { index: index as nat },
            Error::WrongFileHash { name } => ErrorView::WrongFileHash { name: name@ },
            Error::InvalidFilePath => ErrorView::InvalidFilePath,
        }
    }
}

/// The sentence that tells of an error.
pub open spec fn error_text(e: ErrorView) -> Seq<char> {
    match e {
        ErrorView::EncryptionFailed => "Encryption failed: aead::Error"@,
        ErrorView::TooShort { len } => {
            "Data too short ("@ + decimal(len) + " bytes) to be a valid encrypted chunk"@
        },
        ErrorView::DecryptionFailed => {
            "Decryption failed — wrong key, wrong context, or data was tampered with"@
        },
        ErrorView::KeyFileLength { len } => {
            "Key file must be exactly 32 bytes, got "@ + decimal(len)
                + ". Did you generate it with --generate-key?"@
        },
        ErrorView::VaultHeaderRead => "vault header read"@,
        ErrorView::BadMagic => "not a vault file (bad magic)"@,
        ErrorView::UnexpectedEnd => "failed to fill whole buffer"@,
        ErrorView::ChunkOutOfRange { index, total } => {
            "chunk "@ + decimal(index) + " >= total "@ + decimal(total)
        },
        ErrorView::VaultChunkDecrypt => "vault chunk decrypt failed (wrong vault key?)"@,
        ErrorView::VaultExportDecrypt => "vault export decrypt"@,
        ErrorView::VaultChunkEncrypt => "vault chunk encrypt"@,
        ErrorView::ChunkTooBig => "chunk too big"@,
        ErrorView::TooManyChunks => "too many chunks"@,
        ErrorView::UnsafePath { path } => "unsafe path: "@ + path,
        ErrorView::VaultKeyMissing => "vault mode without vault_key"@,
        ErrorView::NotRelative { path } => "Cannot make relative path for "@ + path_shown(path),
        ErrorView::VaultOutsideRoot { path } => "vault file outside root: "@ + path_shown(path),
        ErrorView::BadVaultName { path } => "bad vault filename "@ + path_shown(path),
        ErrorView::NotVaultFile => "not a .vit file"@,
        ErrorView::RelPathFailed { path } => "rel path failed for "@ + path_shown(path),
        ErrorView::ChunkPastEnd { index, name } => {
            "chunk "@ + decimal(index) + " past end of "@ + name
        },
        ErrorView::ChunkEncryption => "Chunk encryption failed: Encryption failed: aead::Error"@,
        ErrorView::EncryptedChunkAead => "encrypted-chunk AEAD"@,
        ErrorView::ManifestEncrypt => "manifest encrypt"@,
        ErrorView::ManifestDecrypt => "manifest decrypt failed (wrong transport key?)"@,
        ErrorView::NoMetadata => "No metadata during reassembly"@,
        ErrorView::MissingChunk { index, name } => {
            "Missing chunk "@ + decimal(index) + " during reassembly of "@ + name
        },
        ErrorView::MissingVaultChunk { index, name } => {
            "Missing chunk "@ + decimal(index) + " during vault reassembly of "@ + name
        },
        ErrorView::Io { message } => message,
        ErrorView::LostChunk { index } => "Missing chunk "@ + decimal(index),
        ErrorView::InvalidFileName => "Invalid file name"@,
        ErrorView::NoMetadataAvailable => "No metadata available"@,
        ErrorView::LostDeltaChunk { index } => "Missing chunk "@ + decimal(index),
        ErrorView::LostBlendChunk { index } => {
            "Missing chunk "@ + decimal(index) + " and no existing data"@
        },
        ErrorView::WrongFileHash { name } => "File hash mismatch for "@ + name,
        ErrorView::InvalidFilePath => "Invalid file path"@,
    }
}

impl Error {
    /// The sentence that tells of the error.
    pub fn message(&self) -> (r: String)
        ensures
            r@ == error_text(self@),
    {
        match self {
            Error::EncryptionFailed => owned("Encryption failed: aead::Error"),
            Error::TooShort { len } => {
                concat3(
                    "Data too short (",
                    decimal_text(*len as u64).as_str(),
                    " bytes) to be a valid encrypted chunk",
                )
            },
            Error::DecryptionFailed => {
                owned("Decryption failed — wrong key, wrong context, or data was tampered with")
            },
            Error::KeyFileLength { len } => {
                concat3(
                    "Key file must be exactly 32 bytes, got ",
                    decimal_text(*len as u64).as_str(),
                    ". Did you generate it with --generate-key?",
                )
            },
            Error::VaultHeaderRead => owned("vault header read"),
            Error::BadMagic => owned("not a vault file (bad magic)"),
            Error::UnexpectedEnd => owned("failed to fill whole buffer"),
            Error::ChunkOutOfRange { index, total } => {
                concat4(
                    "chunk ",
                    decimal_text(*index as u64).as_str(),
                    " >= total ",
                    decimal_text(*total as u64).as_str(),
                )
            },
            Error::VaultChunkDecrypt => owned("vault chunk decrypt failed (wrong vault key?)"),
            Error::VaultExportDecrypt => owned("vault export decrypt"),
            Error::VaultChunkEncrypt => owned("vault chunk encrypt"),
            Error::ChunkTooBig => owned("chunk too big"),
            Error::TooManyChunks => owned("too many chunks"),
            Error::UnsafePath { path } => concat2("unsafe path: ", path.as_str()),
            Error::VaultKeyMissing => owned("vault mode without vault_key"),
            Error::NotRelative { path } => {
                concat2("Cannot make relative path for ", show_path(path.as_str()).as_str())
            },
            Error::VaultOutsideRoot { path } => {
                concat2("vault file outside root: ", show_path(path.as_str()).as_str())
            },
            Error::BadVaultName { path } => {
                concat2("bad vault filename ", show_path(path.as_str()).as_str())
            },
            Error::NotVaultFile => owned("not a .vit file"),
            Error::RelPathFailed { path } => {
                concat2("rel path failed for ", show_path(path.as_str()).as_str())
            },
            Error::ChunkPastEnd { index, name } => {
                concat4(
                    "chunk ",
                    decimal_text(*index as u64).as_str(),
                    " past end of ",
                    name.as_str(),
                )
            },
            Error::ChunkEncryption => {
                owned("Chunk encryption failed: Encryption failed: aead::Error")
            },
            Error::EncryptedChunkAead => owned("encrypted-chunk AEAD"),
            Error::ManifestEncrypt => owned("manifest encrypt"),
            Error::ManifestDecrypt => owned("manifest decrypt failed (wrong transport key?)"),
            Error::NoMetadata => owned("No metadata during reassembly"),
            Error::MissingChunk { index, name } => {
                concat4(
                    "Missing chunk ",
                    decimal_text(*index as u64).as_str(),
                    " during reassembly of ",
                    name.as_str(),
                )
            },
            Error::MissingVaultChunk { index, name } => {
                concat4(
                    "Missing chunk ",
                    decimal_text(*index as u64).as_str(),
                    " during vault reassembly of ",
                    name.as_str(),
                )
            },
            Error::Io { message } => message.clone(),
            Error::LostChunk { index } => {
                concat2("Missing chunk ", decimal_text(*index as u64).as_str())
            },
            Error::InvalidFileName => owned("Invalid file name"),
            Error::NoMetadataAvailable => owned("No metadata available"),
            Error::LostDeltaChunk { index } => {
                concat2("Missing chunk ", decimal_text(*index as u64).as_str())
            },
            Error::LostBlendChunk { index } => {
                concat3(
                    "Missing chunk ",
                    decimal_text(*index as u64).as_str(),
                    " and no existing data",
                )
            },
            Error::WrongFileHash { name } => concat2("File hash mismatch for ", name.as_str()),
            Error::InvalidFilePath => owned("Invalid file path"),
        }
    }
}

} // verus!
