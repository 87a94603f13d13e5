//! The identity of a node: a key pair that is made on the first run and used from then
//! on, so that the node keeps its peer id.
use crate::primitives::{fresh_keypair, keypair_reading, read_keypair};
use crate::text::opt_text;
use vstd::prelude::*;

verus! {

/// What is to be done about the identity.
#[derive(Debug)]
pub enum IdentityStep {
    /// The key pair with this encoding is to be used.
    Use { key: Vec<u8> },
    /// A key pair is to be made and written. If there was a file, this is what is wrong
    /// with it.
    Make { complaint: Option<String> },
}

/// What an `IdentityStep` says.
#[verifier::ext_equal]
pub ghost enum IdentityStepView {
    Use { key: Seq<u8> },
    Make { complaint: Option<Seq<char>> },
}

impl View for IdentityStep {
    type V = IdentityStepView;

    open spec fn view(&self) -> IdentityStepView {
        match *self {
            IdentityStep::Use { key } => IdentityStepView::Use { key: key@ },
            IdentityStep::Make { complaint } => IdentityStepView::Make {
                complaint: opt_text(complaint),
            },
        }
    }
}

/// What a key file leads to: its key pair is used, unless the file is missing, cannot
/// be read, or is corrupt.
pub open spec fn identity_step(file: Option<Result<Seq<u8>, Seq<char>>>) -> IdentityStepView {
    match file {
        None => IdentityStepView::Make { complaint: None },
        Some(Err(e)) => IdentityStepView::Make { complaint: Some(e) },
        Some(Ok(bytes)) => match keypair_reading(bytes) {
            Ok(key) => IdentityStepView::Use { key },
            Err(e) => IdentityStepView::Make { complaint: Some(e) },
        },
    }
}

/// The view of a file that was read, if it was there.
pub open spec fn file_view(file: Option<Result<Vec<u8>, String>>) -> Option<
    Result<Seq<u8>, Seq<char>>,
> {
    match file {
        None => None,
        Some(Ok(bytes)) => Some(Ok(bytes@)),
        Some(Err(e)) => Some(Err(e@)),
    }
}

/// What the key file leads to, if it is there.
pub fn identity_found(file: Option<Result<Vec<u8>, String>>) -> (r: IdentityStep)
    ensures
        r@ == identity_step(file_view(file)),
        match file {
            None => r matches IdentityStep::Make { complaint } && complaint is None,
            Some(Err(e)) => r matches IdentityStep::Make { complaint } && complaint == Some(e),
            Some(Ok(bytes)) => match keypair_reading(bytes@) {
                Ok(k) => r matches IdentityStep::Use { key } && key@ == k,
                Err(e) => r matches IdentityStep::Make { complaint } && complaint is Some
                    && complaint->0@ == e,
            },
        },
{
    match file {
        None => IdentityStep::Make { complaint: None },
        Some(Err(e)) => IdentityStep::Make { complaint: Some(e) },
        Some(Ok(bytes)) => match read_keypair(bytes.as_slice()) {
            Ok(key) => IdentityStep::Use { key },
            Err(e) => IdentityStep::Make { complaint: Some(e) },
        },
    }
}

/// Makes a key pair. The result is what is to be written to the key file; a later run
/// that finds it there uses it.
pub fn new_identity() -> (r: Vec<u8>)
    ensures
        keypair_reading(r@) == Ok::<Seq<u8>, Seq<char>>(r@),
        identity_step(Some(Ok(r@))) == (IdentityStepView::Use { key: r@ }),
{
    match fresh_keypair() {
        Some(key) => key,
        None => Vec::new(),
    }
}

/// The identity of this run, and whether it is to be written to the key file.
pub fn load_or_create_keypair(file: Option<Result<Vec<u8>, String>>) -> (r: (Vec<u8>, bool))
    ensures
        match identity_step(file_view(file)) {
            IdentityStepView::Use { key } => r.0@ == key && !r.1,
            IdentityStepView::Make { complaint } => r.1 && identity_step(Some(Ok(r.0@))) == (
            IdentityStepView::Use { key: r.0@ }),
        },
{
    match identity_found(file) {
        IdentityStep::Use { key } => (key, false),
        IdentityStep::Make { .. } => (new_identity(), true),
    }
}

/// The bytes that the key file holds after a run that found `file` and had `key`,
/// written or not.
pub open spec fn file_after(
    file: Option<Result<Seq<u8>, Seq<char>>>,
    key: Seq<u8>,
    write: bool,
) -> Option<Result<Seq<u8>, Seq<char>>> {
    if write {
        Some(Ok(key))
    } else {
        file
    }
}

/// A node keeps its identity: whatever its first run found, the next run uses the same
/// key pair.
pub proof fn law_identity_is_kept(
    file: Option<Result<Seq<u8>, Seq<char>>>,
    key: Seq<u8>,
    write: bool,
)
    requires
        match identity_step(file) {
            IdentityStepView::Use { key: k } => key == k && !write,
            IdentityStepView::Make { complaint } => write && identity_step(Some(Ok(key))) == (
            IdentityStepView::Use { key }),
        },
    ensures
        identity_step(file_after(file, key, write)) == (IdentityStepView::Use { key }),
{
}

/// A key pair in the key file is used; without a file, or with one that cannot be read,
/// a new one is made.
pub proof fn law_readable_identity_is_used(bytes: Seq<u8>, error: Seq<char>)
    ensures
        keypair_reading(bytes) matches Ok(k) ==> identity_step(Some(Ok(bytes))) == (
        IdentityStepView::Use { key: k }),
        keypair_reading(bytes) matches Err(e) ==> identity_step(Some(Ok(bytes))) == (
        IdentityStepView::Make { complaint: Some(e) }),
        identity_step(Some(Err(error))) == (IdentityStepView::Make { complaint: Some(error) }),
        identity_step(None) == (IdentityStepView::Make { complaint: None }),
{
}

} // verus!
