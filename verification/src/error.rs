//! The errors of decoding a wire message.
use vstd::prelude::*;

use crate::molecule::{SpecVerificationError, VerificationError};

verus! {

/// Which secp256k1 parse refused its bytes.
#[derive(Clone, Copy, Debug, PartialEq, Eq, Structural)]
pub enum SecpError {
    /// The bytes are no public key (secp256k1 answers `Error::InvalidPublicKey`).
    InvalidPublicKey,
    /// The bytes are no compact ECDSA signature (secp256k1 answers `Error::InvalidSignature`).
    InvalidSignature,
}

/// Why a wire message could not be decoded.
#[derive(Clone, Debug, PartialEq, Eq)]
pub enum Error {
    /// A public key or a signature did not parse.
    Secp(SecpError),
    /// The molecule frame of the message is broken.
    Molecule(VerificationError),
    /// A musig2 public nonce did not parse; the text is musig2's own message.
    Musig2(String),
}

/// The mathematical value of an [`Error`].
pub enum SpecError {
    Secp(SecpError),
    Molecule(SpecVerificationError),
    Musig2(Seq<char>),
}

impl View for Error {
    type V = SpecError;

    open spec fn view(&self) -> SpecError {
        match self {
            Error::Secp(e) => SpecError::Secp(*e),
            Error::Molecule(e) => SpecError::Molecule(e@),
            Error::Musig2(s) => SpecError::Musig2(s@),
        }
    }
}

} // verus!
