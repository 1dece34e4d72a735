//! The ways in which producing a token can fail.

use vstd::prelude::*;

verus! {

/// Why no token was produced. Every failure is final: nothing is retried.
#[derive(Clone, Copy, Debug, PartialEq, Eq, Structural)]
pub enum Error {
    /// The key could not be read from its file or from standard input.
    InputError,
    /// The key is not a JSON Web Key, or lacks what its key type requires.
    MalformedKey,
    /// The key's type or curve does not fit the requested algorithm.
    KeyAlgorithmMismatch,
    /// A claim cannot be put into the payload.
    InvalidClaim,
    /// The signing operation itself failed.
    SigningFailure,
}

impl Error {
    /// The text of `message`.
    pub open spec fn spec_message(self) -> Seq<char> {
        match self {
            Error::InputError => "the key could not be read"@,
            Error::MalformedKey => "the key is not a usable JSON Web Key"@,
            Error::KeyAlgorithmMismatch => "the key does not fit the requested algorithm"@,
            Error::InvalidClaim => "a claim cannot be put into the payload"@,
            Error::SigningFailure => "signing failed"@,
        }
    }

    /// A sentence for the person who ran the program.
    pub fn message(&self) -> (text: &'static str)
        ensures
            text@ == self.spec_message(),
    {
        match self {
            Error::InputError => "the key could not be read",
            Error::MalformedKey => "the key is not a usable JSON Web Key",
            Error::KeyAlgorithmMismatch => "the key does not fit the requested algorithm",
            Error::InvalidClaim => "a claim cannot be put into the payload",
            Error::SigningFailure => "signing failed",
        }
    }
}

} // verus!
