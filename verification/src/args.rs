//! What the caller asks for: the algorithm, the claims, the time to live.

use std::path::PathBuf;
use vstd::prelude::*;
use crate::error::Error;

verus! {

/// `std::path::PathBuf`: a path in the file system. The library carries it and
/// never reads it.
#[verifier::external_type_specification]
#[verifier::external_body]
pub struct ExPathBuf(PathBuf);

/// The signature algorithms a token can be requested with.
#[derive(Clone, Copy, Debug, PartialEq, Eq, Structural)]
pub enum Alg {
    RS256,
    RS384,
    RS512,
    PS256,
    PS384,
    PS512,
    ES256,
    ES256K,
    ES384,
    ES512,
    EDDSA,
}

impl Alg {
    /// The registered JOSE name of the algorithm, as it appears under `alg`.
    pub open spec fn spec_name(self) -> Seq<char> {
        match self {
            Alg::RS256 => "RS256"@,
            Alg::RS384 => "RS384"@,
            Alg::RS512 => "RS512"@,
            Alg::PS256 => "PS256"@,
            Alg::PS384 => "PS384"@,
            Alg::PS512 => "PS512"@,
            Alg::ES256 => "ES256"@,
            Alg::ES256K => "ES256K"@,
            Alg::ES384 => "ES384"@,
            Alg::ES512 => "ES512"@,
            Alg::EDDSA => "EdDSA"@,
        }
    }

    /// The registered JOSE name of the algorithm.
    pub fn name(&self) -> (name: &'static str)
        ensures
            name@ == self.spec_name(),
    {
        match self {
            Alg::RS256 => "RS256",
            Alg::RS384 => "RS384",
            Alg::RS512 => "RS512",
            Alg::PS256 => "PS256",
            Alg::PS384 => "PS384",
            Alg::PS512 => "PS512",
            Alg::ES256 => "ES256",
            Alg::ES256K => "ES256K",
            Alg::ES384 => "ES384",
            Alg::ES512 => "ES512",
            Alg::EDDSA => "EdDSA",
        }
    }
}

/// One request for a token.
#[derive(Debug)]
pub struct Args {
    /// Where the key is read from; standard input if absent.
    pub jwkfile: Option<PathBuf>,
    /// Issuer claim (`iss`).
    pub iss: String,
    /// Audience claim (`aud`).
    pub aud: String,
    /// Time to live in whole seconds; the token expires that long after it is made.
    pub ttl: u64,
    /// The algorithm to sign with.
    pub alg: Alg,
    /// Further claims, in the order given; each value is kept as a string.
    pub additional_claims: Vec<(String, String)>,
}

impl Args {
    /// The caller's own claims as pairs of text.
    pub open spec fn extra(&self) -> Seq<(Seq<char>, Seq<char>)> {
        self.additional_claims@.map_values(|pair: (String, String)| (pair.0@, pair.1@))
    }
}

/// Splits `KEY=VALUE` at its first `=`.
///
/// The key is what stands before the first `=`, the value all that follows it,
/// further `=` included. Text without any `=` is refused.
pub fn parse_key_value(src: &str) -> (parsed: Result<(String, String), Error>)
    ensures
        match parsed {
            Ok(pair) => src@ == pair.0@ + seq!['='] + pair.1@ && !pair.0@.contains('='),
            Err(e) => e == Error::InvalidClaim && !src@.contains('='),
        },
{
    let len = src.unicode_len();
    let mut at: usize = 0;
    for c in it: src.chars()
        invariant
            len == src@.len(),
            at == it.index(),
            it.seq() == src@,
            forall|j: int| 0 <= j < at ==> src@[j] != '=',
    {
        if c == '=' {
            let key = src.substring_char(0, at);
            let value = src.substring_char(at + 1, len);
            assert(src@ =~= key@ + seq!['='] + value@);
            return Ok((key.to_owned(), value.to_owned()));
        }
        at += 1;
    }
    Err(Error::InvalidClaim)
}

} // verus!
