//! The algorithm selector: which keys fit which algorithm, and the signer
//! that `josekit` binds to a key that fits.

use vstd::prelude::*;
use josekit::jwk::Jwk;
use josekit::jws::alg::ecdsa::EcdsaJwsAlgorithm;
use josekit::jws::alg::ecdsa::EcdsaJwsSigner;
use josekit::jws::alg::eddsa::EddsaJwsAlgorithm;
use josekit::jws::alg::eddsa::EddsaJwsSigner;
use josekit::jws::alg::rsassa::RsassaJwsAlgorithm;
use josekit::jws::alg::rsassa::RsassaJwsSigner;
use josekit::jws::alg::rsassa_pss::RsassaPssJwsAlgorithm;
use josekit::jws::alg::rsassa_pss::RsassaPssJwsSigner;
use josekit::JoseError;
use crate::args::Alg;
use crate::error::Error;
use crate::key::jwk_members;
use crate::key::members_checked;
use crate::key::text_of;
use crate::key::JsonWebKey;
use crate::key::KeyInfo;
use crate::text::same_text;

verus! {

/// The hash that an RSA signature is made over.
#[derive(Clone, Copy, Debug, PartialEq, Eq, Structural)]
pub enum Digest {
    Sha256,
    Sha384,
    Sha512,
}

/// The curve of an ECDSA signature.
#[derive(Clone, Copy, Debug, PartialEq, Eq, Structural)]
pub enum Curve {
    P256,
    Secp256k1,
    P384,
    P521,
}

/// The four kinds of signature, each with what tells its algorithms apart.
#[derive(Clone, Copy, Debug, PartialEq, Eq, Structural)]
pub enum Family {
    /// RSASSA-PKCS1-v1_5: `RS256`, `RS384`, `RS512`.
    Rsassa(Digest),
    /// RSASSA-PSS: `PS256`, `PS384`, `PS512`.
    RsassaPss(Digest),
    /// ECDSA: `ES256`, `ES256K`, `ES384`, `ES512`.
    Ecdsa(Curve),
    /// EdDSA on Ed25519.
    Eddsa,
}

impl Curve {
    /// The name of the curve as a key spells it under `crv`.
    pub open spec fn spec_name(self) -> Seq<char> {
        match self {
            Curve::P256 => "P-256"@,
            Curve::Secp256k1 => "secp256k1"@,
            Curve::P384 => "P-384"@,
            Curve::P521 => "P-521"@,
        }
    }

    /// The name of the curve as a key spells it under `crv`.
    pub fn name(&self) -> (name: &'static str)
        ensures
            name@ == self.spec_name(),
    {
        match self {
            Curve::P256 => "P-256",
            Curve::Secp256k1 => "secp256k1",
            Curve::P384 => "P-384",
            Curve::P521 => "P-521",
        }
    }
}

impl Family {
    /// The members that a key must hold as strings before a signer can be
    /// made of it: the private key, and for RSA what goes with it.
    pub open spec fn spec_required(self) -> Seq<Seq<char>> {
        match self {
            Family::Rsassa(_) => seq!["n"@, "e"@, "d"@, "p"@, "q"@, "dp"@, "dq"@, "qi"@],
            Family::RsassaPss(_) => seq!["n"@, "e"@, "d"@, "p"@, "q"@, "dp"@, "dq"@, "qi"@],
            Family::Ecdsa(_) => seq!["d"@],
            Family::Eddsa => seq!["d"@],
        }
    }

    /// The members that a key must hold as strings before a signer can be
    /// made of it.
    pub fn required(&self) -> (names: Vec<&'static str>)
        ensures
            names@.len() == self.spec_required().len(),
            forall|i: int| 0 <= i < names@.len() ==> (#[trigger] names@[i])@ == self.spec_required()[i],
    {
        match self {
            Family::Rsassa(_) => vec!["n", "e", "d", "p", "q", "dp", "dq", "qi"],
            Family::RsassaPss(_) => vec!["n", "e", "d", "p", "q", "dp", "dq", "qi"],
            Family::Ecdsa(_) => vec!["d"],
            Family::Eddsa => vec!["d"],
        }
    }

    /// The registered name of the algorithm of this kind.
    pub open spec fn spec_name(self) -> Seq<char> {
        match self {
            Family::Rsassa(Digest::Sha256) => "RS256"@,
            Family::Rsassa(Digest::Sha384) => "RS384"@,
            Family::Rsassa(Digest::Sha512) => "RS512"@,
            Family::RsassaPss(Digest::Sha256) => "PS256"@,
            Family::RsassaPss(Digest::Sha384) => "PS384"@,
            Family::RsassaPss(Digest::Sha512) => "PS512"@,
            Family::Ecdsa(Curve::P256) => "ES256"@,
            Family::Ecdsa(Curve::Secp256k1) => "ES256K"@,
            Family::Ecdsa(Curve::P384) => "ES384"@,
            Family::Ecdsa(Curve::P521) => "ES512"@,
            Family::Eddsa => "EdDSA"@,
        }
    }
}

impl Alg {
    /// The kind of signature that the algorithm makes.
    pub open spec fn spec_family(self) -> Family {
        match self {
            Alg::RS256 => Family::Rsassa(Digest::Sha256),
            Alg::RS384 => Family::Rsassa(Digest::Sha384),
            Alg::RS512 => Family::Rsassa(Digest::Sha512),
            Alg::PS256 => Family::RsassaPss(Digest::Sha256),
            Alg::PS384 => Family::RsassaPss(Digest::Sha384),
            Alg::PS512 => Family::RsassaPss(Digest::Sha512),
            Alg::ES256 => Family::Ecdsa(Curve::P256),
            Alg::ES256K => Family::Ecdsa(Curve::Secp256k1),
            Alg::ES384 => Family::Ecdsa(Curve::P384),
            Alg::ES512 => Family::Ecdsa(Curve::P521),
            Alg::EDDSA => Family::Eddsa,
        }
    }

    /// The kind of signature that the algorithm makes.
    pub fn family(&self) -> (family: Family)
        ensures
            family == self.spec_family(),
            family.spec_name() == self.spec_name(),
    {
        match self {
            Alg::RS256 => Family::Rsassa(Digest::Sha256),
            Alg::RS384 => Family::Rsassa(Digest::Sha384),
            Alg::RS512 => Family::Rsassa(Digest::Sha512),
            Alg::PS256 => Family::RsassaPss(Digest::Sha256),
            Alg::PS384 => Family::RsassaPss(Digest::Sha384),
            Alg::PS512 => Family::RsassaPss(Digest::Sha512),
            Alg::ES256 => Family::Ecdsa(Curve::P256),
            Alg::ES256K => Family::Ecdsa(Curve::Secp256k1),
            Alg::ES384 => Family::Ecdsa(Curve::P384),
            Alg::ES512 => Family::Ecdsa(Curve::P521),
            Alg::EDDSA => Family::Eddsa,
        }
    }

    /// The key type (`kty`) that the algorithm needs.
    pub open spec fn spec_key_type(self) -> Seq<char> {
        match self.spec_family() {
            Family::Rsassa(_) => "RSA"@,
            Family::RsassaPss(_) => "RSA"@,
            Family::Ecdsa(_) => "EC"@,
            Family::Eddsa => "OKP"@,
        }
    }

    /// The key type (`kty`) that the algorithm needs.
    pub fn key_type(&self) -> (key_type: &'static str)
        ensures
            key_type@ == self.spec_key_type(),
    {
        match self.family() {
            Family::Rsassa(_) => "RSA",
            Family::RsassaPss(_) => "RSA",
            Family::Ecdsa(_) => "EC",
            Family::Eddsa => "OKP",
        }
    }

    /// The curve (`crv`) that the algorithm needs, if it needs one.
    pub open spec fn spec_curve(self) -> Option<Seq<char>> {
        match self.spec_family() {
            Family::Rsassa(_) => None,
            Family::RsassaPss(_) => None,
            Family::Ecdsa(curve) => Some(curve.spec_name()),
            Family::Eddsa => Some("Ed25519"@),
        }
    }

    /// The curve (`crv`) that the algorithm needs, if it needs one.
    pub fn curve(&self) -> (curve: Option<&'static str>)
        ensures
            curve.is_some() == self.spec_curve().is_some(),
            curve matches Some(c) ==> self.spec_curve() == Some(c@),
    {
        match self.family() {
            Family::Rsassa(_) => None,
            Family::RsassaPss(_) => None,
            Family::Ecdsa(curve) => Some(curve.name()),
            Family::Eddsa => Some("Ed25519"),
        }
    }
}

/// How a key stands to an algorithm.
#[derive(Clone, Copy, Debug, PartialEq, Eq, Structural)]
pub enum Verdict {
    /// The key is of the type, and on the curve, that the algorithm needs.
    Compatible,
    /// The key is of another type, or on another curve.
    Mismatch,
    /// The key is of the right type but lacks what that type requires: the
    /// curve, or a member of the private key.
    Incomplete,
}

/// Whether the key holds every one of `names` as a string.
pub open spec fn holds_all(key: KeyInfo, names: Seq<Seq<char>>) -> bool {
    forall|i: int| 0 <= i < names.len() ==> key.texts.contains(#[trigger] names[i])
}

/// The compatibility rule. RSA algorithms need an `RSA` key; ECDSA algorithms an
/// `EC` key on their own curve; EdDSA an `OKP` key on `Ed25519`. A key of the
/// right type that names no curve where one is needed, or lacks a member of
/// its private key, is incomplete.
pub open spec fn verdict(alg: Alg, key: KeyInfo) -> Verdict {
    if key.key_type != alg.spec_key_type() {
        Verdict::Mismatch
    } else if alg.spec_curve() is Some && key.curve is Some && key.curve != alg.spec_curve() {
        Verdict::Mismatch
    } else if alg.spec_curve() is Some && key.curve is None {
        Verdict::Incomplete
    } else if !holds_all(key, alg.spec_family().spec_required()) {
        Verdict::Incomplete
    } else {
        Verdict::Compatible
    }
}

/// Holds a key against an algorithm, before anything is asked of the key material.
pub fn check_key(alg: Alg, key: &JsonWebKey) -> (found: Verdict)
    ensures
        found == verdict(alg, key@),
{
    let key_type = key.key_type();
    if !same_text(key_type.as_str(), alg.key_type()) {
        return Verdict::Mismatch;
    }
    match alg.curve() {
        None => {},
        Some(needed) => match key.curve() {
            None => {
                return Verdict::Incomplete;
            },
            Some(curve) => if !same_text(curve.as_str(), needed) {
                return Verdict::Mismatch;
            },
        },
    }
    let names = alg.family().required();
    let ghost required = alg.spec_family().spec_required();
    let mut at: usize = 0;
    while at < names.len()
        invariant
            key@.key_type == alg.spec_key_type(),
            alg.spec_curve() is Some ==> key@.curve == alg.spec_curve(),
            required == alg.spec_family().spec_required(),
            at <= names@.len(),
            names@.len() == required.len(),
            forall|i: int| 0 <= i < names@.len() ==> (#[trigger] names@[i])@ == required[i],
            forall|i: int| 0 <= i < at ==> key@.texts.contains(#[trigger] required[i]),
        decreases names@.len() - at,
    {
        if !key.holds_text(names[at]) {
            assert(!key@.texts.contains(required[at as int]));
            return Verdict::Incomplete;
        }
        at += 1;
    }
    Verdict::Compatible
}

/// Every RSA private key fits every RSA algorithm, whatever the hash and the
/// padding.
pub proof fn lemma_rsa_key_fits(alg: Alg, key: KeyInfo)
    requires
        key.key_type == "RSA"@,
        holds_all(key, seq!["n"@, "e"@, "d"@, "p"@, "q"@, "dp"@, "dq"@, "qi"@]),
        alg.spec_family() is Rsassa || alg.spec_family() is RsassaPss,
    ensures
        verdict(alg, key) == Verdict::Compatible,
{
}

/// A key of the right type and on the right curve that lacks a member of its
/// private key is incomplete.
pub proof fn lemma_missing_member_is_incomplete(alg: Alg, key: KeyInfo, name: Seq<char>)
    requires
        key.key_type == alg.spec_key_type(),
        alg.spec_curve() is Some ==> key.curve == alg.spec_curve(),
        alg.spec_family().spec_required().contains(name),
        !key.texts.contains(name),
    ensures
        verdict(alg, key) == Verdict::Incomplete,
{
    let required = alg.spec_family().spec_required();
    let i = choose|i: int| 0 <= i < required.len() && required[i] == name;
    assert(!key.texts.contains(required[i]));
}

/// An elliptic-curve key on another curve than the algorithm's own is a mismatch.
pub proof fn lemma_other_curve_is_mismatch(alg: Alg, key: KeyInfo)
    requires
        key.key_type == "EC"@,
        alg.spec_family() is Ecdsa,
        key.curve is Some,
        key.curve != alg.spec_curve(),
    ensures
        verdict(alg, key) == Verdict::Mismatch,
{
}

/// A key of another type than the algorithm's is a mismatch, whatever else it holds.
pub proof fn lemma_other_key_type_is_mismatch(alg: Alg, key: KeyInfo)
    requires
        key.key_type != alg.spec_key_type(),
    ensures
        verdict(alg, key) == Verdict::Mismatch,
{
}

/// `josekit`'s signer for RSASSA-PKCS1-v1_5.
#[verifier::external_type_specification]
#[verifier::external_body]
pub struct ExRsassaJwsSigner(RsassaJwsSigner);

/// `josekit`'s signer for RSASSA-PSS.
#[verifier::external_type_specification]
#[verifier::external_body]
pub struct ExRsassaPssJwsSigner(RsassaPssJwsSigner);

/// `josekit`'s signer for ECDSA.
#[verifier::external_type_specification]
#[verifier::external_body]
pub struct ExEcdsaJwsSigner(EcdsaJwsSigner);

/// `josekit`'s signer for EdDSA.
#[verifier::external_type_specification]
#[verifier::external_body]
pub struct ExEddsaJwsSigner(EddsaJwsSigner);

/// A signer of `josekit`, of one of the four kinds.
pub enum Backend {
    Rsassa(RsassaJwsSigner),
    RsassaPss(RsassaPssJwsSigner),
    Ecdsa(EcdsaJwsSigner),
    Eddsa(EddsaJwsSigner),
}

/// The algorithm name that the signer reports (`JwsSigner::algorithm`, then
/// `JwsAlgorithm::name`).
pub uninterp spec fn signer_algorithm(backend: Backend) -> Seq<char>;

/// The key identifier that the signer reports (`JwsSigner::key_id`).
pub uninterp spec fn signer_key_id(backend: Backend) -> Option<Seq<char>>;

/// `RsassaJwsAlgorithm::signer_from_jwk`: a signer made from a key reports the
/// algorithm it was made for and the key's own `kid`. Whether the key material
/// is accepted is for `josekit` to say.
#[verifier::external_body]
fn rsassa_signer(digest: Digest, jwk: &Jwk) -> (built: Result<RsassaJwsSigner, JoseError>)
    requires
        members_checked(jwk_members(*jwk)),
    ensures
        built matches Ok(signer) ==> signer_algorithm(Backend::Rsassa(signer)) == Family::Rsassa(
            digest,
        ).spec_name(),
        built matches Ok(signer) ==> signer_key_id(Backend::Rsassa(signer)) == text_of(
            jwk_members(*jwk),
            "kid"@,
        ),
{
    let algorithm = match digest {
        Digest::Sha256 => RsassaJwsAlgorithm::Rs256,
        Digest::Sha384 => RsassaJwsAlgorithm::Rs384,
        Digest::Sha512 => RsassaJwsAlgorithm::Rs512,
    };
    algorithm.signer_from_jwk(jwk)
}

/// `RsassaPssJwsAlgorithm::signer_from_jwk`: a signer made from a key reports
/// the algorithm it was made for and the key's own `kid`. Whether the key
/// material is accepted is for `josekit` to say.
#[verifier::external_body]
fn rsassa_pss_signer(digest: Digest, jwk: &Jwk) -> (built: Result<RsassaPssJwsSigner, JoseError>)
    requires
        members_checked(jwk_members(*jwk)),
    ensures
        built matches Ok(signer) ==> signer_algorithm(Backend::RsassaPss(signer))
            == Family::RsassaPss(digest).spec_name(),
        built matches Ok(signer) ==> signer_key_id(Backend::RsassaPss(signer)) == text_of(
            jwk_members(*jwk),
            "kid"@,
        ),
{
    let algorithm = match digest {
        Digest::Sha256 => RsassaPssJwsAlgorithm::Ps256,
        Digest::Sha384 => RsassaPssJwsAlgorithm::Ps384,
        Digest::Sha512 => RsassaPssJwsAlgorithm::Ps512,
    };
    algorithm.signer_from_jwk(jwk)
}

/// `EcdsaJwsAlgorithm::signer_from_jwk`: a signer made from a key reports the
/// algorithm it was made for and the key's own `kid`. Whether the key material
/// is accepted is for `josekit` to say.
#[verifier::external_body]
fn ecdsa_signer(curve: Curve, jwk: &Jwk) -> (built: Result<EcdsaJwsSigner, JoseError>)
    requires
        members_checked(jwk_members(*jwk)),
    ensures
        built matches Ok(signer) ==> signer_algorithm(Backend::Ecdsa(signer)) == Family::Ecdsa(
            curve,
        ).spec_name(),
        built matches Ok(signer) ==> signer_key_id(Backend::Ecdsa(signer)) == text_of(
            jwk_members(*jwk),
            "kid"@,
        ),
{
    let algorithm = match curve {
        Curve::P256 => EcdsaJwsAlgorithm::Es256,
        Curve::Secp256k1 => EcdsaJwsAlgorithm::Es256k,
        Curve::P384 => EcdsaJwsAlgorithm::Es384,
        Curve::P521 => EcdsaJwsAlgorithm::Es512,
    };
    algorithm.signer_from_jwk(jwk)
}

/// `EddsaJwsAlgorithm::signer_from_jwk`: a signer made from a key reports the
/// algorithm `EdDSA` and the key's own `kid`. Whether the key material is
/// accepted is for `josekit` to say.
#[verifier::external_body]
fn eddsa_signer(jwk: &Jwk) -> (built: Result<EddsaJwsSigner, JoseError>)
    requires
        members_checked(jwk_members(*jwk)),
    ensures
        built matches Ok(signer) ==> signer_algorithm(Backend::Eddsa(signer))
            == Family::Eddsa.spec_name(),
        built matches Ok(signer) ==> signer_key_id(Backend::Eddsa(signer)) == text_of(
            jwk_members(*jwk),
            "kid"@,
        ),
{
    EddsaJwsAlgorithm::Eddsa.signer_from_jwk(jwk)
}

/// What is known of a signer: the algorithm it signs with and the identifier
/// of its key.
pub struct SignerInfo {
    pub alg: Alg,
    pub key_id: Option<Seq<char>>,
}

/// A signer bound to a key and an algorithm. It holds nothing but the key
/// material.
pub struct Signer {
    alg: Alg,
    backend: Backend,
}

impl View for Signer {
    type V = SignerInfo;

    closed spec fn view(&self) -> SignerInfo {
        SignerInfo { alg: self.alg, key_id: signer_key_id(self.backend) }
    }
}

impl Signer {
    #[verifier::type_invariant]
    spec fn bound(&self) -> bool {
        signer_algorithm(self.backend) == self.alg.spec_name()
    }

    /// The signer of `josekit` that does the work.
    pub closed spec fn backend(&self) -> Backend {
        self.backend
    }

    /// The signer of `josekit`, with what it reports.
    pub(crate) fn bound_backend(&self) -> (backend: &Backend)
        ensures
            *backend == self.backend(),
            signer_algorithm(*backend) == self@.alg.spec_name(),
            signer_key_id(*backend) == self@.key_id,
    {
        proof {
            use_type_invariant(self);
        }
        &self.backend
    }

    /// The algorithm that the signer signs with.
    pub fn alg(&self) -> (alg: Alg)
        ensures
            alg == self@.alg,
    {
        self.alg
    }

    /// Takes what `josekit` made of the key: a signer is bound to the
    /// algorithm, a refusal of the key material becomes `MalformedKey`.
    pub fn bind(alg: Alg, built: Result<Backend, JoseError>) -> (bound: Result<Signer, Error>)
        requires
            built matches Ok(backend) ==> signer_algorithm(backend) == alg.spec_name(),
        ensures
            match built {
                Ok(backend) => bound matches Ok(signer) && signer.backend() == backend
                    && signer@.alg == alg && signer@.key_id == signer_key_id(backend),
                Err(_) => bound matches Err(e) && e == Error::MalformedKey,
            },
    {
        match built {
            Ok(backend) => Ok(Signer { alg, backend }),
            Err(_) => Err(Error::MalformedKey),
        }
    }
}

/// Binds a signer for `alg` to `key`.
///
/// A key of the wrong type or on the wrong curve is turned away as
/// `KeyAlgorithmMismatch`, and one that lacks its curve or a member of its
/// private key as `MalformedKey`, before any key material is read. A key that
/// passes goes to `josekit`; what it cannot make a signer of is a
/// `MalformedKey` too. The key is not changed.
pub fn select_signer(alg: Alg, key: &JsonWebKey) -> (selected: Result<Signer, Error>)
    ensures
        verdict(alg, key@) == Verdict::Mismatch <==> selected matches Err(
            Error::KeyAlgorithmMismatch,
        ),
        verdict(alg, key@) == Verdict::Incomplete ==> selected matches Err(Error::MalformedKey),
        selected matches Err(e) ==> e == Error::KeyAlgorithmMismatch || e == Error::MalformedKey,
        selected matches Ok(signer) ==> verdict(alg, key@) == Verdict::Compatible && signer@.alg
            == alg && signer@.key_id == key@.key_id,
{
    match check_key(alg, key) {
        Verdict::Mismatch => Err(Error::KeyAlgorithmMismatch),
        Verdict::Incomplete => Err(Error::MalformedKey),
        Verdict::Compatible => {
            let jwk = key.checked_jwk();
            let built = match alg.family() {
                Family::Rsassa(digest) => match rsassa_signer(digest, jwk) {
                    Ok(signer) => Ok(Backend::Rsassa(signer)),
                    Err(e) => Err(e),
                },
                Family::RsassaPss(digest) => match rsassa_pss_signer(digest, jwk) {
                    Ok(signer) => Ok(Backend::RsassaPss(signer)),
                    Err(e) => Err(e),
                },
                Family::Ecdsa(curve) => match ecdsa_signer(curve, jwk) {
                    Ok(signer) => Ok(Backend::Ecdsa(signer)),
                    Err(e) => Err(e),
                },
                Family::Eddsa => match eddsa_signer(jwk) {
                    Ok(signer) => Ok(Backend::Eddsa(signer)),
                    Err(e) => Err(e),
                },
            };
            Signer::bind(alg, built)
        },
    }
}

} // verus!
