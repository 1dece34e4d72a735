//! The signing key: a JSON Web Key, parsed and checked by `josekit`.

use vstd::prelude::*;
use josekit::jwk::Jwk;
use josekit::JoseError;
use josekit::Value;
use crate::error::Error;

verus! {

/// `josekit::jwk::Jwk`: a JSON Web Key. Nothing is known of a value but what
/// the functions below say.
#[verifier::external_type_specification]
#[verifier::external_body]
pub struct ExJwk(Jwk);

/// `josekit::JoseError`: why a call into `josekit` failed.
#[verifier::external_type_specification]
#[verifier::external_body]
pub struct ExJoseError(JoseError);

/// The members of a key by name: `Some` with the text where the member's
/// value is a JSON string, `None` where it is of another JSON type.
pub type Members = Map<Seq<char>, Option<Seq<char>>>;

/// The members that a `Jwk` holds.
pub uninterp spec fn jwk_members(jwk: Jwk) -> Members;

/// The members of the key that `Jwk::from_bytes` makes of a text, or `None`
/// where it refuses the text.
pub uninterp spec fn parsed_members(input: Seq<u8>) -> Option<Members>;

/// The text of the member `name`, where the key has that member as a string.
pub open spec fn text_of(members: Members, name: Seq<char>) -> Option<Seq<char>> {
    if members.contains_key(name) {
        members[name]
    } else {
        None
    }
}

/// The member `name` is a string wherever the key has it.
pub open spec fn text_if_present(members: Members, name: Seq<char>) -> bool {
    members.contains_key(name) ==> members[name] is Some
}

/// What `josekit` checks of every key that it parses: `kty` is there, and it
/// and the other descriptive members are strings.
pub open spec fn members_checked(members: Members) -> bool {
    &&& text_of(members, "kty"@) is Some
    &&& text_if_present(members, "use"@)
    &&& text_if_present(members, "alg"@)
    &&& text_if_present(members, "kid"@)
    &&& text_if_present(members, "crv"@)
}

/// What the rest of the crate reads of a key.
pub struct KeyInfo {
    /// The key type (`kty`): `RSA`, `EC`, `OKP`, ...
    pub key_type: Seq<char>,
    /// The curve (`crv`), for the key types that have one.
    pub curve: Option<Seq<char>>,
    /// The key identifier (`kid`), if the key carries one.
    pub key_id: Option<Seq<char>>,
    /// The names of all members that the key holds as strings.
    pub texts: Set<Seq<char>>,
}

/// What is read of a key with these members.
pub open spec fn key_info(members: Members) -> KeyInfo {
    KeyInfo {
        key_type: text_of(members, "kty"@).unwrap(),
        curve: text_of(members, "crv"@),
        key_id: text_of(members, "kid"@),
        texts: Set::new(|name: Seq<char>| text_of(members, name) is Some),
    }
}

/// `Jwk::from_bytes`: parses a JSON object into a key. The same text always
/// gives the same answer. A key that is accepted has passed the check of its
/// members: `kty` is present, and `kty`, `use`, `alg`, `kid` and `crv` are
/// strings where present.
#[verifier::external_body]
fn parse_jwk(input: &[u8]) -> (parsed: Result<Jwk, JoseError>)
    ensures
        match parsed {
            Ok(jwk) => parsed_members(input@) == Some(jwk_members(jwk)) && members_checked(
                jwk_members(jwk),
            ),
            Err(_) => parsed_members(input@) is None,
        },
{
    Jwk::from_bytes(input)
}

/// `Jwk::parameter`: the member `name` of the key, handed out where its value
/// is a string.
#[verifier::external_body]
fn jwk_text_parameter(jwk: &Jwk, name: &str) -> (text: Option<String>)
    ensures
        match text {
            Some(text) => text_of(jwk_members(*jwk), name@) == Some(text@),
            None => text_of(jwk_members(*jwk), name@) is None,
        },
{
    match jwk.parameter(name) {
        Some(Value::String(text)) => Some(text.clone()),
        _ => None,
    }
}

/// A key that `josekit` has parsed and checked. It is made once and only read
/// afterwards.
pub struct JsonWebKey {
    jwk: Jwk,
}

impl View for JsonWebKey {
    type V = KeyInfo;

    open spec fn view(&self) -> KeyInfo {
        key_info(self.members())
    }
}

impl JsonWebKey {
    #[verifier::type_invariant]
    spec fn checked(&self) -> bool {
        members_checked(jwk_members(self.jwk))
    }

    /// The members of the key.
    pub closed spec fn members(&self) -> Members {
        jwk_members(self.jwk)
    }

    /// The checked key, for the calls into `josekit` that read it.
    pub(crate) fn checked_jwk(&self) -> (jwk: &Jwk)
        ensures
            jwk_members(*jwk) == self.members(),
            members_checked(self.members()),
    {
        proof {
            use_type_invariant(self);
        }
        &self.jwk
    }

    /// Parses a key from the bytes of a JSON document. Text that `josekit`
    /// does not accept as a JSON Web Key gives `MalformedKey`.
    pub fn from_bytes(input: &[u8]) -> (key: Result<JsonWebKey, Error>)
        ensures
            match key {
                Ok(key) => parsed_members(input@) == Some(key.members()),
                Err(e) => e == Error::MalformedKey && parsed_members(input@) is None,
            },
    {
        JsonWebKey::from_parsed(parse_jwk(input))
    }

    /// Takes what the parser returned: an accepted key is kept as it is, a
    /// refusal becomes `MalformedKey`.
    pub fn from_parsed(parsed: Result<Jwk, JoseError>) -> (key: Result<JsonWebKey, Error>)
        requires
            parsed matches Ok(jwk) ==> members_checked(jwk_members(jwk)),
        ensures
            match parsed {
                Ok(jwk) => key matches Ok(k) && k.members() == jwk_members(jwk),
                Err(_) => key matches Err(e) && e == Error::MalformedKey,
            },
    {
        match parsed {
            Ok(jwk) => Ok(JsonWebKey { jwk }),
            Err(_) => Err(Error::MalformedKey),
        }
    }

    /// The key type (`kty`).
    pub fn key_type(&self) -> (key_type: String)
        ensures
            key_type@ == self@.key_type,
    {
        proof {
            use_type_invariant(self);
        }
        jwk_text_parameter(&self.jwk, "kty").unwrap()
    }

    /// The curve (`crv`), if the key names one.
    pub fn curve(&self) -> (curve: Option<String>)
        ensures
            curve.is_some() == self@.curve.is_some(),
            curve matches Some(c) ==> self@.curve == Some(c@),
    {
        jwk_text_parameter(&self.jwk, "crv")
    }

    /// Whether the key holds the member `name` as a string.
    pub fn holds_text(&self, name: &str) -> (held: bool)
        ensures
            held == self@.texts.contains(name@),
    {
        jwk_text_parameter(&self.jwk, name).is_some()
    }

    /// The key identifier (`kid`), if the key carries one.
    pub fn key_id(&self) -> (key_id: Option<String>)
        ensures
            key_id.is_some() == self@.key_id.is_some(),
            key_id matches Some(k) ==> self@.key_id == Some(k@),
    {
        jwk_text_parameter(&self.jwk, "kid")
    }
}

} // verus!
