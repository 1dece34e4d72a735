//! The protected header: the algorithm, and the key identifier where the key
//! has one.

use vstd::prelude::*;
use josekit::jws::JwsHeader;
use crate::args::Alg;
use crate::args::Args;
use crate::claims::all_known;
use crate::claims::distinct_names;
use crate::claims::has_claim;
use crate::claims::lookup;
use crate::claims::put;
use crate::claims::ClaimValue;
use crate::claims::Claims;
use crate::key::JsonWebKey;

verus! {

/// `josekit::jws::JwsHeader`: the claims of a header, in order.
#[verifier::external_type_specification]
#[verifier::external_body]
pub struct ExJwsHeader(JwsHeader);

/// The claims that a `JwsHeader` holds, in the order in which it would write
/// them out.
pub uninterp spec fn header_claims(header: JwsHeader) -> Claims;

/// `JwsHeader::new`: a header without claims.
pub assume_specification[ JwsHeader::new ]() -> (header: JwsHeader)
    ensures
        header_claims(header) == Seq::<(Seq<char>, ClaimValue)>::empty(),
;

/// `JwsHeader::set_algorithm`: writes the string claim `alg`.
#[verifier::external_body]
fn header_set_algorithm(header: &mut JwsHeader, name: &str)
    ensures
        header_claims(*final(header)) == put(
            header_claims(*old(header)),
            "alg"@,
            ClaimValue::Text(name@),
        ),
{
    header.set_algorithm(name)
}

/// `JwsHeader::set_key_id`: writes the string claim `kid`.
#[verifier::external_body]
fn header_set_key_id(header: &mut JwsHeader, key_id: &str)
    ensures
        header_claims(*final(header)) == put(
            header_claims(*old(header)),
            "kid"@,
            ClaimValue::Text(key_id@),
        ),
{
    header.set_key_id(key_id)
}

/// What a protected header says.
pub struct HeaderInfo {
    /// The algorithm that the token is signed with.
    pub alg: Alg,
    /// The identifier of the signing key, if it has one.
    pub key_id: Option<Seq<char>>,
}

impl HeaderInfo {
    /// The claims of the header: `alg` with the algorithm's registered name,
    /// then `kid` where there is a key identifier, and nothing else.
    pub open spec fn claims(self) -> Claims {
        match self.key_id {
            None => seq![("alg"@, ClaimValue::Text(self.alg.spec_name()))],
            Some(key_id) => seq![
                ("alg"@, ClaimValue::Text(self.alg.spec_name())),
                ("kid"@, ClaimValue::Text(key_id)),
            ],
        }
    }
}

/// The view of an optional string.
pub open spec fn optional_text(text: Option<String>) -> Option<Seq<char>> {
    match text {
        Some(text) => Some(text@),
        None => None,
    }
}

/// The protected header of a token. `alg` is always set; `kid` is there if
/// and only if the key has an identifier.
pub struct ProtectedHeader {
    alg: Alg,
    key_id: Option<String>,
    claims: JwsHeader,
}

impl View for ProtectedHeader {
    type V = HeaderInfo;

    closed spec fn view(&self) -> HeaderInfo {
        HeaderInfo { alg: self.alg, key_id: optional_text(self.key_id) }
    }
}

impl ProtectedHeader {
    #[verifier::type_invariant]
    spec fn filled(&self) -> bool {
        header_claims(self.claims) == self@.claims()
    }

    /// The header of `josekit`, with what it holds.
    pub(crate) fn filled_header(&self) -> (header: &JwsHeader)
        ensures
            header_claims(*header) == self@.claims(),
    {
        proof {
            use_type_invariant(self);
        }
        &self.claims
    }

    /// The algorithm named under `alg`.
    pub fn alg(&self) -> (alg: Alg)
        ensures
            alg == self@.alg,
    {
        self.alg
    }

    /// The key identifier under `kid`, if there is one.
    pub fn key_id(&self) -> (key_id: Option<&str>)
        ensures
            key_id.is_some() == self@.key_id.is_some(),
            key_id matches Some(k) ==> self@.key_id == Some(k@),
    {
        match &self.key_id {
            Some(key_id) => Some(key_id.as_str()),
            None => None,
        }
    }
}

/// Builds the protected header for a request and the key it is signed with:
/// `alg` is the registered name of the requested algorithm, `kid` is copied
/// from the key where the key has one.
pub fn build_header(args: &Args, key: &JsonWebKey) -> (header: ProtectedHeader)
    ensures
        header@.alg == args.alg,
        header@.key_id == key@.key_id,
{
    let mut claims = JwsHeader::new();
    header_set_algorithm(&mut claims, args.alg.name());
    let ghost named = seq![("alg"@, ClaimValue::Text(args.alg.spec_name()))];
    assert(header_claims(claims) == named) by {
        assert(!has_claim(Seq::<(Seq<char>, ClaimValue)>::empty(), "alg"@));
    }
    let key_id = key.key_id();
    match &key_id {
        Some(key_id) => {
            header_set_key_id(&mut claims, key_id.as_str());
            assert(header_claims(claims) == named.push(("kid"@, ClaimValue::Text(key_id@)))) by {
                lemma_alg_is_not_kid();
                if has_claim(named, "kid"@) {
                    let i = choose|i: int| 0 <= i < named.len() && (#[trigger] named[i]).0 == "kid"@;
                    assert(named[i].0 == "alg"@);
                }
            }
        },
        None => {},
    }
    assert(header_claims(claims) =~= (HeaderInfo {
        alg: args.alg,
        key_id: optional_text(key_id),
    }).claims());
    ProtectedHeader { alg: args.alg, key_id, claims }
}

proof fn lemma_alg_is_not_kid()
    ensures
        "alg"@ != "kid"@,
        "alg"@ != "crit"@,
        "kid"@ != "crit"@,
{
    reveal_strlit("alg");
    reveal_strlit("kid");
    reveal_strlit("crit");
    assert("alg"@[0] != "kid"@[0]);
    assert("crit"@.len() != "alg"@.len() && "crit"@.len() != "kid"@.len());
}

/// A header names its algorithm under `alg` and carries `kid` if and only if
/// there is a key identifier; it holds nothing else, and nothing twice.
pub proof fn lemma_header_claims(info: HeaderInfo)
    ensures
        lookup(info.claims(), "alg"@) == Some(ClaimValue::Text(info.alg.spec_name())),
        lookup(info.claims(), "kid"@) == match info.key_id {
            Some(key_id) => Some(ClaimValue::Text(key_id)),
            None => None,
        },
        forall|name: Seq<char>|
            name != "alg"@ && name != "kid"@ ==> !has_claim(info.claims(), name),
        !has_claim(info.claims(), "crit"@),
        distinct_names(info.claims()),
        all_known(info.claims()),
{
    let claims = info.claims();
    lemma_alg_is_not_kid();
    assert(claims[0].0 == "alg"@);
    assert(has_claim(claims, "alg"@));
    match info.key_id {
        Some(key_id) => {
            assert(claims[1].0 == "kid"@);
            assert(has_claim(claims, "kid"@));
        },
        None => {},
    }
    assert forall|name: Seq<char>| name != "alg"@ && name != "kid"@ implies !has_claim(
        claims,
        name,
    ) by {
        if has_claim(claims, name) {
            let i = choose|i: int| 0 <= i < claims.len() && (#[trigger] claims[i]).0 == name;
            assert(claims[i].0 == "alg"@ || claims[i].0 == "kid"@);
        }
    }
}

} // verus!
