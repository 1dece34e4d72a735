//! The token: header and payload, serialized and signed by `josekit`.

use vstd::prelude::*;
use josekit::jws::JwsHeader;
use josekit::jws::JwsSigner;
use josekit::jwt::JwtPayload;
use josekit::JoseError;
use crate::args::Args;
use crate::claims::all_known;
use crate::claims::has_claim;
use crate::claims::position;
use crate::claims::put;
use crate::claims::ClaimValue;
use crate::claims::Claims;
use crate::compact::compact;
use crate::compact::is_base64url_text;
use crate::compact::is_compact;
use crate::compact::is_compact_token;
use crate::compact::lemma_last_dot;
use crate::compact::lemma_segments_unique;
use crate::compact::signature_segment;
use crate::compact::signed_text;
use crate::error::Error;
use crate::header::build_header;
use crate::header::header_claims;
use crate::header::lemma_header_claims;
use crate::header::HeaderInfo;
use crate::header::ProtectedHeader;
use crate::key::JsonWebKey;
use crate::payload::build_payload;
use crate::payload::payload_claims;
use crate::payload::payload_model;
use crate::payload::payload_ok;
use crate::payload::ClaimsPayload;
use crate::select::select_signer;
use crate::select::signer_algorithm;
use crate::select::signer_key_id;
use crate::select::verdict;
use crate::select::Backend;
use crate::select::Signer;
use crate::select::Verdict;

verus! {

/// The JSON text that `josekit` writes for claims of the kinds this crate
/// knows (`serde_json::to_vec` on its map, which keeps the order of the
/// claims).
pub uninterp spec fn claims_json(claims: Claims) -> Seq<u8>;

/// Bytes in base64 with the URL-safe alphabet and without padding, as
/// `josekit` writes them into a token.
pub uninterp spec fn base64url(bytes: Seq<u8>) -> Seq<char>;

/// The header that is signed: the signer puts its own algorithm under `alg`
/// and, where its key has an identifier, that identifier under `kid`.
pub open spec fn signed_header(header: Claims, alg: Seq<char>, key_id: Option<Seq<char>>) -> Claims {
    let named = put(header, "alg"@, ClaimValue::Text(alg));
    match key_id {
        Some(key_id) => put(named, "kid"@, ClaimValue::Text(key_id)),
        None => named,
    }
}

/// `josekit::jwt::encode_with_signer`: the token is the header and the
/// payload as JSON, each in base64url, and the signature in base64url,
/// joined by dots. The header is written with the signer's algorithm and key
/// identifier in it. Which signature comes out is not said: some algorithms
/// draw random numbers. The header must not hold `crit`, which would change
/// how the payload is written.
#[verifier::external_body]
fn encode_with_signer(payload: &JwtPayload, header: &JwsHeader, signer: &Backend) -> (encoded:
    Result<String, JoseError>)
    requires
        all_known(payload_claims(*payload)),
        all_known(header_claims(*header)),
        !has_claim(header_claims(*header), "crit"@),
    ensures
        encoded matches Ok(token) ==> exists|signature: Seq<u8>|
            token@ == compact(
                base64url(
                    claims_json(
                        signed_header(
                            header_claims(*header),
                            signer_algorithm(*signer),
                            signer_key_id(*signer),
                        ),
                    ),
                ),
                base64url(claims_json(payload_claims(*payload))),
                #[trigger] base64url(signature),
            ),
{
    let signer: &dyn JwsSigner = match signer {
        Backend::Rsassa(signer) => signer,
        Backend::RsassaPss(signer) => signer,
        Backend::Ecdsa(signer) => signer,
        Backend::Eddsa(signer) => signer,
    };
    josekit::jwt::encode_with_signer(payload, header, signer)
}

/// What makes `token` the token of a header and a payload: its first segment
/// is the header as JSON in base64url, its second the payload likewise, its
/// third a signature, and all three are unpadded base64url.
pub open spec fn is_token_of(token: Seq<char>, header: Claims, payload: Claims) -> bool {
    &&& token == compact(
        base64url(claims_json(header)),
        base64url(claims_json(payload)),
        signature_segment(token),
    )
    &&& is_base64url_text(base64url(claims_json(header)))
    &&& is_base64url_text(base64url(claims_json(payload)))
    &&& is_base64url_text(signature_segment(token))
}

/// Takes what the encoder returned. Text that is a compact serialization is
/// the token; anything else, a failure of the encoder included, is a
/// `SigningFailure`, so that nothing but a whole token is ever handed out.
pub fn accept_token(encoded: Result<String, JoseError>) -> (accepted: Result<String, Error>)
    ensures
        match encoded {
            Ok(token) => if is_compact(token@) {
                accepted == Ok::<String, Error>(token)
            } else {
                accepted == Err::<String, Error>(Error::SigningFailure)
            },
            Err(_) => accepted == Err::<String, Error>(Error::SigningFailure),
        },
{
    match encoded {
        Ok(token) => if is_compact_token(token.as_str()) {
            Ok(token)
        } else {
            Err(Error::SigningFailure)
        },
        Err(_) => Err(Error::SigningFailure),
    }
}

/// A header that already names the signer's algorithm and key identifier is
/// signed as it is.
pub proof fn lemma_signed_header_unchanged(info: HeaderInfo)
    ensures
        signed_header(info.claims(), info.alg.spec_name(), info.key_id) == info.claims(),
{
    let claims = info.claims();
    lemma_header_claims(info);
    assert(claims[0].0 == "alg"@);
    let named = put(claims, "alg"@, ClaimValue::Text(info.alg.spec_name()));
    assert(named =~= claims) by {
        assert(has_claim(claims, "alg"@));
        let at = position(claims, "alg"@);
        if at != 0 {
            assert(claims[0].0 != claims[at].0);
        }
    }
    match info.key_id {
        Some(key_id) => {
            assert(claims[1].0 == "kid"@);
            assert(has_claim(claims, "kid"@));
            let at = position(claims, "kid"@);
            if at != 1 {
                assert(claims[at].0 != claims[1].0);
            }
            assert(put(named, "kid"@, ClaimValue::Text(key_id)) =~= claims);
        },
        None => {},
    }
}

/// Serializes and signs: the compact serialization of `header` and `payload`
/// under `signer`.
///
/// The header goes out with the signer's algorithm and key identifier in it.
/// Whether signing succeeds is for the key material to decide; a token that
/// comes back is whole, and a failure is a `SigningFailure`.
pub fn encode_token(payload: &ClaimsPayload, header: &ProtectedHeader, signer: &Signer) -> (encoded:
    Result<String, Error>)
    ensures
        encoded matches Err(e) ==> e == Error::SigningFailure,
        encoded matches Ok(token) ==> is_compact(token@),
        encoded matches Ok(token) ==> is_token_of(
            token@,
            signed_header(header@.claims(), signer@.alg.spec_name(), signer@.key_id),
            payload@,
        ),
{
    let claims = payload.known_payload();
    let filled = header.filled_header();
    let backend = signer.bound_backend();
    proof {
        lemma_header_claims(header@);
    }
    let encoded = encode_with_signer(claims, filled, backend);
    let accepted = accept_token(encoded);
    proof {
        if let Ok(token) = &accepted {
            let signed = signed_header(
                header@.claims(),
                signer@.alg.spec_name(),
                signer@.key_id,
            );
            lemma_token_segments(
                token@,
                base64url(claims_json(signed)),
                base64url(claims_json(payload@)),
            );
        }
    }
    accepted
}

/// A compact serialization that begins with two given segments has them as
/// its header and payload segments, whatever they are.
proof fn lemma_token_segments(token: Seq<char>, first: Seq<char>, second: Seq<char>)
    requires
        is_compact(token),
        exists|signature: Seq<u8>| token == compact(first, second, #[trigger] base64url(signature)),
    ensures
        token == compact(first, second, signature_segment(token)),
        is_base64url_text(first),
        is_base64url_text(second),
        is_base64url_text(signature_segment(token)),
{
    let signature = choose|signature: Seq<u8>|
        token == compact(first, second, #[trigger] base64url(signature));
    let (h, p, s) = choose|h: Seq<char>, p: Seq<char>, s: Seq<char>|
        {
            &&& token == #[trigger] compact(h, p, s)
            &&& is_base64url_text(h)
            &&& is_base64url_text(p)
            &&& is_base64url_text(s)
        };
    lemma_segments_unique(first, second, base64url(signature), h, p, s);
    lemma_last_dot(h, p, s);
}

/// Makes the token that a request asks for, signed with `key`, as of `now`
/// in seconds since the Unix epoch.
///
/// The steps are taken in this order, and the first that fails ends the
/// work: the header is built, then the payload (`InvalidClaim`), then the
/// signer is bound to the key (`KeyAlgorithmMismatch`, `MalformedKey`), then
/// the token is serialized and signed (`SigningFailure`).
pub fn issue_token(args: &Args, key: &JsonWebKey, now: u64) -> (issued: Result<String, Error>)
    ensures
        issued matches Err(Error::InvalidClaim) <==> !payload_ok(args.ttl, now, args.extra()),
        issued matches Err(Error::KeyAlgorithmMismatch) <==> payload_ok(
            args.ttl,
            now,
            args.extra(),
        ) && verdict(args.alg, key@) == Verdict::Mismatch,
        issued matches Err(Error::MalformedKey) ==> payload_ok(args.ttl, now, args.extra())
            && verdict(args.alg, key@) != Verdict::Mismatch,
        issued matches Err(Error::SigningFailure) ==> payload_ok(args.ttl, now, args.extra())
            && verdict(args.alg, key@) == Verdict::Compatible,
        !(issued matches Err(Error::InputError)),
        verdict(args.alg, key@) == Verdict::Incomplete && payload_ok(args.ttl, now, args.extra())
            ==> issued matches Err(Error::MalformedKey),
        issued matches Ok(token) ==> {
            &&& payload_ok(args.ttl, now, args.extra())
            &&& verdict(args.alg, key@) == Verdict::Compatible
            &&& is_compact(token@)
            &&& is_token_of(
                token@,
                (HeaderInfo { alg: args.alg, key_id: key@.key_id }).claims(),
                payload_model(args.iss@, args.aud@, (now + args.ttl) as nat, args.extra()),
            )
        },
{
    let header = build_header(args, key);
    let payload = match build_payload(args, now) {
        Ok(payload) => payload,
        Err(e) => {
            return Err(e);
        },
    };
    let signer = match select_signer(args.alg, key) {
        Ok(signer) => signer,
        Err(e) => {
            return Err(e);
        },
    };
    proof {
        lemma_signed_header_unchanged(header@);
    }
    encode_token(&payload, &header, &signer)
}

/// Two tokens of the same header and payload are the same up to the
/// signature: their signed text, which is the header segment, a dot and the
/// payload segment, is equal.
pub proof fn lemma_same_claims_same_signed_text(
    first: Seq<char>,
    second: Seq<char>,
    header: Claims,
    payload: Claims,
)
    requires
        is_token_of(first, header, payload),
        is_token_of(second, header, payload),
    ensures
        signed_text(first) == signed_text(second),
        signed_text(first) == base64url(claims_json(header)) + seq!['.'] + base64url(
            claims_json(payload),
        ),
{
    let h = base64url(claims_json(header));
    let p = base64url(claims_json(payload));
    lemma_last_dot(h, p, signature_segment(first));
    lemma_last_dot(h, p, signature_segment(second));
}

/// The token of a header and a payload is a compact serialization: three
/// segments of unpadded base64url, and two dots between them.
pub proof fn lemma_token_is_compact(token: Seq<char>, header: Claims, payload: Claims)
    requires
        is_token_of(token, header, payload),
    ensures
        is_compact(token),
{
    assert(token == compact(
        base64url(claims_json(header)),
        base64url(claims_json(payload)),
        signature_segment(token),
    ));
}

} // verus!
