//! The claims payload: issuer, audience and expiry, then the claims that the
//! caller adds.

use vstd::prelude::*;
use josekit::jwt::JwtPayload;
use josekit::JoseError;
use josekit::Number;
use josekit::Value;
use crate::args::Args;
use crate::claims::all_known;
use crate::claims::distinct_names;
use crate::claims::has_claim;
use crate::claims::lemma_last_write_wins;
use crate::claims::lemma_unwritten_claim_kept;
use crate::claims::lemma_written_claims_distinct;
use crate::claims::lemma_written_claims_keep_places;
use crate::claims::lemma_written_claims_known;
use crate::claims::lemma_written_names;
use crate::claims::lookup;
use crate::claims::put;
use crate::claims::with_text_claims;
use crate::claims::Claim;
use crate::claims::ClaimValue;
use crate::claims::Claims;
use crate::error::Error;
use crate::text::same_text;

verus! {

/// `josekit::jwt::JwtPayload`: the claims of a payload, in order.
#[verifier::external_type_specification]
#[verifier::external_body]
pub struct ExJwtPayload(JwtPayload);

/// The claims that a `JwtPayload` holds, in the order in which it would write
/// them out.
pub uninterp spec fn payload_claims(payload: JwtPayload) -> Claims;

/// Which values `josekit` takes for which claim: `iss`, `sub` and `jti` must
/// be strings, `aud` a string or an array of strings, `exp`, `nbf` and `iat`
/// numbers. Any other claim may hold what it likes.
pub open spec fn claim_accepted(name: Seq<char>, value: ClaimValue) -> bool {
    if name == "iss"@ || name == "sub"@ || name == "jti"@ {
        value is Text
    } else if name == "aud"@ {
        value is Text || value is List
    } else if name == "exp"@ || name == "nbf"@ || name == "iat"@ {
        value is Number
    } else {
        true
    }
}

/// `JwtPayload::new`: a payload without claims.
pub assume_specification[ JwtPayload::new ]() -> (payload: JwtPayload)
    ensures
        payload_claims(payload) == Seq::<(Seq<char>, ClaimValue)>::empty(),
;

/// `JwtPayload::set_claim`: writes one claim, if the value is of a kind that
/// the claim's name admits. A name already there keeps its place and takes
/// the new value, a new name goes to the end; a refused value changes nothing.
#[verifier::external_body]
fn payload_set_claim(payload: &mut JwtPayload, name: &str, value: &Claim) -> (written: Result<
    (),
    JoseError,
>)
    ensures
        written is Ok <==> claim_accepted(name@, value@),
        written is Ok ==> payload_claims(*final(payload)) == put(
            payload_claims(*old(payload)),
            name@,
            value@,
        ),
        written is Err ==> payload_claims(*final(payload)) == payload_claims(*old(payload)),
{
    let value = match value {
        Claim::Text(text) => Value::String(text.clone()),
        Claim::List(items) => Value::Array(
            items.iter().map(|item| Value::String(item.clone())).collect(),
        ),
        Claim::Number(number) => Value::Number(Number::from(*number)),
    };
    payload.set_claim(name, Some(value))
}

/// A name that the caller may give a claim of their own: not empty, and none
/// of the names that the payload fills itself (`iss`, `aud`, `exp`) or that
/// must hold a number (`nbf`, `iat`).
pub open spec fn acceptable_name(name: Seq<char>) -> bool {
    &&& name.len() > 0
    &&& name != "iss"@
    &&& name != "aud"@
    &&& name != "exp"@
    &&& name != "nbf"@
    &&& name != "iat"@
}

/// Whether the caller may give a claim of their own this name.
pub fn is_acceptable_name(name: &str) -> (acceptable: bool)
    ensures
        acceptable == acceptable_name(name@),
{
    !name.is_empty() && !same_text(name, "iss") && !same_text(name, "aud") && !same_text(
        name,
        "exp",
    ) && !same_text(name, "nbf") && !same_text(name, "iat")
}

/// The three claims that every payload starts with.
pub open spec fn required_claims(iss: Seq<char>, aud: Seq<char>, exp: nat) -> Claims {
    seq![
        ("iss"@, ClaimValue::Text(iss)),
        ("aud"@, ClaimValue::List(seq![aud])),
        ("exp"@, ClaimValue::Number(exp)),
    ]
}

/// The payload for an issuer, one audience, an expiry time and the caller's
/// own claims: the three required claims, then the caller's pairs written in
/// the order given, each value as a string.
pub open spec fn payload_model(
    iss: Seq<char>,
    aud: Seq<char>,
    exp: nat,
    extra: Seq<(Seq<char>, Seq<char>)>,
) -> Claims {
    with_text_claims(required_claims(iss, aud, exp), extra)
}

/// When a payload can be built: the token outlives the moment it is made, its
/// expiry time can be written down, and every claim of the caller has an
/// acceptable name.
pub open spec fn payload_ok(ttl: u64, now: u64, extra: Seq<(Seq<char>, Seq<char>)>) -> bool {
    &&& ttl > 0
    &&& now + ttl <= u64::MAX
    &&& forall|i: int| 0 <= i < extra.len() ==> acceptable_name((#[trigger] extra[i]).0)
}

/// What holds of the claims of every payload: no name occurs twice and none
/// is empty, `iss` holds a string, `aud` an array of one string and `exp` a
/// number, and every value is of a known kind.
pub open spec fn well_formed(claims: Claims) -> bool {
    &&& distinct_names(claims)
    &&& all_known(claims)
    &&& forall|i: int| 0 <= i < claims.len() ==> (#[trigger] claims[i]).0.len() > 0
    &&& lookup(claims, "iss"@) matches Some(ClaimValue::Text(_))
    &&& lookup(claims, "aud"@) matches Some(ClaimValue::List(audiences)) && audiences.len() == 1
    &&& lookup(claims, "exp"@) matches Some(ClaimValue::Number(_))
}

/// The claims of a token. Every name occurs once; `iss`, `aud` and `exp` are
/// always there.
pub struct ClaimsPayload {
    claims: JwtPayload,
}

impl View for ClaimsPayload {
    type V = Claims;

    closed spec fn view(&self) -> Claims {
        payload_claims(self.claims)
    }
}

impl ClaimsPayload {
    #[verifier::type_invariant]
    spec fn sound(&self) -> bool {
        well_formed(payload_claims(self.claims))
    }

    /// The payload of `josekit`, with what it holds.
    pub(crate) fn known_payload(&self) -> (payload: &JwtPayload)
        ensures
            payload_claims(*payload) == self@,
            well_formed(self@),
    {
        proof {
            use_type_invariant(self);
        }
        &self.claims
    }
}

proof fn lemma_names_differ()
    ensures
        "iss"@ != "aud"@,
        "iss"@ != "exp"@,
        "aud"@ != "exp"@,
        "iss"@.len() > 0,
        "aud"@.len() > 0,
        "exp"@.len() > 0,
        "aud"@ != "sub"@,
        "aud"@ != "jti"@,
        "exp"@ != "sub"@,
        "exp"@ != "jti"@,
        "nbf"@ != "iss"@,
        "nbf"@ != "sub"@,
        "nbf"@ != "jti"@,
        "nbf"@ != "aud"@,
        "iat"@ != "iss"@,
        "iat"@ != "sub"@,
        "iat"@ != "jti"@,
        "iat"@ != "aud"@,
{
    reveal_strlit("iss");
    reveal_strlit("aud");
    reveal_strlit("exp");
    reveal_strlit("sub");
    reveal_strlit("jti");
    reveal_strlit("nbf");
    reveal_strlit("iat");
    assert("iss"@[0] == 'i' && "aud"@[0] == 'a' && "exp"@[0] == 'e');
    assert("sub"@[0] == 's' && "jti"@[0] == 'j' && "nbf"@[0] == 'n');
    assert("iat"@[1] == 'a' && "iss"@[1] == 's');
}

/// Builds the payload of a token made at `now`, in seconds since the Unix epoch.
///
/// `iss` is the issuer and `aud` the one audience, both as given; `exp` is
/// `now` plus the time to live. The caller's claims follow in the order
/// given, each value as a string; where a name is given twice the later value
/// stands. A time to live of zero, an expiry time beyond what a `u64` holds,
/// and a claim with an empty or a reserved name are refused as `InvalidClaim`:
/// the required claims cannot be overwritten.
pub fn build_payload(args: &Args, now: u64) -> (built: Result<ClaimsPayload, Error>)
    ensures
        match built {
            Ok(payload) => {
                &&& payload_ok(args.ttl, now, args.extra())
                &&& payload@ == payload_model(
                    args.iss@,
                    args.aud@,
                    (now + args.ttl) as nat,
                    args.extra(),
                )
                &&& well_formed(payload@)
            },
            Err(e) => e == Error::InvalidClaim && !payload_ok(args.ttl, now, args.extra()),
        },
{
    if args.ttl == 0 {
        return Err(Error::InvalidClaim);
    }
    let exp = match now.checked_add(args.ttl) {
        Some(exp) => exp,
        None => {
            return Err(Error::InvalidClaim);
        },
    };
    proof {
        lemma_names_differ();
    }
    let ghost empty = Seq::<(Seq<char>, ClaimValue)>::empty();
    let ghost required = required_claims(args.iss@, args.aud@, exp as nat);
    let mut claims = JwtPayload::new();

    let issuer = Claim::Text(args.iss.clone());
    if payload_set_claim(&mut claims, "iss", &issuer).is_err() {
        return Err(Error::InvalidClaim);
    }
    assert(payload_claims(claims) == required.take(1)) by {
        assert(!has_claim(empty, "iss"@));
    }

    let audience = Claim::List(vec![args.aud.clone()]);
    assert(audience@ == ClaimValue::List(seq![args.aud@])) by {
        assert(audience->List_0@.map_values(|item: String| item@) =~= seq![args.aud@]);
    }
    if payload_set_claim(&mut claims, "aud", &audience).is_err() {
        return Err(Error::InvalidClaim);
    }
    assert(payload_claims(claims) == required.take(2)) by {
        let before = required.take(1);
        if has_claim(before, "aud"@) {
            let i = choose|i: int| 0 <= i < before.len() && (#[trigger] before[i]).0 == "aud"@;
            assert(before[i].0 == "iss"@);
        }
    }

    let expiry = Claim::Number(exp);
    if payload_set_claim(&mut claims, "exp", &expiry).is_err() {
        return Err(Error::InvalidClaim);
    }
    assert(payload_claims(claims) == required) by {
        let before = required.take(2);
        if has_claim(before, "exp"@) {
            let i = choose|i: int| 0 <= i < before.len() && (#[trigger] before[i]).0 == "exp"@;
            assert(before[i].0 == "iss"@ || before[i].0 == "aud"@);
        }
    }

    let ghost extra = args.extra();
    let count = args.additional_claims.len();
    let mut done: usize = 0;
    while done < count
        invariant
            done <= count,
            count == args.additional_claims.len(),
            extra == args.extra(),
            extra.len() == count,
            payload_claims(claims) == with_text_claims(required, extra.take(done as int)),
            forall|i: int| 0 <= i < done ==> acceptable_name((#[trigger] extra[i]).0),
        decreases count - done,
    {
        let pair = &args.additional_claims[done];
        assert(extra[done as int] == (pair.0@, pair.1@));
        if !is_acceptable_name(pair.0.as_str()) {
            return Err(Error::InvalidClaim);
        }
        let value = Claim::Text(pair.1.clone());
        if payload_set_claim(&mut claims, pair.0.as_str(), &value).is_err() {
            return Err(Error::InvalidClaim);
        }
        proof {
            let next = extra.take(done + 1);
            assert(next.drop_last() == extra.take(done as int));
            assert(next.last() == extra[done as int]);
        }
        done += 1;
    }
    proof {
        assert(extra.take(done as int) == extra);
        lemma_payload_well_formed(args.iss@, args.aud@, exp as nat, extra);
    }
    Ok(ClaimsPayload { claims })
}

/// In every payload `iss`, `aud` and `exp` hold what they were given and
/// stand first, in that order; no name occurs twice and none is empty.
pub proof fn lemma_payload_claims(
    iss: Seq<char>,
    aud: Seq<char>,
    exp: nat,
    extra: Seq<(Seq<char>, Seq<char>)>,
)
    requires
        forall|i: int| 0 <= i < extra.len() ==> acceptable_name((#[trigger] extra[i]).0),
    ensures
        lookup(payload_model(iss, aud, exp, extra), "iss"@) == Some(ClaimValue::Text(iss)),
        lookup(payload_model(iss, aud, exp, extra), "aud"@) == Some(ClaimValue::List(seq![aud])),
        lookup(payload_model(iss, aud, exp, extra), "exp"@) == Some(ClaimValue::Number(exp)),
        payload_model(iss, aud, exp, extra).len() >= 3,
        payload_model(iss, aud, exp, extra)[0].0 == "iss"@,
        payload_model(iss, aud, exp, extra)[1].0 == "aud"@,
        payload_model(iss, aud, exp, extra)[2].0 == "exp"@,
        distinct_names(payload_model(iss, aud, exp, extra)),
        all_known(payload_model(iss, aud, exp, extra)),
{
    let required = required_claims(iss, aud, exp);
    lemma_names_differ();
    assert(distinct_names(required));
    assert(all_known(required));
    assert(required[0].0 == "iss"@ && required[1].0 == "aud"@ && required[2].0 == "exp"@);
    assert(has_claim(required, "iss"@) && has_claim(required, "aud"@) && has_claim(
        required,
        "exp"@,
    ));
    lemma_unwritten_claim_kept(required, extra, "iss"@);
    lemma_unwritten_claim_kept(required, extra, "aud"@);
    lemma_unwritten_claim_kept(required, extra, "exp"@);
    lemma_written_claims_keep_places(required, extra, 0);
    lemma_written_claims_keep_places(required, extra, 1);
    lemma_written_claims_keep_places(required, extra, 2);
    lemma_written_claims_distinct(required, extra);
    lemma_written_claims_known(required, extra);
}

/// The payload that is built is well formed.
pub proof fn lemma_payload_well_formed(
    iss: Seq<char>,
    aud: Seq<char>,
    exp: nat,
    extra: Seq<(Seq<char>, Seq<char>)>,
)
    requires
        forall|i: int| 0 <= i < extra.len() ==> acceptable_name((#[trigger] extra[i]).0),
    ensures
        well_formed(payload_model(iss, aud, exp, extra)),
{
    let claims = payload_model(iss, aud, exp, extra);
    lemma_payload_claims(iss, aud, exp, extra);
    assert forall|i: int| 0 <= i < claims.len() implies (#[trigger] claims[i]).0.len() > 0 by {
        assert(has_claim(claims, claims[i].0));
        lemma_payload_names(iss, aud, exp, extra, claims[i].0);
    }
}

/// Among the caller's claims the last write wins: a name given several times
/// holds the value of the last pair that names it, as a string, and never an
/// earlier one.
pub proof fn lemma_payload_last_write_wins(
    iss: Seq<char>,
    aud: Seq<char>,
    exp: nat,
    extra: Seq<(Seq<char>, Seq<char>)>,
    i: int,
)
    requires
        0 <= i < extra.len(),
        forall|j: int| i < j < extra.len() ==> (#[trigger] extra[j]).0 != extra[i].0,
    ensures
        lookup(payload_model(iss, aud, exp, extra), extra[i].0) == Some(
            ClaimValue::Text(extra[i].1),
        ),
{
    lemma_names_differ();
    lemma_last_write_wins(required_claims(iss, aud, exp), extra, i);
}

/// A payload holds the three required claims and the caller's own, and
/// nothing else; no claim has an empty name.
pub proof fn lemma_payload_names(
    iss: Seq<char>,
    aud: Seq<char>,
    exp: nat,
    extra: Seq<(Seq<char>, Seq<char>)>,
    name: Seq<char>,
)
    requires
        forall|i: int| 0 <= i < extra.len() ==> acceptable_name((#[trigger] extra[i]).0),
    ensures
        has_claim(payload_model(iss, aud, exp, extra), name) <==> (name == "iss"@ || name == "aud"@
            || name == "exp"@ || exists|i: int|
            0 <= i < extra.len() && (#[trigger] extra[i]).0 == name),
        has_claim(payload_model(iss, aud, exp, extra), name) ==> name.len() > 0,
{
    let required = required_claims(iss, aud, exp);
    let claims = payload_model(iss, aud, exp, extra);
    lemma_names_differ();
    lemma_payload_claims(iss, aud, exp, extra);
    if has_claim(claims, name) {
        let at = choose|at: int| 0 <= at < claims.len() && (#[trigger] claims[at]).0 == name;
        lemma_written_names(required, extra, at);
        if exists|j: int| 0 <= j < required.len() && (#[trigger] required[j]).0 == name {
            let j = choose|j: int| 0 <= j < required.len() && (#[trigger] required[j]).0 == name;
            assert(required[j].0 == "iss"@ || required[j].0 == "aud"@ || required[j].0 == "exp"@);
        } else {
            let j = choose|j: int| 0 <= j < extra.len() && (#[trigger] extra[j]).0 == name;
            assert(acceptable_name(extra[j].0));
        }
    }
    if name == "iss"@ || name == "aud"@ || name == "exp"@ {
        assert(has_claim(claims, name));
    }
    if exists|i: int| 0 <= i < extra.len() && (#[trigger] extra[i]).0 == name {
        let first = choose|i: int| 0 <= i < extra.len() && (#[trigger] extra[i]).0 == name;
        let last = last_with_name(extra, name, first);
        lemma_payload_last_write_wins(iss, aud, exp, extra, last);
        assert(has_claim(claims, name));
    }
}

/// The last pair of `pairs` that has the name `name`, given one that has it.
proof fn last_with_name(pairs: Seq<(Seq<char>, Seq<char>)>, name: Seq<char>, one: int) -> (last:
    int)
    requires
        0 <= one < pairs.len(),
        pairs[one].0 == name,
    ensures
        one <= last < pairs.len(),
        pairs[last].0 == name,
        forall|j: int| last < j < pairs.len() ==> (#[trigger] pairs[j]).0 != name,
    decreases pairs.len() - one,
{
    if exists|j: int| one < j < pairs.len() && (#[trigger] pairs[j]).0 == name {
        let next = choose|j: int| one < j < pairs.len() && (#[trigger] pairs[j]).0 == name;
        last_with_name(pairs, name, next)
    } else {
        one
    }
}

} // verus!
