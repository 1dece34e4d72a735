//! The model of a set of claims: named values, kept in the order in which the
//! names first came, each name at most once.

use vstd::prelude::*;

verus! {

/// What a claim can hold.
pub enum ClaimValue {
    /// A string.
    Text(Seq<char>),
    /// An array of strings.
    List(Seq<Seq<char>>),
    /// A whole number that is not negative.
    Number(nat),
    /// Any other JSON value. This crate never writes one.
    Other,
}

/// Claims in order: each entry is a name and its value.
pub type Claims = Seq<(Seq<char>, ClaimValue)>;

/// A claim value as the caller hands it over.
pub enum Claim {
    Text(String),
    List(Vec<String>),
    Number(u64),
}

impl View for Claim {
    type V = ClaimValue;

    open spec fn view(&self) -> ClaimValue {
        match self {
            Claim::Text(text) => ClaimValue::Text(text@),
            Claim::List(items) => ClaimValue::List(items@.map_values(|item: String| item@)),
            Claim::Number(number) => ClaimValue::Number(*number as nat),
        }
    }
}

/// Whether some entry of `claims` has the name `name`.
pub open spec fn has_claim(claims: Claims, name: Seq<char>) -> bool {
    exists|i: int| 0 <= i < claims.len() && (#[trigger] claims[i]).0 == name
}

/// Where the entry named `name` stands, if there is one.
pub open spec fn position(claims: Claims, name: Seq<char>) -> int {
    choose|i: int| 0 <= i < claims.len() && (#[trigger] claims[i]).0 == name
}

/// The value of the claim named `name`.
pub open spec fn lookup(claims: Claims, name: Seq<char>) -> Option<ClaimValue> {
    if has_claim(claims, name) {
        Some(claims[position(claims, name)].1)
    } else {
        None
    }
}

/// Writes a claim: a name already there keeps its place and takes the new
/// value, a new name goes to the end.
pub open spec fn put(claims: Claims, name: Seq<char>, value: ClaimValue) -> Claims {
    if has_claim(claims, name) {
        claims.update(position(claims, name), (name, value))
    } else {
        claims.push((name, value))
    }
}

/// No name occurs twice.
pub open spec fn distinct_names(claims: Claims) -> bool {
    forall|i: int, j: int|
        0 <= i < j < claims.len() ==> (#[trigger] claims[i]).0 != (#[trigger] claims[j]).0
}

/// No value is of a kind that this crate does not write.
pub open spec fn all_known(claims: Claims) -> bool {
    forall|i: int| 0 <= i < claims.len() ==> !((#[trigger] claims[i]).1 is Other)
}

/// `base` after each pair of `extra` was written as a string claim, first to last.
pub open spec fn with_text_claims(base: Claims, extra: Seq<(Seq<char>, Seq<char>)>) -> Claims
    decreases extra.len(),
{
    if extra.len() == 0 {
        base
    } else {
        put(
            with_text_claims(base, extra.drop_last()),
            extra.last().0,
            ClaimValue::Text(extra.last().1),
        )
    }
}

/// Writing a claim leaves every name unique.
pub proof fn lemma_put_distinct(claims: Claims, name: Seq<char>, value: ClaimValue)
    requires
        distinct_names(claims),
    ensures
        distinct_names(put(claims, name, value)),
{
    let after = put(claims, name, value);
    if has_claim(claims, name) {
        let at = position(claims, name);
        assert forall|i: int, j: int| 0 <= i < j < after.len() implies (#[trigger] after[i]).0 != (
        #[trigger] after[j]).0 by {
            assert(claims[i].0 == after[i].0);
            assert(claims[j].0 == after[j].0);
        }
    } else {
        assert forall|i: int, j: int| 0 <= i < j < after.len() implies (#[trigger] after[i]).0 != (
        #[trigger] after[j]).0 by {
            if j < claims.len() {
                assert(claims[i].0 == after[i].0);
                assert(claims[j].0 == after[j].0);
            } else {
                assert(after[j].0 == name);
                assert(claims[i].0 == after[i].0);
            }
        }
    }
}

/// Writing a claim adds no value of an unknown kind, unless the value is one.
pub proof fn lemma_put_known(claims: Claims, name: Seq<char>, value: ClaimValue)
    requires
        all_known(claims),
        !(value is Other),
    ensures
        all_known(put(claims, name, value)),
{
    let after = put(claims, name, value);
    if has_claim(claims, name) {
        let at = position(claims, name);
        assert forall|i: int| 0 <= i < after.len() implies !((#[trigger] after[i]).1 is Other) by {
            if i != at {
                assert(after[i] == claims[i]);
            }
        }
    } else {
        assert forall|i: int| 0 <= i < after.len() implies !((#[trigger] after[i]).1 is Other) by {
            if i < claims.len() {
                assert(after[i] == claims[i]);
            }
        }
    }
}

/// A claim that was just written is found with the value written.
pub proof fn lemma_lookup_written(claims: Claims, name: Seq<char>, value: ClaimValue)
    requires
        distinct_names(claims),
    ensures
        lookup(put(claims, name, value), name) == Some(value),
{
    let after = put(claims, name, value);
    lemma_put_distinct(claims, name, value);
    let at = if has_claim(claims, name) {
        position(claims, name)
    } else {
        claims.len() as int
    };
    assert(after[at].0 == name);
    assert(has_claim(after, name));
    let found = position(after, name);
    assert(found == at) by {
        if found < at {
            assert(after[found].0 != after[at].0);
        } else if at < found {
            assert(after[at].0 != after[found].0);
        }
    }
}

/// Writing one claim changes no other.
pub proof fn lemma_lookup_other(
    claims: Claims,
    name: Seq<char>,
    value: ClaimValue,
    other: Seq<char>,
)
    requires
        distinct_names(claims),
        other != name,
    ensures
        lookup(put(claims, name, value), other) == lookup(claims, other),
        has_claim(put(claims, name, value), other) == has_claim(claims, other),
{
    let after = put(claims, name, value);
    lemma_put_distinct(claims, name, value);
    if has_claim(claims, other) {
        let was = position(claims, other);
        assert(after[was] == claims[was]);
        assert(has_claim(after, other));
        let found = position(after, other);
        assert(found == was) by {
            if found < was {
                assert(after[found].0 != after[was].0);
            } else if was < found {
                assert(after[was].0 != after[found].0);
            }
        }
    } else {
        if has_claim(after, other) {
            let found = position(after, other);
            if found < claims.len() {
                assert(claims[found].0 == after[found].0);
            }
            assert(false);
        }
    }
}

/// Written claims never take an earlier claim's place: what stood at an index
/// keeps its name there.
pub proof fn lemma_put_keeps_places(claims: Claims, name: Seq<char>, value: ClaimValue, i: int)
    requires
        0 <= i < claims.len(),
    ensures
        put(claims, name, value).len() >= claims.len(),
        put(claims, name, value)[i].0 == claims[i].0,
{
}

/// However many claims are written, every name stays unique.
pub proof fn lemma_written_claims_distinct(base: Claims, extra: Seq<(Seq<char>, Seq<char>)>)
    requires
        distinct_names(base),
    ensures
        distinct_names(with_text_claims(base, extra)),
    decreases extra.len(),
{
    if extra.len() > 0 {
        lemma_written_claims_distinct(base, extra.drop_last());
        lemma_put_distinct(
            with_text_claims(base, extra.drop_last()),
            extra.last().0,
            ClaimValue::Text(extra.last().1),
        );
    }
}

/// Writing string claims over known values leaves only known values.
pub proof fn lemma_written_claims_known(base: Claims, extra: Seq<(Seq<char>, Seq<char>)>)
    requires
        all_known(base),
    ensures
        all_known(with_text_claims(base, extra)),
    decreases extra.len(),
{
    if extra.len() > 0 {
        lemma_written_claims_known(base, extra.drop_last());
        lemma_put_known(
            with_text_claims(base, extra.drop_last()),
            extra.last().0,
            ClaimValue::Text(extra.last().1),
        );
    }
}

/// The last write wins: where a name is given several times, the claim holds
/// the value of the last pair with that name, as a string.
pub proof fn lemma_last_write_wins(base: Claims, extra: Seq<(Seq<char>, Seq<char>)>, i: int)
    requires
        distinct_names(base),
        0 <= i < extra.len(),
        forall|j: int| i < j < extra.len() ==> (#[trigger] extra[j]).0 != extra[i].0,
    ensures
        lookup(with_text_claims(base, extra), extra[i].0) == Some(ClaimValue::Text(extra[i].1)),
    decreases extra.len(),
{
    let before = with_text_claims(base, extra.drop_last());
    lemma_written_claims_distinct(base, extra.drop_last());
    if i == extra.len() - 1 {
        lemma_lookup_written(before, extra.last().0, ClaimValue::Text(extra.last().1));
    } else {
        assert(extra.drop_last()[i] == extra[i]);
        assert forall|j: int| i < j < extra.drop_last().len() implies (
        #[trigger] extra.drop_last()[j]).0 != extra.drop_last()[i].0 by {
            assert(extra.drop_last()[j] == extra[j]);
        }
        lemma_last_write_wins(base, extra.drop_last(), i);
        assert(extra[extra.len() - 1].0 != extra[i].0);
        lemma_lookup_other(
            before,
            extra.last().0,
            ClaimValue::Text(extra.last().1),
            extra[i].0,
        );
    }
}

/// A claim whose name is not among the written ones is as it was before.
pub proof fn lemma_unwritten_claim_kept(
    base: Claims,
    extra: Seq<(Seq<char>, Seq<char>)>,
    name: Seq<char>,
)
    requires
        distinct_names(base),
        forall|j: int| 0 <= j < extra.len() ==> (#[trigger] extra[j]).0 != name,
    ensures
        lookup(with_text_claims(base, extra), name) == lookup(base, name),
        has_claim(with_text_claims(base, extra), name) == has_claim(base, name),
    decreases extra.len(),
{
    if extra.len() > 0 {
        let before = with_text_claims(base, extra.drop_last());
        lemma_written_claims_distinct(base, extra.drop_last());
        assert forall|j: int| 0 <= j < extra.drop_last().len() implies (
        #[trigger] extra.drop_last()[j]).0 != name by {
            assert(extra.drop_last()[j] == extra[j]);
        }
        lemma_unwritten_claim_kept(base, extra.drop_last(), name);
        assert(extra[extra.len() - 1].0 != name);
        lemma_lookup_other(before, extra.last().0, ClaimValue::Text(extra.last().1), name);
    }
}

/// Nothing comes in but what is written: every name in the result is a name
/// from before or one of the written names.
pub proof fn lemma_written_names(base: Claims, extra: Seq<(Seq<char>, Seq<char>)>, i: int)
    requires
        0 <= i < with_text_claims(base, extra).len(),
    ensures
        (exists|j: int| 0 <= j < base.len() && (#[trigger] base[j]).0 == with_text_claims(
            base,
            extra,
        )[i].0) || (exists|j: int|
            0 <= j < extra.len() && (#[trigger] extra[j]).0 == with_text_claims(base, extra)[i].0),
    decreases extra.len(),
{
    if extra.len() == 0 {
        assert(base[i].0 == with_text_claims(base, extra)[i].0);
    } else {
        let before = with_text_claims(base, extra.drop_last());
        let after = with_text_claims(base, extra);
        let last = extra.len() - 1;
        if i < before.len() && after[i].0 == before[i].0 {
            lemma_written_names(base, extra.drop_last(), i);
            if exists|j: int|
                0 <= j < extra.drop_last().len() && (#[trigger] extra.drop_last()[j]).0
                    == before[i].0 {
                let j = choose|j: int|
                    0 <= j < extra.drop_last().len() && (#[trigger] extra.drop_last()[j]).0
                        == before[i].0;
                assert(extra[j].0 == after[i].0);
            }
        } else {
            assert(after[i].0 == extra[last].0);
        }
    }
}

/// The claims that were there first stay first: written claims only change
/// values in place or follow at the end.
pub proof fn lemma_written_claims_keep_places(
    base: Claims,
    extra: Seq<(Seq<char>, Seq<char>)>,
    i: int,
)
    requires
        0 <= i < base.len(),
    ensures
        with_text_claims(base, extra).len() >= base.len(),
        with_text_claims(base, extra)[i].0 == base[i].0,
    decreases extra.len(),
{
    if extra.len() > 0 {
        lemma_written_claims_keep_places(base, extra.drop_last(), i);
        lemma_put_keeps_places(
            with_text_claims(base, extra.drop_last()),
            extra.last().0,
            ClaimValue::Text(extra.last().1),
            i,
        );
    }
}

} // verus!
