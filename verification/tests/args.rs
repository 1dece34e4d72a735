use jwtgen::args::parse_key_value;
use jwtgen::args::Alg;
use jwtgen::error::Error;
use jwtgen::select::Curve;
use jwtgen::select::Digest;
use jwtgen::select::Family;

fn pair(key: &str, value: &str) -> Result<(String, String), Error> {
    Ok((key.to_string(), value.to_string()))
}

#[test]
fn key_value_splits_at_the_equals_sign() {
    assert_eq!(parse_key_value("role=admin"), pair("role", "admin"));
}

#[test]
fn key_value_splits_at_the_first_equals_sign_only() {
    assert_eq!(parse_key_value("a=b=c"), pair("a", "b=c"));
    assert_eq!(parse_key_value("a=="), pair("a", "="));
}

#[test]
fn key_value_may_have_an_empty_key_or_value() {
    assert_eq!(parse_key_value("=v"), pair("", "v"));
    assert_eq!(parse_key_value("k="), pair("k", ""));
    assert_eq!(parse_key_value("="), pair("", ""));
}

#[test]
fn key_value_keeps_text_beyond_ascii() {
    assert_eq!(parse_key_value("ключ=значение"), pair("ключ", "значение"));
    assert_eq!(parse_key_value("名前=東京=京都"), pair("名前", "東京=京都"));
    assert_eq!(parse_key_value("a\u{1F600}=\u{1F600}b"), pair("a\u{1F600}", "\u{1F600}b"));
}

#[test]
fn key_value_without_equals_sign_is_refused() {
    assert_eq!(parse_key_value("role"), Err(Error::InvalidClaim));
    assert_eq!(parse_key_value(""), Err(Error::InvalidClaim));
    assert_eq!(parse_key_value("a:b"), Err(Error::InvalidClaim));
}

#[test]
fn algorithms_have_their_registered_names() {
    assert_eq!(Alg::RS256.name(), "RS256");
    assert_eq!(Alg::RS384.name(), "RS384");
    assert_eq!(Alg::RS512.name(), "RS512");
    assert_eq!(Alg::PS256.name(), "PS256");
    assert_eq!(Alg::PS384.name(), "PS384");
    assert_eq!(Alg::PS512.name(), "PS512");
    assert_eq!(Alg::ES256.name(), "ES256");
    assert_eq!(Alg::ES256K.name(), "ES256K");
    assert_eq!(Alg::ES384.name(), "ES384");
    assert_eq!(Alg::ES512.name(), "ES512");
    assert_eq!(Alg::EDDSA.name(), "EdDSA");
}

#[test]
fn algorithms_belong_to_their_families() {
    assert_eq!(Alg::RS256.family(), Family::Rsassa(Digest::Sha256));
    assert_eq!(Alg::RS384.family(), Family::Rsassa(Digest::Sha384));
    assert_eq!(Alg::RS512.family(), Family::Rsassa(Digest::Sha512));
    assert_eq!(Alg::PS256.family(), Family::RsassaPss(Digest::Sha256));
    assert_eq!(Alg::PS384.family(), Family::RsassaPss(Digest::Sha384));
    assert_eq!(Alg::PS512.family(), Family::RsassaPss(Digest::Sha512));
    assert_eq!(Alg::ES256.family(), Family::Ecdsa(Curve::P256));
    assert_eq!(Alg::ES256K.family(), Family::Ecdsa(Curve::Secp256k1));
    assert_eq!(Alg::ES384.family(), Family::Ecdsa(Curve::P384));
    assert_eq!(Alg::ES512.family(), Family::Ecdsa(Curve::P521));
    assert_eq!(Alg::EDDSA.family(), Family::Eddsa);
}

#[test]
fn algorithms_name_the_key_type_they_need() {
    for alg in [Alg::RS256, Alg::RS384, Alg::RS512, Alg::PS256, Alg::PS384, Alg::PS512] {
        assert_eq!(alg.key_type(), "RSA");
        assert_eq!(alg.curve(), None);
    }
    for alg in [Alg::ES256, Alg::ES256K, Alg::ES384, Alg::ES512] {
        assert_eq!(alg.key_type(), "EC");
    }
    assert_eq!(Alg::EDDSA.key_type(), "OKP");
}

#[test]
fn algorithms_name_the_curve_they_need() {
    assert_eq!(Alg::ES256.curve(), Some("P-256"));
    assert_eq!(Alg::ES256K.curve(), Some("secp256k1"));
    assert_eq!(Alg::ES384.curve(), Some("P-384"));
    assert_eq!(Alg::ES512.curve(), Some("P-521"));
    assert_eq!(Alg::EDDSA.curve(), Some("Ed25519"));
    assert_eq!(Curve::P256.name(), "P-256");
    assert_eq!(Curve::Secp256k1.name(), "secp256k1");
    assert_eq!(Curve::P384.name(), "P-384");
    assert_eq!(Curve::P521.name(), "P-521");
}

#[test]
fn families_name_the_members_a_key_must_hold() {
    let rsa = vec!["n", "e", "d", "p", "q", "dp", "dq", "qi"];
    assert_eq!(Family::Rsassa(Digest::Sha256).required(), rsa);
    assert_eq!(Family::Rsassa(Digest::Sha512).required(), rsa);
    assert_eq!(Family::RsassaPss(Digest::Sha384).required(), rsa);
    assert_eq!(Family::Ecdsa(Curve::P256).required(), vec!["d"]);
    assert_eq!(Family::Ecdsa(Curve::P521).required(), vec!["d"]);
    assert_eq!(Family::Eddsa.required(), vec!["d"]);
}

#[test]
fn every_error_has_a_message_of_its_own() {
    let all = [
        Error::InputError,
        Error::MalformedKey,
        Error::KeyAlgorithmMismatch,
        Error::InvalidClaim,
        Error::SigningFailure,
    ];
    for (i, one) in all.iter().enumerate() {
        assert!(!one.message().is_empty());
        for other in &all[i + 1..] {
            assert_ne!(one.message(), other.message());
        }
    }
    assert_eq!(Error::KeyAlgorithmMismatch.message(), "the key does not fit the requested algorithm");
}
