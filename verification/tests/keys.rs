use jwtgen::args::Alg;
use jwtgen::error::Error;
use jwtgen::key::JsonWebKey;
use jwtgen::select::check_key;
use jwtgen::select::select_signer;
use jwtgen::select::Verdict;

const RSA: &str = r#"{
    "kty": "RSA",
    "kid": "rsa-1",
    "p": "6pgRssY_qh3EL6rjTRJvc5styhXdyM82kshY2qh6YK8cxLWloXfPMV_Ec6_BcHjr0MrFqw36kG8Pi0MfqhgH6qaMv5egvYytZQxwoB1p_vmVI4masq20ZfhOpKoXvMV0IyJq6GfHa10hYRiVenHOU6wMnKWQJvkHGbJopZyj6-U",
    "q": "tuHduKyka78hQ1h86m0-EGxlaURyxWK-GkolYAST-bi4WTYaQ3xnEF3gURsYZf9ZBIhnvRZJ41C3KUgHNeI-K3eqlCQglq3F7lhxYZDnr-7cMyNdgR2v5LzhuxsDYpVmyH5Yap9Pn2tWP125VnScfzzWr0RpRKWf-K6TOX-3BPs",
    "d": "nADrzdfB9CgYbCN2LHyul-ZZUnlCI5Xmjvckc-GcjdJThTsS4zGn0Udau35VbW9C8caPfCRnckKIMejdUNSH00SqHz6NH_FULAiBf776FMIEXcXd9Biu0L6myp0lodmGykTa5xoR4AnfqPtQWlQ-2NWTuc35Jam8hi0cbLQ_6JnKwh63b9r_yJU6NQ3rVSBGhshS-b66G-bvophvRr-9ATgXzQzJrd_OBs4wnfnZa7-k8HvmOK2sc8BXIjJQqG7i__ms8BXoYM1et5FWijlZp9fOu-VtGiRaOUfMK465TdL3UdDvGj6UUi3vPMA2a2QWEx4k-i6LXEXVJ28Jx01LMQ",
    "e": "AQAB",
    "qi": "i0seI8y0NAaur3ms56ezrkEo9JVdiuh3XOYJUYw8vAENBJ2lZPkTc34KAkleG9Eh1V8snTEJWLFNCGp9C065M9cUUvasarZ3851TDIfdHGnnzz_cpGmBu3e_35CsedqznzUmijVRpJ-8fo9hA1QDCJ6XqhX4l7xyaqlP78s2qwU",
    "dp": "iCjXLOIwFXbNZbVT1Gn80iahPwfOAD10uWEbYV4kGXXJxsp_ZeZ6FXg2N8ctCTDF_huS-yNT6PztErFU8Y6dGa6tRo6lNx8tjNbZj7VCzkDiNQwrA8YaTI0AaEZpHKGmNLZHQrjpYAFf3FE-gSEI1jun3kuiDVzAqEOKxYTTB5k",
    "dq": "ivtZcbgZ-Bw3XiPIQqukh_yokPhItILW78m7X537CsN7rah1CyZmeMSu7VRHFXSZpN044TUoD81OdNvdRvDZyFTX2F8gOQJ0si6ac8gYmtZOl7pfm_kArDdy4Kulxey-QM3ryZOqgf-jeuJyMCbMq9GDYYz-5wFrciTRk9fgMbM",
    "n": "p5cXaynaZpVKUU6j38AyCgqhU4rkWZDw7A7RpLsF3TMTH_p2HETD1C_jaO_3L9DNL-Lduj13Pr48w6_MAacXY65hFd2XgW7O5ogAGg18eERA5A22XxUnOYVQlTQk9PXOP2nCogx5vED1JL85FcgGs6vB28SPIExqYmsvRDWqOyXb58Rn2_F0DSzDwFg0FltxYJLqCyd9YQR-hDR3SLfbmOAKOmyo0LNbUvUkc770JPfeFDYJkVQ6A47sWSvn2mFCYmJAMcRvrNc_CZrfBqah_yrtS_W_WoAZHT_FshEdG6SiJT_5r1GVP2Zvr-dy9bgZ0Mso5r267M0hQYEEYBrdhw"
}"#;

const RSA_PUBLIC_ONLY: &str = r#"{
    "kty": "RSA",
    "e": "AQAB",
    "n": "p5cXaynaZpVKUU6j38AyCgqhU4rkWZDw7A7RpLsF3TMTH_p2HETD1C_jaO_3L9DNL-Lduj13Pr48w6_MAacXY65hFd2XgW7O5ogAGg18eERA5A22XxUnOYVQlTQk9PXOP2nCogx5vED1JL85FcgGs6vB28SPIExqYmsvRDWqOyXb58Rn2_F0DSzDwFg0FltxYJLqCyd9YQR-hDR3SLfbmOAKOmyo0LNbUvUkc770JPfeFDYJkVQ6A47sWSvn2mFCYmJAMcRvrNc_CZrfBqah_yrtS_W_WoAZHT_FshEdG6SiJT_5r1GVP2Zvr-dy9bgZ0Mso5r267M0hQYEEYBrdhw"
}"#;

const EC_P256: &str = r#"{"kty":"EC","crv":"P-256","d":"jpsQnnGQmL-YBIffH1136cspYG6-0iY7X1fCE9-E9LI","x":"f83OJ3D2xF1Bg8vub9tLe1gHMzV76e8Tus9uPHvRVEU","y":"x_FEzRu9m36HLN_tue659LNpXW6pCyStikYjKIWI5a0"}"#;

const EC_P384: &str = r#"{"kty":"EC","crv":"P-384","d":"qBiKag0wGGKImUIEOno_N3JLN-YJtA3z6fDhF_4UbYGgkOdXD-RqhP-NCzfAlt42","x":"POfAoUQlUS4jVmfysIpvr1tOPqbKo9TKoEFA9thDpY9UBHSznoKb0abDNPzb8gJP","y":"XOz-fDeKcijeJ3s5Gfs7NGA8IhNRGoEdf3IPrasiG4c6zmIiD7qbyInNEo_pRm8r"}"#;

const EC_P521: &str = r#"{"kty":"EC","crv":"P-521","d":"AP8Itg4czOYUxHOjLLhF992htPOlZV5-j_3ce7dUv0NQcPofv5Kc22vsfkDJfTk8KwRWo1P-yvsZyw2MPBWV17EM","x":"ATDzxhNrB342-M7NUQ-DFkPvcAQnREOGQpB7o47KIMBfFwb9BZzby3OAWJz7c2DCutMI-4Fs9hs3rtYYtDmQ8RIq","y":"AD4-zwyS0b5Wx0s43gNOF3hojQHNgsYa5AvKbvIgnjgB5jrouuNaek0fFAi9lIiTNt4_BqhFpQvpT0CyRr7yid63"}"#;

const EC_SECP256K1: &str = r#"{"kty":"EC","crv":"secp256k1","kid":"k-curve","d":"quvz-ujJMCx4_7F8yqRQ-8XMJ_emd6OCs7__Shra3ks","x":"SYhti4CCtyMdwy0rZ6LgzOYVvKWCVLTnQxwFX7OAmBY","y":"k2ZfPG-eM4ec9eQqWY1Q2Igt91EbTWogiqQsaNmaYio"}"#;

const EC_WITHOUT_CURVE: &str = r#"{"kty":"EC","d":"jpsQnnGQmL-YBIffH1136cspYG6-0iY7X1fCE9-E9LI","x":"f83OJ3D2xF1Bg8vub9tLe1gHMzV76e8Tus9uPHvRVEU","y":"x_FEzRu9m36HLN_tue659LNpXW6pCyStikYjKIWI5a0"}"#;

const EC_P256_WITHOUT_D: &str = r#"{"kty":"EC","crv":"P-256","x":"f83OJ3D2xF1Bg8vub9tLe1gHMzV76e8Tus9uPHvRVEU","y":"x_FEzRu9m36HLN_tue659LNpXW6pCyStikYjKIWI5a0"}"#;

const ED25519: &str = r#"{"kty":"OKP","crv":"Ed25519","kid":"k1","d":"_mwzx8PQTpWSshckKD2u-3Pp-SWTB2fBDs5vCJkf7Gc","x":"FwDfp6XwCMtN-c1AcCa89jsPESCugUboBJM6agxPmrk"}"#;

const ED448: &str = r#"{"kty":"OKP","crv":"Ed448","d":"GlaZ_8iIIX9mzfOS_fJC-EoR1_m0CvMxJP0oFm6YrjUHhscT_yu-DX0tjIkTThrZcGqXejNYNrW3","x":"MapB7cz65D-O9Tuk-5iac0CGzP6NbD34GfIuHQ1ubr8LpBCCrEgoKXYNmULhxvS84-X6AVwIVYoA"}"#;

const OKP_WITHOUT_CURVE: &str = r#"{"kty":"OKP","d":"_mwzx8PQTpWSshckKD2u-3Pp-SWTB2fBDs5vCJkf7Gc"}"#;

const OCT: &str = r#"{"kty":"oct","k":"MDEyMzQ1Njc4OUFCQ0RFRjAxMjM0NTY3ODlBQkNERUY"}"#;

const ALL: [Alg; 11] = [
    Alg::RS256,
    Alg::RS384,
    Alg::RS512,
    Alg::PS256,
    Alg::PS384,
    Alg::PS512,
    Alg::ES256,
    Alg::ES256K,
    Alg::ES384,
    Alg::ES512,
    Alg::EDDSA,
];

fn key(text: &str) -> JsonWebKey {
    match JsonWebKey::from_bytes(text.as_bytes()) {
        Ok(key) => key,
        Err(e) => panic!("the key was not accepted: {}", e.message()),
    }
}

fn refused(text: &[u8]) -> Error {
    match JsonWebKey::from_bytes(text) {
        Ok(_) => panic!("the key was accepted"),
        Err(e) => e,
    }
}

fn selection(alg: Alg, text: &str) -> Result<Alg, Error> {
    select_signer(alg, &key(text)).map(|signer| signer.alg())
}

#[test]
fn a_key_tells_its_type_curve_and_identifier() {
    let rsa = key(RSA);
    assert_eq!(rsa.key_type(), "RSA");
    assert_eq!(rsa.curve(), None);
    assert_eq!(rsa.key_id(), Some("rsa-1".to_string()));

    let ec = key(EC_P256);
    assert_eq!(ec.key_type(), "EC");
    assert_eq!(ec.curve(), Some("P-256".to_string()));
    assert_eq!(ec.key_id(), None);

    let ed = key(ED25519);
    assert_eq!(ed.key_type(), "OKP");
    assert_eq!(ed.curve(), Some("Ed25519".to_string()));
    assert_eq!(ed.key_id(), Some("k1".to_string()));
}

#[test]
fn empty_input_is_a_malformed_key() {
    assert_eq!(refused(b""), Error::MalformedKey);
    assert_eq!(refused(b"   \n"), Error::MalformedKey);
}

#[test]
fn text_that_is_no_json_object_is_a_malformed_key() {
    assert_eq!(refused(b"not json"), Error::MalformedKey);
    assert_eq!(refused(b"[1, 2, 3]"), Error::MalformedKey);
    assert_eq!(refused(b"\"RSA\""), Error::MalformedKey);
    assert_eq!(refused(b"{\"kty\":\"RSA\""), Error::MalformedKey);
    assert_eq!(refused(&[0xff, 0xfe, 0x00]), Error::MalformedKey);
}

#[test]
fn a_key_without_key_type_is_malformed() {
    assert_eq!(refused(b"{}"), Error::MalformedKey);
    assert_eq!(refused(b"{\"kid\":\"k1\"}"), Error::MalformedKey);
}

#[test]
fn a_key_whose_descriptive_members_are_no_strings_is_malformed() {
    assert_eq!(refused(b"{\"kty\":7}"), Error::MalformedKey);
    assert_eq!(refused(b"{\"kty\":\"RSA\",\"kid\":5}"), Error::MalformedKey);
    assert_eq!(refused(b"{\"kty\":\"EC\",\"crv\":[\"P-256\"]}"), Error::MalformedKey);
    assert_eq!(refused(b"{\"kty\":\"EC\",\"alg\":null}"), Error::MalformedKey);
    assert_eq!(refused(b"{\"kty\":\"EC\",\"use\":true}"), Error::MalformedKey);
}

#[test]
fn a_parser_refusal_becomes_a_malformed_key() {
    let parsed = josekit::jwk::Jwk::from_bytes(b"{");
    assert!(parsed.is_err());
    assert!(matches!(JsonWebKey::from_parsed(parsed), Err(Error::MalformedKey)));
}

#[test]
fn a_parsed_key_is_kept_as_it_is() {
    let parsed = josekit::jwk::Jwk::from_bytes(EC_SECP256K1.as_bytes());
    assert!(parsed.is_ok());
    match JsonWebKey::from_parsed(parsed) {
        Ok(key) => {
            assert_eq!(key.key_type(), "EC");
            assert_eq!(key.curve(), Some("secp256k1".to_string()));
            assert_eq!(key.key_id(), Some("k-curve".to_string()));
        }
        Err(e) => panic!("refused: {}", e.message()),
    }
}

#[test]
fn an_rsa_key_fits_the_rsa_algorithms_and_no_other() {
    let rsa = key(RSA);
    for alg in ALL {
        let expected = match alg {
            Alg::RS256 | Alg::RS384 | Alg::RS512 | Alg::PS256 | Alg::PS384 | Alg::PS512 => {
                Verdict::Compatible
            }
            _ => Verdict::Mismatch,
        };
        assert_eq!(check_key(alg, &rsa), expected);
    }
}

#[test]
fn an_ec_key_fits_the_algorithm_of_its_curve_and_no_other() {
    let keys = [
        (EC_P256, Alg::ES256),
        (EC_SECP256K1, Alg::ES256K),
        (EC_P384, Alg::ES384),
        (EC_P521, Alg::ES512),
    ];
    for (text, own) in keys {
        let ec = key(text);
        for alg in ALL {
            let expected = if alg == own { Verdict::Compatible } else { Verdict::Mismatch };
            assert_eq!(check_key(alg, &ec), expected);
        }
    }
}

#[test]
fn an_ed25519_key_fits_eddsa_and_no_other() {
    let ed = key(ED25519);
    for alg in ALL {
        let expected = if alg == Alg::EDDSA { Verdict::Compatible } else { Verdict::Mismatch };
        assert_eq!(check_key(alg, &ed), expected);
    }
}

#[test]
fn an_okp_key_on_another_curve_fits_nothing() {
    let ed448 = key(ED448);
    for alg in ALL {
        assert_eq!(check_key(alg, &ed448), Verdict::Mismatch);
    }
    assert_eq!(selection(Alg::EDDSA, ED448), Err(Error::KeyAlgorithmMismatch));
}

#[test]
fn a_symmetric_key_fits_nothing() {
    let oct = key(OCT);
    for alg in ALL {
        assert_eq!(check_key(alg, &oct), Verdict::Mismatch);
        assert_eq!(selection(alg, OCT), Err(Error::KeyAlgorithmMismatch));
    }
}

#[test]
fn a_key_that_names_no_curve_is_incomplete_where_one_is_needed() {
    let ec = key(EC_WITHOUT_CURVE);
    for alg in [Alg::ES256, Alg::ES256K, Alg::ES384, Alg::ES512] {
        assert_eq!(check_key(alg, &ec), Verdict::Incomplete);
        assert_eq!(selection(alg, EC_WITHOUT_CURVE), Err(Error::MalformedKey));
    }
    assert_eq!(check_key(Alg::EDDSA, &ec), Verdict::Mismatch);
    assert_eq!(check_key(Alg::RS256, &ec), Verdict::Mismatch);

    let okp = key(OKP_WITHOUT_CURVE);
    assert_eq!(check_key(Alg::EDDSA, &okp), Verdict::Incomplete);
    assert_eq!(selection(Alg::EDDSA, OKP_WITHOUT_CURVE), Err(Error::MalformedKey));
}

#[test]
fn signers_are_bound_for_keys_that_fit() {
    for alg in [Alg::RS256, Alg::RS384, Alg::RS512, Alg::PS256, Alg::PS384, Alg::PS512] {
        assert_eq!(selection(alg, RSA), Ok(alg));
    }
    assert_eq!(selection(Alg::ES256, EC_P256), Ok(Alg::ES256));
    assert_eq!(selection(Alg::ES256K, EC_SECP256K1), Ok(Alg::ES256K));
    assert_eq!(selection(Alg::ES384, EC_P384), Ok(Alg::ES384));
    assert_eq!(selection(Alg::ES512, EC_P521), Ok(Alg::ES512));
    assert_eq!(selection(Alg::EDDSA, ED25519), Ok(Alg::EDDSA));
}

#[test]
fn an_ec_key_on_the_wrong_curve_is_a_mismatch() {
    assert_eq!(selection(Alg::ES384, EC_P256), Err(Error::KeyAlgorithmMismatch));
    assert_eq!(selection(Alg::ES512, EC_P256), Err(Error::KeyAlgorithmMismatch));
    assert_eq!(selection(Alg::ES256K, EC_P256), Err(Error::KeyAlgorithmMismatch));
    assert_eq!(selection(Alg::ES256, EC_P384), Err(Error::KeyAlgorithmMismatch));
    assert_eq!(selection(Alg::ES256, EC_P521), Err(Error::KeyAlgorithmMismatch));
    assert_eq!(selection(Alg::ES256, EC_SECP256K1), Err(Error::KeyAlgorithmMismatch));
}

#[test]
fn a_key_of_the_wrong_type_is_a_mismatch() {
    assert_eq!(selection(Alg::ES256, RSA), Err(Error::KeyAlgorithmMismatch));
    assert_eq!(selection(Alg::EDDSA, RSA), Err(Error::KeyAlgorithmMismatch));
    assert_eq!(selection(Alg::RS256, EC_P256), Err(Error::KeyAlgorithmMismatch));
    assert_eq!(selection(Alg::PS512, ED25519), Err(Error::KeyAlgorithmMismatch));
    assert_eq!(selection(Alg::EDDSA, EC_P256), Err(Error::KeyAlgorithmMismatch));
}

const RSA_TOO_SHORT: &str = r#"{"kty":"RSA","n":"AQAB","e":"AQAB","d":"AQAB","p":"AQAB","q":"AQAB","dp":"AQAB","dq":"AQAB","qi":"AQAB"}"#;

#[test]
fn a_key_without_a_member_of_its_private_part_is_incomplete() {
    let public = key(RSA_PUBLIC_ONLY);
    assert!(public.holds_text("n"));
    assert!(public.holds_text("e"));
    assert!(!public.holds_text("d"));
    assert!(!public.holds_text("qi"));
    for alg in [Alg::RS256, Alg::RS384, Alg::RS512, Alg::PS256, Alg::PS384, Alg::PS512] {
        assert_eq!(check_key(alg, &public), Verdict::Incomplete);
    }
    assert_eq!(check_key(Alg::ES256, &public), Verdict::Mismatch);
    assert_eq!(check_key(Alg::ES256, &key(EC_P256_WITHOUT_D)), Verdict::Incomplete);
    assert_eq!(check_key(Alg::ES384, &key(EC_P256_WITHOUT_D)), Verdict::Mismatch);
    assert_eq!(check_key(Alg::RS256, &key(r#"{"kty":"RSA"}"#)), Verdict::Incomplete);

    for name in ["n", "e", "d", "p", "q", "dp", "dq", "qi"] {
        let mut members: serde_json::Map<String, serde_json::Value> =
            serde_json::from_str(RSA).expect("JSON");
        members.remove(name);
        let text = serde_json::Value::Object(members).to_string();
        assert_eq!(check_key(Alg::RS256, &key(&text)), Verdict::Incomplete);
        assert_eq!(selection(Alg::PS256, &text), Err(Error::MalformedKey));
    }
}

#[test]
fn a_whole_key_holds_what_its_type_requires() {
    let rsa = key(RSA);
    for name in ["kty", "kid", "n", "e", "d", "p", "q", "dp", "dq", "qi"] {
        assert!(rsa.holds_text(name));
    }
    for name in ["crv", "x", "y", "alg", "use", ""] {
        assert!(!rsa.holds_text(name));
    }
    assert!(key(EC_P256).holds_text("d"));
    assert!(key(ED25519).holds_text("d"));
}

#[test]
fn key_material_that_josekit_refuses_is_a_malformed_key() {
    assert_eq!(check_key(Alg::RS256, &key(RSA_TOO_SHORT)), Verdict::Compatible);
    assert_eq!(selection(Alg::RS256, RSA_TOO_SHORT), Err(Error::MalformedKey));
    assert_eq!(selection(Alg::PS512, RSA_TOO_SHORT), Err(Error::MalformedKey));
}

#[test]
fn a_key_that_says_what_it_is_for_is_held_to_it() {
    let for_encryption = r#"{"kty":"OKP","crv":"Ed25519","use":"enc","d":"_mwzx8PQTpWSshckKD2u-3Pp-SWTB2fBDs5vCJkf7Gc","x":"FwDfp6XwCMtN-c1AcCa89jsPESCugUboBJM6agxPmrk"}"#;
    assert_eq!(selection(Alg::EDDSA, for_encryption), Err(Error::MalformedKey));
    let for_signing = r#"{"kty":"OKP","crv":"Ed25519","use":"sig","alg":"EdDSA","d":"_mwzx8PQTpWSshckKD2u-3Pp-SWTB2fBDs5vCJkf7Gc","x":"FwDfp6XwCMtN-c1AcCa89jsPESCugUboBJM6agxPmrk"}"#;
    assert_eq!(selection(Alg::EDDSA, for_signing), Ok(Alg::EDDSA));
}

#[test]
fn a_key_without_its_private_part_is_malformed() {
    assert_eq!(selection(Alg::RS256, RSA_PUBLIC_ONLY), Err(Error::MalformedKey));
    assert_eq!(selection(Alg::PS256, RSA_PUBLIC_ONLY), Err(Error::MalformedKey));
    assert_eq!(selection(Alg::ES256, EC_P256_WITHOUT_D), Err(Error::MalformedKey));
    assert_eq!(
        selection(Alg::EDDSA, r#"{"kty":"OKP","crv":"Ed25519","x":"FwDfp6XwCMtN-c1AcCa89jsPESCugUboBJM6agxPmrk"}"#),
        Err(Error::MalformedKey)
    );
    assert_eq!(selection(Alg::RS256, r#"{"kty":"RSA"}"#), Err(Error::MalformedKey));
}
