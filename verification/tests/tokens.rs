//! JSON Web Tokens under a session key.
use opaque_framework::base64::b64url_decode;
use opaque_framework::jwt::{audience, JwtError, JwtHeader};
use opaque_framework::server::SessionKey;

const CLAIMS: &str = r#"{"sub":"user@example.com","exp":4102444800,"aud":"access"}"#;

fn key() -> SessionKey {
    SessionKey(std::array::from_fn(|i| i as u8))
}

fn header(algorithm: &str) -> JwtHeader {
    JwtHeader::new(algorithm)
}

fn verified(claims: &str) -> Result<Vec<u8>, JwtError> {
    key().verify_jwt(&key().mint_jwt(&header("HS256"), claims).unwrap())
}

#[test]
fn minted_token() {
    assert_eq!(
        key().mint_jwt(&header("HS256"), CLAIMS).unwrap(),
        "eyJ0eXAiOiJKV1QiLCJhbGciOiJIUzI1NiJ9.\
         eyJzdWIiOiJ1c2VyQGV4YW1wbGUuY29tIiwiZXhwIjo0MTAyNDQ0ODAwLCJhdWQiOiJhY2Nlc3MifQ.\
         bV2nlOfryRvvaxSKhR30N6z5NOxWkB2h-Gj0WPf4mAw"
    );
}

#[test]
fn minted_claims_come_back() {
    assert_eq!(verified(CLAIMS).unwrap(), CLAIMS.as_bytes());
    let spaced = "  { \"exp\": 4102444800, \"aud\": [\"other\", \"access\"] }\n";
    assert_eq!(verified(spaced).unwrap(), spaced.trim().as_bytes());
}

#[test]
fn claims_that_do_not_hold_are_refused() {
    for claims in [
        r#"{"exp":1000000000,"aud":"access"}"#,
        r#"{"aud":"access"}"#,
        r#"{"exp":4102444800,"aud":"refresh"}"#,
        r#"{"exp":4102444800}"#,
        r#"{"exp":4102444800,"aud":["refresh","other"]}"#,
        r#"{"exp":4102444800,"aud":[]}"#,
        r#"{"exp":4102444800,"aud":null}"#,
        r#"{"exp":"4102444800","aud":"access"}"#,
        r#"{"exp":4102444800,"aud":"access","aud":"access"}"#,
        r#"[1,2]"#,
    ] {
        assert!(matches!(verified(claims), Err(JwtError::Verification(_))), "{}", claims);
    }
}

#[test]
fn another_key_refuses_the_token() {
    let token = key().mint_jwt(&header("HS256"), CLAIMS).unwrap();
    let other = SessionKey([1u8; 64]);
    assert!(matches!(other.verify_jwt(&token), Err(JwtError::Verification(_))));
    assert!(matches!(key().verify_jwt("not a token"), Err(JwtError::Verification(_))));
}

#[test]
fn other_algorithms_are_refused() {
    for algorithm in ["HS384", "HS512"] {
        let token = key().mint_jwt(&header(algorithm), CLAIMS).unwrap();
        assert!(matches!(key().verify_jwt(&token), Err(JwtError::Verification(_))));
    }
}

#[test]
fn minting_needs_a_shared_key_algorithm_and_json() {
    for algorithm in ["RS256", "ES256", "EdDSA", "none", "hs256", ""] {
        let token = key().mint_jwt(&header(algorithm), CLAIMS);
        assert!(matches!(token, Err(JwtError::Minting(_))), "{}", algorithm);
    }
    for claims in ["", "{", "{'exp':1}", "{} {}"] {
        let token = key().mint_jwt(&header("HS256"), claims);
        assert!(matches!(token, Err(JwtError::Minting(_))), "{}", claims);
    }
}

fn text(value: &str) -> Option<String> {
    Some(value.to_string())
}

#[test]
fn header_fields_are_kept() {
    let mut header = JwtHeader::new("HS256");
    header.typ = None;
    header.cty = text("json");
    header.jku = text("https://example.com/keys");
    header.kid = text("k1");
    header.x5u = text("https://example.com/chain");
    header.x5c = Some(vec!["AA==".to_string(), "AQ==".to_string()]);
    header.x5t = text("thumb");
    header.x5t_s256 = text("thumb256");
    header.crit = Some(vec!["exp".to_string()]);
    header.enc = text("A128GCM");
    header.zip = text("none");
    header.url = text("https://example.com");
    header.nonce = text("n");
    header.extras.insert("colour".to_string(), "red".to_string());
    let token = key().mint_jwt(&header, CLAIMS).unwrap();
    let read = jsonwebtoken::decode_header(&token).unwrap();
    assert_eq!(read.alg, jsonwebtoken::Algorithm::HS256);
    assert_eq!(read.typ, None);
    assert_eq!(read.cty, header.cty);
    assert_eq!(read.jku, header.jku);
    assert!(read.jwk.is_none());
    assert_eq!(read.kid, header.kid);
    assert_eq!(read.x5u, header.x5u);
    assert_eq!(read.x5c, header.x5c);
    assert_eq!(read.x5t, header.x5t);
    assert_eq!(read.x5t_s256, header.x5t_s256);
    assert_eq!(read.crit, header.crit);
    assert_eq!(serde_json::to_string(&read.enc).unwrap(), "\"A128GCM\"");
    assert_eq!(serde_json::to_string(&read.zip).unwrap(), "\"none\"");
    assert_eq!(read.url, header.url);
    assert_eq!(read.nonce, header.nonce);
    assert_eq!(read.extras, header.extras);
    assert_eq!(key().verify_jwt(&token).unwrap(), CLAIMS.as_bytes());
}

#[test]
fn header_key_is_kept() {
    let jwk: jsonwebtoken::jwk::Jwk = serde_json::from_str(r#"{"kty":"oct","k":"AAEC"}"#).unwrap();
    let mut header = JwtHeader::new("HS256");
    header.jwk = Some(jwk.clone());
    let token = key().mint_jwt(&header, CLAIMS).unwrap();
    assert_eq!(jsonwebtoken::decode_header(&token).unwrap().jwk, Some(jwk));
    assert_eq!(key().verify_jwt(&token).unwrap(), CLAIMS.as_bytes());
}

#[test]
fn extra_field_fills_an_absent_one() {
    let mut header = JwtHeader::new("HS256");
    header.extras.insert("kid".to_string(), "k2".to_string());
    let token = key().mint_jwt(&header, CLAIMS).unwrap();
    assert_eq!(jsonwebtoken::decode_header(&token).unwrap().kid, text("k2"));
}

#[test]
fn header_with_a_repeated_field_is_not_readable() {
    let mut header = JwtHeader::new("HS256");
    header.extras.insert("alg".to_string(), "HS256".to_string());
    let token = key().mint_jwt(&header, CLAIMS).unwrap();
    assert!(jsonwebtoken::decode_header(&token).is_err());
    assert!(matches!(key().verify_jwt(&token), Err(JwtError::Verification(_))));
}

#[test]
fn token_ends_in_the_signature_of_its_message() {
    let token = key().mint_jwt(&header("HS256"), CLAIMS).unwrap();
    let (message, signature) = token.rsplit_once('.').unwrap();
    let secret = jsonwebtoken::EncodingKey::from_secret(&key().0);
    let algorithm = jsonwebtoken::Algorithm::HS256;
    assert_eq!(
        jsonwebtoken::crypto::sign(message.as_bytes(), &secret, algorithm).unwrap(),
        signature
    );
}

#[test]
fn claims_that_are_not_text_come_back() {
    // The bytes within a string that nobody reads need not be text.
    let token = "eyJ0eXAiOiJKV1QiLCJhbGciOiJIUzI1NiJ9.\
         eyJleHAiOjQxMDI0NDQ4MDAsImF1ZCI6ImFjY2VzcyIsIngiOiL_In0.\
         4JQEQEUECSnM-0aM4EuhDwb_G_TB-nLtw6n1_Hggxh0";
    let claims = key().verify_jwt(token).unwrap();
    assert_eq!(claims, b"{\"exp\":4102444800,\"aud\":\"access\",\"x\":\"\xff\"}");
}

#[test]
fn expiry_has_a_minute_of_leeway() {
    let now = jsonwebtoken::get_current_timestamp();
    let claims = |exp: u64| format!("{{\"exp\":{},\"aud\":\"access\"}}", exp);
    assert!(verified(&claims(now + 30)).is_ok());
    assert!(verified(&claims(now - 30)).is_ok());
    assert!(matches!(verified(&claims(now - 90)), Err(JwtError::Verification(_))));
}

#[test]
fn every_length_of_claims_comes_back() {
    for len in 0..9 {
        let filler = "é~?".repeat(len);
        let claims =
            format!("{{\"exp\":4102444800,\"aud\":\"access\",\"x\":\"{}\"}}", filler);
        assert_eq!(verified(&claims).unwrap(), claims.as_bytes());
    }
}

#[test]
fn audience_of_claims() {
    assert_eq!(audience(CLAIMS), Some("access".to_string()));
    assert_eq!(audience(" {\"aud\": \"\\u0061\"} "), Some("a".to_string()));
    assert_eq!(audience("{\"aud\": [\"access\"]}"), None);
    assert_eq!(audience("{\"exp\": 1}"), None);
    assert_eq!(audience("access"), None);
}

#[test]
fn base64_of_all_lengths() {
    let decode = |text: &str| b64url_decode(&text.chars().collect::<Vec<char>>());
    assert_eq!(decode(""), Vec::<u8>::new());
    assert_eq!(decode("_w"), vec![0xff]);
    assert_eq!(decode("--8"), vec![0xfb, 0xef]);
    assert_eq!(decode("AbZ9"), vec![0x01, 0xb6, 0x7d]);
    assert_eq!(decode("AAECAwQ"), vec![0, 1, 2, 3, 4]);
}
