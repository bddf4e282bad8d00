use base64::Engine;
use data_engine::auth::{build_post_body, AuthBuildError, AuthError, KrakenRestHandler};
use data_engine::classifier::ParseError;
use data_engine::signer::{generate_kraken_signature, SignError};
use hmac::Mac;
use sha2::Digest;

const SECRET: &str = "c2VjcmV0c2VjcmV0c2VjcmV0c2VjcmV0";
const PATH: &str = "/0/private/GetWebSocketsToken";
const NONCE: u64 = 1700000000000;

/// The same recipe computed directly with the outside crates.
fn independent_signature(path: &str, nonce: u64, body: &str, secret: &str) -> String {
    let mut sha = sha2::Sha256::new();
    sha.update(nonce.to_string() + body);
    let digest = sha.finalize();
    let key = base64::prelude::BASE64_STANDARD.decode(secret).unwrap();
    let mut mac = <hmac::Hmac<sha2::Sha512> as hmac::Mac>::new_from_slice(&key).unwrap();
    mac.update(path.as_bytes());
    mac.update(&digest);
    base64::prelude::BASE64_STANDARD.encode(mac.finalize().into_bytes())
}

#[test]
fn signature_matches_independent_fixture() {
    let body = format!("nonce={}", NONCE);
    let expected = independent_signature(PATH, NONCE, &body, SECRET);
    let got = generate_kraken_signature(PATH, NONCE, &body, SECRET).unwrap();
    assert_eq!(got, expected);
}

#[test]
fn signature_is_deterministic() {
    let body = format!("nonce={}", NONCE);
    let a = generate_kraken_signature(PATH, NONCE, &body, SECRET).unwrap();
    let b = generate_kraken_signature(PATH, NONCE, &body, SECRET).unwrap();
    assert_eq!(a, b);
}

#[test]
fn signature_changes_with_the_nonce() {
    let a = generate_kraken_signature(PATH, NONCE, "nonce=1700000000000", SECRET).unwrap();
    let b = generate_kraken_signature(PATH, NONCE + 1, "nonce=1700000000001", SECRET).unwrap();
    assert_ne!(a, b);
}

#[test]
fn malformed_secret_is_fatal() {
    let r = generate_kraken_signature(PATH, NONCE, "nonce=1", "!!! not base64 !!!");
    assert_eq!(r.unwrap_err(), SignError::InvalidSecret);
}

#[test]
fn post_body_is_nonce_equals() {
    assert_eq!(build_post_body(NONCE), "nonce=1700000000000");
    assert_eq!(build_post_body(0), "nonce=0");
}

#[test]
fn auth_request_carries_path_body_and_signature() {
    let endpoint = "https://api.example.test/0/private/GetWebSocketsToken";
    let a = KrakenRestHandler::build_auth_request(endpoint, NONCE, SECRET).unwrap();
    assert_eq!(a.path, PATH);
    assert_eq!(a.body, "nonce=1700000000000");
    let expected = independent_signature(PATH, NONCE, &a.body, SECRET);
    assert_eq!(a.signature, expected);
}

#[test]
fn auth_request_rejects_bad_inputs() {
    assert_eq!(
        KrakenRestHandler::build_auth_request("not a url", NONCE, SECRET).unwrap_err(),
        AuthBuildError::BadEndpoint
    );
    assert_eq!(
        KrakenRestHandler::build_auth_request("https://api.example.test/x", NONCE, "%%%").unwrap_err(),
        AuthBuildError::InvalidSecret
    );
}

#[test]
fn token_reply_is_accepted() {
    let t = KrakenRestHandler::token_from_message("{\"result\":{\"token\":\"T\",\"expires\":900},\"error\":[]}")
        .unwrap();
    assert_eq!(t.get_token(), "T");
    assert_eq!(t.result.expires, 900);
}

#[test]
fn non_token_reply_is_rejected() {
    assert_eq!(
        KrakenRestHandler::token_from_message("{\"channel\":\"heartbeat\"}").unwrap_err(),
        AuthError::UnexpectedResponse
    );
    assert_eq!(
        KrakenRestHandler::token_from_message("garbage").unwrap_err(),
        AuthError::Parse(ParseError::InvalidJson)
    );
    assert_eq!(
        KrakenRestHandler::token_from_message("{\"x\":1}").unwrap_err(),
        AuthError::Parse(ParseError::UnrecognizedShape)
    );
}
