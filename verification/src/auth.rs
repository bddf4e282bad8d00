//! The token client's decisions.
//!
//! Authenticating is one HTTP POST; everything around it is computed here.
//! [`build_auth_request`] assembles the path, the form body and the
//! signature header for a given endpoint, nonce and secret; the caller
//! performs the POST and hands the reply text to [`token_from_message`],
//! which accepts exactly a token reply and rejects everything else.

use vstd::prelude::*;
use vstd::string::*;
use vstd::utf8::encode_utf8;
use crate::signer::{spec_signature, base64_decode_of, generate_kraken_signature, SignError};
use crate::strutil::{dec_digits, u128_to_dec_chars, chars_to_string};
use crate::classifier::{parse_message, spec_parse_message, Response, ResponseV, ParseError, TokenResponse};

verus! {

/// The path component of a URL text, or `None` when the text is no URL.
pub uninterp spec fn url_path_of(s: Seq<char>) -> Option<Seq<char>>;

/// Relies on url's `Url::parse` and `Url::path`: parsing accepts or rejects
/// on the text alone, and the path is a function of the URL.
#[verifier::external_body]
fn url_path(endpoint: &str) -> (r: Option<String>)
    ensures
        match r {
            Some(p) => url_path_of(endpoint@) == Some(p@),
            None => url_path_of(endpoint@) is None,
        },
{
    match url::Url::parse(endpoint) {
        Ok(u) => Some(u.path().to_string()),
        Err(_) => None,
    }
}

/// The form body of a token request for this nonce.
pub open spec fn spec_post_body(nonce: u64) -> Seq<char> {
    "nonce="@ + dec_digits(nonce as nat)
}

/// Builds `nonce=<nonce>`, the exact form body the endpoint expects.
pub fn build_post_body(nonce: u64) -> (r: String)
    ensures
        r@ == spec_post_body(nonce),
{
    let digits = u128_to_dec_chars(nonce as u128);
    let tail = chars_to_string(&digits);
    let mut out = String::new();
    out.append("nonce=");
    out.append(tail.as_str());
    out
}

/// Everything the HTTP layer needs for one token request.
#[derive(Clone, Debug, PartialEq, Eq)]
pub struct AuthRequest {
    pub path: String,
    pub body: String,
    pub signature: String,
}

/// Why a token request could not be assembled.
#[derive(Clone, Copy, Debug, PartialEq, Eq, Structural)]
pub enum AuthBuildError {
    /// The endpoint text is not a URL.
    BadEndpoint,
    /// The configured secret is not valid base64.
    InvalidSecret,
}

/// Why an authentication reply was rejected.
#[derive(Clone, Copy, Debug, PartialEq, Eq, Structural)]
pub enum AuthError {
    /// The reply text did not classify at all.
    Parse(ParseError),
    /// The reply classified, but not as a token reply.
    UnexpectedResponse,
}

/// The REST side of the exchange: everything around the one token POST.
pub struct KrakenRestHandler;

impl KrakenRestHandler {
    /// Assembles a token request: the URL's path, the body `nonce=<nonce>`,
    /// and the signature of the exchange's recipe over them. `Ok` for every
    /// endpoint that parses and secret that decodes; each error names
    /// exactly the input that failed.
    pub fn build_auth_request(endpoint: &str, nonce: u64, api_secret: &str) -> (r: Result<
        AuthRequest,
        AuthBuildError,
    >)
    ensures
        match r {
            Ok(a) => url_path_of(endpoint@) is Some && base64_decode_of(api_secret@) is Some
                && a.path@ == url_path_of(endpoint@)->0 && a.body@ == spec_post_body(nonce)
                && a.signature@ == spec_signature(
                encode_utf8(url_path_of(endpoint@)->0),
                dec_digits(nonce as nat),
                encode_utf8(spec_post_body(nonce)),
                base64_decode_of(api_secret@)->0,
            ),
            Err(AuthBuildError::BadEndpoint) => url_path_of(endpoint@) is None,
            Err(AuthBuildError::InvalidSecret) => url_path_of(endpoint@) is Some
                && base64_decode_of(api_secret@) is None,
        },
    {
        let path = match url_path(endpoint) {
            Some(p) => p,
            None => {
                return Err(AuthBuildError::BadEndpoint);
            },
        };
        let body = build_post_body(nonce);
        let signature = match generate_kraken_signature(
            path.as_str(),
            nonce,
            body.as_str(),
            api_secret,
        ) {
            Ok(s) => s,
            Err(SignError::InvalidSecret) => {
                return Err(AuthBuildError::InvalidSecret);
            },
        };
        Ok(AuthRequest { path, body, signature })
    }

    /// Reads the authentication reply: `Ok` exactly when the text
    /// classifies as a token reply; any other classification, and any
    /// unclassifiable text, is the matching error.
    pub fn token_from_message(body: &str) -> (r: Result<TokenResponse, AuthError>)
    ensures
        match r {
            Ok(t) => spec_parse_message(body@) == Ok::<ResponseV, ParseError>(
                ResponseV::TokenResponse(t@),
            ),
            Err(AuthError::Parse(e)) => spec_parse_message(body@) == Err::<ResponseV, ParseError>(
                e,
            ),
            Err(AuthError::UnexpectedResponse) => spec_parse_message(body@) is Ok && !(
            spec_parse_message(body@)->Ok_0 is TokenResponse),
        },
    {
        match parse_message(body) {
            Ok(resp) => match resp {
                Response::TokenResponse(t) => Ok(t),
                _ => Err(AuthError::UnexpectedResponse),
            },
            Err(e) => Err(AuthError::Parse(e)),
        }
    }
}

} // verus!
