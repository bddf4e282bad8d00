//! The authentication signer.
//!
//! The exchange expects, for a request to `path` with form body `body` and
//! millisecond nonce `n`, the header value
//! `BASE64( HMAC_SHA512( decoded_secret, path || SHA256( ascii(n) || body ) ) )`,
//! where the configured secret is base64 text that decodes to the HMAC key.
//! The hash, the keyed hash and the base64 coding are done by outside
//! crates; their results are named below and the composition is verified.

use vstd::prelude::*;
use vstd::string::*;
use base64::Engine;
use hmac::Mac;
use sha2::Digest;
use crate::strutil::{dec_digits, u128_to_dec_chars};

verus! {

/// The SHA-256 digest of a byte string.
pub uninterp spec fn sha256_of(m: Seq<u8>) -> Seq<u8>;

/// The HMAC-SHA-512 tag over a byte string under a key.
pub uninterp spec fn hmac_sha512_of(key: Seq<u8>, m: Seq<u8>) -> Seq<u8>;

/// The standard base64 text of a byte string.
pub uninterp spec fn base64_encode_of(m: Seq<u8>) -> Seq<char>;

/// The bytes a standard base64 text decodes to, or `None` when it is not
/// valid base64.
pub uninterp spec fn base64_decode_of(s: Seq<char>) -> Option<Seq<u8>>;

/// Relies on sha2's `Sha256`: the digest depends on the input alone and is
/// 32 bytes long.
#[verifier::external_body]
fn sha256(m: &Vec<u8>) -> (r: Vec<u8>)
    ensures
        r@ == sha256_of(m@),
        r@.len() == 32,
{
    let mut h = sha2::Sha256::new();
    h.update(m.as_slice());
    h.finalize().to_vec()
}

/// Relies on hmac's `Hmac<Sha512>`: the tag depends on the key and the
/// input alone and is 64 bytes long; a key of any length is accepted.
#[verifier::external_body]
fn hmac_sha512(key: &Vec<u8>, m: &Vec<u8>) -> (r: Vec<u8>)
    ensures
        r@ == hmac_sha512_of(key@, m@),
        r@.len() == 64,
{
    let mut mac = <hmac::Hmac<sha2::Sha512> as hmac::Mac>::new_from_slice(key.as_slice())
        .expect("any key length is accepted");
    mac.update(m.as_slice());
    mac.finalize().into_bytes().to_vec()
}

/// Relies on base64's standard engine: the text depends on the bytes alone.
#[verifier::external_body]
fn base64_encode(m: &Vec<u8>) -> (r: String)
    ensures
        r@ == base64_encode_of(m@),
{
    base64::prelude::BASE64_STANDARD.encode(m.as_slice())
}

/// Relies on base64's standard engine: decoding depends on the text alone,
/// and fails exactly on text that is not standard base64.
#[verifier::external_body]
fn base64_decode(s: &str) -> (r: Option<Vec<u8>>)
    ensures
        match r {
            Some(b) => base64_decode_of(s@) == Some(b@),
            None => base64_decode_of(s@) is None,
        },
{
    match base64::prelude::BASE64_STANDARD.decode(s.as_bytes()) {
        Ok(b) => Some(b),
        Err(_) => None,
    }
}

/// The bytes of a text of ASCII characters, one byte per character.
pub open spec fn ascii_bytes(s: Seq<char>) -> Seq<u8> {
    Seq::new(s.len(), |i: int| (s[i] as u32) as u8)
}

/// What the signer produces: the exchange's recipe over the named outside
/// results, for a given path, nonce text, body and decoded secret key.
pub open spec fn spec_signature(
    path: Seq<u8>,
    nonce_text: Seq<char>,
    body: Seq<u8>,
    key: Seq<u8>,
) -> Seq<char> {
    base64_encode_of(hmac_sha512_of(key, path + sha256_of(ascii_bytes(nonce_text) + body)))
}

/// A bad secret is the one configuration the signer rejects.
#[derive(Clone, Copy, Debug, PartialEq, Eq, Structural)]
pub enum SignError {
    InvalidSecret,
}

/// Appends the bytes of `src` to `dst`.
fn append_bytes(dst: &mut Vec<u8>, src: &[u8])
    ensures
        final(dst)@ == old(dst)@ + src@,
{
    let mut i: usize = 0;
    while i < src.len()
        invariant
            i <= src@.len(),
            dst@ == old(dst)@ + src@.subrange(0, i as int),
        decreases src@.len() - i,
    {
        dst.push(src[i]);
        i += 1;
        assert(dst@ =~= old(dst)@ + src@.subrange(0, i as int));
    }
    assert(src@.subrange(0, src@.len() as int) =~= src@);
}

/// The decimal text of the nonce, as bytes.
fn nonce_bytes(nonce: u64) -> (r: Vec<u8>)
    ensures
        r@ == ascii_bytes(dec_digits(nonce as nat)),
{
    let chars = u128_to_dec_chars(nonce as u128);
    let mut out: Vec<u8> = Vec::new();
    let mut i: usize = 0;
    proof {
        lemma_dec_digits_ascii(nonce as nat);
    }
    while i < chars.len()
        invariant
            i <= chars@.len(),
            chars@ == dec_digits(nonce as nat),
            forall|k: int| 0 <= k < chars@.len() ==> (#[trigger] chars@[k]) as u32 <= 127,
            out@ =~= ascii_bytes(chars@).subrange(0, i as int),
        decreases chars@.len() - i,
    {
        let c = chars[i];
        out.push((c as u32) as u8);
        i += 1;
        assert(out@ =~= ascii_bytes(chars@).subrange(0, i as int));
    }
    assert(ascii_bytes(chars@).subrange(0, chars@.len() as int) =~= ascii_bytes(chars@));
    out
}

/// Decimal digit characters are ASCII.
proof fn lemma_dec_digits_ascii(n: nat)
    ensures
        forall|k: int|
            0 <= k < dec_digits(n).len() ==> (#[trigger] dec_digits(n)[k]) as u32 <= 127,
    decreases n,
{
    if n < 10 {
    } else {
        lemma_dec_digits_ascii(n / 10);
        let s = dec_digits(n);
        let p = dec_digits(n / 10);
        assert forall|k: int| 0 <= k < s.len() implies (#[trigger] s[k]) as u32 <= 127 by {
            if k < p.len() {
                assert(s[k] == p[k]);
                assert(p[k] as u32 <= 127);
            }
        }
    }
}

/// Builds the exchange's request signature, exactly as [`spec_signature`]
/// says: `Ok` for every secret that is valid base64, and
/// `Err(InvalidSecret)` exactly when the secret does not decode.
pub fn generate_kraken_signature(api_path: &str, nonce: u64, post_data: &str, api_secret: &str) -> (r:
    Result<String, SignError>)
    ensures
        match r {
            Ok(sig) => base64_decode_of(api_secret@) is Some && sig@ == spec_signature(
                api_path.spec_bytes(),
                dec_digits(nonce as nat),
                post_data.spec_bytes(),
                base64_decode_of(api_secret@)->0,
            ),
            Err(e) => e == SignError::InvalidSecret && base64_decode_of(api_secret@) is None,
        },
{
    let key = match base64_decode(api_secret) {
        Some(k) => k,
        None => {
            return Err(SignError::InvalidSecret);
        },
    };
    let mut inner: Vec<u8> = Vec::new();
    let nb = nonce_bytes(nonce);
    append_bytes(&mut inner, nb.as_slice());
    append_bytes(&mut inner, post_data.as_bytes());
    let digest = sha256(&inner);
    let mut outer: Vec<u8> = Vec::new();
    append_bytes(&mut outer, api_path.as_bytes());
    append_bytes(&mut outer, digest.as_slice());
    let tag = hmac_sha512(&key, &outer);
    let sig = base64_encode(&tag);
    proof {
        assert(inner@ == ascii_bytes(dec_digits(nonce as nat)) + post_data.spec_bytes());
        assert(outer@ == api_path.spec_bytes() + sha256_of(inner@));
    }
    Ok(sig)
}

/// The signer is deterministic: the specified signature is a function of
/// the path, the nonce text, the body and the key alone, so two results
/// over equal inputs are equal.
pub proof fn lemma_signer_deterministic(
    path1: Seq<u8>,
    nonce1: Seq<char>,
    body1: Seq<u8>,
    key1: Seq<u8>,
    path2: Seq<u8>,
    nonce2: Seq<char>,
    body2: Seq<u8>,
    key2: Seq<u8>,
)
    requires
        path1 == path2,
        nonce1 == nonce2,
        body1 == body2,
        key1 == key2,
    ensures
        spec_signature(path1, nonce1, body1, key1) == spec_signature(path2, nonce2, body2, key2),
{
}

} // verus!
