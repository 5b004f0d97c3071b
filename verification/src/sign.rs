//! Request signing.
//!
//! A private call carries three headers: the API key, a millisecond
//! timestamp, and the hex-encoded HMAC-SHA256 of the text
//! `timestamp + method + path + body` under the API secret (for GET the
//! body is empty and query parameters are excluded from the signed text).
//! Hex encoding is defined and verified here; the digest itself is the
//! hmac/sha2 crates' work behind one trusted wrapper.

use vstd::prelude::*;
use crate::textnum::spec_dec;
use crate::textnum::push_dec;
use hmac::Mac;

verus! {

/// The HTTP methods the venue's private interface uses.
#[derive(Debug, Clone, Copy, PartialEq, Eq, Structural)]
pub enum HttpMethod {
    Get,
    Post,
    Put,
    Delete,
}

impl HttpMethod {
    /// The method's upper-case ASCII name.
    pub open spec fn spec_bytes(self) -> Seq<u8> {
        match self {
            HttpMethod::Get => seq![0x47u8, 0x45u8, 0x54u8],
            HttpMethod::Post => seq![0x50u8, 0x4fu8, 0x53u8, 0x54u8],
            HttpMethod::Put => seq![0x50u8, 0x55u8, 0x54u8],
            HttpMethod::Delete => seq![0x44u8, 0x45u8, 0x4cu8, 0x45u8, 0x54u8, 0x45u8],
        }
    }

    pub fn as_bytes(&self) -> (r: Vec<u8>)
        ensures
            r@ == self.spec_bytes(),
    {
        match self {
            HttpMethod::Get => vec![0x47u8, 0x45u8, 0x54u8],
            HttpMethod::Post => vec![0x50u8, 0x4fu8, 0x53u8, 0x54u8],
            HttpMethod::Put => vec![0x50u8, 0x55u8, 0x54u8],
            HttpMethod::Delete => vec![0x44u8, 0x45u8, 0x4cu8, 0x45u8, 0x54u8, 0x45u8],
        }
    }
}

/// The lower-case ASCII hex digit of a nibble.
pub open spec fn spec_hex_digit(n: u8) -> u8
    recommends
        n < 16,
{
    if n < 10 {
        (0x30 + n) as u8
    } else {
        (0x57 + n) as u8
    }
}

/// Lower-case hex encoding: two digits for each byte, in order.
pub open spec fn spec_hex(b: Seq<u8>) -> Seq<u8>
    decreases b.len(),
{
    if b.len() == 0 {
        Seq::empty()
    } else {
        spec_hex(b.drop_last()).push(spec_hex_digit(b.last() / 16)).push(
            spec_hex_digit(b.last() % 16),
        )
    }
}

/// Encode bytes as lower-case ASCII hex.
pub fn hex_encode(b: &[u8]) -> (r: Vec<u8>)
    ensures
        r@ == spec_hex(b@),
        r@.len() == 2 * b@.len(),
{
    let mut out: Vec<u8> = Vec::new();
    let mut i: usize = 0;
    while i < b.len()
        invariant
            0 <= i <= b@.len(),
            out@ == spec_hex(b@.take(i as int)),
            out@.len() == 2 * i,
        decreases b@.len() - i,
    {
        let byte = b[i];
        let hi: u8 = byte / 16;
        let lo: u8 = byte % 16;
        out.push(if hi < 10 {
            0x30 + hi
        } else {
            0x57 + hi
        });
        out.push(if lo < 10 {
            0x30 + lo
        } else {
            0x57 + lo
        });
        proof {
            let t = b@.take(i + 1);
            assert(t.drop_last() == b@.take(i as int));
            assert(t.last() == b@[i as int]);
        }
        i = i + 1;
    }
    proof {
        assert(b@.take(i as int) == b@);
    }
    out
}

/// What HMAC-SHA256 returns: a function of the key and message alone.
/// Its value is not axiomatized here; it is the hmac crate's computation.
pub uninterp spec fn hmac_sha256_of(key: Seq<u8>, msg: Seq<u8>) -> Seq<u8>;

/// Relies on `hmac::Hmac<sha2::Sha256>` (`Mac::new_from_slice`, `update`,
/// `finalize`): the digest is a function of key and message alone and is
/// 32 bytes long; `new_from_slice` accepts a key of any length.
#[verifier::external_body]
fn hmac_sha256(key: &[u8], msg: &[u8]) -> (r: Vec<u8>)
    ensures
        r@ == hmac_sha256_of(key@, msg@),
        r@.len() == 32,
{
    let mut mac = <hmac::Hmac<sha2::Sha256>>::new_from_slice(key)
        .expect("HMAC accepts a key of any length");
    mac.update(msg);
    mac.finalize().into_bytes().to_vec()
}

/// The hex form of the HMAC-SHA256 of `msg` under `key`: the primitive
/// the signature header is built from.
pub fn hmac_sha256_hex(key: &[u8], msg: &[u8]) -> (r: Vec<u8>)
    ensures
        r@ == spec_hex(hmac_sha256_of(key@, msg@)),
        r@.len() == 64,
{
    let digest = hmac_sha256(key, msg);
    hex_encode(digest.as_slice())
}

/// The text a private call signs: `timestamp + method + path + body`
/// (query parameters never appear in it; for GET the body is empty).
pub open spec fn spec_sign_text(
    timestamp_ms: nat,
    method: HttpMethod,
    path: Seq<u8>,
    body: Seq<u8>,
) -> Seq<u8> {
    spec_dec(timestamp_ms) + method.spec_bytes() + path + body
}

/// Build the text a private call signs.
pub fn sign_text(timestamp_ms: u64, method: &HttpMethod, path: &[u8], body: &[u8]) -> (r: Vec<
    u8,
>)
    ensures
        r@ == spec_sign_text(timestamp_ms as nat, *method, path@, body@),
{
    let mut out: Vec<u8> = Vec::new();
    push_dec(timestamp_ms, &mut out);
    let mut m = method.as_bytes();
    out.append(&mut m);
    let mut i: usize = 0;
    while i < path.len()
        invariant
            0 <= i <= path@.len(),
            out@ == spec_dec(timestamp_ms as nat) + method.spec_bytes() + path@.take(i as int),
        decreases path@.len() - i,
    {
        out.push(path[i]);
        proof {
            assert(path@.take(i + 1) == path@.take(i as int).push(path@[i as int]));
        }
        i = i + 1;
    }
    proof {
        assert(path@.take(i as int) == path@);
    }
    let mut j: usize = 0;
    while j < body.len()
        invariant
            0 <= j <= body@.len(),
            out@ == spec_dec(timestamp_ms as nat) + method.spec_bytes() + path@ + body@.take(
                j as int,
            ),
        decreases body@.len() - j,
    {
        out.push(body[j]);
        proof {
            assert(body@.take(j + 1) == body@.take(j as int).push(body@[j as int]));
        }
        j = j + 1;
    }
    proof {
        assert(body@.take(j as int) == body@);
    }
    out
}

/// The signature header's value: the hex of the HMAC-SHA256 of the signed
/// text under the API secret.
pub open spec fn spec_signature(
    secret: Seq<u8>,
    timestamp_ms: nat,
    method: HttpMethod,
    path: Seq<u8>,
    body: Seq<u8>,
) -> Seq<u8> {
    spec_hex(hmac_sha256_of(secret, spec_sign_text(timestamp_ms, method, path, body)))
}

/// Sign one private call: 64 lower-case hex digits.
pub fn generate_signature(
    secret: &[u8],
    timestamp_ms: u64,
    method: &HttpMethod,
    path: &[u8],
    body: &[u8],
) -> (r: Vec<u8>)
    ensures
        r@ == spec_signature(secret@, timestamp_ms as nat, *method, path@, body@),
        r@.len() == 64,
{
    let text = sign_text(timestamp_ms, method, path, body);
    hmac_sha256_hex(secret, text.as_slice())
}

/// Law: the signature is a function of secret, timestamp, method, path and
/// body alone — two signatures of the same inputs are one value, in every
/// process and on every machine.
pub proof fn lemma_signature_deterministic(
    r1: Seq<u8>,
    r2: Seq<u8>,
    secret: Seq<u8>,
    timestamp_ms: nat,
    method: HttpMethod,
    path: Seq<u8>,
    body: Seq<u8>,
)
    requires
        r1 == spec_signature(secret, timestamp_ms, method, path, body),
        r2 == spec_signature(secret, timestamp_ms, method, path, body),
    ensures
        r1 == r2,
{
}

} // verus!
