//! The signed REST client's verified core.
//!
//! The unverified boundary owns the HTTP transport; this core holds the
//! credentials, the two token buckets (one per traffic class: GET, and
//! POST/PUT/DELETE), and builds each private call's URL, headers and
//! signature exactly. Every private call is admitted through its traffic
//! class's bucket before it is sent, so a burst on one class cannot
//! starve the other.

use vstd::prelude::*;
use vstd::string::StringSliceAdditionalSpecFns;
use crate::rate_limit::Admission;
use crate::rate_limit::TokenBucket;
use crate::rate_limit::TOKEN_MT;
use crate::sign::HttpMethod;
use crate::sign::generate_signature;
use crate::sign::spec_signature;

verus! {

/// Append `b` to `out`.
fn push_all(out: &mut Vec<u8>, b: &[u8])
    ensures
        final(out)@ == old(out)@ + b@,
{
    let mut i: usize = 0;
    while i < b.len()
        invariant
            0 <= i <= b@.len(),
            out@ == old(out)@ + b@.take(i as int),
        decreases b@.len() - i,
    {
        out.push(b[i]);
        proof {
            assert(b@.take(i + 1) == b@.take(i as int).push(b@[i as int]));
        }
        i = i + 1;
    }
    proof {
        assert(b@.take(i as int) == b@);
    }
}

/// The credentials and base URLs of one venue account.
#[derive(Debug)]
pub struct RestConfig {
    pub api_key: Vec<u8>,
    pub api_secret: Vec<u8>,
    pub base_url_public: Vec<u8>,
    pub base_url_private: Vec<u8>,
}

impl RestConfig {
    /// A configuration for the venue's production endpoints.
    pub fn new(api_key: Vec<u8>, api_secret: Vec<u8>) -> (r: RestConfig)
        ensures
            r.api_key@ == api_key@,
            r.api_secret@ == api_secret@,
            r.base_url_public@ == "https://api.coin.z.com/public".spec_bytes(),
            r.base_url_private@ == "https://api.coin.z.com/private".spec_bytes(),
    {
        RestConfig {
            api_key,
            api_secret,
            base_url_public: "https://api.coin.z.com/public".as_bytes_vec(),
            base_url_private: "https://api.coin.z.com/private".as_bytes_vec(),
        }
    }
}

/// One private call, ready to send: the URL without query parameters, the
/// three header values, and the body. The signature covers
/// `timestamp + method + path + body` — query parameters never enter it.
#[derive(Debug)]
pub struct SignedRequest {
    pub method: HttpMethod,
    pub url: Vec<u8>,
    pub api_key: Vec<u8>,
    pub timestamp_ms: u64,
    pub signature: Vec<u8>,
    pub body: Vec<u8>,
}

/// The verified core of the signed client: configuration plus one token
/// bucket per traffic class.
#[derive(Debug)]
pub struct RestCore {
    pub config: RestConfig,
    pub limit_get: TokenBucket,
    pub limit_post: TokenBucket,
}

impl RestCore {
    pub open spec fn wf(self) -> bool {
        &&& self.limit_get.wf()
        &&& self.limit_post.wf()
    }

    /// A core whose two buckets start full, each with `rate_mt_per_s`
    /// millitokens of capacity and per-second refill — the venue's
    /// request budget per traffic class.
    pub fn new(config: RestConfig, rate_mt_per_s: u64, now_ms: u64) -> (r: RestCore)
        requires
            TOKEN_MT <= rate_mt_per_s,
        ensures
            r.wf(),
            r.config == config,
            r.limit_get.spec_capacity_mt() == rate_mt_per_s,
            r.limit_get.spec_rate_mt_per_s() == rate_mt_per_s,
            r.limit_get.spec_tokens_mt() == rate_mt_per_s,
            r.limit_get.spec_last_ms() == now_ms,
            r.limit_post.spec_capacity_mt() == rate_mt_per_s,
            r.limit_post.spec_rate_mt_per_s() == rate_mt_per_s,
            r.limit_post.spec_tokens_mt() == rate_mt_per_s,
            r.limit_post.spec_last_ms() == now_ms,
    {
        RestCore {
            config,
            limit_get: TokenBucket::new(rate_mt_per_s, rate_mt_per_s, now_ms),
            limit_post: TokenBucket::new(rate_mt_per_s, rate_mt_per_s, now_ms),
        }
    }

    /// Admit one GET through its traffic class, or say how long to wait.
    pub fn acquire_get(&mut self, now_ms: u64) -> (r: Admission)
        requires
            old(self).wf(),
        ensures
            final(self).wf(),
            final(self).config == old(self).config,
            final(self).limit_post == old(self).limit_post,
            old(self).limit_get.spec_grantable(now_ms) ==> r == Admission::Granted
                && final(self).limit_get == old(self).limit_get.spec_after_grant(now_ms),
            !old(self).limit_get.spec_grantable(now_ms) ==> r == Admission::Wait(
                old(self).limit_get.spec_wait_ms(now_ms) as u64,
            ) && final(self).limit_get == old(self).limit_get.spec_after_refusal(now_ms),
    {
        self.limit_get.try_acquire(now_ms)
    }

    /// Admit one POST, PUT or DELETE through its traffic class.
    pub fn acquire_post(&mut self, now_ms: u64) -> (r: Admission)
        requires
            old(self).wf(),
        ensures
            final(self).wf(),
            final(self).config == old(self).config,
            final(self).limit_get == old(self).limit_get,
            old(self).limit_post.spec_grantable(now_ms) ==> r == Admission::Granted
                && final(self).limit_post == old(self).limit_post.spec_after_grant(now_ms),
            !old(self).limit_post.spec_grantable(now_ms) ==> r == Admission::Wait(
                old(self).limit_post.spec_wait_ms(now_ms) as u64,
            ) && final(self).limit_post == old(self).limit_post.spec_after_refusal(now_ms),
    {
        self.limit_post.try_acquire(now_ms)
    }

    /// The URL of a public call: the public base and the path.
    pub fn public_url(&self, path: &[u8]) -> (r: Vec<u8>)
        ensures
            r@ == self.config.base_url_public@ + path@,
    {
        let mut url: Vec<u8> = Vec::new();
        push_all(&mut url, self.config.base_url_public.as_slice());
        push_all(&mut url, path);
        url
    }

    /// Build one private call at the given timestamp: the URL is the
    /// private base and the path; the signature is the hex HMAC-SHA256 of
    /// `timestamp + method + path + body` under the secret; key,
    /// timestamp and body ride along unchanged. For GET the body is
    /// empty, and query parameters belong to the transport, never to the
    /// signed text.
    pub fn build_private(
        &self,
        method: HttpMethod,
        path: &[u8],
        body: &[u8],
        timestamp_ms: u64,
    ) -> (r: SignedRequest)
        ensures
            r.method == method,
            r.url@ == self.config.base_url_private@ + path@,
            r.api_key@ == self.config.api_key@,
            r.timestamp_ms == timestamp_ms,
            r.signature@ == spec_signature(
                self.config.api_secret@,
                timestamp_ms as nat,
                method,
                path@,
                body@,
            ),
            r.body@ == body@,
    {
        let mut url: Vec<u8> = Vec::new();
        push_all(&mut url, self.config.base_url_private.as_slice());
        push_all(&mut url, path);
        let signature = generate_signature(
            self.config.api_secret.as_slice(),
            timestamp_ms,
            &method,
            path,
            body,
        );
        let mut api_key: Vec<u8> = Vec::new();
        push_all(&mut api_key, self.config.api_key.as_slice());
        let mut body_out: Vec<u8> = Vec::new();
        push_all(&mut body_out, body);
        SignedRequest { method, url, api_key, timestamp_ms, signature, body: body_out }
    }
}

} // verus!
