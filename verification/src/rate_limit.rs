//! Token-bucket rate limiter.
//!
//! Tokens are held in thousandths (millitokens) so that fractional refill
//! rates — half a token per second for the subscribe traffic class — need
//! no floating point. One admission costs [`TOKEN_MT`] millitokens; tokens
//! accrue continuously up to the bucket's capacity. The bucket itself is a
//! pure state machine over a caller-supplied millisecond clock: it decides
//! whether an admission is immediate or how long the caller must wait, and
//! the surrounding (unverified) runtime performs the actual sleep.

use vstd::prelude::*;

verus! {

/// Millitokens consumed by one admission: one whole token.
pub const TOKEN_MT: u64 = 1000;

/// Outcome of an admission attempt: admitted now, or wait the given number
/// of milliseconds before one token has accrued.
#[derive(Debug, Clone, Copy, PartialEq, Eq, Structural)]
pub enum Admission {
    Granted,
    Wait(u64),
}

/// A token bucket: `tokens_mt` millitokens available as of `last_ms`,
/// refilling at `rate_mt_per_s` millitokens per second up to `capacity_mt`.
#[derive(Debug, Clone)]
pub struct TokenBucket {
    pub capacity_mt: u64,
    pub rate_mt_per_s: u64,
    pub tokens_mt: u64,
    pub last_ms: u64,
}

impl TokenBucket {
    /// Well-formedness: the bucket never holds more than its capacity, can
    /// hold at least one whole token, and refills at a positive rate.
    pub open spec fn wf(self) -> bool {
        &&& self.tokens_mt <= self.capacity_mt
        &&& TOKEN_MT <= self.capacity_mt
        &&& 1 <= self.rate_mt_per_s
    }

    pub open spec fn spec_capacity_mt(self) -> u64 {
        self.capacity_mt
    }

    pub open spec fn spec_rate_mt_per_s(self) -> u64 {
        self.rate_mt_per_s
    }

    pub open spec fn spec_tokens_mt(self) -> u64 {
        self.tokens_mt
    }

    pub open spec fn spec_last_ms(self) -> u64 {
        self.last_ms
    }

    /// Millitokens available once the bucket has refilled at time `now_ms`:
    /// what was left plus the accrual over the elapsed time, capped at the
    /// capacity. A clock that appears to run backwards accrues nothing.
    pub open spec fn spec_refilled(self, now_ms: u64) -> int {
        if now_ms > self.last_ms {
            vstd::math::min(
                self.capacity_mt as int,
                self.tokens_mt + self.rate_mt_per_s * (now_ms - self.last_ms) / 1000,
            )
        } else {
            self.tokens_mt as int
        }
    }

    /// Whether an admission at `now_ms` is immediate.
    pub open spec fn spec_grantable(self, now_ms: u64) -> bool {
        self.spec_refilled(now_ms) >= TOKEN_MT
    }

    /// Milliseconds until one whole token has accrued, rounded up.
    pub open spec fn spec_wait_ms(self, now_ms: u64) -> int {
        let need = TOKEN_MT - self.spec_refilled(now_ms);
        (need * 1000 + self.rate_mt_per_s - 1) / (self.rate_mt_per_s as int)
    }

    /// The bucket after a granted admission at `now_ms`.
    pub open spec fn spec_after_grant(self, now_ms: u64) -> TokenBucket {
        TokenBucket {
            tokens_mt: (self.spec_refilled(now_ms) - TOKEN_MT) as u64,
            last_ms: if now_ms >= self.last_ms {
                now_ms
            } else {
                self.last_ms
            },
            ..self
        }
    }

    /// The bucket after a refused admission at `now_ms`: refilled, nothing
    /// consumed.
    pub open spec fn spec_after_refusal(self, now_ms: u64) -> TokenBucket {
        TokenBucket {
            tokens_mt: self.spec_refilled(now_ms) as u64,
            last_ms: if now_ms >= self.last_ms {
                now_ms
            } else {
                self.last_ms
            },
            ..self
        }
    }

    /// A bucket created full at time `now_ms`.
    ///
    /// `capacity_mt` and `rate_mt_per_s` are in millitokens, so a burst
    /// size of C tokens is `C * TOKEN_MT` and a refill rate of R tokens
    /// per second is `R * TOKEN_MT`.
    pub fn new(capacity_mt: u64, rate_mt_per_s: u64, now_ms: u64) -> (r: TokenBucket)
        requires
            TOKEN_MT <= capacity_mt,
            1 <= rate_mt_per_s,
        ensures
            r.wf(),
            r.spec_capacity_mt() == capacity_mt,
            r.spec_rate_mt_per_s() == rate_mt_per_s,
            r.spec_tokens_mt() == capacity_mt,
            r.spec_last_ms() == now_ms,
    {
        TokenBucket { capacity_mt, rate_mt_per_s, tokens_mt: capacity_mt, last_ms: now_ms }
    }

    /// Credit the accrual since the last refill.
    fn refill(&mut self, now_ms: u64)
        requires
            old(self).wf(),
        ensures
            final(self).wf(),
            final(self).spec_capacity_mt() == old(self).spec_capacity_mt(),
            final(self).spec_rate_mt_per_s() == old(self).spec_rate_mt_per_s(),
            final(self).spec_tokens_mt() == old(self).spec_refilled(now_ms),
            final(self).spec_last_ms() == (if now_ms >= old(self).spec_last_ms() {
                now_ms
            } else {
                old(self).spec_last_ms()
            }),
    {
        if now_ms > self.last_ms {
            let elapsed: u64 = now_ms - self.last_ms;
            proof {
                assert((self.rate_mt_per_s as u128) * (elapsed as u128) <= u128::MAX) by (nonlinear_arith)
                    requires
                        self.rate_mt_per_s <= u64::MAX,
                        elapsed <= u64::MAX,
                ;
            }
            let accrued: u128 = (self.rate_mt_per_s as u128) * (elapsed as u128) / 1000;
            proof {
                assert(accrued == self.rate_mt_per_s * elapsed / 1000);
                assert(accrued <= u128::MAX / 1000);
            }
            let avail: u128 = (self.tokens_mt as u128) + accrued;
            if avail >= self.capacity_mt as u128 {
                self.tokens_mt = self.capacity_mt;
            } else {
                self.tokens_mt = avail as u64;
            }
            self.last_ms = now_ms;
            proof {
                assert(self.tokens_mt == old(self).spec_refilled(now_ms));
            }
        }
    }

    /// Admit one operation at time `now_ms`, or say how long to wait.
    ///
    /// With at least one whole token refilled, the admission is immediate
    /// and consumes the token. Otherwise nothing is consumed and the caller
    /// is told the minimum wait until a single token has accrued; admission
    /// is by a fresh attempt after the wait, never an error.
    pub fn try_acquire(&mut self, now_ms: u64) -> (r: Admission)
        requires
            old(self).wf(),
        ensures
            final(self).wf(),
            final(self).spec_capacity_mt() == old(self).spec_capacity_mt(),
            final(self).spec_rate_mt_per_s() == old(self).spec_rate_mt_per_s(),
            old(self).spec_grantable(now_ms) ==> {
                &&& r == Admission::Granted
                &&& *final(self) == old(self).spec_after_grant(now_ms)
            },
            !old(self).spec_grantable(now_ms) ==> {
                &&& r == Admission::Wait(old(self).spec_wait_ms(now_ms) as u64)
                &&& *final(self) == old(self).spec_after_refusal(now_ms)
            },
    {
        self.refill(now_ms);
        if self.tokens_mt >= TOKEN_MT {
            self.tokens_mt = self.tokens_mt - TOKEN_MT;
            Admission::Granted
        } else {
            let need: u64 = TOKEN_MT - self.tokens_mt;
            let num: u128 = (need as u128) * 1000 + (self.rate_mt_per_s as u128) - 1;
            let wait: u128 = num / (self.rate_mt_per_s as u128);
            proof {
                assert(num / (self.rate_mt_per_s as u128) <= num) by (nonlinear_arith)
                    requires
                        1 <= self.rate_mt_per_s,
                ;
            }
            Admission::Wait(wait as u64)
        }
    }

    /// Millitokens available right now, after refilling: a read-only probe
    /// used by callers that report limiter state.
    pub fn available_mt(&mut self, now_ms: u64) -> (r: u64)
        requires
            old(self).wf(),
        ensures
            final(self).wf(),
            r == old(self).spec_refilled(now_ms),
            *final(self) == old(self).spec_after_refusal(now_ms),
    {
        self.refill(now_ms);
        self.tokens_mt
    }
}

/// For non-negative numerators over one positive divisor, the sum of the
/// quotients never exceeds the quotient of the sum.
proof fn lemma_div_superadditive(x: int, y: int, d: int)
    requires
        0 <= x,
        0 <= y,
        0 < d,
    ensures
        x / d + y / d <= (x + y) / d,
{
    vstd::arithmetic::div_mod::lemma_fundamental_div_mod(x, d);
    vstd::arithmetic::div_mod::lemma_fundamental_div_mod(y, d);
    vstd::arithmetic::div_mod::lemma_fundamental_div_mod(x + y, d);
    assert(x / d + y / d <= (x + y) / d) by (nonlinear_arith)
        requires
            0 < d,
            x == d * (x / d) + x % d,
            y == d * (y / d) + y % d,
            x + y == d * ((x + y) / d) + (x + y) % d,
            0 <= x % d < d,
            0 <= y % d < d,
            0 <= (x + y) % d < d,
    ;
}

/// A run of admissions, one per listed instant: each is granted by the
/// bucket refilled at its instant, instants never running backwards.
pub open spec fn spec_grants_ok(b: TokenBucket, times: Seq<u64>) -> bool
    decreases times.len(),
{
    if times.len() == 0 {
        true
    } else {
        &&& b.last_ms <= times[0]
        &&& b.spec_grantable(times[0])
        &&& spec_grants_ok(b.spec_after_grant(times[0]), times.drop_first())
    }
}

/// Law: the limiter's long-run rate. However a run of admissions is
/// timed, what is granted up to `t_end` never exceeds the tokens held at
/// the start plus what the refill rate can accrue over the elapsed time —
/// so the average admission rate converges to the refill rate.
pub proof fn lemma_throughput_bound(b: TokenBucket, times: Seq<u64>, t_end: u64)
    requires
        b.wf(),
        spec_grants_ok(b, times),
        forall|i: int| 0 <= i < times.len() ==> #[trigger] times[i] <= t_end,
        b.last_ms <= t_end,
    ensures
        TOKEN_MT * times.len() <= b.tokens_mt + b.rate_mt_per_s * (t_end - b.last_ms) / 1000,
    decreases times.len(),
{
    if times.len() > 0 {
        let t0 = times[0];
        let rest = times.drop_first();
        let b1 = b.spec_after_grant(t0);
        let rate = b.rate_mt_per_s as int;
        assert(t0 <= t_end);
        assert(b1.wf());
        assert forall|i: int| 0 <= i < rest.len() implies #[trigger] rest[i] <= t_end by {
            assert(rest[i] == times[i + 1]);
        }
        lemma_throughput_bound(b1, rest, t_end);
        let accrue_first = rate * (t0 - b.last_ms) / 1000;
        let accrue_rest = rate * (t_end - t0) / 1000;
        let accrue_whole = rate * (t_end - b.last_ms) / 1000;
        assert(b1.tokens_mt <= b.tokens_mt + accrue_first - TOKEN_MT) by {
            if t0 > b.last_ms {
                assert(b.spec_refilled(t0) <= b.tokens_mt + accrue_first);
            } else {
                assert(rate * 0 == 0) by (nonlinear_arith);
                assert(b.spec_refilled(t0) == b.tokens_mt);
            }
        }
        assert(rate * (t0 - b.last_ms) + rate * (t_end - t0) == rate * (t_end - b.last_ms))
            by (nonlinear_arith);
        assert(0 <= rate * (t0 - b.last_ms) && 0 <= rate * (t_end - t0)) by (nonlinear_arith)
            requires
                0 <= rate,
                b.last_ms <= t0 <= t_end,
        ;
        lemma_div_superadditive(rate * (t0 - b.last_ms), rate * (t_end - t0), 1000);
        assert(accrue_first + accrue_rest <= accrue_whole);
        assert(TOKEN_MT * times.len() == TOKEN_MT * rest.len() + TOKEN_MT) by (nonlinear_arith)
            requires
                times.len() == rest.len() + 1,
        ;
        assert(TOKEN_MT * rest.len() <= b1.tokens_mt + rate * (t_end - b1.last_ms) / 1000);
        assert(b1.last_ms == t0);
    }
}

/// Law: the minimum spacing a capacity-one bucket enforces. In any run of
/// admissions through a bucket that holds at most one whole token — the
/// subscribe traffic class — every admission after the first drains the
/// bucket to empty, so consecutive admission instants `t` and `t'` obey
/// `rate * (t' - t) >= 1000 * TOKEN_MT`: at least one full token time
/// (one second per token-per-second of rate) separates them, however the
/// run is timed.
pub proof fn lemma_one_token_separation(b: TokenBucket, times: Seq<u64>)
    requires
        b.wf(),
        b.capacity_mt == TOKEN_MT,
        spec_grants_ok(b, times),
    ensures
        forall|i: int|
            0 <= i < times.len() - 1 ==> b.rate_mt_per_s * ((#[trigger] times[i + 1]) - times[i])
                >= 1000 * TOKEN_MT,
    decreases times.len(),
{
    if times.len() >= 2 {
        let t0 = times[0];
        let t1 = times[1];
        let b1 = b.spec_after_grant(t0);
        assert(b1.wf());
        assert(b1.tokens_mt == 0) by {
            assert(b.spec_refilled(t0) <= b.capacity_mt);
            assert(b.spec_refilled(t0) >= TOKEN_MT);
        }
        assert(b1.last_ms == t0);
        let rest = times.drop_first();
        lemma_one_token_separation(b1, rest);
        assert(spec_grants_ok(b1, rest));
        assert(rest[0] == t1);
        assert(b1.spec_grantable(rest[0]));
        assert(b.rate_mt_per_s * (t1 - t0) >= 1000 * TOKEN_MT) by {
            let rate = b1.rate_mt_per_s as int;
            if t1 > t0 {
                assert(b1.spec_refilled(t1) <= rate * (t1 - t0) / 1000);
                assert(rate * (t1 - t0) / 1000 >= TOKEN_MT);
                vstd::arithmetic::div_mod::lemma_fundamental_div_mod(rate * (t1 - t0), 1000);
                assert(rate * (t1 - t0) >= 1000 * TOKEN_MT) by (nonlinear_arith)
                    requires
                        rate * (t1 - t0) == 1000 * (rate * (t1 - t0) / 1000) + rate * (t1 - t0)
                            % 1000,
                        0 <= rate * (t1 - t0) % 1000,
                        rate * (t1 - t0) / 1000 >= TOKEN_MT,
                ;
            } else {
                assert(b1.spec_refilled(t1) == 0);
                assert(false);
            }
        }
        assert forall|i: int|
            0 <= i < times.len() - 1 implies b.rate_mt_per_s * ((#[trigger] times[i + 1])
            - times[i]) >= 1000 * TOKEN_MT by {
            if i > 0 {
                assert(rest[i - 1] == times[i]);
                assert(rest[i] == times[i + 1]);
                assert(b1.rate_mt_per_s * (rest[i] - rest[i - 1]) >= 1000 * TOKEN_MT);
            }
        }
    }
}

/// The bucket state after `k` admissions granted back to back at the one
/// instant `now_ms`.
pub open spec fn spec_burst(b: TokenBucket, now_ms: u64, k: nat) -> TokenBucket
    decreases k,
{
    if k == 0 {
        b
    } else {
        spec_burst(b, now_ms, (k - 1) as nat).spec_after_grant(now_ms)
    }
}

/// Law: a well-formed bucket holding at least `k` whole tokens once
/// refilled at `now_ms` admits `k` acquisitions back to back at that one
/// instant — each is grantable, so none waits — and exactly `k` tokens are
/// consumed.
pub proof fn lemma_burst_is_granted(b: TokenBucket, now_ms: u64, k: nat)
    requires
        b.wf(),
        b.spec_refilled(now_ms) >= TOKEN_MT * k,
    ensures
        forall|i: nat|
            i < k ==> #[trigger] spec_burst(b, now_ms, i).spec_grantable(now_ms),
        spec_burst(b, now_ms, k).wf(),
        spec_burst(b, now_ms, k).spec_refilled(now_ms) == b.spec_refilled(now_ms) - TOKEN_MT * k,
        spec_burst(b, now_ms, k).spec_capacity_mt() == b.spec_capacity_mt(),
        spec_burst(b, now_ms, k).spec_rate_mt_per_s() == b.spec_rate_mt_per_s(),
    decreases k,
{
    if k > 0 {
        lemma_burst_is_granted(b, now_ms, (k - 1) as nat);
        let prev = spec_burst(b, now_ms, (k - 1) as nat);
        assert(prev.spec_refilled(now_ms) == b.spec_refilled(now_ms) - TOKEN_MT * ((k - 1) as nat));
        assert(TOKEN_MT * ((k - 1) as nat) + TOKEN_MT == TOKEN_MT * k) by (nonlinear_arith)
            requires
                1 <= k,
        ;
        assert(prev.spec_grantable(now_ms));
        let cur = prev.spec_after_grant(now_ms);
        assert(spec_burst(b, now_ms, k) == cur);
        assert(cur.spec_refilled(now_ms) == prev.spec_refilled(now_ms) - TOKEN_MT);
        assert(cur.spec_refilled(now_ms) == b.spec_refilled(now_ms) - TOKEN_MT * k);
        assert forall|i: nat| i < k implies #[trigger] spec_burst(b, now_ms, i).spec_grantable(
            now_ms,
        ) by {
            if i < (k - 1) as nat {
                assert(spec_burst(b, now_ms, i).spec_grantable(now_ms));
            }
        }
    }
}

/// Milliseconds until a single whole token accrues at `rate_mt_per_s`
/// millitokens per second, rounded up: for a rate of R whole tokens per
/// second this is 1000 / R milliseconds — 1 / R seconds — rounded up.
pub open spec fn one_token_wait_ms(rate_mt_per_s: int) -> int {
    (TOKEN_MT * 1000 + rate_mt_per_s - 1) / rate_mt_per_s
}

/// Law: with capacity and refill both measured in whole tokens — capacity
/// `c` tokens, rate `r` tokens per second — a freshly created (full) bucket
/// admits `c` acquisitions at its creation instant with no wait, and the
/// next attempt at that same instant is told to wait the time for one
/// token to accrue: 1 / r seconds, rounded up to whole milliseconds.
pub proof fn lemma_capacity_burst_then_wait(c: nat, r: nat, now_ms: u64)
    requires
        1 <= c,
        TOKEN_MT * c <= u64::MAX,
        1 <= r,
        TOKEN_MT * r <= u64::MAX,
    ensures
        ({
            let b = TokenBucket {
                capacity_mt: (TOKEN_MT * c) as u64,
                rate_mt_per_s: (TOKEN_MT * r) as u64,
                tokens_mt: (TOKEN_MT * c) as u64,
                last_ms: now_ms,
            };
            &&& forall|i: nat|
                i < c ==> #[trigger] spec_burst(b, now_ms, i).spec_grantable(now_ms)
            &&& !spec_burst(b, now_ms, c).spec_grantable(now_ms)
            &&& spec_burst(b, now_ms, c).spec_wait_ms(now_ms) == one_token_wait_ms(
                TOKEN_MT * r as int,
            )
        }),
{
    let b = TokenBucket {
        capacity_mt: (TOKEN_MT * c) as u64,
        rate_mt_per_s: (TOKEN_MT * r) as u64,
        tokens_mt: (TOKEN_MT * c) as u64,
        last_ms: now_ms,
    };
    assert(TOKEN_MT <= TOKEN_MT * c && TOKEN_MT <= TOKEN_MT * r) by (nonlinear_arith)
        requires
            1 <= c,
            1 <= r,
    ;
    assert(b.wf());
    assert(b.spec_refilled(now_ms) == TOKEN_MT * c);
    lemma_burst_is_granted(b, now_ms, c);
    let empty = spec_burst(b, now_ms, c);
    assert(empty.spec_refilled(now_ms) == 0);
}

} // verus!
