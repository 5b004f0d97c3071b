//! The market-data streaming client's state machine.
//!
//! The unverified runtime owns the socket and the loop; every decision —
//! what to record, what to send, when to back off and for how long, which
//! frames to drop and where to route the rest — is made here. One
//! connection attempt runs: gather and send the replay commands, then
//! alternate between draining the outgoing queue and the next inbound
//! frame; a close, a transport error or stream end triggers backoff and a
//! fresh attempt; a shutdown request wins over everything and schedules no
//! reconnect.

use vstd::prelude::*;
use vstd::string::StringSliceAdditionalSpecFns;
use crate::messages::spec_subscribe_msg;
use crate::messages::build_subscribe_msg;
use crate::subs::Subscription;
use crate::subs::SubscriptionSet;
use crate::subs::spec_has_tuple;
use crate::subs::spec_has_cmd;
use crate::subs::spec_sorted_unique;
use crate::subs::replay_commands;
use crate::subs::bytes_eq;

verus! {

/// First retry delay after a failed attempt, in seconds.
pub const BACKOFF_INITIAL_S: u64 = 1;

/// The retry delay's cap, in seconds.
pub const BACKOFF_MAX_S: u64 = 64;

/// Where an inbound text frame goes, by its `channel` field.
#[derive(Debug, Clone, Copy, PartialEq, Eq, Structural)]
pub enum FrameRoute {
    Ticker,
    OrderBooks,
    Trades,
    Dropped,
}

/// Route a frame: an explicit error field drops it (logged, not fatal),
/// an unrecognized or missing channel drops it silently, and the three
/// known channels go to their decoders.
pub fn route_frame(has_error: bool, channel: &[u8]) -> (r: FrameRoute)
    ensures
        r == (if has_error {
            FrameRoute::Dropped
        } else if channel@ == "ticker".spec_bytes() {
            FrameRoute::Ticker
        } else if channel@ == "orderbooks".spec_bytes() {
            FrameRoute::OrderBooks
        } else if channel@ == "trades".spec_bytes() {
            FrameRoute::Trades
        } else {
            FrameRoute::Dropped
        }),
{
    if has_error {
        return FrameRoute::Dropped;
    }
    if bytes_eq(channel, "ticker".as_bytes()) {
        FrameRoute::Ticker
    } else if bytes_eq(channel, "orderbooks".as_bytes()) {
        FrameRoute::OrderBooks
    } else if bytes_eq(channel, "trades".as_bytes()) {
        FrameRoute::Trades
    } else {
        FrameRoute::Dropped
    }
}

/// The client's durable state: the subscription set that survives
/// reconnects, the outgoing queue that does not, the connected and
/// shutdown flags, and the next retry delay.
#[derive(Debug)]
pub struct MarketStream {
    pub subs: SubscriptionSet,
    pub outgoing: Vec<Vec<u8>>,
    pub connected: bool,
    pub shutdown: bool,
    pub backoff_s: u64,
}

impl MarketStream {
    pub open spec fn wf(self) -> bool {
        &&& self.subs.wf()
        &&& BACKOFF_INITIAL_S <= self.backoff_s <= BACKOFF_MAX_S
    }

    pub fn new() -> (r: MarketStream)
        ensures
            r.wf(),
            r.subs.subs@.len() == 0,
            r.outgoing@.len() == 0,
            !r.connected,
            !r.shutdown,
            r.backoff_s == BACKOFF_INITIAL_S,
    {
        MarketStream {
            subs: SubscriptionSet::new(),
            outgoing: Vec::new(),
            connected: false,
            shutdown: false,
            backoff_s: BACKOFF_INITIAL_S,
        }
    }

    /// Record a subscription. The tuple always enters the durable set
    /// (deduplicated); while connected, the built command is additionally
    /// queued for immediate, rate-limited delivery. Before a connection it
    /// is only recorded, for replay on the next successful connect.
    pub fn subscribe(&mut self, channel: Vec<u8>, symbol: Vec<u8>, option: Vec<u8>)
        requires
            old(self).wf(),
        ensures
            final(self).wf(),
            spec_has_tuple(final(self).subs.subs@, (channel@, symbol@, option@)),
            forall|t: (Seq<u8>, Seq<u8>, Seq<u8>)|
                t != (channel@, symbol@, option@) ==> (spec_has_tuple(final(self).subs.subs@, t)
                    <==> spec_has_tuple(old(self).subs.subs@, t)),
            old(self).connected ==> final(self).outgoing@ == old(self).outgoing@.push(
                final(self).outgoing@.last(),
            ) && final(self).outgoing@.last()@ == spec_subscribe_msg(channel@, symbol@, option@),
            !old(self).connected ==> final(self).outgoing@ == old(self).outgoing@,
            final(self).connected == old(self).connected,
            final(self).shutdown == old(self).shutdown,
            final(self).backoff_s == old(self).backoff_s,
    {
        if self.connected {
            let msg = build_subscribe_msg(
                channel.as_slice(),
                symbol.as_slice(),
                option.as_slice(),
            );
            self.outgoing.push(msg);
        }
        let sub = Subscription::new(channel, symbol, option);
        self.subs.add(sub);
    }

    /// A connection attempt succeeded: reset the retry delay, mark the
    /// stream connected, and hand back the commands to send — one per
    /// stored tuple plus everything queued, deduplicated and sorted. The
    /// queue is abandoned; durable intent lives only in the set. The
    /// caller paces each command through the subscribe rate limiter.
    pub fn on_connected(&mut self) -> (r: Vec<Vec<u8>>)
        requires
            old(self).wf(),
        ensures
            final(self).wf(),
            final(self).connected,
            final(self).shutdown == old(self).shutdown,
            final(self).backoff_s == BACKOFF_INITIAL_S,
            final(self).subs.subs@ == old(self).subs.subs@,
            final(self).outgoing@.len() == 0,
            spec_sorted_unique(r@),
            forall|x: Seq<u8>|
                spec_has_cmd(r@, x) <==> ((exists|i: int|
                    0 <= i < old(self).subs.subs@.len() && (#[trigger] old(
                        self,
                    ).subs.subs@[i]).spec_msg() == x) || spec_has_cmd(old(self).outgoing@, x)),
    {
        let cmds = replay_commands(&self.subs, &self.outgoing);
        self.outgoing = Vec::new();
        self.connected = true;
        self.backoff_s = BACKOFF_INITIAL_S;
        cmds
    }

    /// A connection attempt failed, or an open stream ended: disconnect,
    /// and say how long to wait before the next attempt. The delay starts
    /// at one second and doubles on each consecutive failure, capped at
    /// sixty-four; a success resets it.
    pub fn on_disconnected(&mut self) -> (delay_s: u64)
        requires
            old(self).wf(),
        ensures
            final(self).wf(),
            !final(self).connected,
            delay_s == old(self).backoff_s,
            final(self).backoff_s == (if 2 * old(self).backoff_s <= BACKOFF_MAX_S {
                2 * old(self).backoff_s
            } else {
                BACKOFF_MAX_S as int
            }),
            final(self).subs.subs@ == old(self).subs.subs@,
            final(self).outgoing@ == old(self).outgoing@,
            final(self).shutdown == old(self).shutdown,
    {
        self.connected = false;
        let delay = self.backoff_s;
        self.backoff_s = if self.backoff_s <= BACKOFF_MAX_S / 2 {
            2 * self.backoff_s
        } else {
            BACKOFF_MAX_S
        };
        delay
    }

    /// Take every queued command for transmission, in order; the queue is
    /// checked before each inbound frame and on every keep-alive ping.
    pub fn drain_outgoing(&mut self) -> (r: Vec<Vec<u8>>)
        requires
            old(self).wf(),
        ensures
            final(self).wf(),
            r@ == old(self).outgoing@,
            final(self).outgoing@.len() == 0,
            final(self).subs.subs@ == old(self).subs.subs@,
            final(self).connected == old(self).connected,
            final(self).shutdown == old(self).shutdown,
            final(self).backoff_s == old(self).backoff_s,
    {
        let mut out: Vec<Vec<u8>> = Vec::new();
        core::mem::swap(&mut out, &mut self.outgoing);
        out
    }

    /// Request shutdown: the loop observes it at its next suspension
    /// point, closes gracefully, and schedules no reconnect.
    pub fn request_shutdown(&mut self)
        requires
            old(self).wf(),
        ensures
            final(self).wf(),
            final(self).shutdown,
            final(self).connected == old(self).connected,
            final(self).subs.subs@ == old(self).subs.subs@,
            final(self).outgoing@ == old(self).outgoing@,
            final(self).backoff_s == old(self).backoff_s,
    {
        self.shutdown = true;
    }

    /// Clear a previous shutdown request and the stale connected mark, so
    /// a fresh connect cycle can run; the subscription set, the queue and
    /// the retry delay are untouched.
    pub fn clear_shutdown(&mut self)
        requires
            old(self).wf(),
        ensures
            final(self).wf(),
            !final(self).shutdown,
            !final(self).connected,
            final(self).subs.subs@ == old(self).subs.subs@,
            final(self).outgoing@ == old(self).outgoing@,
            final(self).backoff_s == old(self).backoff_s,
    {
        self.shutdown = false;
        self.connected = false;
    }

    /// Whether the loop must stop instead of reconnecting or reading on.
    pub fn should_stop(&self) -> (r: bool)
        ensures
            r == self.shutdown,
    {
        self.shutdown
    }
}

/// The retry delay after `n` consecutive failures from a fresh state:
/// doubling from one second, capped at sixty-four.
pub open spec fn spec_backoff_after(n: nat) -> u64
    decreases n,
{
    if n == 0 {
        BACKOFF_INITIAL_S
    } else {
        let prev = spec_backoff_after((n - 1) as nat);
        if 2 * prev <= BACKOFF_MAX_S {
            (2 * prev) as u64
        } else {
            BACKOFF_MAX_S
        }
    }
}

/// Law: after `n` consecutive failures from a fresh state the retry delay
/// is two to the `n` seconds, capped at sixty-four — so five failures are
/// waited out for 1, 2, 4, 8, 16 seconds. A success resets the state, so
/// the schedule restarts at one second: that is `on_connected`'s ensures.
pub proof fn lemma_backoff_schedule(n: nat)
    ensures
        spec_backoff_after(n) == vstd::math::min(
            vstd::arithmetic::power2::pow2(n) as int,
            BACKOFF_MAX_S as int,
        ),
    decreases n,
{
    vstd::arithmetic::power2::lemma2_to64();
    if n > 0 {
        lemma_backoff_schedule((n - 1) as nat);
        vstd::arithmetic::power2::lemma_pow2_unfold(n);
        if n > 7 {
            vstd::arithmetic::power2::lemma_pow2_strictly_increases(7, n);
        }
    }
}

} // verus!
