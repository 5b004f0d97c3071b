//! The private event streaming client's state machine.
//!
//! Each connection cycle first acquires a fresh streaming token by a
//! signed POST; a failed acquisition backs off (five seconds doubling to
//! sixty) and retries without attempting a connection. With a token held,
//! the stream is opened on a URL naming the token and the four event
//! channels are subscribed, each paced through the subscribe rate
//! limiter. While streaming, the token is renewed by a signed PUT once
//! fifteen minutes have passed since the last renewal — checked before
//! further frames are processed — and a renewal failure is
//! connection-fatal: the cycle restarts with fresh acquisition rather
//! than streaming on a token that may expire. Shutdown wins over any
//! backoff or read.

use vstd::prelude::*;
use vstd::string::StringSliceAdditionalSpecFns;
use crate::messages::spec_subscribe_msg;
use crate::messages::build_subscribe_msg;
use crate::subs::bytes_eq;

verus! {

/// First retry delay after a failed acquisition or connection, in seconds.
pub const PRIVATE_BACKOFF_INITIAL_S: u64 = 5;

/// The retry delay's cap, in seconds.
pub const PRIVATE_BACKOFF_MAX_S: u64 = 60;

/// How long a token is used before it is renewed: fifteen minutes.
pub const TOKEN_RENEWAL_MS: u64 = 900000;

/// The connection cycle's phase: between cycles (no token, no stream), or
/// streaming on a token last renewed at a known instant.
#[derive(Debug)]
pub enum PrivatePhase {
    Idle,
    Streaming { token: Vec<u8>, last_refresh_ms: u64 },
}

/// What the loop must do next, decided at the top of each iteration.
#[derive(Debug)]
pub enum PrivateStep {
    Stop,
    AcquireToken,
    RenewToken { token: Vec<u8> },
    AwaitFrame,
}

/// The event kind an inbound frame's channel maps to.
#[derive(Debug, Clone, Copy, PartialEq, Eq, Structural)]
pub enum PrivateEventKind {
    ExecutionUpdate,
    OrderUpdate,
    PositionUpdate,
    PositionSummaryUpdate,
    Unknown,
}

impl PrivateEventKind {
    /// The kind's name as handed to the dispatch boundary.
    pub fn label(&self) -> (r: &'static str)
        ensures
            self is ExecutionUpdate ==> r@ == "ExecutionUpdate"@,
            self is OrderUpdate ==> r@ == "OrderUpdate"@,
            self is PositionUpdate ==> r@ == "PositionUpdate"@,
            self is PositionSummaryUpdate ==> r@ == "PositionSummaryUpdate"@,
            self is Unknown ==> r@ == "Unknown"@,
    {
        match self {
            PrivateEventKind::ExecutionUpdate => "ExecutionUpdate",
            PrivateEventKind::OrderUpdate => "OrderUpdate",
            PrivateEventKind::PositionUpdate => "PositionUpdate",
            PrivateEventKind::PositionSummaryUpdate => "PositionSummaryUpdate",
            PrivateEventKind::Unknown => "Unknown",
        }
    }
}

/// The event kind a channel names; anything unrecognized is `Unknown`.
pub open spec fn spec_channel_kind(channel: Seq<u8>) -> PrivateEventKind {
    if channel == "executionEvents".spec_bytes() {
        PrivateEventKind::ExecutionUpdate
    } else if channel == "orderEvents".spec_bytes() {
        PrivateEventKind::OrderUpdate
    } else if channel == "positionEvents".spec_bytes() {
        PrivateEventKind::PositionUpdate
    } else if channel == "positionSummaryEvents".spec_bytes() {
        PrivateEventKind::PositionSummaryUpdate
    } else {
        PrivateEventKind::Unknown
    }
}

/// Map a frame's channel to its event kind; anything unrecognized is
/// `Unknown` (and a frame with an explicit error field is dropped before
/// this point).
pub fn classify_channel(channel: &[u8]) -> (r: PrivateEventKind)
    ensures
        r == spec_channel_kind(channel@),
{
    if bytes_eq(channel, "executionEvents".as_bytes()) {
        PrivateEventKind::ExecutionUpdate
    } else if bytes_eq(channel, "orderEvents".as_bytes()) {
        PrivateEventKind::OrderUpdate
    } else if bytes_eq(channel, "positionEvents".as_bytes()) {
        PrivateEventKind::PositionUpdate
    } else if bytes_eq(channel, "positionSummaryEvents".as_bytes()) {
        PrivateEventKind::PositionSummaryUpdate
    } else {
        PrivateEventKind::Unknown
    }
}

/// Route a private frame: an explicit error field drops it (logged, not
/// fatal); otherwise the channel picks the event kind.
pub fn route_private_frame(has_error: bool, channel: &[u8]) -> (r: Option<PrivateEventKind>)
    ensures
        r == (if has_error {
            None::<PrivateEventKind>
        } else {
            Some(spec_channel_kind(channel@))
        }),
{
    if has_error {
        None
    } else {
        Some(classify_channel(channel))
    }
}

/// The private client's state between loop iterations.
#[derive(Debug)]
pub struct PrivateStream {
    pub phase: PrivatePhase,
    pub shutdown: bool,
    pub backoff_s: u64,
}

impl PrivateStream {
    pub open spec fn wf(self) -> bool {
        PRIVATE_BACKOFF_INITIAL_S <= self.backoff_s <= PRIVATE_BACKOFF_MAX_S
    }

    pub fn new() -> (r: PrivateStream)
        ensures
            r.wf(),
            r.phase is Idle,
            !r.shutdown,
            r.backoff_s == PRIVATE_BACKOFF_INITIAL_S,
    {
        PrivateStream {
            phase: PrivatePhase::Idle,
            shutdown: false,
            backoff_s: PRIVATE_BACKOFF_INITIAL_S,
        }
    }

    /// Decide the next move at the top of a loop iteration: stop on
    /// shutdown; acquire a token when none is held; renew the held token
    /// before any further frame once the renewal interval has elapsed;
    /// otherwise read the next frame.
    pub fn next_step(&self, now_ms: u64) -> (r: PrivateStep)
        requires
            self.wf(),
        ensures
            self.shutdown ==> r is Stop,
            !self.shutdown && self.phase is Idle ==> r is AcquireToken,
            !self.shutdown ==> (match self.phase {
                PrivatePhase::Idle => r is AcquireToken,
                PrivatePhase::Streaming { token, last_refresh_ms } => {
                    if now_ms >= last_refresh_ms + TOKEN_RENEWAL_MS {
                        match r {
                            PrivateStep::RenewToken { token: t } => t@ == token@,
                            _ => false,
                        }
                    } else {
                        r is AwaitFrame
                    }
                },
            }),
    {
        if self.shutdown {
            return PrivateStep::Stop;
        }
        match &self.phase {
            PrivatePhase::Idle => PrivateStep::AcquireToken,
            PrivatePhase::Streaming { token, last_refresh_ms } => {
                if now_ms >= *last_refresh_ms && now_ms - *last_refresh_ms >= TOKEN_RENEWAL_MS {
                    let mut t: Vec<u8> = Vec::new();
                    let mut i: usize = 0;
                    while i < token.len()
                        invariant
                            0 <= i <= token@.len(),
                            t@ == token@.take(i as int),
                        decreases token@.len() - i,
                    {
                        t.push(token[i]);
                        proof {
                            assert(token@.take(i + 1) == token@.take(i as int).push(
                                token@[i as int],
                            ));
                        }
                        i = i + 1;
                    }
                    proof {
                        assert(token@.take(i as int) == token@);
                    }
                    PrivateStep::RenewToken { token: t }
                } else {
                    PrivateStep::AwaitFrame
                }
            },
        }
    }

    /// Token acquisition failed: stay between cycles and say how long to
    /// wait; the delay doubles up to the cap. No connection is attempted
    /// on this cycle.
    pub fn on_token_failure(&mut self) -> (delay_s: u64)
        requires
            old(self).wf(),
        ensures
            final(self).wf(),
            final(self).phase is Idle,
            delay_s == old(self).backoff_s,
            final(self).backoff_s == (if 2 * old(self).backoff_s <= PRIVATE_BACKOFF_MAX_S {
                2 * old(self).backoff_s
            } else {
                PRIVATE_BACKOFF_MAX_S as int
            }),
            final(self).shutdown == old(self).shutdown,
    {
        self.phase = PrivatePhase::Idle;
        let delay = self.backoff_s;
        self.backoff_s = if self.backoff_s <= PRIVATE_BACKOFF_MAX_S / 2 {
            2 * self.backoff_s
        } else {
            PRIVATE_BACKOFF_MAX_S
        };
        delay
    }

    /// The stream opened on the acquired token: reset the retry delay,
    /// mark the token freshly renewed, and hand back the four channel
    /// subscriptions to send in this order, each paced through the
    /// subscribe rate limiter.
    pub fn on_connected(&mut self, token: Vec<u8>, now_ms: u64) -> (r: Vec<Vec<u8>>)
        requires
            old(self).wf(),
        ensures
            final(self).wf(),
            final(self).phase matches PrivatePhase::Streaming { token: t, last_refresh_ms: l }
                && t@ == token@ && l == now_ms,
            final(self).backoff_s == PRIVATE_BACKOFF_INITIAL_S,
            final(self).shutdown == old(self).shutdown,
            r.deep_view() =~~= seq![
                spec_subscribe_msg("executionEvents".spec_bytes(), Seq::empty(), Seq::empty()),
                spec_subscribe_msg("orderEvents".spec_bytes(), Seq::empty(), Seq::empty()),
                spec_subscribe_msg("positionEvents".spec_bytes(), Seq::empty(), Seq::empty()),
                spec_subscribe_msg(
                    "positionSummaryEvents".spec_bytes(),
                    Seq::empty(),
                    Seq::empty(),
                ),
            ],
    {
        self.phase = PrivatePhase::Streaming { token, last_refresh_ms: now_ms };
        self.backoff_s = PRIVATE_BACKOFF_INITIAL_S;
        let empty: Vec<u8> = Vec::new();
        let mut cmds: Vec<Vec<u8>> = Vec::new();
        cmds.push(
            build_subscribe_msg("executionEvents".as_bytes(), empty.as_slice(), empty.as_slice()),
        );
        cmds.push(
            build_subscribe_msg("orderEvents".as_bytes(), empty.as_slice(), empty.as_slice()),
        );
        cmds.push(
            build_subscribe_msg("positionEvents".as_bytes(), empty.as_slice(), empty.as_slice()),
        );
        cmds.push(
            build_subscribe_msg(
                "positionSummaryEvents".as_bytes(),
                empty.as_slice(),
                empty.as_slice(),
            ),
        );
        cmds
    }

    /// The held token was renewed: keep streaming, counting the interval
    /// from now.
    pub fn on_renewed(&mut self, now_ms: u64)
        requires
            old(self).wf(),
            old(self).phase is Streaming,
        ensures
            final(self).wf(),
            old(self).phase matches PrivatePhase::Streaming { token: t0, last_refresh_ms: l0 }
                && final(self).phase matches PrivatePhase::Streaming {
                token: t,
                last_refresh_ms: l,
            } && t@ == t0@ && l == now_ms,
            final(self).backoff_s == old(self).backoff_s,
            final(self).shutdown == old(self).shutdown,
    {
        match &mut self.phase {
            PrivatePhase::Streaming { token: _, last_refresh_ms } => {
                *last_refresh_ms = now_ms;
            },
            PrivatePhase::Idle => {
                proof {
                    assert(false);
                }
            },
        }
    }

    /// Renewal failed, the server closed, the transport erred or the
    /// stream ended: the connection is over and the token is discarded,
    /// so the next cycle acquires a fresh one. The returned delay is
    /// waited out first; it doubles up to the cap.
    pub fn on_stream_end(&mut self) -> (delay_s: u64)
        requires
            old(self).wf(),
        ensures
            final(self).wf(),
            final(self).phase is Idle,
            delay_s == old(self).backoff_s,
            final(self).backoff_s == (if 2 * old(self).backoff_s <= PRIVATE_BACKOFF_MAX_S {
                2 * old(self).backoff_s
            } else {
                PRIVATE_BACKOFF_MAX_S as int
            }),
            final(self).shutdown == old(self).shutdown,
    {
        self.phase = PrivatePhase::Idle;
        let delay = self.backoff_s;
        self.backoff_s = if self.backoff_s <= PRIVATE_BACKOFF_MAX_S / 2 {
            2 * self.backoff_s
        } else {
            PRIVATE_BACKOFF_MAX_S
        };
        delay
    }

    /// Request shutdown: observed at the next suspension point; no
    /// reconnect is scheduled after it.
    pub fn request_shutdown(&mut self)
        requires
            old(self).wf(),
        ensures
            final(self).wf(),
            final(self).shutdown,
            final(self).phase == old(self).phase,
            final(self).backoff_s == old(self).backoff_s,
    {
        self.shutdown = true;
    }

    /// Clear a previous shutdown request so a fresh connect cycle can
    /// run; everything else is untouched.
    pub fn clear_shutdown(&mut self)
        requires
            old(self).wf(),
        ensures
            final(self).wf(),
            !final(self).shutdown,
            final(self).phase == old(self).phase,
            final(self).backoff_s == old(self).backoff_s,
    {
        self.shutdown = false;
    }
}

} // verus!
