//! The transaction dispatch driver's decisions.
//!
//! The dispatch driver is the one consumer of the dispatch channel. For each
//! request it signs and submits a transaction, waits for confirmation, and
//! only then takes the next request. [`Dispatcher`] holds what the driver
//! knows between two outside operations; [`Dispatcher::step`] takes what the
//! last operation produced ([`Event`]) and returns the next one to perform
//! ([`Action`]).

use vstd::prelude::*;
use crate::address::Address;

verus! {

/// A transaction to be signed and sent: the contract to call and the
/// ABI-encoded call data. Once enqueued it is never changed.
#[derive(Debug)]
pub struct DispatchRequest {
    pub target: Address,
    pub data: Vec<u8>,
}

/// Why a driver loop ended. Every such end is fatal to the process.
#[derive(Clone, Copy, Debug, PartialEq, Eq, Structural)]
pub enum DriverError {
    /// The signing identity could not sign a transaction.
    Signing,
    /// A request could not be submitted within the retry budget.
    Dispatch,
    /// The dispatch channel lost its other end.
    ChannelClosed,
    /// The chain connection stopped delivering the data a driver watches.
    ChainData,
}

/// The bounded retry budget and its exponential backoff.
#[derive(Clone, Copy, Debug, PartialEq, Eq, Structural)]
pub struct RetryPolicy {
    /// The number of submissions allowed for one request, the first included.
    pub max_attempts: u32,
    /// The wait after the first failed submission, in milliseconds.
    pub base_delay_ms: u64,
    /// The longest wait between two submissions, in milliseconds.
    pub max_delay_ms: u64,
}

/// Two to the power `k`.
pub open spec fn pow2(k: nat) -> nat
    decreases k,
{
    if k == 0 {
        1
    } else {
        2 * pow2((k - 1) as nat)
    }
}

/// `base * 2^k`, capped at `cap`.
pub open spec fn capped_backoff(base: nat, cap: nat, k: nat) -> nat {
    if base * pow2(k) <= cap {
        base * pow2(k)
    } else {
        cap
    }
}

proof fn lemma_capped_backoff_next(base: nat, cap: nat, k: nat)
    ensures
        capped_backoff(base, cap, k + 1) == if capped_backoff(base, cap, k) > cap / 2 {
            cap
        } else {
            2 * capped_backoff(base, cap, k)
        },
{
    let p = pow2(k);
    assert(pow2(k + 1) == 2 * p);
    assert(base * (2 * p) == 2 * (base * p)) by (nonlinear_arith);
}

impl RetryPolicy {
    pub open spec fn wf(&self) -> bool {
        self.max_attempts >= 1
    }

    /// A policy with the given budget and delays.
    pub fn new(max_attempts: u32, base_delay_ms: u64, max_delay_ms: u64) -> (r: Self)
        requires
            max_attempts >= 1,
        ensures
            r.wf(),
            r.max_attempts == max_attempts,
            r.base_delay_ms == base_delay_ms,
            r.max_delay_ms == max_delay_ms,
    {
        RetryPolicy { max_attempts, base_delay_ms, max_delay_ms }
    }

    /// Five submissions per request, waiting from half a second up to thirty.
    pub fn standard() -> (r: Self)
        ensures
            r.wf(),
            r.max_attempts == 5,
            r.base_delay_ms == 500,
            r.max_delay_ms == 30_000,
    {
        RetryPolicy { max_attempts: 5, base_delay_ms: 500, max_delay_ms: 30_000 }
    }

    /// The wait after the `attempt`-th submission of a request failed.
    pub open spec fn delay_after(&self, attempt: nat) -> nat {
        capped_backoff(self.base_delay_ms as nat, self.max_delay_ms as nat, (attempt - 1) as nat)
    }

    /// The wait after the `attempt`-th submission failed: the base delay,
    /// doubled for each earlier failure, never above the maximum.
    pub fn backoff_delay(&self, attempt: u32) -> (r: u64)
        requires
            attempt >= 1,
        ensures
            r == self.delay_after(attempt as nat),
    {
        let base = self.base_delay_ms;
        let cap = self.max_delay_ms;
        let mut d: u64 = if base <= cap {
            base
        } else {
            cap
        };
        let mut i: u32 = 1;
        proof {
            assert(pow2(0) == 1);
            assert(base as nat * 1 == base as nat);
        }
        while i < attempt
            invariant
                1 <= i <= attempt,
                d == capped_backoff(base as nat, cap as nat, (i - 1) as nat),
            decreases attempt - i,
        {
            proof {
                lemma_capped_backoff_next(base as nat, cap as nat, (i - 1) as nat);
            }
            if d > cap / 2 {
                d = cap;
            } else {
                d = d * 2;
            }
            i = i + 1;
        }
        d
    }
}

/// Where the dispatch driver stands with its current request.
#[derive(Clone, Copy, Debug, PartialEq, Eq, Structural)]
pub enum Phase {
    /// No request in hand: waiting on the channel.
    Idle,
    /// The current request is being signed and submitted.
    Submitting,
    /// A submission failed for a transient reason; waiting before the next one.
    BackingOff,
    /// The transaction was accepted; waiting for its confirmation.
    Confirming,
    /// Confirmation timed out once; the status is being checked again.
    Rechecking,
    /// The loop has ended with an error.
    Stopped,
}

/// What the last outside operation produced.
#[derive(Debug)]
pub enum Event {
    /// A request came out of the channel.
    Received(DispatchRequest),
    /// The channel has no sender left.
    ChannelClosed,
    /// The signing identity refused to sign.
    SigningFailed,
    /// The chain accepted the signed transaction.
    SubmitAccepted,
    /// Submission failed for a reason that may pass (network, timeout).
    SubmitTransient,
    /// Submission failed because the transaction itself is invalid or reverts.
    SubmitReverted,
    /// The backoff wait is over.
    BackoffElapsed,
    /// The transaction was confirmed on chain.
    Confirmed,
    /// The transaction was included but its execution reverted.
    ExecutionReverted,
    /// No confirmation came within the bound.
    ConfirmationTimeout,
}

/// The next outside operation to perform.
#[derive(Clone, Copy, Debug, PartialEq, Eq, Structural)]
pub enum Action {
    /// Receive the next request from the channel.
    AwaitRequest,
    /// Sign the current request at the given fee level and submit it.
    Submit { attempt: u32, fee_level: u32 },
    /// Wait this many milliseconds, then report `BackoffElapsed`.
    Wait { delay_ms: u64 },
    /// Wait for the submitted transaction's confirmation.
    AwaitConfirmation,
    /// Query the submitted transaction's status once more.
    RecheckStatus,
    /// End the loop with this error.
    Stop(DriverError),
}

/// The dispatch driver's state between two outside operations.
#[derive(Debug)]
pub struct Dispatcher {
    pub policy: RetryPolicy,
    pub phase: Phase,
    /// The request in hand, if any.
    pub current: Option<DispatchRequest>,
    /// The number of submissions made for the current request.
    pub attempts: u32,
    /// How many times the fee of the current request has been raised.
    pub fee_level: u32,
}

/// The state after the current request is done with: back to the channel.
pub open spec fn finished(d: Dispatcher) -> (Dispatcher, Action) {
    (Dispatcher { phase: Phase::Idle, current: None, attempts: 0, fee_level: 0, ..d }, Action::AwaitRequest)
}

/// The state after a fatal error.
pub open spec fn stopped(d: Dispatcher, e: DriverError) -> (Dispatcher, Action) {
    (Dispatcher { phase: Phase::Stopped, ..d }, Action::Stop(e))
}

/// After a transient failure: wait and submit again at fee level `fee` while
/// the budget allows, else fail the loop.
pub open spec fn retried(d: Dispatcher, fee: u32) -> (Dispatcher, Action) {
    if d.attempts < d.policy.max_attempts {
        (
            Dispatcher { phase: Phase::BackingOff, fee_level: fee, ..d },
            Action::Wait { delay_ms: d.policy.delay_after(d.attempts as nat) as u64 },
        )
    } else {
        stopped(d, DriverError::Dispatch)
    }
}

impl Dispatcher {
    pub open spec fn wf(&self) -> bool {
        &&& self.policy.wf()
        &&& self.phase == Phase::Idle ==> self.current.is_none()
        &&& (self.phase != Phase::Idle && self.phase != Phase::Stopped) ==> {
            &&& self.current.is_some()
            &&& 1 <= self.attempts <= self.policy.max_attempts
        }
        &&& (self.phase == Phase::Submitting || self.phase == Phase::Confirming
            || self.phase == Phase::Rechecking) ==> self.fee_level < self.attempts
        &&& self.phase == Phase::BackingOff ==> {
            &&& self.fee_level <= self.attempts
            &&& self.attempts < self.policy.max_attempts
        }
    }

    /// Whether `e` is a possible outcome of the action that led to this state.
    pub open spec fn expects_event(&self, e: Event) -> bool {
        match self.phase {
            Phase::Idle => e is Received || e is ChannelClosed,
            Phase::Submitting => e is SigningFailed || e is SubmitAccepted || e is SubmitTransient
                || e is SubmitReverted,
            Phase::BackingOff => e is BackoffElapsed,
            Phase::Confirming | Phase::Rechecking => e is Confirmed || e is ExecutionReverted
                || e is ConfirmationTimeout,
            Phase::Stopped => false,
        }
    }

    /// The state and action that follow event `e`.
    pub open spec fn next(self, e: Event) -> (Dispatcher, Action) {
        match e {
            Event::Received(r) => (
                Dispatcher { phase: Phase::Submitting, current: Some(r), attempts: 1, fee_level: 0, ..self },
                Action::Submit { attempt: 1, fee_level: 0 },
            ),
            Event::ChannelClosed => stopped(self, DriverError::ChannelClosed),
            Event::SigningFailed => stopped(self, DriverError::Signing),
            Event::SubmitAccepted => (Dispatcher { phase: Phase::Confirming, ..self }, Action::AwaitConfirmation),
            Event::SubmitTransient => retried(self, self.fee_level),
            Event::SubmitReverted => finished(self),
            Event::BackoffElapsed => (
                Dispatcher { phase: Phase::Submitting, attempts: (self.attempts + 1) as u32, ..self },
                Action::Submit { attempt: (self.attempts + 1) as u32, fee_level: self.fee_level },
            ),
            Event::Confirmed => finished(self),
            Event::ExecutionReverted => finished(self),
            Event::ConfirmationTimeout => if self.phase == Phase::Confirming {
                (Dispatcher { phase: Phase::Rechecking, ..self }, Action::RecheckStatus)
            } else {
                retried(self, (self.fee_level + 1) as u32)
            },
        }
    }

    /// A dispatcher waiting for its first request.
    pub fn new(policy: RetryPolicy) -> (r: Self)
        requires
            policy.wf(),
        ensures
            r.wf(),
            r.policy == policy,
            r.phase == Phase::Idle,
    {
        Dispatcher { policy, phase: Phase::Idle, current: None, attempts: 0, fee_level: 0 }
    }

    /// Whether `e` is a possible outcome of the last action.
    pub fn expects(&self, e: &Event) -> (r: bool)
        ensures
            r == self.expects_event(*e),
    {
        match self.phase {
            Phase::Idle => matches!(e, Event::Received(_) | Event::ChannelClosed),
            Phase::Submitting => matches!(
                e,
                Event::SigningFailed | Event::SubmitAccepted | Event::SubmitTransient | Event::SubmitReverted
            ),
            Phase::BackingOff => matches!(e, Event::BackoffElapsed),
            Phase::Confirming | Phase::Rechecking => matches!(
                e,
                Event::Confirmed | Event::ExecutionReverted | Event::ConfirmationTimeout
            ),
            Phase::Stopped => false,
        }
    }

    fn finish(&mut self) -> (a: Action)
        ensures
            (*final(self), a) == finished(*old(self)),
    {
        self.phase = Phase::Idle;
        self.current = None;
        self.attempts = 0;
        self.fee_level = 0;
        Action::AwaitRequest
    }

    fn stop(&mut self, e: DriverError) -> (a: Action)
        ensures
            (*final(self), a) == stopped(*old(self), e),
    {
        self.phase = Phase::Stopped;
        Action::Stop(e)
    }

    fn retry(&mut self, fee: u32) -> (a: Action)
        requires
            old(self).wf(),
            old(self).attempts >= 1,
        ensures
            (*final(self), a) == retried(*old(self), fee),
    {
        if self.attempts < self.policy.max_attempts {
            let delay_ms = self.policy.backoff_delay(self.attempts);
            self.phase = Phase::BackingOff;
            self.fee_level = fee;
            Action::Wait { delay_ms }
        } else {
            self.stop(DriverError::Dispatch)
        }
    }

    /// Takes the outcome of the last action and returns the next action.
    pub fn step(&mut self, e: Event) -> (a: Action)
        requires
            old(self).wf(),
            old(self).expects_event(e),
        ensures
            (*final(self), a) == old(self).next(e),
            final(self).wf(),
    {
        proof {
            lemma_next_wf(*self, e);
        }
        match e {
            Event::Received(r) => {
                self.phase = Phase::Submitting;
                self.current = Some(r);
                self.attempts = 1;
                self.fee_level = 0;
                Action::Submit { attempt: 1, fee_level: 0 }
            },
            Event::ChannelClosed => self.stop(DriverError::ChannelClosed),
            Event::SigningFailed => self.stop(DriverError::Signing),
            Event::SubmitAccepted => {
                self.phase = Phase::Confirming;
                Action::AwaitConfirmation
            },
            Event::SubmitTransient => {
                let fee = self.fee_level;
                self.retry(fee)
            },
            Event::SubmitReverted => self.finish(),
            Event::BackoffElapsed => {
                self.phase = Phase::Submitting;
                self.attempts = self.attempts + 1;
                Action::Submit { attempt: self.attempts, fee_level: self.fee_level }
            },
            Event::Confirmed => self.finish(),
            Event::ExecutionReverted => self.finish(),
            Event::ConfirmationTimeout => {
                if self.phase == Phase::Confirming {
                    self.phase = Phase::Rechecking;
                    Action::RecheckStatus
                } else {
                    let fee = self.fee_level + 1;
                    self.retry(fee)
                }
            },
        }
    }
}

/// Every step from a well-formed state on an expected event keeps the state
/// well-formed.
pub proof fn lemma_next_wf(d: Dispatcher, e: Event)
    requires
        d.wf(),
        d.expects_event(e),
    ensures
        d.next(e).0.wf(),
{
}

} // verus!
