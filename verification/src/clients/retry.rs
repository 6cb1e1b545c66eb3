//! Bounded retry with linear backoff, as an explicit state machine.
//!
//! The machine never performs a call or a sleep itself. It is told how the
//! last attempt ended and answers with the next thing to do, so the caller
//! owns all waiting and all network traffic.

use vstd::prelude::*;

verus! {

/// How often a failing call is retried and how fast the pauses grow.
#[derive(Debug, Clone, Copy, PartialEq, Eq, Structural)]
pub struct RetryPolicy {
    /// Retries allowed after the first attempt.
    pub max_retries: u32,
    /// Pause before the first retry, in milliseconds. The pause before
    /// retry `n` is `n` times this value.
    pub base_delay_ms: u32,
}

/// Where a single fetch stands.
#[derive(Debug, Clone, Copy, PartialEq, Eq, Structural)]
pub enum RetryState {
    /// An attempt is due or in flight; `failures` attempts have failed so far.
    Attempting { failures: u32 },
    /// Waiting `delay_ms` before the next attempt; `failures` attempts have failed.
    Backoff { failures: u32, delay_ms: u64 },
    /// Gave up after `attempts` attempts, all of which failed.
    Exhausted { attempts: u64 },
    /// The attempt numbered `attempts` succeeded.
    Succeeded { attempts: u64 },
}

/// What the caller reports back to the machine.
#[derive(Debug, Clone, Copy, PartialEq, Eq, Structural)]
pub enum RetryEvent {
    AttemptSucceeded,
    AttemptFailed,
    BackoffElapsed,
}

/// What the caller has to do next.
#[derive(Debug, Clone, Copy, PartialEq, Eq, Structural)]
pub enum RetryAction {
    /// Issue the call once, with a fresh timeout.
    Attempt,
    /// Wait this many milliseconds, then report `BackoffElapsed`.
    Sleep { delay_ms: u64 },
    /// Hand the payload of the last attempt to the caller.
    Deliver,
    /// Report the last failure as terminal.
    GiveUp,
    /// The event does not fit the state; nothing changes.
    Ignore,
}

impl RetryPolicy {
    /// Pause before retry number `retry`, counted from 1.
    pub open spec fn spec_delay(self, retry: nat) -> nat {
        self.base_delay_ms as nat * retry
    }

    pub fn delay_for(&self, retry: u32) -> (d: u64)
        ensures
            d == self.spec_delay(retry as nat),
    {
        assert(self.base_delay_ms as nat * retry as nat <= u64::MAX) by (nonlinear_arith)
            requires
                self.base_delay_ms <= u32::MAX,
                retry <= u32::MAX,
        ;
        self.base_delay_ms as u64 * retry as u64
    }

    /// The state a fresh fetch starts in.
    pub fn start(&self) -> (s: RetryState)
        ensures
            s == spec_start(),
    {
        RetryState::Attempting { failures: 0 }
    }

    /// One transition of the machine.
    pub fn step(&self, state: RetryState, event: RetryEvent) -> (r: (RetryState, RetryAction))
        requires
            state.wf(*self),
        ensures
            r == spec_step(*self, state, event),
            r.0.wf(*self),
    {
        match state {
            RetryState::Attempting { failures } => match event {
                RetryEvent::AttemptSucceeded => (
                    RetryState::Succeeded { attempts: failures as u64 + 1 },
                    RetryAction::Deliver,
                ),
                RetryEvent::AttemptFailed => {
                    if failures < self.max_retries {
                        let delay_ms = self.delay_for(failures + 1);
                        (
                            RetryState::Backoff { failures: failures + 1, delay_ms },
                            RetryAction::Sleep { delay_ms },
                        )
                    } else {
                        (RetryState::Exhausted { attempts: failures as u64 + 1 }, RetryAction::GiveUp)
                    }
                },
                RetryEvent::BackoffElapsed => (state, RetryAction::Ignore),
            },
            RetryState::Backoff { failures, delay_ms } => match event {
                RetryEvent::BackoffElapsed => (
                    RetryState::Attempting { failures },
                    RetryAction::Attempt,
                ),
                _ => (state, RetryAction::Ignore),
            },
            RetryState::Exhausted { .. } => (state, RetryAction::Ignore),
            RetryState::Succeeded { .. } => (state, RetryAction::Ignore),
        }
    }
}

impl RetryState {
    /// The counters stay within what the policy allows, and a pause is the
    /// one the policy prescribes.
    pub open spec fn wf(self, policy: RetryPolicy) -> bool {
        match self {
            RetryState::Attempting { failures } => failures <= policy.max_retries,
            RetryState::Backoff { failures, delay_ms } => 1 <= failures <= policy.max_retries
                && delay_ms == policy.spec_delay(failures as nat),
            RetryState::Exhausted { attempts } => attempts == policy.max_retries + 1,
            RetryState::Succeeded { attempts } => 1 <= attempts <= policy.max_retries + 1,
        }
    }

    /// Whether the state is one the policy can reach.
    pub fn fits(&self, policy: &RetryPolicy) -> (b: bool)
        ensures
            b == self.wf(*policy),
    {
        match *self {
            RetryState::Attempting { failures } => failures <= policy.max_retries,
            RetryState::Backoff { failures, delay_ms } => 1 <= failures && failures
                <= policy.max_retries && delay_ms == policy.delay_for(failures),
            RetryState::Exhausted { attempts } => attempts == policy.max_retries as u64 + 1,
            RetryState::Succeeded { attempts } => 1 <= attempts && attempts
                <= policy.max_retries as u64 + 1,
        }
    }

    pub open spec fn is_terminal(self) -> bool {
        self is Exhausted || self is Succeeded
    }

    pub fn terminal(&self) -> (b: bool)
        ensures
            b == self.is_terminal(),
    {
        match self {
            RetryState::Exhausted { .. } => true,
            RetryState::Succeeded { .. } => true,
            _ => false,
        }
    }
}

pub open spec fn spec_start() -> RetryState {
    RetryState::Attempting { failures: 0 }
}

/// The transition relation, as a function.
pub open spec fn spec_step(policy: RetryPolicy, state: RetryState, event: RetryEvent) -> (
    RetryState,
    RetryAction,
) {
    match state {
        RetryState::Attempting { failures } => match event {
            RetryEvent::AttemptSucceeded => (
                RetryState::Succeeded { attempts: (failures + 1) as u64 },
                RetryAction::Deliver,
            ),
            RetryEvent::AttemptFailed => if failures < policy.max_retries {
                (
                    RetryState::Backoff {
                        failures: (failures + 1) as u32,
                        delay_ms: policy.spec_delay((failures + 1) as nat) as u64,
                    },
                    RetryAction::Sleep { delay_ms: policy.spec_delay((failures + 1) as nat) as u64 },
                )
            } else {
                (RetryState::Exhausted { attempts: (failures + 1) as u64 }, RetryAction::GiveUp)
            },
            RetryEvent::BackoffElapsed => (state, RetryAction::Ignore),
        },
        RetryState::Backoff { failures, delay_ms } => match event {
            RetryEvent::BackoffElapsed => (RetryState::Attempting { failures }, RetryAction::Attempt),
            _ => (state, RetryAction::Ignore),
        },
        RetryState::Exhausted { .. } => (state, RetryAction::Ignore),
        RetryState::Succeeded { .. } => (state, RetryAction::Ignore),
    }
}

/// What a whole fetch amounted to: the state it ended in and every pause
/// that was taken on the way, in order.
#[derive(Debug)]
pub struct RetryTrace {
    pub state: RetryState,
    pub delays: Vec<u64>,
}

/// Number of failed attempts before the first success; the whole length
/// when nothing succeeds. `true` stands for a successful attempt.
pub open spec fn leading_failures(outcomes: Seq<bool>) -> nat
    decreases outcomes.len(),
{
    if outcomes.len() == 0 || outcomes[0] {
        0
    } else {
        1 + leading_failures(outcomes.drop_first())
    }
}

/// The pauses before retries `1..=count`.
pub open spec fn spec_delays(policy: RetryPolicy, count: nat) -> Seq<u64> {
    Seq::new(count, |i: int| policy.spec_delay((i + 1) as nat) as u64)
}

/// Attempts the policy makes when the upstream answers as `outcomes` says:
/// it stops at the first success, at the retry bound, or when the recorded
/// answers run out.
pub open spec fn spec_attempts(policy: RetryPolicy, outcomes: Seq<bool>) -> nat {
    let f = leading_failures(outcomes);
    if f > policy.max_retries {
        (policy.max_retries + 1) as nat
    } else if f < outcomes.len() {
        f + 1
    } else {
        f
    }
}

/// The state a fetch ends in when the upstream answers as `outcomes` says.
pub open spec fn spec_final_state(policy: RetryPolicy, outcomes: Seq<bool>) -> RetryState {
    let f = leading_failures(outcomes);
    if f > policy.max_retries {
        RetryState::Exhausted { attempts: (policy.max_retries + 1) as u64 }
    } else if f < outcomes.len() {
        RetryState::Succeeded { attempts: (f + 1) as u64 }
    } else {
        RetryState::Attempting { failures: f as u32 }
    }
}

/// Pauses taken on the way to `spec_final_state`.
pub open spec fn spec_pauses(policy: RetryPolicy, outcomes: Seq<bool>) -> Seq<u64> {
    let f = leading_failures(outcomes);
    if f > policy.max_retries {
        spec_delays(policy, policy.max_retries as nat)
    } else {
        spec_delays(policy, f)
    }
}

/// `f` failures open the sequence and the entry after them, if there is
/// one, is a success.
pub open spec fn opens_with_failures(outcomes: Seq<bool>, f: nat) -> bool {
    &&& f <= outcomes.len()
    &&& forall|j: int| 0 <= j < f ==> !outcomes[j]
    &&& f < outcomes.len() ==> outcomes[f as int]
}

pub proof fn lemma_leading_failures_unique(outcomes: Seq<bool>, f: nat)
    requires
        opens_with_failures(outcomes, f),
    ensures
        leading_failures(outcomes) == f,
    decreases f,
{
    if f > 0 {
        let rest = outcomes.drop_first();
        assert(!outcomes[0]);
        assert forall|j: int| 0 <= j < f - 1 implies !rest[j] by {
            assert(rest[j] == outcomes[j + 1]);
        }
        if f - 1 < rest.len() {
            assert(rest[f - 1] == outcomes[f as int]);
        }
        lemma_leading_failures_unique(rest, (f - 1) as nat);
    }
}

/// At least `f` failures open the sequence.
pub proof fn lemma_leading_failures_at_least(outcomes: Seq<bool>, f: nat)
    requires
        f <= outcomes.len(),
        forall|j: int| 0 <= j < f ==> !outcomes[j],
    ensures
        leading_failures(outcomes) >= f,
    decreases f,
{
    if f > 0 {
        let rest = outcomes.drop_first();
        assert(!outcomes[0]);
        assert forall|j: int| 0 <= j < f - 1 implies !rest[j] by {
            assert(rest[j] == outcomes[j + 1]);
        }
        lemma_leading_failures_at_least(rest, (f - 1) as nat);
    }
}

impl RetryPolicy {
    /// Drives the machine through one fetch against recorded attempt
    /// outcomes (`true` for success) and reports where it ended.
    pub fn run(&self, outcomes: &Vec<bool>) -> (t: RetryTrace)
        ensures
            t.state == spec_final_state(*self, outcomes@),
            t.delays@ == spec_pauses(*self, outcomes@),
            t.state.wf(*self),
    {
        let mut state = self.start();
        let mut delays: Vec<u64> = Vec::new();
        let mut i: usize = 0;
        while i < outcomes.len()
            invariant
                i <= outcomes.len(),
                i <= self.max_retries,
                state == (RetryState::Attempting { failures: i as u32 }),
                forall|j: int| 0 <= j < i ==> !outcomes@[j],
                delays@ == spec_delays(*self, i as nat),
            decreases outcomes.len() - i,
        {
            let event = if outcomes[i] {
                RetryEvent::AttemptSucceeded
            } else {
                RetryEvent::AttemptFailed
            };
            let (next, action) = self.step(state, event);
            match action {
                RetryAction::Sleep { delay_ms } => {
                    delays.push(delay_ms);
                    let (resumed, _) = self.step(next, RetryEvent::BackoffElapsed);
                    state = resumed;
                    i = i + 1;
                    assert(delays@ =~= spec_delays(*self, i as nat));
                },
                _ => {
                    proof {
                        if outcomes@[i as int] {
                            lemma_leading_failures_unique(outcomes@, i as nat);
                        } else {
                            lemma_leading_failures_at_least(outcomes@, (i + 1) as nat);
                        }
                    }
                    return RetryTrace { state: next, delays };
                },
            }
        }
        proof {
            lemma_leading_failures_unique(outcomes@, i as nat);
        }
        RetryTrace { state, delays }
    }
}

/// Retry bound: against an upstream that never succeeds, and with enough
/// recorded answers to run out the budget, exactly `max_retries + 1`
/// attempts are made and the fetch ends exhausted.
pub proof fn lemma_retry_bound(policy: RetryPolicy, outcomes: Seq<bool>)
    requires
        outcomes.len() > policy.max_retries,
        forall|j: int| 0 <= j < outcomes.len() ==> !outcomes[j],
    ensures
        spec_attempts(policy, outcomes) == policy.max_retries + 1,
        spec_final_state(policy, outcomes) == (RetryState::Exhausted {
            attempts: (policy.max_retries + 1) as u64,
        }),
        spec_pauses(policy, outcomes).len() == policy.max_retries,
{
    lemma_leading_failures_unique(outcomes, outcomes.len());
}

/// However the upstream answers, no more than `max_retries + 1` attempts
/// are made.
pub proof fn lemma_attempts_bounded(policy: RetryPolicy, outcomes: Seq<bool>)
    ensures
        spec_attempts(policy, outcomes) <= policy.max_retries + 1,
        spec_pauses(policy, outcomes).len() <= policy.max_retries,
{
}

/// Backoff monotonicity: a later retry never waits less than an earlier one.
pub proof fn lemma_delay_monotonic(policy: RetryPolicy, earlier: nat, later: nat)
    requires
        earlier <= later,
    ensures
        policy.spec_delay(earlier) <= policy.spec_delay(later),
{
    assert(policy.base_delay_ms as nat * earlier <= policy.base_delay_ms as nat * later)
        by (nonlinear_arith)
        requires
            earlier <= later,
    ;
}

/// Backoff monotonicity over a whole fetch: the pauses taken for one
/// failing call are non-decreasing.
pub proof fn lemma_pauses_non_decreasing(policy: RetryPolicy, outcomes: Seq<bool>)
    ensures
        forall|i: int, j: int|
            0 <= i <= j < spec_pauses(policy, outcomes).len() ==> spec_pauses(policy, outcomes)[i]
                <= spec_pauses(policy, outcomes)[j],
{
    let pauses = spec_pauses(policy, outcomes);
    assert forall|i: int, j: int| 0 <= i <= j < pauses.len() implies pauses[i] <= pauses[j] by {
        lemma_delay_monotonic(policy, (i + 1) as nat, (j + 1) as nat);
        assert(policy.base_delay_ms as nat * (j + 1) as nat <= u64::MAX) by (nonlinear_arith)
            requires
                policy.base_delay_ms <= u32::MAX,
                0 <= j < u32::MAX,
        ;
        assert(policy.base_delay_ms as nat * (i + 1) as nat <= u64::MAX) by (nonlinear_arith)
            requires
                policy.base_delay_ms <= u32::MAX,
                0 <= i < u32::MAX,
        ;
    }
}

} // verus!
