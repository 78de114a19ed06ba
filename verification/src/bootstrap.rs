//! Bootstrap of the outbound secure channel: a bounded-retry state machine.
//!
//! Peers start concurrently with no ordering guarantee, so the bootstrapper
//! tolerates "peer not yet listening" by retrying on a fixed backoff, up to a
//! fixed cap, and then gives up fatally. A configuration error (malformed
//! address, unusable certificate material) is fatal at once and consumes no
//! retry. The owning process performs the handshakes and the waiting; this
//! machine decides, from each attempt's outcome, what happens next.

use vstd::prelude::*;

verus! {

/// Total attempts allowed against a peer that is not yet listening.
pub const MAX_ATTEMPTS: u32 = 15;

/// Seconds to wait between one failed attempt and the next.
pub const RETRY_BACKOFF_SECS: u64 = 2;

/// What one connection attempt came to.
#[derive(Clone, Copy, Debug, PartialEq, Eq, Structural)]
pub enum AttemptOutcome {
    /// Handshake completed and peer identity verified.
    Connected,
    /// The peer refused or is not yet listening: transient, worth a retry.
    NotReady,
    /// Malformed peer address or unusable certificate material: fatal at
    /// once, no retry.
    BadConfig,
}

/// Where the bootstrapper stands.
#[derive(Clone, Copy, Debug, PartialEq, Eq, Structural)]
pub enum BootstrapState {
    /// No attempt started yet.
    Idle,
    /// About to make the numbered attempt (1-based); all earlier ones failed
    /// transiently.
    Attempting { attempt: u32 },
    /// The channel is established; serving inbound requests may begin.
    Connected { attempts_used: u32 },
    /// Retries exhausted, or the configuration is bad: the owning process
    /// terminates with a non-zero status.
    Failed,
}

/// What the owning process must do next.
#[derive(Clone, Copy, Debug, PartialEq, Eq, Structural)]
pub enum BootstrapAction {
    /// Try a handshake now.
    Attempt,
    /// Wait the given number of seconds, then try again.
    RetryAfter { seconds: u64 },
    /// The channel is ready: start serving.
    Serve,
    /// Terminate with a non-zero status and a cause on the diagnostic
    /// stream.
    GiveUp,
}

/// A state the machine can actually be in while attempting: attempt numbers
/// run from 1 to the cap.
pub open spec fn state_wf(state: BootstrapState) -> bool {
    state is Attempting ==> 1 <= attempt_of(state) <= MAX_ATTEMPTS
}

/// The attempt number of an attempting state.
pub open spec fn attempt_of(state: BootstrapState) -> u32 {
    match state {
        BootstrapState::Attempting { attempt } => attempt,
        _ => 0,
    }
}

/// The transition relation: what one attempt outcome does to an attempting
/// state. Success connects, recording how many attempts it took; a
/// configuration error fails at once; a transient failure retries after the
/// fixed backoff until the cap is spent.
pub open spec fn step_spec(state: BootstrapState, outcome: AttemptOutcome) -> (
    BootstrapState,
    BootstrapAction,
) {
    match (state, outcome) {
        (BootstrapState::Attempting { attempt }, AttemptOutcome::Connected) => (
            BootstrapState::Connected { attempts_used: attempt },
            BootstrapAction::Serve,
        ),
        (BootstrapState::Attempting { attempt }, AttemptOutcome::BadConfig) => (
            BootstrapState::Failed,
            BootstrapAction::GiveUp,
        ),
        (BootstrapState::Attempting { attempt }, AttemptOutcome::NotReady) => if attempt
            < MAX_ATTEMPTS {
            (
                BootstrapState::Attempting { attempt: (attempt + 1) as u32 },
                BootstrapAction::RetryAfter { seconds: RETRY_BACKOFF_SECS },
            )
        } else {
            (BootstrapState::Failed, BootstrapAction::GiveUp)
        },
        (s, _) => (s, BootstrapAction::GiveUp),
    }
}

/// Begin bootstrapping: the first attempt should be made immediately.
pub fn bootstrap_start() -> (r: (BootstrapState, BootstrapAction))
    ensures
        r.0 == (BootstrapState::Attempting { attempt: 1u32 }),
        r.1 == BootstrapAction::Attempt,
        state_wf(r.0),
{
    (BootstrapState::Attempting { attempt: 1 }, BootstrapAction::Attempt)
}

/// Feed the machine one attempt's outcome; returns the next state and what
/// to do. Exactly the transition relation.
pub fn bootstrap_step(state: BootstrapState, outcome: AttemptOutcome) -> (r: (
    BootstrapState,
    BootstrapAction,
))
    requires
        state is Attempting,
        state_wf(state),
    ensures
        r == step_spec(state, outcome),
        state_wf(r.0),
{
    match (state, outcome) {
        (BootstrapState::Attempting { attempt }, AttemptOutcome::Connected) => (
            BootstrapState::Connected { attempts_used: attempt },
            BootstrapAction::Serve,
        ),
        (BootstrapState::Attempting { attempt: _ }, AttemptOutcome::BadConfig) => (
            BootstrapState::Failed,
            BootstrapAction::GiveUp,
        ),
        (BootstrapState::Attempting { attempt }, AttemptOutcome::NotReady) => {
            if attempt < MAX_ATTEMPTS {
                (
                    BootstrapState::Attempting { attempt: attempt + 1 },
                    BootstrapAction::RetryAfter { seconds: RETRY_BACKOFF_SECS },
                )
            } else {
                (BootstrapState::Failed, BootstrapAction::GiveUp)
            }
        },
        (s, _) => (s, BootstrapAction::GiveUp),
    }
}

/// The state after running the machine over a sequence of attempt outcomes,
/// consuming outcomes only while still attempting.
pub open spec fn run_from(state: BootstrapState, outcomes: Seq<AttemptOutcome>) -> BootstrapState
    decreases outcomes.len(),
{
    if outcomes.len() == 0 || !(state is Attempting) {
        state
    } else {
        run_from(step_spec(state, outcomes[0]).0, outcomes.drop_first())
    }
}

/// The state every bootstrap starts from.
pub open spec fn start_state() -> BootstrapState {
    BootstrapState::Attempting { attempt: 1u32 }
}

/// From attempt number `a`, a run whose first `k - 1` outcomes are transient
/// failures and whose `k`-th is a success connects, having used `a + k - 1`
/// attempts in all.
proof fn lemma_run_connects_from(a: u32, outcomes: Seq<AttemptOutcome>, k: int)
    requires
        1 <= a,
        1 <= k,
        a + k - 1 <= MAX_ATTEMPTS,
        outcomes.len() >= k,
        forall|i: int| 0 <= i < k - 1 ==> outcomes[i] is NotReady,
        outcomes[k - 1] is Connected,
    ensures
        run_from(BootstrapState::Attempting { attempt: a }, outcomes)
            == (BootstrapState::Connected { attempts_used: (a + k - 1) as u32 }),
    decreases k,
{
    if k == 1 {
        let next = step_spec(BootstrapState::Attempting { attempt: a }, outcomes[0]).0;
        assert(next == (BootstrapState::Connected { attempts_used: a }));
        assert(run_from(next, outcomes.drop_first()) == next);
    } else {
        assert(outcomes[0] is NotReady);
        let d = outcomes.drop_first();
        assert forall|i: int| 0 <= i < k - 2 implies d[i] is NotReady by {
            assert(d[i] == outcomes[i + 1]);
        }
        assert(d[k - 2] == outcomes[k - 1]);
        lemma_run_connects_from((a + 1) as u32, d, k - 1);
    }
}

/// From attempt number `a`, a run of nothing but transient failures stays
/// attempting until the cap and fails exactly when the cap is spent.
proof fn lemma_run_not_ready_from(a: u32, outcomes: Seq<AttemptOutcome>)
    requires
        1 <= a <= MAX_ATTEMPTS,
        a + outcomes.len() <= MAX_ATTEMPTS + 1,
        forall|i: int| 0 <= i < outcomes.len() ==> outcomes[i] is NotReady,
    ensures
        a + outcomes.len() <= MAX_ATTEMPTS ==> run_from(
            BootstrapState::Attempting { attempt: a },
            outcomes,
        ) == (BootstrapState::Attempting { attempt: (a + outcomes.len()) as u32 }),
        a + outcomes.len() == MAX_ATTEMPTS + 1 ==> run_from(
            BootstrapState::Attempting { attempt: a },
            outcomes,
        ) == BootstrapState::Failed,
    decreases outcomes.len(),
{
    if outcomes.len() == 0 {
    } else {
        assert(outcomes[0] is NotReady);
        let d = outcomes.drop_first();
        assert forall|i: int| 0 <= i < d.len() implies d[i] is NotReady by {
            assert(d[i] == outcomes[i + 1]);
        }
        if a < MAX_ATTEMPTS {
            lemma_run_not_ready_from((a + 1) as u32, d);
        } else {
            assert(step_spec(BootstrapState::Attempting { attempt: a }, outcomes[0]).0
                == BootstrapState::Failed);
            assert(run_from(BootstrapState::Failed, d) == BootstrapState::Failed);
        }
    }
}

/// Law: against a peer that starts listening only at the `k`-th attempt, the
/// bootstrapper succeeds at exactly that attempt, and never beyond the cap.
pub proof fn lemma_bootstrap_connects(outcomes: Seq<AttemptOutcome>, k: int)
    requires
        1 <= k <= MAX_ATTEMPTS,
        outcomes.len() >= k,
        forall|i: int| 0 <= i < k - 1 ==> outcomes[i] is NotReady,
        outcomes[k - 1] is Connected,
    ensures
        run_from(start_state(), outcomes) == (BootstrapState::Connected {
            attempts_used: k as u32,
        }),
{
    lemma_run_connects_from(1, outcomes, k);
}

/// Law: against a peer that never starts listening, the bootstrapper makes
/// exactly the capped number of attempts — after any shorter run it is still
/// attempting, with one retry spaced by the fixed backoff after each failed
/// attempt — and then fails, which terminates the owning process.
pub proof fn lemma_bootstrap_exhausts(outcomes: Seq<AttemptOutcome>)
    requires
        outcomes.len() >= MAX_ATTEMPTS,
        forall|i: int| 0 <= i < MAX_ATTEMPTS ==> outcomes[i] is NotReady,
    ensures
        run_from(start_state(), outcomes.take(MAX_ATTEMPTS as int)) == BootstrapState::Failed,
        forall|j: int|
            0 <= j < MAX_ATTEMPTS ==> run_from(start_state(), outcomes.take(j))
                == (BootstrapState::Attempting { attempt: (j + 1) as u32 }),
        forall|j: u32|
            1 <= j < MAX_ATTEMPTS ==> step_spec(
                BootstrapState::Attempting { attempt: j },
                AttemptOutcome::NotReady,
            ).1 == (BootstrapAction::RetryAfter { seconds: RETRY_BACKOFF_SECS }),
{
    let full = outcomes.take(MAX_ATTEMPTS as int);
    assert forall|i: int| 0 <= i < full.len() implies full[i] is NotReady by {
        assert(full[i] == outcomes[i]);
    }
    lemma_run_not_ready_from(1, full);
    assert forall|j: int| 0 <= j < MAX_ATTEMPTS implies run_from(start_state(), outcomes.take(j))
        == (BootstrapState::Attempting { attempt: (j + 1) as u32 }) by {
        let pre = outcomes.take(j);
        assert forall|i: int| 0 <= i < pre.len() implies pre[i] is NotReady by {
            assert(pre[i] == outcomes[i]);
        }
        lemma_run_not_ready_from(1, pre);
    }
}

} // verus!
