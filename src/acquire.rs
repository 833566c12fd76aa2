use vstd::prelude::*;

use crate::policy::{total, RetryPolicy};

verus! {

/// Why one attempt failed. Every failure is transient: it is retried while
/// the attempt budget lasts, and only the last one is reported.
#[derive(Clone, Debug, PartialEq, Eq)]
pub enum FailureReason {
    /// No connection became free within the pool's wait.
    PoolExhausted,
    /// Opening or recycling a connection took too long.
    TimedOut,
    /// The backend could not be reached or refused; the text says why.
    Unreachable(String),
}

/// What one attempt to check out a connection came to.
#[derive(Clone, Debug, PartialEq, Eq)]
pub enum AttemptOutcome {
    Success,
    TransientFailure(FailureReason),
}

/// The terminal error of an acquisition.
#[derive(Clone, Debug, PartialEq, Eq)]
pub enum AcquireError {
    /// The whole attempt budget was spent; this is the last failure.
    Exhausted(FailureReason),
}

/// What the caller of the state machine is to do next.
#[derive(Clone, Debug, PartialEq, Eq)]
pub enum Action {
    /// Hand the checked-out connection to the caller: the acquisition is over.
    Deliver,
    /// Wait this many milliseconds, holding nothing, then attempt again.
    Sleep(u64),
    /// Give up with this error: the acquisition is over.
    GiveUp(AcquireError),
}

/// Where an acquisition stands.
#[derive(Clone, Copy, Debug, PartialEq, Eq, Structural)]
pub enum Phase {
    /// No attempt made yet; the first one starts without delay.
    Ready,
    /// One attempt is under way.
    InFlight,
    /// The last attempt failed and the delay before the next one runs.
    Waiting,
    /// An attempt succeeded.
    Acquired,
    /// The budget is spent and every attempt failed.
    Exhausted,
}

/// The mathematical model of an acquisition: its policy, the attempts
/// started so far, the delays waited so far (in order) and its phase.
pub struct AcqState {
    pub policy: RetryPolicy,
    pub attempts: nat,
    pub waits: Seq<u64>,
    pub phase: Phase,
}

impl AcqState {
    pub open spec fn initial(policy: RetryPolicy) -> AcqState {
        AcqState { policy, attempts: 0, waits: Seq::empty(), phase: Phase::Ready }
    }

    pub open spec fn is_done(self) -> bool {
        self.phase is Acquired || self.phase is Exhausted
    }

    /// Starting the next attempt.
    pub open spec fn begin(self) -> AcqState {
        AcqState {
            policy: self.policy,
            attempts: self.attempts + 1,
            waits: self.waits,
            phase: Phase::InFlight,
        }
    }

    /// The delay that follows a failure of the current attempt, for a draw.
    pub open spec fn next_wait(self, sample: u64) -> u64 {
        self.policy.realized((self.attempts - 1) as nat, sample)
    }

    /// Settling the current attempt with its outcome; `sample` is the random
    /// draw for the delay that follows a failure.
    pub open spec fn resolve(self, outcome: AttemptOutcome, sample: u64) -> AcqState {
        match outcome {
            AttemptOutcome::Success => AcqState {
                policy: self.policy,
                attempts: self.attempts,
                waits: self.waits,
                phase: Phase::Acquired,
            },
            AttemptOutcome::TransientFailure(_) => if self.attempts < self.policy.budget() {
                AcqState {
                    policy: self.policy,
                    attempts: self.attempts,
                    waits: self.waits.push(self.next_wait(sample)),
                    phase: Phase::Waiting,
                }
            } else {
                AcqState {
                    policy: self.policy,
                    attempts: self.attempts,
                    waits: self.waits,
                    phase: Phase::Exhausted,
                }
            },
        }
    }

    /// The action that goes with `resolve`.
    pub open spec fn action(self, outcome: AttemptOutcome, sample: u64) -> Action {
        match outcome {
            AttemptOutcome::Success => Action::Deliver,
            AttemptOutcome::TransientFailure(reason) => if self.attempts < self.policy.budget() {
                Action::Sleep(self.next_wait(sample))
            } else {
                Action::GiveUp(AcquireError::Exhausted(reason))
            },
        }
    }

    /// The states an acquisition can be in.
    pub open spec fn wf(self) -> bool {
        &&& self.policy.wf()
        &&& self.attempts <= self.policy.budget()
        &&& (self.phase is Ready ==> self.attempts == 0 && self.waits.len() == 0)
        &&& (self.phase is Waiting ==> 1 <= self.attempts < self.policy.budget()
            && self.waits.len() == self.attempts)
        &&& (self.phase is InFlight || self.phase is Acquired || self.phase is Exhausted
            ==> self.attempts >= 1 && self.waits.len() == self.attempts - 1)
        &&& (self.phase is Exhausted ==> self.attempts == self.policy.budget())
        &&& forall|i: int|
            0 <= i < self.waits.len() ==> #[trigger] self.waits[i] <= self.policy.cap(i as nat)
    }
}

/// One call's acquisition: the decisions between attempts, apart from the
/// pool and the clock. Whoever drives it checks out a connection on each
/// attempt, reports the outcome, and sleeps where it is told to.
pub struct Acquisition {
    policy: RetryPolicy,
    attempts: u64,
    waits: Vec<u64>,
    phase: Phase,
}

impl View for Acquisition {
    type V = AcqState;

    closed spec fn view(&self) -> AcqState {
        AcqState {
            policy: self.policy,
            attempts: self.attempts as nat,
            waits: self.waits@,
            phase: self.phase,
        }
    }
}

impl Acquisition {
    pub open spec fn wf(&self) -> bool {
        self@.wf()
    }

    /// A fresh acquisition under `policy`.
    pub fn new(policy: RetryPolicy) -> (r: Acquisition)
        requires
            policy.wf(),
        ensures
            r@ == AcqState::initial(policy),
            r.wf(),
    {
        Acquisition { policy, attempts: 0, waits: Vec::new(), phase: Phase::Ready }
    }

    /// The policy this acquisition follows.
    pub fn policy(&self) -> (r: RetryPolicy)
        ensures
            r == self@.policy,
    {
        self.policy
    }

    /// The number of attempts started so far.
    pub fn attempts_made(&self) -> (r: u64)
        ensures
            r as nat == self@.attempts,
    {
        self.attempts
    }

    /// The delays waited so far, in order, in milliseconds.
    pub fn waits(&self) -> (r: &Vec<u64>)
        ensures
            r@ == self@.waits,
    {
        &self.waits
    }

    /// Where the acquisition stands.
    pub fn phase(&self) -> (r: Phase)
        ensures
            r == self@.phase,
    {
        self.phase
    }

    /// Whether an attempt may start now: none has yet, or a delay is over.
    pub fn can_attempt(&self) -> (r: bool)
        ensures
            r == (self@.phase is Ready || self@.phase is Waiting),
    {
        match self.phase {
            Phase::Ready | Phase::Waiting => true,
            _ => false,
        }
    }

    /// Starts the next attempt.
    pub fn begin_attempt(&mut self)
        requires
            old(self).wf(),
            old(self)@.phase is Ready || old(self)@.phase is Waiting,
        ensures
            final(self)@ == old(self)@.begin(),
            final(self).wf(),
    {
        self.attempts = self.attempts + 1;
        self.phase = Phase::InFlight;
    }

    /// Settles the attempt under way with its outcome. `sample` is the
    /// random draw for the delay that follows a failure (the jittered policy
    /// waits it, clamped to the cap; the fixed policy ignores it).
    pub fn record_outcome(&mut self, outcome: AttemptOutcome, sample: u64) -> (act: Action)
        requires
            old(self).wf(),
            old(self)@.phase is InFlight,
        ensures
            final(self)@ == old(self)@.resolve(outcome, sample),
            act == old(self)@.action(outcome, sample),
            final(self).wf(),
    {
        match outcome {
            AttemptOutcome::Success => {
                self.phase = Phase::Acquired;
                Action::Deliver
            },
            AttemptOutcome::TransientFailure(reason) => {
                if self.attempts < self.policy.attempts() {
                    let d = self.policy.delay_from_sample(self.attempts - 1, sample);
                    self.waits.push(d);
                    self.phase = Phase::Waiting;
                    Action::Sleep(d)
                } else {
                    self.phase = Phase::Exhausted;
                    Action::GiveUp(AcquireError::Exhausted(reason))
                }
            },
        }
    }

    /// Settles the attempt under way with its outcome, drawing the jitter of
    /// the following delay afresh.
    pub fn resolve(&mut self, outcome: AttemptOutcome) -> (act: Action)
        requires
            old(self).wf(),
            old(self)@.phase is InFlight,
        ensures
            exists|s: u64|
                final(self)@ == old(self)@.resolve(outcome, s) && act == old(self)@.action(
                    outcome,
                    s,
                ),
            final(self).wf(),
    {
        let d = self.policy.next_delay(self.attempts - 1);
        let ghost pre = self@;
        let act = self.record_outcome(outcome, d);
        assert(self@ == pre.resolve(outcome, d) && act == pre.action(outcome, d));
        act
    }
}

/// The state that a run of attempts with these outcomes leads to, from a
/// fresh acquisition: each outcome settles one attempt until the acquisition
/// is over, and the draw `samples[i]` belongs to the delay after attempt
/// `i + 1`. Outcomes past the end of the acquisition are never asked for.
pub open spec fn run(policy: RetryPolicy, outcomes: Seq<AttemptOutcome>, samples: Seq<u64>) -> AcqState
    decreases outcomes.len(),
{
    if outcomes.len() == 0 {
        AcqState::initial(policy)
    } else {
        let prev = run(policy, outcomes.drop_last(), samples);
        if prev.is_done() {
            prev
        } else {
            prev.begin().resolve(outcomes.last(), samples[outcomes.len() - 1])
        }
    }
}

/// The computed delay sequence for the given draws: one delay per attempt of
/// the budget, `samples[i]` being the draw for the delay with index `i`.
pub open spec fn realized_delays(policy: RetryPolicy, samples: Seq<u64>) -> Seq<u64> {
    Seq::new(policy.budget(), |i: int| policy.realized(i as nat, samples[i]))
}

/// Whether the first `k` outcomes are all failures.
pub open spec fn fails_first(outcomes: Seq<AttemptOutcome>, k: nat) -> bool {
    forall|i: int| 0 <= i < k ==> #[trigger] outcomes[i] is TransientFailure
}

proof fn lemma_run_failures(policy: RetryPolicy, outcomes: Seq<AttemptOutcome>, samples: Seq<u64>)
    requires
        policy.wf(),
        outcomes.len() <= policy.budget(),
        fails_first(outcomes, outcomes.len()),
    ensures
        ({
            let s = run(policy, outcomes, samples);
            &&& s.wf()
            &&& s.policy == policy
            &&& s.attempts == outcomes.len()
            &&& outcomes.len() == 0 ==> s.phase is Ready
            &&& 0 < outcomes.len() < policy.budget() ==> s.phase is Waiting
            &&& outcomes.len() == policy.budget() ==> s.phase is Exhausted
            &&& forall|i: int|
                0 <= i < s.waits.len() ==> #[trigger] s.waits[i] == policy.realized(
                    i as nat,
                    samples[i],
                )
        }),
    decreases outcomes.len(),
{
    if outcomes.len() > 0 {
        let pre = outcomes.drop_last();
        assert(fails_first(pre, pre.len())) by {
            assert forall|i: int| 0 <= i < pre.len() implies #[trigger] pre[i] is TransientFailure by {
                assert(outcomes[i] is TransientFailure);
            }
        }
        lemma_run_failures(policy, pre, samples);
        assert(outcomes[outcomes.len() - 1] is TransientFailure);
        let prev = run(policy, pre, samples);
        let s = run(policy, outcomes, samples);
        assert(s == prev.begin().resolve(outcomes.last(), samples[outcomes.len() - 1]));
        lemma_realized_within_cap(policy, (outcomes.len() - 1) as nat, samples[outcomes.len() - 1]);
        assert forall|i: int| 0 <= i < s.waits.len() implies #[trigger] s.waits[i] <= policy.cap(i as nat) by {
            if i < prev.waits.len() {
                assert(s.waits[i] == prev.waits[i]);
            }
        }
    }
}

proof fn lemma_realized_within_cap(policy: RetryPolicy, i: nat, sample: u64)
    ensures
        policy.realized(i, sample) <= policy.cap(i),
{
}

proof fn lemma_run_done_stable(
    policy: RetryPolicy,
    outcomes: Seq<AttemptOutcome>,
    samples: Seq<u64>,
    m: nat,
)
    requires
        m <= outcomes.len(),
        run(policy, outcomes.take(m as int), samples).is_done(),
    ensures
        run(policy, outcomes, samples) == run(policy, outcomes.take(m as int), samples),
    decreases outcomes.len(),
{
    if outcomes.len() == m {
        assert(outcomes.take(m as int) =~= outcomes);
    } else {
        let pre = outcomes.drop_last();
        assert(pre.take(m as int) =~= outcomes.take(m as int));
        lemma_run_done_stable(policy, pre, samples, m);
    }
}

/// An acquisition whose attempt number `k` (within the budget) is the first
/// to succeed is over after exactly `k` attempts, having waited exactly
/// `k - 1` delays, each the policy's delay for its index and within its cap;
/// outcomes after the `k`-th are never asked for.
pub proof fn lemma_success_at(
    policy: RetryPolicy,
    outcomes: Seq<AttemptOutcome>,
    samples: Seq<u64>,
    k: nat,
)
    requires
        policy.wf(),
        1 <= k <= policy.budget(),
        k <= outcomes.len(),
        fails_first(outcomes, (k - 1) as nat),
        outcomes[k - 1] is Success,
    ensures
        ({
            let s = run(policy, outcomes, samples);
            &&& s.phase is Acquired
            &&& s.attempts == k
            &&& s.waits.len() == k - 1
            &&& forall|i: int|
                0 <= i < k - 1 ==> #[trigger] s.waits[i] == policy.realized(i as nat, samples[i])
                    && s.waits[i] <= policy.cap(i as nat)
        }),
{
    let pre = outcomes.take(k - 1);
    assert(fails_first(pre, pre.len())) by {
        assert forall|i: int| 0 <= i < pre.len() implies #[trigger] pre[i] is TransientFailure by {
            assert(outcomes[i] is TransientFailure);
        }
    }
    lemma_run_failures(policy, pre, samples);
    let upto = outcomes.take(k as int);
    assert(upto.drop_last() =~= pre);
    assert(upto.last() == outcomes[k - 1]);
    lemma_run_done_stable(policy, outcomes, samples, k);
    let s = run(policy, outcomes, samples);
    assert forall|i: int| 0 <= i < k - 1 implies #[trigger] s.waits[i] == policy.realized(
        i as nat,
        samples[i],
    ) && s.waits[i] <= policy.cap(i as nat) by {
        lemma_realized_within_cap(policy, i as nat, samples[i]);
    }
}

/// Under any policy, an acquisition whose first attempt succeeds is over
/// after exactly one attempt, with no delay waited.
pub proof fn lemma_first_success(
    policy: RetryPolicy,
    outcomes: Seq<AttemptOutcome>,
    samples: Seq<u64>,
)
    requires
        policy.wf(),
        outcomes.len() >= 1,
        outcomes[0] is Success,
    ensures
        run(policy, outcomes, samples).phase is Acquired,
        run(policy, outcomes, samples).attempts == 1,
        run(policy, outcomes, samples).waits.len() == 0,
        total(run(policy, outcomes, samples).waits) == 0,
{
    lemma_success_at(policy, outcomes, samples, 1);
}

/// Under any policy, an acquisition whose attempts all fail is exhausted
/// after exactly the attempt budget, never more. It waits one delay between
/// each two attempts, each the policy's delay for its index: the delays
/// waited are the computed delay sequence without its last entry, which no
/// attempt follows. So the total waited is the sum of the computed sequence
/// less that last entry, at most the sum of the caps of the delays waited,
/// and at most the sum of the whole cap sequence.
pub proof fn lemma_all_fail(policy: RetryPolicy, outcomes: Seq<AttemptOutcome>, samples: Seq<u64>)
    requires
        policy.wf(),
        outcomes.len() >= policy.budget(),
        fails_first(outcomes, policy.budget()),
    ensures
        ({
            let s = run(policy, outcomes, samples);
            let n = policy.budget();
            &&& s.phase is Exhausted
            &&& s.attempts == n
            &&& s.waits.len() == n - 1
            &&& forall|i: int|
                0 <= i < n - 1 ==> #[trigger] s.waits[i] == policy.realized(i as nat, samples[i])
            &&& s.waits == realized_delays(policy, samples).take(n - 1)
            &&& total(s.waits) == total(realized_delays(policy, samples)) - realized_delays(
                policy,
                samples,
            ).last()
            &&& 0 <= total(s.waits) <= total(policy.caps().take(n - 1)) <= total(policy.caps())
        }),
{
    let n = policy.budget();
    let pre = outcomes.take(n as int);
    assert(fails_first(pre, pre.len())) by {
        assert forall|i: int| 0 <= i < pre.len() implies #[trigger] pre[i] is TransientFailure by {
            assert(outcomes[i] is TransientFailure);
        }
    }
    lemma_run_failures(policy, pre, samples);
    lemma_run_done_stable(policy, outcomes, samples, n);
    let s = run(policy, outcomes, samples);
    let caps = policy.caps().take(n - 1);
    lemma_total_le(s.waits, caps);
    lemma_total_nonneg(s.waits);
    assert(policy.caps().drop_last() =~= caps);
    let all = realized_delays(policy, samples);
    assert(s.waits =~= all.take(n - 1));
    assert(all.drop_last() =~= all.take(n - 1));
}

proof fn lemma_total_nonneg(a: Seq<u64>)
    ensures
        total(a) >= 0,
    decreases a.len(),
{
    if a.len() > 0 {
        lemma_total_nonneg(a.drop_last());
    }
}

proof fn lemma_total_le(a: Seq<u64>, b: Seq<u64>)
    requires
        a.len() == b.len(),
        forall|i: int| 0 <= i < a.len() ==> a[i] <= b[i],
    ensures
        total(a) <= total(b),
    decreases a.len(),
{
    if a.len() > 0 {
        lemma_total_le(a.drop_last(), b.drop_last());
    }
}

} // verus!
