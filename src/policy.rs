use vstd::prelude::*;

verus! {

/// `2^i`, as a natural number.
pub open spec fn two_pow(i: nat) -> nat
    decreases i,
{
    if i == 0 {
        1
    } else {
        2 * two_pow((i - 1) as nat)
    }
}

/// A value clamped to what a `u64` holds.
pub open spec fn saturate(x: int) -> u64 {
    if x > u64::MAX {
        u64::MAX
    } else {
        x as u64
    }
}

/// The sum of a sequence of delays.
pub open spec fn total(s: Seq<u64>) -> int
    decreases s.len(),
{
    if s.len() == 0 {
        0
    } else {
        total(s.drop_last()) + s.last()
    }
}

/// How many attempts to make, and how long to wait between them.
///
/// Delays are in milliseconds. The delay with index `i` is the one waited
/// after the attempt numbered `i + 1` failed, before the next attempt.
#[derive(Clone, Copy, Debug, PartialEq, Eq, Structural)]
pub enum RetryPolicy {
    /// The same delay before every retry.
    Fixed { delay_ms: u64, attempts: u64 },
    /// A delay cap of `base_ms * 2^i` (saturated at `u64::MAX`), of which a
    /// uniformly drawn part in `[0, cap]` is waited ("full jitter").
    ExponentialJittered { base_ms: u64, attempts: u64 },
}

impl RetryPolicy {
    /// The attempt budget: the most attempts one acquisition makes.
    pub open spec fn budget(self) -> nat {
        match self {
            RetryPolicy::Fixed { attempts, .. } => attempts as nat,
            RetryPolicy::ExponentialJittered { attempts, .. } => attempts as nat,
        }
    }

    /// A usable policy allows at least one attempt.
    pub open spec fn wf(self) -> bool {
        self.budget() >= 1
    }

    /// The largest delay with index `i`, before jitter.
    pub open spec fn cap(self, i: nat) -> u64 {
        match self {
            RetryPolicy::Fixed { delay_ms, .. } => delay_ms,
            RetryPolicy::ExponentialJittered { base_ms, .. } => saturate(base_ms * two_pow(i) as int),
        }
    }

    /// The ordered sequence of delay caps, one per attempt of the budget.
    pub open spec fn caps(self) -> Seq<u64> {
        Seq::new(self.budget(), |i: int| self.cap(i as nat))
    }

    /// The delay with index `i` that is waited when the random draw for it is
    /// `sample`: the fixed delay, or the draw clamped to the cap.
    pub open spec fn realized(self, i: nat, sample: u64) -> u64 {
        match self {
            RetryPolicy::Fixed { delay_ms, .. } => delay_ms,
            RetryPolicy::ExponentialJittered { .. } => if sample <= self.cap(i) {
                sample
            } else {
                self.cap(i)
            },
        }
    }

    /// The attempt budget.
    pub fn attempts(&self) -> (r: u64)
        ensures
            r as nat == self.budget(),
    {
        match self {
            RetryPolicy::Fixed { attempts, .. } => *attempts,
            RetryPolicy::ExponentialJittered { attempts, .. } => *attempts,
        }
    }

    /// The cap of the delay with index `i`.
    pub fn delay_cap(&self, i: u64) -> (r: u64)
        ensures
            r == self.cap(i as nat),
    {
        match self {
            RetryPolicy::Fixed { delay_ms, .. } => *delay_ms,
            RetryPolicy::ExponentialJittered { base_ms, .. } => {
                let mut c: u64 = *base_ms;
                let mut j: u64 = 0;
                assert(two_pow(0) == 1);
                assert(*base_ms * two_pow(0) == *base_ms);
                while j < i
                    invariant
                        j <= i,
                        c == saturate(*base_ms * two_pow(j as nat)),
                    decreases i - j,
                {
                    proof {
                        lemma_saturated_double(*base_ms as nat, j as nat);
                    }
                    if c > u64::MAX / 2 {
                        c = u64::MAX;
                    } else {
                        c = c * 2;
                    }
                    j = j + 1;
                }
                c
            },
        }
    }

    /// The whole sequence of delay caps, one per attempt of the budget.
    pub fn delay_caps(&self) -> (r: Vec<u64>)
        ensures
            r@ == self.caps(),
    {
        let n = self.attempts();
        let mut v: Vec<u64> = Vec::new();
        let mut i: u64 = 0;
        while i < n
            invariant
                i <= n,
                n as nat == self.budget(),
                v@ == self.caps().take(i as int),
            decreases n - i,
        {
            let c = self.delay_cap(i);
            v.push(c);
            i = i + 1;
            assert(v@ =~= self.caps().take(i as int));
        }
        assert(v@ =~= self.caps());
        v
    }

    /// The worst-case delay one acquisition adds: the sum of the caps of the
    /// delays between its attempts (the last delay of the sequence is never
    /// waited, since no attempt follows it).
    pub fn max_total_delay_ms(&self) -> (r: u128)
        ensures
            self.budget() >= 1 ==> r == total(self.caps().take(self.budget() - 1)),
            self.budget() == 0 ==> r == 0,
    {
        let n = self.attempts();
        if n == 0 {
            return 0;
        }
        let mut sum: u128 = 0;
        let mut i: u64 = 0;
        while i < n - 1
            invariant
                i <= n - 1,
                n as nat == self.budget(),
                sum == total(self.caps().take(i as int)),
                sum <= i * (u64::MAX as int),
            decreases n - 1 - i,
        {
            let c = self.delay_cap(i);
            assert(self.caps().take(i + 1).drop_last() =~= self.caps().take(i as int));
            assert(sum + c <= (i + 1) * (u64::MAX as int)) by (nonlinear_arith)
                requires
                    sum <= i * (u64::MAX as int),
                    c <= u64::MAX,
            ;
            assert((i + 1) * (u64::MAX as int) <= u64::MAX as int * u64::MAX as int) by (nonlinear_arith)
                requires
                    i < u64::MAX,
            ;
            sum = sum + c as u128;
            i = i + 1;
        }
        sum
    }

    /// The delay with index `i` for a given random draw `sample`.
    pub fn delay_from_sample(&self, i: u64, sample: u64) -> (r: u64)
        ensures
            r == self.realized(i as nat, sample),
            r <= self.cap(i as nat),
    {
        match self {
            RetryPolicy::Fixed { delay_ms, .. } => *delay_ms,
            RetryPolicy::ExponentialJittered { .. } => {
                let c = self.delay_cap(i);
                if sample <= c {
                    sample
                } else {
                    c
                }
            },
        }
    }

    /// The delay with index `i`, drawn afresh for the jittered policy.
    pub fn next_delay(&self, i: u64) -> (r: u64)
        ensures
            r <= self.cap(i as nat),
            self is Fixed ==> r == self.cap(i as nat),
            exists|s: u64| r == self.realized(i as nat, s),
    {
        let sample = match self {
            RetryPolicy::Fixed { .. } => 0,
            RetryPolicy::ExponentialJittered { .. } => jitter_ms(self.delay_cap(i)),
        };
        self.delay_from_sample(i, sample)
    }
}

/// Doubling a saturated `base * 2^j` with saturation gives the saturated
/// `base * 2^(j + 1)`.
proof fn lemma_saturated_double(base: nat, j: nat)
    ensures
        ({
            let c = saturate(base * two_pow(j) as int);
            saturate(base * two_pow(j + 1) as int) == if c > u64::MAX / 2 {
                u64::MAX
            } else {
                (c * 2) as u64
            }
        }),
{
    assert(two_pow(j + 1) == 2 * two_pow(j));
    assert(base * two_pow(j + 1) == 2 * (base * two_pow(j))) by (nonlinear_arith)
        requires
            two_pow(j + 1) == 2 * two_pow(j),
    ;
}

/// Relies on `tokio_retry::strategy::jitter`, which scales a duration by a
/// random factor drawn from `[0, 1)`. Nothing is promised of the draw: the
/// callers clamp it to the cap themselves.
#[verifier::external_body]
fn jitter_ms(cap_ms: u64) -> (r: u64) {
    tokio_retry::strategy::jitter(std::time::Duration::from_millis(cap_ms)).as_millis() as u64
}

} // verus!
