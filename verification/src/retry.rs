//! Reconnection with exponential backoff.
//!
//! The controller reconnects after the runner's restart: a fixed initial
//! delay that doubles before each subsequent attempt. The schedule is
//! computed here; sleeping and connecting are the caller's effects.

use vstd::prelude::*;

verus! {

/// An error from retrying a fallible operation: the budget ran out.
#[derive(Debug)]
pub struct RetryError<E> {
    /// The last error that occurred.
    pub source: E,
    /// The number of attempts that were made.
    pub retries: u32,
}

/// Two to the power `n`.
pub open spec fn pow2(n: nat) -> nat
    decreases n,
{
    if n == 0 {
        1
    } else {
        2 * pow2((n - 1) as nat)
    }
}

/// The default initial reconnection delay, in milliseconds.
pub const RECONNECT_INITIAL_DELAY_MS: u64 = 30_000;

/// The default number of reconnection attempts.
pub const RECONNECT_TRIES: u32 = 4;

/// The delays before each reconnection attempt: `wait` before the first,
/// doubling before each subsequent attempt.
pub fn backoff_schedule(wait: u64, retries: u32) -> (r: Vec<u64>)
    requires
        retries <= 32,
        wait * pow2(retries as nat) <= u64::MAX,
    ensures
        r@.len() == retries,
        forall|i: int| 0 <= i < r@.len() ==> #[trigger] r@[i] as nat == wait * pow2(i as nat),
{
    let mut delays: Vec<u64> = Vec::new();
    let mut t: u64 = wait;
    let mut i: u32 = 0;
    proof {
        assert(pow2(0) == 1);
        assert(wait * pow2(0) == wait) by (nonlinear_arith)
            requires
                pow2(0) == 1,
        ;
    }
    while i < retries
        invariant
            i <= retries,
            retries <= 32,
            wait * pow2(retries as nat) <= u64::MAX,
            t as nat == wait * pow2(i as nat),
            delays@.len() == i,
            forall|j: int| 0 <= j < i ==> #[trigger] delays@[j] as nat == wait * pow2(j as nat),
        decreases retries - i,
    {
        delays.push(t);
        proof {
            assert(pow2((i + 1) as nat) == 2 * pow2(i as nat));
            lemma_pow2_monotonic(i as nat + 1, retries as nat);
            assert(wait * pow2((i + 1) as nat) == 2 * (wait * pow2(i as nat))) by (nonlinear_arith)
                requires
                    pow2((i + 1) as nat) == 2 * pow2(i as nat),
            ;
            assert(wait * pow2((i + 1) as nat) <= wait * pow2(retries as nat)) by (nonlinear_arith)
                requires
                    pow2((i + 1) as nat) <= pow2(retries as nat),
                    wait >= 0,
            ;
        }
        t = t * 2;
        i = i + 1;
    }
    delays
}

/// `pow2` is monotonic.
pub proof fn lemma_pow2_monotonic(a: nat, b: nat)
    requires
        a <= b,
    ensures
        pow2(a) <= pow2(b),
    decreases b,
{
    if a < b {
        lemma_pow2_monotonic(a, (b - 1) as nat);
    }
}

} // verus!
