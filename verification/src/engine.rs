//! The step function of the recurrence, and what repeated steps compute.

use crate::fault::Fault;
use crate::state::ComputationState;
use vstd::prelude::*;

verus! {

/// What one application of the step function yields.
#[derive(Clone, Copy, Debug, PartialEq, Eq, Structural)]
pub enum Step {
    /// A step was taken; these are the values to store.
    Continue { a: u64, b: u64, remaining: u64 },
    /// No step is left; `result` is the final value.
    Done { result: u64 },
}

/// The Fibonacci numbers, with `fib(0) == 0` and `fib(1) == 1`.
pub open spec fn fib(n: nat) -> nat
    decreases n,
{
    if n == 0 {
        0
    } else if n == 1 {
        1
    } else {
        fib((n - 2) as nat) + fib((n - 1) as nat)
    }
}

/// One step: with none remaining the result is `b`; otherwise `b` moves to
/// `a`, the sum becomes `b`, and one step fewer remains. A sum that does not
/// fit in 64 bits is an overflow fault.
pub open spec fn step_spec(a: u64, b: u64, remaining: u64) -> Result<Step, Fault> {
    if remaining == 0 {
        Ok(Step::Done { result: b })
    } else if a + b > u64::MAX {
        Err(Fault::Overflow)
    } else {
        Ok(Step::Continue { a: b, b: (a + b) as u64, remaining: (remaining - 1) as u64 })
    }
}

/// The state after `k` further steps, or the overflow fault where one of
/// them overflows. It is defined only while steps remain: `k` is at most
/// `s.remaining`.
pub open spec fn advance(s: ComputationState, k: nat) -> Result<ComputationState, Fault>
    recommends
        k <= s.remaining,
    decreases k,
{
    if k == 0 {
        Ok(s)
    } else {
        match step_spec(s.a, s.b, s.remaining) {
            Ok(Step::Continue { a, b, remaining }) => advance(
                ComputationState { a, b, remaining, discriminator: s.discriminator },
                (k - 1) as nat,
            ),
            Ok(Step::Done { result }) => Ok(s),
            Err(fault) => Err(fault),
        }
    }
}

/// The state that an initialization with step count `n` stores.
pub open spec fn initial_state(n: u64, discriminator: u8) -> ComputationState {
    ComputationState { a: 0, b: 1, remaining: n, discriminator }
}

/// Applies the step function once.
pub fn step(a: u64, b: u64, remaining: u64) -> (outcome: Result<Step, Fault>)
    ensures
        outcome == step_spec(a, b, remaining),
        outcome matches Ok(Step::Continue { remaining: left, .. }) ==> left + 1 == remaining,
        outcome is Err <==> remaining > 0 && a + b > u64::MAX,
{
    if remaining == 0 {
        return Ok(Step::Done { result: b });
    }
    match a.checked_add(b) {
        Some(sum) => Ok(Step::Continue { a: b, b: sum, remaining: remaining - 1 }),
        None => Err(Fault::Overflow),
    }
}

/// The Fibonacci numbers never decrease.
pub proof fn lemma_fib_monotonic(i: nat, j: nat)
    requires
        i <= j,
    ensures
        fib(i) <= fib(j),
    decreases j,
{
    if i < j {
        lemma_fib_monotonic(i, (j - 1) as nat);
        if j >= 2 {
            assert(fib(j) == fib((j - 2) as nat) + fib((j - 1) as nat));
        }
    }
}

/// From a state that holds two consecutive Fibonacci numbers, `k` steps lead
/// to the pair `k` places further on, as long as that pair fits in 64 bits;
/// where it does not, one of the steps overflows.
pub proof fn lemma_advance_fib(s: ComputationState, i: nat, k: nat)
    requires
        s.a == fib(i),
        s.b == fib(i + 1),
        k <= s.remaining,
    ensures
        fib(i + k + 1) <= u64::MAX || k == 0 ==> advance(s, k) == Ok::<ComputationState, Fault>(
            ComputationState {
                a: fib(i + k) as u64,
                b: fib(i + k + 1) as u64,
                remaining: (s.remaining - k) as u64,
                discriminator: s.discriminator,
            },
        ),
        fib(i + k + 1) > u64::MAX && k > 0 ==> advance(s, k) == Err::<ComputationState, Fault>(
            Fault::Overflow,
        ),
    decreases k,
{
    if k > 0 {
        assert(fib(i + 2) == fib(i) + fib(i + 1));
        lemma_fib_monotonic(i + 2, i + k + 1);
        if s.a + s.b <= u64::MAX {
            let next = ComputationState {
                a: s.b,
                b: (s.a + s.b) as u64,
                remaining: (s.remaining - 1) as u64,
                discriminator: s.discriminator,
            };
            lemma_advance_fib(next, i + 1, (k - 1) as nat);
            assert(i + 1 + (k - 1) as nat == i + k);
            assert(i + 1 + (k - 1) as nat + 1 == i + k + 1);
        }
    }
}

/// Recurrence correctness: from `(a = 0, b = 1, remaining = n)` the `n` steps
/// end with none remaining and `b == fib(n + 1)`, whenever that number fits
/// in 64 bits.
pub proof fn lemma_recurrence(n: u64, discriminator: u8)
    requires
        fib((n + 1) as nat) <= u64::MAX,
    ensures
        advance(initial_state(n, discriminator), n as nat) == Ok::<ComputationState, Fault>(
            ComputationState {
                a: fib(n as nat) as u64,
                b: fib((n + 1) as nat) as u64,
                remaining: 0,
                discriminator,
            },
        ),
{
    lemma_advance_fib(initial_state(n, discriminator), 0, n as nat);
}

/// Monotonicity: `k` successful steps take exactly `k` off `remaining`,
/// which therefore never passes below zero, and leave the discriminator as
/// it was.
pub proof fn lemma_advance_counts_down(s: ComputationState, k: nat)
    requires
        k <= s.remaining,
    ensures
        advance(s, k) matches Ok(t) ==> t.remaining + k == s.remaining && t.discriminator
            == s.discriminator,
    decreases k,
{
    if k > 0 {
        if let Ok(Step::Continue { a, b, remaining }) = step_spec(s.a, s.b, s.remaining) {
            lemma_advance_counts_down(
                ComputationState { a, b, remaining, discriminator: s.discriminator },
                (k - 1) as nat,
            );
        }
    }
}

} // verus!
