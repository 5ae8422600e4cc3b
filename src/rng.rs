//! The deterministic sequence generator behind every direction choice.
use vstd::prelude::*;

verus! {

/// The value every fresh generator starts from.
pub const SEED: u64 = 42;

/// Multiplier of the linear congruential step.
pub const MULTIPLIER: u64 = 1103515245;

/// Increment of the linear congruential step.
pub const INCREMENT: u64 = 12345;

/// The state that follows `s`: `s * MULTIPLIER + INCREMENT`, wrapping at 2^64.
pub open spec fn next_state(s: u64) -> u64 {
    s.wrapping_mul(MULTIPLIER).wrapping_add(INCREMENT)
}

/// The value drawn when the state has just become `s`.
pub open spec fn output_of(s: u64) -> u64 {
    (s / 65536) % 32768
}

/// The state after `n` draws from state `s`.
pub open spec fn state_after(s: u64, n: nat) -> u64
    decreases n,
{
    if n == 0 {
        s
    } else {
        next_state(state_after(s, (n - 1) as nat))
    }
}

/// Two generators started from the same state draw the same values and pass
/// through the same states, draw after draw.
pub proof fn lemma_stream_reproducible(s1: u64, s2: u64, n: nat)
    requires
        s1 == s2,
    ensures
        forall|k: nat| 1 <= k <= n ==> #[trigger] output_of(state_after(s1, k)) == output_of(state_after(s2, k)),
        state_after(s1, n) == state_after(s2, n),
{
}

/// A reproducible stream of bounded integers, fully determined by its seed
/// and by the number of draws taken.
#[derive(Clone, Copy, Debug, PartialEq, Eq)]
pub struct SeqGen {
    pub state: u64,
}

impl SeqGen {
    /// A generator at the fixed seed.
    pub fn new() -> (r: SeqGen)
        ensures
            r.state == SEED,
    {
        SeqGen { state: SEED }
    }

    /// A generator at the given state.
    pub fn with_state(state: u64) -> (r: SeqGen)
        ensures
            r.state == state,
    {
        SeqGen { state }
    }

    /// Advances the state by one step and returns `(state / 65536) mod 32768`.
    pub fn next(&mut self) -> (r: u64)
        ensures
            final(self).state == next_state(old(self).state),
            r == output_of(final(self).state),
            r < 32768,
    {
        self.state = self.state.wrapping_mul(MULTIPLIER).wrapping_add(INCREMENT);
        (self.state / 65536) % 32768
    }
}

} // verus!
