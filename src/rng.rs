use vstd::arithmetic::div_mod::{lemma_add_mod_noop, lemma_mod_bound};
use vstd::prelude::*;

verus! {

/// Multiplier of the linear congruential step.
pub const LCG_MULTIPLIER: u64 = 6364136223846793005;

/// Increment of the linear congruential step.
pub const LCG_INCREMENT: u64 = 1442695040888963407;

/// State that replaces a zero seed.
pub const ZERO_SEED_STATE: u64 = 0xdead_beef_dead_beef;

/// Mixed into the clock reading when seeding from the time.
pub const ENTROPY_MIX: u64 = 0xa76f_1234_5678_9abc;

/// Number of states of a 64-bit generator.
pub open spec fn modulus() -> int {
    0x1_0000_0000_0000_0000
}

/// Initial state for a seed: the seed, with zero replaced.
pub open spec fn seeded_state(seed: u64) -> u64 {
    if seed == 0 {
        ZERO_SEED_STATE
    } else {
        seed
    }
}

/// One step of the generator: `state * LCG_MULTIPLIER + LCG_INCREMENT` modulo `2^64`.
pub open spec fn lcg_step(state: u64) -> u64 {
    ((state as int * LCG_MULTIPLIER as int + LCG_INCREMENT as int) % modulus()) as u64
}

/// Small deterministic pseudo-random generator (64-bit linear congruential).
#[derive(Clone, Debug)]
pub struct SimpleRng {
    state: u64,
}

impl SimpleRng {
    pub closed spec fn state(&self) -> u64 {
        self.state
    }

    /// A generator seeded with `seed`; seed zero stands for a fixed non-zero state.
    pub fn seed_from_u64(seed: u64) -> (r: SimpleRng)
        ensures
            r.state() == seeded_state(seed),
            r.state() != 0,
    {
        let initial = if seed == 0 {
            ZERO_SEED_STATE
        } else {
            seed
        };
        SimpleRng { state: initial }
    }

    /// A generator seeded from the wall clock: the low 64 bits of the nanoseconds since
    /// the Unix epoch, mixed with `ENTROPY_MIX`.
    pub fn from_entropy() -> (r: SimpleRng)
        ensures
            r.state() != 0,
    {
        let nanos = crate::clock::unix_time_nanos();
        let low: u64 = (nanos % 0x1_0000_0000_0000_0000) as u64;
        Self::seed_from_u64(low ^ ENTROPY_MIX)
    }

    /// Advances the state by one step and returns the new state.
    pub fn next_u64(&mut self) -> (r: u64)
        ensures
            final(self).state() == lcg_step(old(self).state()),
            r == final(self).state(),
    {
        let s = self.state;
        let next = s.wrapping_mul(LCG_MULTIPLIER).wrapping_add(LCG_INCREMENT);
        proof {
            let p = s as int * LCG_MULTIPLIER as int;
            let c = LCG_INCREMENT as int;
            let m = modulus();
            lemma_mod_bound(p, m);
            lemma_add_mod_noop(p, c, m);
            vstd::arithmetic::div_mod::lemma_small_mod(c as nat, m as nat);
            let w = p % m;
            if w + c >= m {
                vstd::arithmetic::div_mod::lemma_fundamental_div_mod(w + c, m);
                vstd::arithmetic::div_mod::lemma_div_is_ordered(w + c, 2 * m, m);
                vstd::arithmetic::div_mod::lemma_div_by_multiple(2, m);
                assert((w + c) % m == w + c - m);
            } else {
                vstd::arithmetic::div_mod::lemma_small_mod((w + c) as nat, m as nat);
            }
        }
        self.state = next;
        next
    }

    /// Advances the state and returns its top 53 bits, a value below `2^53` that,
    /// divided by `2^53`, is uniform on `[0, 1)`.
    pub fn next_bits53(&mut self) -> (r: u64)
        ensures
            final(self).state() == lcg_step(old(self).state()),
            r == final(self).state() / 2048,
            r < 0x20_0000_0000_0000,
    {
        let v = self.next_u64();
        assert(v >> 11u64 == v / 2048) by (bit_vector);
        assert(v / 2048 < 0x20_0000_0000_0000);
        v >> 11
    }
}

} // verus!
