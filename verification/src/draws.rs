//! The engine's source of chance: a 64-bit linear congruential generator whose
//! draws are 31-bit integers, read as fractions of `DRAW_SCALE`.
//!
//! Every probability of the engine is a rate on the same scale: an event with
//! rate `r` happens when a draw comes out below `r`, so `r == DRAW_SCALE`
//! (or more) is certainty and `r == 0` never happens.
use vstd::prelude::*;

use crate::ternary::Ternary;

verus! {

/// The number of distinct draws: a draw is an integer in `0 .. DRAW_SCALE`.
pub const DRAW_SCALE: u64 = 2147483648;

/// Multiplier of the generator.
pub const LCG_MULTIPLIER: u64 = 6364136223846793005;

/// Seed of the generator that populates a new engine.
pub const POPULATE_SEED: u64 = 42;

/// A draw below this is a negative value (a third of the scale, 0.333).
pub const NEGATIVE_BELOW: u64 = 715112055;

/// A draw below this, and not below `NEGATIVE_BELOW`, is a neutral value
/// (two thirds of the scale, 0.667).
pub const NEUTRAL_BELOW: u64 = 1432371594;

/// A coin flip comes out negative for a draw below half the scale.
pub const COIN_NEGATIVE_BELOW: u64 = 1073741824;

/// One step of the generator: `s * LCG_MULTIPLIER + 1`, modulo 2^64.
#[verifier::opaque]
pub open spec fn next_state(s: u64) -> u64 {
    ((s as nat * LCG_MULTIPLIER as nat + 1) % 0x1_0000_0000_0000_0000) as u64
}

/// The generator's state after `k` steps from `seed`.
pub open spec fn state_after(seed: u64, k: nat) -> u64
    decreases k,
{
    if k == 0 {
        seed
    } else {
        next_state(state_after(seed, (k - 1) as nat))
    }
}

/// The draw that a generator state yields: its top 31 bits.
pub open spec fn draw_of(s: u64) -> u64 {
    s / 0x2_0000_0000
}

/// The seed of the generator used during the tick numbered `tick`:
/// `tick * 7919 + 12345`, modulo 2^64.
pub open spec fn tick_seed(tick: u64) -> u64 {
    ((tick as nat * 7919 + 12345) % 0x1_0000_0000_0000_0000) as u64
}

/// The ternary value a draw picks: thirds of the scale for negative, neutral
/// and positive.
pub open spec fn value_of_draw(x: u64) -> Ternary {
    if x < NEGATIVE_BELOW {
        Ternary::Negative
    } else if x < NEUTRAL_BELOW {
        Ternary::Neutral
    } else {
        Ternary::Positive
    }
}

/// The species a draw picks among `n`: the draw scaled to `0 .. n`, rounded down.
pub open spec fn species_of_draw(x: u64, n: usize) -> usize {
    ((x as nat * n as nat) / DRAW_SCALE as nat) as usize
}

/// A generator state.
pub struct Lcg {
    pub state: u64,
}

impl Lcg {
    pub fn new(seed: u64) -> (g: Lcg)
        ensures
            g.state == seed,
    {
        Lcg { state: seed }
    }

    /// The generator used during the tick numbered `tick`.
    pub fn for_tick(tick: u64) -> (g: Lcg)
        ensures
            g.state == tick_seed(tick),
    {
        let s = tick.wrapping_mul(7919).wrapping_add(12345);
        proof {
            let p = tick as nat * 7919;
            let m = p % 0x1_0000_0000_0000_0000;
            assert(tick_seed(tick) == ((m + 12345) % 0x1_0000_0000_0000_0000) as u64) by {
                vstd::arithmetic::div_mod::lemma_add_mod_noop(
                    p as int,
                    12345,
                    0x1_0000_0000_0000_0000,
                );
                vstd::arithmetic::div_mod::lemma_mod_twice(12345, 0x1_0000_0000_0000_0000);
            }
        }
        Lcg { state: s }
    }

    /// Advance the generator and return its next draw.
    pub fn next_draw(&mut self) -> (x: u64)
        ensures
            final(self).state == next_state(old(self).state),
            x == draw_of(final(self).state),
            x < DRAW_SCALE,
    {
        let s = self.state.wrapping_mul(LCG_MULTIPLIER).wrapping_add(1);
        proof {
            reveal(next_state);
            let p = old(self).state as nat * LCG_MULTIPLIER as nat;
            let m = p % 0x1_0000_0000_0000_0000;
            assert(next_state(old(self).state) == ((m + 1) % 0x1_0000_0000_0000_0000) as u64) by {
                vstd::arithmetic::div_mod::lemma_add_mod_noop(
                    p as int,
                    1,
                    0x1_0000_0000_0000_0000,
                );
                vstd::arithmetic::div_mod::lemma_mod_twice(1, 0x1_0000_0000_0000_0000);
            }
        }
        self.state = s;
        let x = s >> 33;
        assert(x == s / 0x2_0000_0000 && x < 0x8000_0000) by (bit_vector)
            requires
                x == s >> 33,
        ;
        x
    }
}

/// The ternary value a draw picks.
pub fn value_from_draw(x: u64) -> (t: Ternary)
    ensures
        t == value_of_draw(x),
        (t == Ternary::Negative) <==> 1000 * x < 333 * DRAW_SCALE,
        (t == Ternary::Positive) <==> 1000 * x >= 667 * DRAW_SCALE,
{
    if x < NEGATIVE_BELOW {
        Ternary::Negative
    } else if x < NEUTRAL_BELOW {
        Ternary::Neutral
    } else {
        Ternary::Positive
    }
}

/// The species a draw picks among `num_species`.
pub fn species_from_draw(x: u64, num_species: usize) -> (s: usize)
    requires
        x < DRAW_SCALE,
    ensures
        s == species_of_draw(x, num_species),
        num_species > 0 ==> s < num_species,
        num_species == 0 ==> s == 0,
{
    proof {
        assert(x as nat * num_species as nat <= 0x8000_0000 * 0x1_0000_0000_0000_0000) by (
        nonlinear_arith)
            requires
                x < DRAW_SCALE,
                num_species <= usize::MAX,
        ;
        assert(x as nat * num_species as nat <= (DRAW_SCALE - 1) as nat * num_species as nat)
            by (nonlinear_arith)
            requires
                x < DRAW_SCALE,
        ;
        assert((x as nat * num_species as nat) / (DRAW_SCALE as nat) <= num_species) by (
        nonlinear_arith)
            requires
                x < DRAW_SCALE,
        ;
        if num_species > 0 {
            assert((x as nat * num_species as nat) / (DRAW_SCALE as nat) < num_species) by (
            nonlinear_arith)
                requires
                    x < DRAW_SCALE,
                    num_species > 0,
            ;
        }
    }
    let product: u128 = (x as u128) * (num_species as u128);
    (product / (DRAW_SCALE as u128)) as usize
}

} // verus!
