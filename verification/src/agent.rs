use vstd::prelude::*;

use crate::ternary::Ternary;

verus! {

/// Number of forgiveness tokens a fresh agent holds: its chances to escape the
/// neutral trap.
pub const INITIAL_FORGIVENESS_TOKENS: u32 = 3;

/// A single ternary agent with species identity and interaction history.
#[derive(Debug, Clone, Copy)]
pub struct Agent {
    pub value: Ternary,
    pub species: usize,
    pub tick_born: u64,
    /// How long the agent has been trapped in the insulator state.
    pub ticks_in_zero: u64,
    /// Tunnelling capacity.
    pub forgiveness_tokens: u32,
}

impl Agent {
    /// The agent that `new(value, species, tick)` builds.
    pub open spec fn fresh(value: Ternary, species: usize, tick: u64) -> Agent {
        Agent {
            value,
            species,
            tick_born: tick,
            ticks_in_zero: if value == Ternary::Neutral { 1 } else { 0 },
            forgiveness_tokens: INITIAL_FORGIVENESS_TOKENS,
        }
    }

    /// Whether the trap closes on this agent, given whether its trap roll
    /// came out below the trap rate.
    pub open spec fn traps(self, roll_hit: bool) -> bool {
        self.value != Ternary::Neutral && roll_hit
    }

    /// The agent after a trap attempt.
    pub open spec fn after_trap(self, roll_hit: bool) -> Agent {
        if self.traps(roll_hit) {
            Agent { value: Ternary::Neutral, ticks_in_zero: 1, ..self }
        } else if self.value == Ternary::Neutral {
            Agent { ticks_in_zero: (self.ticks_in_zero + 1) as u64, ..self }
        } else {
            self
        }
    }

    /// Whether a tunnelling attempt succeeds, given whether the escape roll
    /// came out below the tunnel rate.
    pub open spec fn tunnels(self, roll_hit: bool) -> bool {
        self.value == Ternary::Neutral && roll_hit && self.forgiveness_tokens > 0
    }

    /// The agent after a tunnelling attempt; `coin_negative` picks the side
    /// it escapes to.
    pub open spec fn after_tunnel(self, roll_hit: bool, coin_negative: bool) -> Agent {
        if self.tunnels(roll_hit) {
            Agent {
                forgiveness_tokens: (self.forgiveness_tokens - 1) as u32,
                value: if coin_negative { Ternary::Negative } else { Ternary::Positive },
                ticks_in_zero: 0,
                ..self
            }
        } else {
            self
        }
    }

    pub fn new(value: Ternary, species: usize, tick: u64) -> (a: Self)
        ensures
            a == Agent::fresh(value, species, tick),
            a.forgiveness_tokens == 3,
            a.ticks_in_zero == (if value == Ternary::Neutral { 1u64 } else { 0u64 }),
    {
        Agent {
            value,
            species,
            tick_born: tick,
            ticks_in_zero: if value == Ternary::Neutral { 1 } else { 0 },
            forgiveness_tokens: INITIAL_FORGIVENESS_TOKENS,
        }
    }

    /// Attempt to tunnel out of the 0-trap using forgiveness.
    /// `roll_hit` tells whether the escape roll came out below the tunnel
    /// rate, `coin_negative` whether the escape goes to the negative side.
    /// Returns true if escape succeeded.
    pub fn try_tunnel(&mut self, roll_hit: bool, coin_negative: bool) -> (escaped: bool)
        ensures
            escaped == old(self).tunnels(roll_hit),
            *final(self) == old(self).after_tunnel(roll_hit, coin_negative),
    {
        if self.value == Ternary::Neutral && roll_hit {
            if self.forgiveness_tokens > 0 {
                self.forgiveness_tokens = self.forgiveness_tokens - 1;
                self.value = if coin_negative { Ternary::Negative } else { Ternary::Positive };
                self.ticks_in_zero = 0;
                return true;
            }
        }
        false
    }

    /// Fall into the 0-trap (absorbing state without tunnelling).
    /// `roll_hit` tells whether the trap roll came out below the trap rate.
    /// Returns true if the agent fell into the trap.
    pub fn fall_into_trap(&mut self, roll_hit: bool) -> (fell: bool)
        requires
            old(self).value == Ternary::Neutral ==> old(self).ticks_in_zero < u64::MAX,
        ensures
            fell == old(self).traps(roll_hit),
            *final(self) == old(self).after_trap(roll_hit),
    {
        if self.value != Ternary::Neutral && roll_hit {
            self.value = Ternary::Neutral;
            self.ticks_in_zero = 1;
            return true;
        }
        if self.value == Ternary::Neutral {
            self.ticks_in_zero = self.ticks_in_zero + 1;
        }
        false
    }
}

} // verus!
