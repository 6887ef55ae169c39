//! What each rule of a tick does, stated over its inputs and results with
//! formulas of their own: the thresholds as fractions of the draw scale, the
//! coin as a half of it, and the draws as the generator's successive states.
use vstd::prelude::*;

use crate::agent::Agent;
use crate::draws::{
    draw_of, next_state, species_of_draw, state_after, value_of_draw, DRAW_SCALE, POPULATE_SEED,
};
use crate::draws::tick_seed;
use crate::engine::{
    grid_side, mutation_phase, populate, species_phase, stepped_agents, trap_phase, tunnel_phase,
    update_agent, update_agents, values_of, EngineConfig,
};
use crate::grid::{cell_charge, majority_values, neighbor_charge};
use crate::health::{diagnosis, EngineHealth};
use crate::ternary::Ternary;

verus! {

/// A draw picks a value by thirds of the scale: negative below 0.333 of it,
/// positive from 0.667 of it on, neutral in between.
pub proof fn lemma_value_of_draw_by_thirds(x: u64)
    ensures
        (value_of_draw(x) == Ternary::Negative) <==> 1000 * x < 333 * DRAW_SCALE,
        (value_of_draw(x) == Ternary::Positive) <==> 1000 * x >= 667 * DRAW_SCALE,
        (value_of_draw(x) == Ternary::Neutral) <==> (333 * DRAW_SCALE <= 1000 * x && 1000 * x
            < 667 * DRAW_SCALE),
{
}

/// A draw picks the species whose slice of the scale holds it: species `k`
/// of `n` covers the draws `x` with `k * DRAW_SCALE <= x * n < (k + 1) * DRAW_SCALE`.
pub proof fn lemma_species_of_draw_slices(x: u64, n: usize)
    requires
        x < DRAW_SCALE,
        n > 0,
    ensures
        species_of_draw(x, n) < n,
        species_of_draw(x, n) * DRAW_SCALE <= x * n,
        x * n < (species_of_draw(x, n) + 1) * DRAW_SCALE,
{
    let k = species_of_draw(x, n);
    assert((x as nat * n as nat) / (DRAW_SCALE as nat) < n) by (nonlinear_arith)
        requires
            x < DRAW_SCALE,
            n > 0,
            DRAW_SCALE > 0,
    ;
    let q = (x as nat * n as nat) / (DRAW_SCALE as nat);
    assert(q * DRAW_SCALE <= x * n < (q + 1) * DRAW_SCALE) by (nonlinear_arith)
        requires
            q == (x as nat * n as nat) / (DRAW_SCALE as nat),
            DRAW_SCALE > 0,
    ;
    assert(k == q);
}

/// The majority rule takes the sign of the neighbours' charge: a positive
/// sum makes the agent positive, a negative one negative, and a balanced one
/// leaves it as it was.
pub proof fn lemma_majority_follows_charge(values: Seq<Ternary>, side: int, i: int)
    requires
        0 <= i < values.len(),
    ensures
        neighbor_charge(values, side, i) > 0 ==> majority_values(values, side)[i]
            == Ternary::Positive,
        neighbor_charge(values, side, i) < 0 ==> majority_values(values, side)[i]
            == Ternary::Negative,
        neighbor_charge(values, side, i) == 0 ==> majority_values(values, side)[i] == values[i],
{
}

/// Every agent has eight neighbours: on a full square grid of one value,
/// each agent's neighbour charge is eight times that value's charge.
pub proof fn lemma_full_grid_has_eight_neighbours(values: Seq<Ternary>, side: int, v: Ternary, i: int)
    requires
        side > 0,
        values.len() == side * side,
        forall|j: int| 0 <= j < values.len() ==> #[trigger] values[j] == v,
        0 <= i < values.len(),
    ensures
        neighbor_charge(values, side, i) == 8 * v.charge(),
{
    assert forall|r: int, c: int| 0 <= r < side && 0 <= c < side implies #[trigger] cell_charge(
        values,
        side,
        r,
        c,
    ) == v.charge() by {
        assert(0 <= r * side + c < side * side) by (nonlinear_arith)
            requires
                0 <= r < side,
                0 <= c < side,
        ;
    }
    let row = i / side;
    let col = i % side;
    assert(0 <= (row - 1) % side < side);
    assert(0 <= (row + 1) % side < side);
    assert(0 <= row % side < side);
    assert(0 <= (col - 1) % side < side);
    assert(0 <= (col + 1) % side < side);
    assert(0 <= col < side);
}

/// The diagnosis ranks its observations: a seized engine is dead; else a
/// mostly trapped one is critical; else a diverse and lively one is vibrant,
/// whether or not nearly all are active; else a nearly all active one is in
/// consensus; and an engine with none of the four is in transition.
pub proof fn lemma_diagnosis_ranks(a: bool, b: bool, c: bool, d: bool)
    ensures
        a ==> diagnosis(a, b, c, d) == EngineHealth::Dead,
        !a && b ==> diagnosis(a, b, c, d) == EngineHealth::Critical,
        !a && !b && c ==> diagnosis(a, b, c, d) == EngineHealth::Vibrant,
        !a && !b && !c && d ==> diagnosis(a, b, c, d) == EngineHealth::Consensus,
        !a && !b && !c && !d ==> diagnosis(a, b, c, d) == EngineHealth::Transitioning,
{
}

/// The trap: an active agent takes one draw, and falls (neutral, one tick in
/// the trap) exactly when it is below the trap rate; a trapped agent takes no
/// draw and stays one tick longer. Nothing else changes.
pub proof fn lemma_trap_rule(a: Agent, s: u64, cfg: EngineConfig)
    requires
        a.ticks_in_zero < u64::MAX,
    ensures
        a.value != Ternary::Neutral ==> trap_phase(a, s, cfg).1 == next_state(s),
        a.value != Ternary::Neutral && draw_of(next_state(s)) < cfg.trap_rate ==> trap_phase(
            a,
            s,
            cfg,
        ).0 == (Agent { value: Ternary::Neutral, ticks_in_zero: 1, ..a }),
        a.value != Ternary::Neutral && draw_of(next_state(s)) >= cfg.trap_rate ==> trap_phase(
            a,
            s,
            cfg,
        ).0 == a,
        a.value == Ternary::Neutral ==> trap_phase(a, s, cfg) == (
        Agent { ticks_in_zero: (a.ticks_in_zero + 1) as u64, ..a },
        s,
        ),
{
}

/// Tunnelling: a trapped agent takes one draw; below the tunnel rate and
/// with a token left, it takes a coin draw and escapes, whatever the
/// configured rates, to the negative side exactly when the coin is in the
/// lower half of the scale, spending one token and leaving the trap. Otherwise
/// nothing changes; an active agent takes no draw.
pub proof fn lemma_tunnel_rule(a: Agent, s: u64, cfg: EngineConfig)
    ensures
        ({
            let s1 = next_state(s);
            let s2 = next_state(s1);
            let r = tunnel_phase(a, s, cfg);
            &&& a.value == Ternary::Neutral && draw_of(s1) < cfg.tunnel_rate
                && a.forgiveness_tokens > 0 ==> {
                &&& r.1 == s2
                &&& r.0.value == (if 2 * draw_of(s2) < DRAW_SCALE {
                    Ternary::Negative
                } else {
                    Ternary::Positive
                })
                &&& r.0.forgiveness_tokens + 1 == a.forgiveness_tokens
                &&& r.0.ticks_in_zero == 0
                &&& r.0.species == a.species
                &&& r.0.tick_born == a.tick_born
            }
            &&& a.value == Ternary::Neutral && !(draw_of(s1) < cfg.tunnel_rate
                && a.forgiveness_tokens > 0) ==> r == (a, s1)
            &&& a.value != Ternary::Neutral ==> r == (a, s)
        }),
{
}

/// Mutation: one draw decides whether the agent mutates (below the
/// mutation rate); a mutating agent takes a second, fresh draw, and its new
/// value is picked by thirds of the scale from that second draw. Nothing
/// else changes.
pub proof fn lemma_mutation_rule(a: Agent, s: u64, cfg: EngineConfig)
    ensures
        ({
            let s1 = next_state(s);
            let s2 = next_state(s1);
            let x = draw_of(s2);
            let r = mutation_phase(a, s, cfg);
            &&& draw_of(s1) < cfg.mutation_rate ==> {
                &&& r.1 == s2
                &&& (r.0.value == Ternary::Negative) <==> 1000 * x < 333 * DRAW_SCALE
                &&& (r.0.value == Ternary::Positive) <==> 1000 * x >= 667 * DRAW_SCALE
                &&& r.0 == (Agent { value: r.0.value, ..a })
            }
            &&& draw_of(s1) >= cfg.mutation_rate ==> r == (a, s1)
        }),
{
    lemma_value_of_draw_by_thirds(draw_of(next_state(next_state(s))));
}

/// Species switch: one draw decides whether the agent switches (below the
/// switch rate); a switching agent takes a second, fresh draw, and its new
/// species is the slice of the scale that holds that draw. Nothing else
/// changes.
pub proof fn lemma_species_rule(a: Agent, s: u64, cfg: EngineConfig)
    requires
        cfg.num_species > 0,
    ensures
        ({
            let s1 = next_state(s);
            let s2 = next_state(s1);
            let x = draw_of(s2);
            let r = species_phase(a, s, cfg);
            &&& draw_of(s1) < cfg.species_switch_rate ==> {
                &&& r.1 == s2
                &&& r.0.species < cfg.num_species
                &&& r.0.species * DRAW_SCALE <= x * cfg.num_species
                &&& x * cfg.num_species < (r.0.species + 1) * DRAW_SCALE
                &&& r.0 == (Agent { species: r.0.species, ..a })
            }
            &&& draw_of(s1) >= cfg.species_switch_rate ==> r == (a, s1)
        }),
{
    let x = draw_of(next_state(next_state(s)));
    assert(x < 0x8000_0000) by (bit_vector)
        requires
            x == next_state(next_state(s)) / 0x2_0000_0000,
    ;
    lemma_species_of_draw_slices(x, cfg.num_species);
}

/// A new population draws in turn: agent `i` takes its value from draw
/// `2i + 1` of the generator and its species from draw `2i + 2`, and the
/// generator ends after draw `2n`.
pub proof fn lemma_populate_draws(n: nat, s: u64, num_species: usize, tokens: u32)
    ensures
        populate(n, s, num_species, tokens).1 == state_after(s, 2 * n),
        populate(n, s, num_species, tokens).0.len() == n,
        forall|i: int|
            0 <= i < n ==> {
                &&& (#[trigger] populate(n, s, num_species, tokens).0[i]).value == value_of_draw(
                    draw_of(state_after(s, (2 * i + 1) as nat)),
                )
                &&& populate(n, s, num_species, tokens).0[i].species == species_of_draw(
                    draw_of(state_after(s, (2 * i + 2) as nat)),
                    num_species,
                )
            },
    decreases n,
{
    if n > 0 {
        lemma_populate_draws((n - 1) as nat, s, num_species, tokens);
        let prev = populate((n - 1) as nat, s, num_species, tokens);
        assert(state_after(s, (2 * (n - 1) + 1) as nat) == next_state(prev.1));
        assert(state_after(s, 2 * n) == next_state(state_after(s, (2 * (n - 1) + 1) as nat)));
        assert forall|i: int| 0 <= i < n implies {
            &&& (#[trigger] populate(n, s, num_species, tokens).0[i]).value == value_of_draw(
                draw_of(state_after(s, (2 * i + 1) as nat)),
            )
            &&& populate(n, s, num_species, tokens).0[i].species == species_of_draw(
                draw_of(state_after(s, (2 * i + 2) as nat)),
                num_species,
            )
        } by {
            if i < n - 1 {
                assert(populate(n, s, num_species, tokens).0[i] == prev.0[i]);
            }
        }
    }
}

/// The first draws of the populating generator, step by step.
proof fn lemma_populate_seed_states()
    ensures
        state_after(POPULATE_SEED, 17) == 15082238816855502035u64,
        draw_of(state_after(POPULATE_SEED, 1)) == 1052313527,
        draw_of(state_after(POPULATE_SEED, 3)) == 1203072297,
        draw_of(state_after(POPULATE_SEED, 5)) == 158730109,
        draw_of(state_after(POPULATE_SEED, 7)) == 153580539,
        draw_of(state_after(POPULATE_SEED, 9)) == 653475529,
        draw_of(state_after(POPULATE_SEED, 11)) == 312190860,
        draw_of(state_after(POPULATE_SEED, 13)) == 1238633850,
        draw_of(state_after(POPULATE_SEED, 15)) == 1165193584,
        draw_of(state_after(POPULATE_SEED, 17)) == 1755803685,
{
    reveal(next_state);
    assert(state_after(POPULATE_SEED, 0) == 42);
    assert(42 * 6364136223846793005 + 1 == 267293721401565306211nat);
    assert(267293721401565306211nat % 0x1_0000_0000_0000_0000 == 9039304369631583587nat);
    assert(next_state(42) == 9039304369631583587u64);
    assert(state_after(POPULATE_SEED, 1) == 9039304369631583587u64);
    assert(state_after(POPULATE_SEED, 2) == 8647191391818483560u64);
    assert(state_after(POPULATE_SEED, 3) == 10334312345110439241u64);
    assert(state_after(POPULATE_SEED, 4) == 459824130525332694u64);
    assert(state_after(POPULATE_SEED, 5) == 1363481262641415071u64);
    assert(state_after(POPULATE_SEED, 6) == 12074937743977874420u64);
    assert(state_after(POPULATE_SEED, 7) == 1319246786645507557u64);
    assert(state_after(POPULATE_SEED, 8) == 7381772627135888450u64);
    assert(state_after(POPULATE_SEED, 9) == 5613312053674841499u64);
    assert(state_after(POPULATE_SEED, 10) == 4580053809119867200u64);
    assert(state_after(POPULATE_SEED, 11) == 2681699075565611073u64);
    assert(state_after(POPULATE_SEED, 12) == 12877579722933539438u64);
    assert(state_after(POPULATE_SEED, 13) == 10639783763315248983u64);
    assert(state_after(POPULATE_SEED, 14) == 12344709165906041676u64);
    assert(state_after(POPULATE_SEED, 15) == 10008936680934867037u64);
    assert(state_after(POPULATE_SEED, 16) == 3384112258749510490u64);
    assert(state_after(POPULATE_SEED, 17) == 15082238816855502035u64);
}

/// A new engine starts mixed, not seized: the first nine agents of any new
/// population are neutral, neutral, then four negative, two neutral and one
/// positive.
pub proof fn lemma_new_population_is_mixed(n: nat, num_species: usize, tokens: u32)
    requires
        n >= 9,
    ensures
        ({
            let agents = populate(n, POPULATE_SEED, num_species, tokens).0;
            &&& agents[0].value == Ternary::Neutral
            &&& agents[1].value == Ternary::Neutral
            &&& agents[2].value == Ternary::Negative
            &&& agents[3].value == Ternary::Negative
            &&& agents[4].value == Ternary::Negative
            &&& agents[5].value == Ternary::Negative
            &&& agents[6].value == Ternary::Neutral
            &&& agents[7].value == Ternary::Neutral
            &&& agents[8].value == Ternary::Positive
        }),
{
    lemma_populate_seed_states();
    lemma_populate_draws(n, POPULATE_SEED, num_species, tokens);
    let agents = populate(n, POPULATE_SEED, num_species, tokens).0;
    assert(agents[0].value == value_of_draw(draw_of(state_after(POPULATE_SEED, 1))));
    assert(agents[1].value == value_of_draw(draw_of(state_after(POPULATE_SEED, 3))));
    assert(agents[2].value == value_of_draw(draw_of(state_after(POPULATE_SEED, 5))));
    assert(agents[3].value == value_of_draw(draw_of(state_after(POPULATE_SEED, 7))));
    assert(agents[4].value == value_of_draw(draw_of(state_after(POPULATE_SEED, 9))));
    assert(agents[5].value == value_of_draw(draw_of(state_after(POPULATE_SEED, 11))));
    assert(agents[6].value == value_of_draw(draw_of(state_after(POPULATE_SEED, 13))));
    assert(agents[7].value == value_of_draw(draw_of(state_after(POPULATE_SEED, 15))));
    assert(agents[8].value == value_of_draw(draw_of(state_after(POPULATE_SEED, 17))));
}

/// A quiet tick (every rate zero) is the majority rule alone: each agent
/// takes the majority of its neighbours' charge, read from the values before
/// the tick, keeps its species and tokens, and only a trapped agent's time in
/// the trap grows by one.
pub proof fn lemma_quiet_tick_is_majority(agents: Seq<Agent>, cfg: EngineConfig, tick: u64)
    requires
        cfg.trap_rate == 0,
        cfg.tunnel_rate == 0,
        cfg.mutation_rate == 0,
        cfg.species_switch_rate == 0,
        forall|i: int| 0 <= i < agents.len() ==> (#[trigger] agents[i]).ticks_in_zero < u64::MAX,
    ensures
        stepped_agents(agents, cfg, tick).len() == agents.len(),
        forall|i: int|
            0 <= i < agents.len() ==> {
                let next = #[trigger] stepped_agents(agents, cfg, tick)[i];
                let v = majority_values(values_of(agents), grid_side(cfg.grid_size))[i];
                &&& next.value == v
                &&& next.species == agents[i].species
                &&& next.forgiveness_tokens == agents[i].forgiveness_tokens
                &&& next.tick_born == agents[i].tick_born
                &&& next.ticks_in_zero == (if v == Ternary::Neutral {
                    agents[i].ticks_in_zero + 1
                } else {
                    agents[i].ticks_in_zero as int
                })
            },
{
    let values = majority_values(values_of(agents), grid_side(cfg.grid_size));
    lemma_quiet_update_agents(agents, values, tick_seed(tick), cfg);
}

proof fn lemma_quiet_update_agents(
    agents: Seq<Agent>,
    values: Seq<Ternary>,
    s: u64,
    cfg: EngineConfig,
)
    requires
        cfg.trap_rate == 0,
        cfg.tunnel_rate == 0,
        cfg.mutation_rate == 0,
        cfg.species_switch_rate == 0,
        agents.len() <= values.len(),
        forall|i: int| 0 <= i < agents.len() ==> (#[trigger] agents[i]).ticks_in_zero < u64::MAX,
    ensures
        update_agents(agents, values, s, cfg).0.len() == agents.len(),
        forall|i: int|
            0 <= i < agents.len() ==> {
                let next = #[trigger] update_agents(agents, values, s, cfg).0[i];
                &&& next.value == values[i]
                &&& next.species == agents[i].species
                &&& next.forgiveness_tokens == agents[i].forgiveness_tokens
                &&& next.tick_born == agents[i].tick_born
                &&& next.ticks_in_zero == (if values[i] == Ternary::Neutral {
                    agents[i].ticks_in_zero + 1
                } else {
                    agents[i].ticks_in_zero as int
                })
            },
    decreases agents.len(),
{
    if agents.len() > 0 {
        let n = agents.len();
        let prefix = agents.drop_last();
        assert forall|i: int| 0 <= i < prefix.len() implies (#[trigger] prefix[i]).ticks_in_zero
            < u64::MAX by {
            assert(prefix[i] == agents[i]);
        }
        lemma_quiet_update_agents(prefix, values, s, cfg);
        let prev = update_agents(prefix, values, s, cfg);
        assert(agents[n - 1].ticks_in_zero < u64::MAX);
        let last = update_agent(agents.last(), values[n - 1], prev.1, cfg);
        let result = update_agents(agents, values, s, cfg).0;
        assert(result == prev.0.push(last.0));
        assert forall|i: int| 0 <= i < n implies {
            let next = #[trigger] result[i];
            &&& next.value == values[i]
            &&& next.species == agents[i].species
            &&& next.forgiveness_tokens == agents[i].forgiveness_tokens
            &&& next.tick_born == agents[i].tick_born
            &&& next.ticks_in_zero == (if values[i] == Ternary::Neutral {
                agents[i].ticks_in_zero + 1
            } else {
                agents[i].ticks_in_zero as int
            })
        } by {
            if i < n - 1 {
                assert(prefix[i] == agents[i]);
                assert(result[i] == prev.0[i]);
            }
        }
    }
}

/// Stepping the generator `a` times and then `b` times is stepping it
/// `a + b` times.
pub proof fn lemma_state_after_add(s: u64, a: nat, b: nat)
    ensures
        state_after(state_after(s, a), b) == state_after(s, a + b),
    decreases b,
{
    if b > 0 {
        lemma_state_after_add(s, a, (b - 1) as nat);
    }
}

proof fn lemma_draw_in_scale(st: u64)
    ensures
        draw_of(st) < DRAW_SCALE,
{
    assert(st / 0x2_0000_0000 < 0x8000_0000) by (bit_vector);
}

proof fn lemma_certain_mutation_agent(a: Agent, v: Ternary, s: u64, cfg: EngineConfig)
    requires
        cfg.trap_rate == 0,
        cfg.tunnel_rate == 0,
        cfg.mutation_rate == DRAW_SCALE,
        cfg.species_switch_rate == 0,
        a.ticks_in_zero < u64::MAX,
    ensures
        update_agent(a, v, s, cfg).0.value == value_of_draw(draw_of(state_after(s, 3))),
        update_agent(a, v, s, cfg).1 == state_after(s, 4),
{
    let s1 = next_state(s);
    let s2 = next_state(s1);
    let s3 = next_state(s2);
    let s4 = next_state(s3);
    assert(state_after(s, 0) == s);
    assert(state_after(s, 1) == s1);
    assert(state_after(s, 2) == s2);
    assert(state_after(s, 3) == s3);
    assert(state_after(s, 4) == s4);
    lemma_draw_in_scale(s2);
    let b = Agent { value: v, ..a };
    let t = trap_phase(b, s, cfg);
    if v == Ternary::Neutral {
        assert(t.1 == s);
        assert(t.0.value == Ternary::Neutral);
    } else {
        assert(t.1 == s1);
        assert(t.0.value == v);
    }
    let u = tunnel_phase(t.0, t.1, cfg);
    assert(u.1 == s1);
    let m = mutation_phase(u.0, u.1, cfg);
    assert(draw_of(s2) < cfg.mutation_rate);
    assert(m.1 == s3);
    assert(m.0.value == value_of_draw(draw_of(s3)));
    let r = species_phase(m.0, m.1, cfg);
    assert(r.1 == s4);
    assert(r.0.value == m.0.value);
    assert(update_agent(a, v, s, cfg) == r);
}

/// Every agent takes four draws in a tick where the trap, the tunnel and
/// the species switch never fire and mutation always does: one in the
/// trap-or-tunnel phase, two in the mutation (its roll, then its value) and
/// one in the species phase. So agent `i` ends with the value picked by
/// draw `4i + 3` of the tick's generator, and the generator ends after draw
/// `4n`.
pub proof fn lemma_certain_mutation_tick(
    agents: Seq<Agent>,
    values: Seq<Ternary>,
    s: u64,
    cfg: EngineConfig,
)
    requires
        cfg.trap_rate == 0,
        cfg.tunnel_rate == 0,
        cfg.mutation_rate == DRAW_SCALE,
        cfg.species_switch_rate == 0,
        agents.len() <= values.len(),
        forall|i: int| 0 <= i < agents.len() ==> (#[trigger] agents[i]).ticks_in_zero < u64::MAX,
    ensures
        update_agents(agents, values, s, cfg).1 == state_after(s, 4 * agents.len()),
        update_agents(agents, values, s, cfg).0.len() == agents.len(),
        forall|i: int|
            0 <= i < agents.len() ==> (#[trigger] update_agents(agents, values, s, cfg).0[i]).value
                == value_of_draw(draw_of(state_after(s, (4 * i + 3) as nat))),
    decreases agents.len(),
{
    if agents.len() > 0 {
        let n = agents.len();
        let prefix = agents.drop_last();
        assert forall|i: int| 0 <= i < prefix.len() implies (#[trigger] prefix[i]).ticks_in_zero
            < u64::MAX by {
            assert(prefix[i] == agents[i]);
        }
        lemma_certain_mutation_tick(prefix, values, s, cfg);
        let prev = update_agents(prefix, values, s, cfg);
        assert(agents[n - 1].ticks_in_zero < u64::MAX);
        lemma_certain_mutation_agent(agents.last(), values[n - 1], prev.1, cfg);
        lemma_state_after_add(s, 4 * (n - 1) as nat, 3);
        lemma_state_after_add(s, 4 * (n - 1) as nat, 4);
        let result = update_agents(agents, values, s, cfg).0;
        assert forall|i: int| 0 <= i < n implies (#[trigger] result[i]).value == value_of_draw(
            draw_of(state_after(s, (4 * i + 3) as nat)),
        ) by {
            if i < n - 1 {
                assert(result[i] == prev.0[i]);
            }
        }
    }
}

} // verus!
