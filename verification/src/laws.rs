//! Properties of the engine that span several functions or hold of every
//! state.
use vstd::prelude::*;

use crate::agent::Agent;
use crate::census::{
    count_species, count_species_value, count_value, lemma_value_counts_partition,
    species_in_range, species_total, trapped_ticks_of, PopulationCounts,
};
use crate::draws::DRAW_SCALE;
use crate::engine::{
    lemma_step_keeps, mutation_phase, populate, run_agents, species_phase, stepped_agents,
    trap_phase, tunnel_phase, update_agent, update_agents, update_keeps, values_of, EngineConfig,
};
use crate::grid::{cell_charge, majority_values, neighbor_charge};
use crate::ternary::{ternary_of, Ternary};

verus! {

/// Converting a ternary value to an `i8` and back gives the value again, and
/// each of -1, 0 and 1 survives the trip the other way.
pub proof fn lemma_ternary_round_trip(t: Ternary, v: int)
    ensures
        ternary_of(t.charge()) == t,
        v == -1 || v == 0 || v == 1 ==> ternary_of(v).charge() == v,
{
}

/// The trap is absorbing: a trapped agent stays trapped whatever its roll,
/// one tick longer, and keeps its tokens.
pub proof fn lemma_trap_absorbing(a: Agent, roll_hit: bool)
    requires
        a.value == Ternary::Neutral,
    ensures
        a.after_trap(roll_hit).value == Ternary::Neutral,
        a.after_trap(roll_hit).ticks_in_zero == a.ticks_in_zero + 1 || a.ticks_in_zero
            == u64::MAX,
        a.after_trap(roll_hit).forgiveness_tokens == a.forgiveness_tokens,
{
}

/// Tunnelling is the only way out of the trap and it costs exactly one
/// token: after a successful attempt the agent is charged and has one token
/// less; a failed attempt changes nothing; an agent without tokens never
/// escapes.
pub proof fn lemma_tunnel_costs_one_token(a: Agent, roll_hit: bool, coin_negative: bool)
    ensures
        a.tunnels(roll_hit) ==> {
            &&& a.value == Ternary::Neutral
            &&& a.after_tunnel(roll_hit, coin_negative).value != Ternary::Neutral
            &&& a.after_tunnel(roll_hit, coin_negative).forgiveness_tokens + 1
                == a.forgiveness_tokens
        },
        !a.tunnels(roll_hit) ==> a.after_tunnel(roll_hit, coin_negative) == a,
        a.forgiveness_tokens == 0 ==> !a.tunnels(roll_hit),
{
}

/// Every agent is negative, neutral or positive, and belongs to one species:
/// - the negative, trapped and positive counts add up to the population;
/// - the active agents are exactly the charged ones, so the absolute charge
///   |gamma| is the fraction alive;
/// - the net charge is at most the absolute charge, in magnitude;
/// - in a non-empty population, the species counts add up to the population,
///   and each species count is the sum of its three state counts.
pub proof fn lemma_census_laws(c: PopulationCounts, agents: Seq<Agent>, num_species: usize)
    requires
        c.is_census_of(agents, num_species),
        species_in_range(agents, num_species),
    ensures
        c.negative + c.total_trapped + c.positive == c.population,
        c.total_active == c.negative + c.positive,
        -(c.total_active as int) <= c.positive - c.negative <= c.total_active,
        agents.len() > 0 ==> species_total(agents, num_species as int) == c.population,
        agents.len() > 0 ==> forall|s: int|
            0 <= s < num_species ==> #[trigger] c.species_counts@[s] == c.joint_counts@[s].negative
                + c.joint_counts@[s].neutral + c.joint_counts@[s].positive,
{
    lemma_value_counts_partition(agents);
    if agents.len() > 0 {
        lemma_species_total(agents, num_species);
        assert forall|s: int| 0 <= s < num_species implies #[trigger] c.species_counts@[s]
            == c.joint_counts@[s].negative + c.joint_counts@[s].neutral
            + c.joint_counts@[s].positive by {
            lemma_species_split(agents, s);
        }
    }
}

proof fn lemma_species_split(agents: Seq<Agent>, s: int)
    ensures
        count_species(agents, s) == count_species_value(agents, s, Ternary::Negative)
            + count_species_value(agents, s, Ternary::Neutral) + count_species_value(
            agents,
            s,
            Ternary::Positive,
        ),
    decreases agents.len(),
{
    if agents.len() > 0 {
        lemma_species_split(agents.drop_last(), s);
    }
}

proof fn lemma_species_total_push(agents: Seq<Agent>, a: Agent, k: int)
    ensures
        species_total(agents.push(a), k) == species_total(agents, k) + (if 0 <= a.species < k {
            1int
        } else {
            0int
        }),
    decreases k,
{
    assert(agents.push(a).drop_last() =~= agents);
    if k > 0 {
        lemma_species_total_push(agents, a, k - 1);
    }
}

proof fn lemma_species_total(agents: Seq<Agent>, num_species: usize)
    requires
        species_in_range(agents, num_species),
    ensures
        species_total(agents, num_species as int) == agents.len(),
    decreases agents.len(),
{
    if agents.len() == 0 {
        lemma_species_total_empty(agents, num_species as int);
    } else {
        let prefix = agents.drop_last();
        assert(species_in_range(prefix, num_species)) by {
            assert forall|i: int| 0 <= i < prefix.len() implies #[trigger] prefix[i].species
                < num_species by {
                assert(prefix[i] == agents[i]);
            }
        }
        lemma_species_total(prefix, num_species);
        assert(agents.len() - 1 >= 0);
        assert(agents[agents.len() - 1].species < num_species);
        lemma_species_total_push(prefix, agents.last(), num_species as int);
        assert(prefix.push(agents.last()) =~= agents);
    }
}

proof fn lemma_species_total_empty(agents: Seq<Agent>, k: int)
    requires
        agents.len() == 0,
    ensures
        species_total(agents, k) == 0,
    decreases k,
{
    if k > 0 {
        lemma_species_total_empty(agents, k - 1);
    }
}

/// The neutral state is an insulator: a grid in which every agent is neutral
/// is left as it is by the majority rule.
pub proof fn lemma_neutral_grid_is_fixed(values: Seq<Ternary>, side: int)
    requires
        forall|i: int| 0 <= i < values.len() ==> #[trigger] values[i] == Ternary::Neutral,
    ensures
        majority_values(values, side) == values,
{
    assert forall|i: int| 0 <= i < values.len() implies #[trigger] majority_values(
        values,
        side,
    )[i] == values[i] by {
        assert forall|r: int, c: int| #[trigger] cell_charge(values, side, r, c) == 0 by {
            let idx = r * side + c;
            if 0 <= idx < values.len() {
                assert(values[idx] == Ternary::Neutral);
            }
        }
        assert(neighbor_charge(values, side, i) == 0);
    }
    assert(majority_values(values, side) =~= values);
}

/// With the tunnel rate at zero, no agent ever spends a forgiveness token:
/// a tick keeps every agent's tokens.
pub proof fn lemma_no_tunnelling_keeps_tokens(agents: Seq<Agent>, cfg: EngineConfig, tick: u64)
    requires
        cfg.tunnel_rate == 0,
    ensures
        stepped_agents(agents, cfg, tick).len() == agents.len(),
        forall|k: int|
            0 <= k < agents.len() ==> (#[trigger] stepped_agents(agents, cfg, tick)[k]).forgiveness_tokens
                == agents[k].forgiveness_tokens,
{
    let values = crate::grid::majority_values(
        values_of(agents),
        crate::engine::grid_side(cfg.grid_size),
    );
    lemma_no_tunnelling_update_agents(agents, values, crate::draws::tick_seed(tick), cfg);
}

proof fn lemma_no_tunnelling_update_agents(
    agents: Seq<Agent>,
    values: Seq<Ternary>,
    s: u64,
    cfg: EngineConfig,
)
    requires
        cfg.tunnel_rate == 0,
    ensures
        update_agents(agents, values, s, cfg).0.len() == agents.len(),
        forall|k: int|
            0 <= k < agents.len() ==> (#[trigger] update_agents(agents, values, s, cfg).0[k]).forgiveness_tokens
                == agents[k].forgiveness_tokens,
    decreases agents.len(),
{
    if agents.len() > 0 {
        let prefix = agents.drop_last();
        lemma_no_tunnelling_update_agents(prefix, values, s, cfg);
        let prev = update_agents(prefix, values, s, cfg);
        let a = agents.last();
        let v = values[agents.len() - 1];
        let t = trap_phase(Agent { value: v, ..a }, prev.1, cfg);
        let u = tunnel_phase(t.0, t.1, cfg);
        assert(u.0 == t.0);
        let m = mutation_phase(u.0, u.1, cfg);
        let r = species_phase(m.0, m.1, cfg);
        assert(r.0.forgiveness_tokens == a.forgiveness_tokens);
        assert forall|k: int| 0 <= k < agents.len() implies (#[trigger] update_agents(
            agents,
            values,
            s,
            cfg,
        ).0[k]).forgiveness_tokens == agents[k].forgiveness_tokens by {
            if k < agents.len() - 1 {
                assert(prefix[k] == agents[k]);
            }
        }
    }
}

/// Forgiveness is a finite resource: over any number of ticks the population
/// keeps its size, no agent gains a token or changes its birth tick, and an
/// agent's trapped time grows by at most one per tick.
pub proof fn lemma_run_never_adds_tokens(agents: Seq<Agent>, cfg: EngineConfig, tick: u64, k: nat)
    requires
        forall|i: int|
            0 <= i < agents.len() ==> #[trigger] agents[i].ticks_in_zero + k <= u64::MAX,
    ensures
        run_agents(agents, cfg, tick, k).len() == agents.len(),
        forall|i: int|
            0 <= i < agents.len() ==> {
                &&& (#[trigger] run_agents(agents, cfg, tick, k)[i]).forgiveness_tokens
                    <= agents[i].forgiveness_tokens
                &&& run_agents(agents, cfg, tick, k)[i].tick_born == agents[i].tick_born
                &&& run_agents(agents, cfg, tick, k)[i].ticks_in_zero <= agents[i].ticks_in_zero
                    + k
            },
    decreases k,
{
    if k > 0 {
        lemma_run_never_adds_tokens(agents, cfg, tick, (k - 1) as nat);
        let before = run_agents(agents, cfg, tick, (k - 1) as nat);
        assert forall|i: int| 0 <= i < before.len() implies #[trigger] before[i].ticks_in_zero
            < u64::MAX by {
            assert(agents[i].ticks_in_zero + k <= u64::MAX);
        }
        lemma_step_keeps(before, cfg, (tick + k - 1) as u64);
        assert forall|i: int| 0 <= i < agents.len() implies {
            &&& (#[trigger] run_agents(agents, cfg, tick, k)[i]).forgiveness_tokens
                <= agents[i].forgiveness_tokens
            &&& run_agents(agents, cfg, tick, k)[i].tick_born == agents[i].tick_born
            &&& run_agents(agents, cfg, tick, k)[i].ticks_in_zero <= agents[i].ticks_in_zero + k
        } by {
            assert(update_keeps(
                before[i],
                stepped_agents(before, cfg, (tick + k - 1) as u64)[i],
                cfg.num_species,
            ));
        }
    }
}

/// A new engine holds `n` agents born at tick 0, each with the configured
/// forgiveness tokens and, where there are species, a species among them; so
/// a new engine can be censused.
pub proof fn lemma_populate_facts(n: nat, s: u64, num_species: usize, tokens: u32)
    ensures
        populate(n, s, num_species, tokens).0.len() == n,
        forall|i: int|
            0 <= i < n ==> {
                &&& (#[trigger] populate(n, s, num_species, tokens).0[i]).tick_born == 0
                &&& populate(n, s, num_species, tokens).0[i].forgiveness_tokens == tokens
                &&& num_species > 0 ==> populate(n, s, num_species, tokens).0[i].species
                    < num_species
            },
    decreases n,
{
    if n > 0 {
        lemma_populate_facts((n - 1) as nat, s, num_species, tokens);
        let prev = populate((n - 1) as nat, s, num_species, tokens);
        let s1 = crate::draws::next_state(prev.1);
        let s2 = crate::draws::next_state(s1);
        let x = crate::draws::draw_of(s2);
        assert(x < 0x8000_0000) by (bit_vector)
            requires
                x == s2 / 0x2_0000_0000,
        ;
        if num_species > 0 {
            assert((x as nat * num_species as nat) / (DRAW_SCALE as nat) < num_species) by (
            nonlinear_arith)
                requires
                    x < 0x8000_0000,
                    num_species > 0,
                    DRAW_SCALE == 0x8000_0000,
            ;
        }
        assert forall|i: int| 0 <= i < n implies {
            &&& (#[trigger] populate(n, s, num_species, tokens).0[i]).tick_born == 0
            &&& populate(n, s, num_species, tokens).0[i].forgiveness_tokens == tokens
            &&& num_species > 0 ==> populate(n, s, num_species, tokens).0[i].species
                < num_species
        } by {
            if i < n - 1 {
                assert(populate(n, s, num_species, tokens).0[i] == prev.0[i]);
            }
        }
    }
}

/// Sum of `weight(a)` over the agents `a` of a sequence.
pub open spec fn weight_sum(agents: Seq<Agent>, weight: spec_fn(Agent) -> nat) -> nat
    decreases agents.len(),
{
    if agents.len() == 0 {
        0
    } else {
        weight_sum(agents.drop_last(), weight) + weight(agents.last())
    }
}

proof fn lemma_weight_sum_remove(agents: Seq<Agent>, j: int, weight: spec_fn(Agent) -> nat)
    requires
        0 <= j < agents.len(),
    ensures
        weight_sum(agents, weight) == weight_sum(agents.remove(j), weight) + weight(agents[j]),
    decreases agents.len(),
{
    if j == agents.len() - 1 {
        assert(agents.remove(j) =~= agents.drop_last());
    } else {
        let rest = agents.drop_last();
        lemma_weight_sum_remove(rest, j, weight);
        assert(agents.remove(j).drop_last() =~= rest.remove(j));
        assert(agents.remove(j).last() == agents.last());
    }
}

/// A sum over agents does not depend on their order.
proof fn lemma_weight_sum_order_free(a: Seq<Agent>, b: Seq<Agent>, weight: spec_fn(Agent) -> nat)
    requires
        a.to_multiset() == b.to_multiset(),
    ensures
        weight_sum(a, weight) == weight_sum(b, weight),
    decreases a.len(),
{
    broadcast use vstd::seq_lib::group_to_multiset_ensures;

    if a.len() == 0 {
        assert(b.to_multiset().len() == 0);
    } else {
        let x = a.last();
        let rest = a.drop_last();
        assert(rest.push(x) =~= a);
        assert(a.to_multiset() =~= rest.to_multiset().insert(x));
        assert(a.contains(x)) by {
            assert(a[a.len() - 1] == x);
        }
        assert(b.to_multiset().count(x) > 0);
        assert(b.contains(x));
        let j = choose|j: int| 0 <= j < b.len() && b[j] == x;
        assert(b.remove(j).to_multiset() =~= b.to_multiset().remove(x));
        assert(rest.to_multiset() =~= a.to_multiset().remove(x));
        lemma_weight_sum_order_free(rest, b.remove(j), weight);
        lemma_weight_sum_remove(b, j, weight);
    }
}

proof fn lemma_counts_are_weight_sums(agents: Seq<Agent>, s: int, v: Ternary)
    ensures
        count_value(agents, v) == weight_sum(
            agents,
            |a: Agent| if a.value == v { 1nat } else { 0nat },
        ),
        count_species(agents, s) == weight_sum(
            agents,
            |a: Agent| if a.species == s { 1nat } else { 0nat },
        ),
        count_species_value(agents, s, v) == weight_sum(
            agents,
            |a: Agent| if a.species == s && a.value == v { 1nat } else { 0nat },
        ),
        trapped_ticks_of(agents) == weight_sum(
            agents,
            |a: Agent| if a.value == Ternary::Neutral { a.ticks_in_zero as nat } else { 0nat },
        ),
    decreases agents.len(),
{
    if agents.len() > 0 {
        lemma_counts_are_weight_sums(agents.drop_last(), s, v);
    }
}

/// The census does not depend on the order of the agents: two populations
/// made of the same agents, in any order, have the same counts.
pub proof fn lemma_census_order_free(
    a: Seq<Agent>,
    b: Seq<Agent>,
    ca: PopulationCounts,
    cb: PopulationCounts,
    num_species: usize,
)
    requires
        a.to_multiset() == b.to_multiset(),
        ca.is_census_of(a, num_species),
        cb.is_census_of(b, num_species),
    ensures
        ca.same_as(cb),
{
    broadcast use vstd::seq_lib::group_to_multiset_ensures;

    assert(a.len() == a.to_multiset().len());
    lemma_counts_order_free(a, b, 0, Ternary::Negative);
    lemma_counts_order_free(a, b, 0, Ternary::Neutral);
    lemma_counts_order_free(a, b, 0, Ternary::Positive);
    assert(ca.species_counts@ =~= cb.species_counts@) by {
        assert forall|s: int| 0 <= s < ca.species_counts@.len() implies ca.species_counts@[s]
            == cb.species_counts@[s] by {
            lemma_counts_order_free(a, b, s, Ternary::Neutral);
        }
    }
    assert(ca.joint_counts@ =~= cb.joint_counts@) by {
        assert forall|s: int| 0 <= s < ca.joint_counts@.len() implies ca.joint_counts@[s]
            == cb.joint_counts@[s] by {
            lemma_counts_order_free(a, b, s, Ternary::Negative);
            lemma_counts_order_free(a, b, s, Ternary::Neutral);
            lemma_counts_order_free(a, b, s, Ternary::Positive);
        }
    }
}

proof fn lemma_counts_order_free(a: Seq<Agent>, b: Seq<Agent>, s: int, v: Ternary)
    requires
        a.to_multiset() == b.to_multiset(),
    ensures
        count_value(a, v) == count_value(b, v),
        count_species(a, s) == count_species(b, s),
        count_species_value(a, s, v) == count_species_value(b, s, v),
        trapped_ticks_of(a) == trapped_ticks_of(b),
{
    lemma_counts_are_weight_sums(a, s, v);
    lemma_counts_are_weight_sums(b, s, v);
    lemma_weight_sum_order_free(a, b, |x: Agent| if x.value == v { 1nat } else { 0nat });
    lemma_weight_sum_order_free(a, b, |x: Agent| if x.species == s { 1nat } else { 0nat });
    lemma_weight_sum_order_free(
        a,
        b,
        |x: Agent| if x.species == s && x.value == v { 1nat } else { 0nat },
    );
    lemma_weight_sum_order_free(
        a,
        b,
        |x: Agent| if x.value == Ternary::Neutral { x.ticks_in_zero as nat } else { 0nat },
    );
}

/// A dead grid stays dead: with no tunnelling and no mutation, a tick leaves
/// an all-neutral population neutral, each agent one tick longer in the trap
/// with its tokens kept, and the census after it counts no active agent.
pub proof fn lemma_dead_grid_stays_dead(
    agents: Seq<Agent>,
    cfg: EngineConfig,
    tick: u64,
    after: PopulationCounts,
)
    requires
        cfg.tunnel_rate == 0,
        cfg.mutation_rate == 0,
        forall|i: int|
            0 <= i < agents.len() ==> {
                &&& (#[trigger] agents[i]).value == Ternary::Neutral
                &&& agents[i].ticks_in_zero < u64::MAX
            },
        after.is_census_of(stepped_agents(agents, cfg, tick), cfg.num_species),
    ensures
        stepped_agents(agents, cfg, tick).len() == agents.len(),
        forall|i: int|
            0 <= i < agents.len() ==> {
                &&& (#[trigger] stepped_agents(agents, cfg, tick)[i]).value == Ternary::Neutral
                &&& stepped_agents(agents, cfg, tick)[i].ticks_in_zero == agents[i].ticks_in_zero
                    + 1
                &&& stepped_agents(agents, cfg, tick)[i].forgiveness_tokens
                    == agents[i].forgiveness_tokens
            },
        after.total_active == 0,
{
    let vals = values_of(agents);
    let side = crate::engine::grid_side(cfg.grid_size);
    assert forall|i: int| 0 <= i < vals.len() implies #[trigger] vals[i] == Ternary::Neutral by {
        assert(agents[i].value == Ternary::Neutral);
    }
    lemma_neutral_grid_is_fixed(vals, side);
    let next = stepped_agents(agents, cfg, tick);
    lemma_dead_update_agents(agents, majority_values(vals, side), crate::draws::tick_seed(tick), cfg);
    lemma_all_neutral_count(next);
}

proof fn lemma_dead_update_agent(a: Agent, s: u64, cfg: EngineConfig)
    requires
        cfg.tunnel_rate == 0,
        cfg.mutation_rate == 0,
        a.ticks_in_zero < u64::MAX,
    ensures
        update_agent(a, Ternary::Neutral, s, cfg).0.value == Ternary::Neutral,
        update_agent(a, Ternary::Neutral, s, cfg).0.ticks_in_zero == a.ticks_in_zero + 1,
        update_agent(a, Ternary::Neutral, s, cfg).0.forgiveness_tokens == a.forgiveness_tokens,
{
}

proof fn lemma_dead_update_agents(agents: Seq<Agent>, values: Seq<Ternary>, s: u64, cfg: EngineConfig)
    requires
        cfg.tunnel_rate == 0,
        cfg.mutation_rate == 0,
        agents.len() <= values.len(),
        forall|i: int| 0 <= i < values.len() ==> #[trigger] values[i] == Ternary::Neutral,
        forall|i: int|
            0 <= i < agents.len() ==> (#[trigger] agents[i]).ticks_in_zero < u64::MAX,
    ensures
        update_agents(agents, values, s, cfg).0.len() == agents.len(),
        forall|i: int|
            0 <= i < agents.len() ==> {
                &&& (#[trigger] update_agents(agents, values, s, cfg).0[i]).value
                    == Ternary::Neutral
                &&& update_agents(agents, values, s, cfg).0[i].ticks_in_zero
                    == agents[i].ticks_in_zero + 1
                &&& update_agents(agents, values, s, cfg).0[i].forgiveness_tokens
                    == agents[i].forgiveness_tokens
            },
    decreases agents.len(),
{
    if agents.len() > 0 {
        let n = agents.len();
        let prefix = agents.drop_last();
        assert forall|i: int| 0 <= i < prefix.len() implies (#[trigger] prefix[i]).ticks_in_zero
            < u64::MAX by {
            assert(prefix[i] == agents[i]);
        }
        lemma_dead_update_agents(prefix, values, s, cfg);
        let prev = update_agents(prefix, values, s, cfg);
        assert(values[n - 1] == Ternary::Neutral);
        assert(agents[n - 1].ticks_in_zero < u64::MAX);
        lemma_dead_update_agent(agents.last(), prev.1, cfg);
        let result = update_agents(agents, values, s, cfg).0;
        assert(result == prev.0.push(update_agent(agents.last(), values[n - 1], prev.1, cfg).0));
        assert forall|i: int| 0 <= i < n implies {
            &&& (#[trigger] result[i]).value == Ternary::Neutral
            &&& result[i].ticks_in_zero == agents[i].ticks_in_zero + 1
            &&& result[i].forgiveness_tokens == agents[i].forgiveness_tokens
        } by {
            if i < n - 1 {
                assert(prefix[i] == agents[i]);
                assert(result[i] == prev.0[i]);
            }
        }
    }
}

proof fn lemma_all_neutral_count(agents: Seq<Agent>)
    requires
        forall|i: int| 0 <= i < agents.len() ==> (#[trigger] agents[i]).value == Ternary::Neutral,
    ensures
        count_value(agents, Ternary::Neutral) == agents.len(),
    decreases agents.len(),
{
    if agents.len() > 0 {
        let prefix = agents.drop_last();
        assert forall|i: int| 0 <= i < prefix.len() implies (#[trigger] prefix[i]).value
            == Ternary::Neutral by {
            assert(prefix[i] == agents[i]);
        }
        lemma_all_neutral_count(prefix);
        assert(agents[agents.len() - 1].value == Ternary::Neutral);
    }
}

} // verus!
