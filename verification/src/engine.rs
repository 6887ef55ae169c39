//! The unified ternary simulation engine.
//!
//! Each tick, every agent first takes the majority of its Moore neighbourhood
//! (read from the values before the tick). Then, agent by agent in order,
//! with one generator seeded by the tick number:
//! 1. an active agent may fall into the neutral trap;
//! 2. a trapped agent may tunnel out, spending a forgiveness token;
//! 3. the agent may mutate to a fresh random value;
//! 4. the agent may switch to a random species.
use vstd::prelude::*;

use crate::agent::Agent;
use crate::census::{lemma_census_same, species_in_range, PopulationCounts};
use crate::draws::{
    draw_of, next_state, species_from_draw, species_of_draw, state_after, tick_seed, value_from_draw,
    value_of_draw, Lcg, COIN_NEGATIVE_BELOW, POPULATE_SEED,
};
use crate::grid::{grid_fits, is_isqrt, isqrt, majority_rule, majority_values};
use crate::ternary::Ternary;

verus! {

/// Engine parameters. Rates are fractions of `draws::DRAW_SCALE`: an event
/// of rate `r` happens when a draw comes out below `r`.
#[derive(Debug, Clone, Copy)]
pub struct EngineConfig {
    /// Rate at which active agents fall into 0.
    pub trap_rate: u64,
    /// Rate at which trapped agents escape 0.
    pub tunnel_rate: u64,
    /// Tunnelling attempts per agent: the forgiveness tokens each agent of a
    /// new engine starts with.
    pub forgiveness_tokens: u32,
    /// Rate of random state change.
    pub mutation_rate: u64,
    /// Rate of species identity change.
    pub species_switch_rate: u64,
    /// Pareto selection (prevents diversity collapse).
    pub pareto_enabled: bool,
    /// Number of Pareto objectives.
    pub pareto_objectives: usize,
    /// Number of agents.
    pub grid_size: usize,
    /// Number of species.
    pub num_species: usize,
}

impl Default for EngineConfig {
    /// Defaults from the experiments: trap rate 0.01, tunnel rate 0.006 (the
    /// optimal one), 3 tokens, mutation rate 0.02, species switch rate 0.01,
    /// Pareto selection with 3 objectives, 100 agents of 5 species.
    fn default() -> (c: Self)
        ensures
            c.trap_rate == 21474837,
            c.tunnel_rate == 12884902,
            c.forgiveness_tokens == 3,
            c.mutation_rate == 42949673,
            c.species_switch_rate == 21474837,
            c.pareto_enabled,
            c.pareto_objectives == 3,
            c.grid_size == 100,
            c.num_species == 5,
    {
        EngineConfig {
            trap_rate: 21474837,
            tunnel_rate: 12884902,
            forgiveness_tokens: 3,
            mutation_rate: 42949673,
            species_switch_rate: 21474837,
            pareto_enabled: true,
            pareto_objectives: 3,
            grid_size: 100,
            num_species: 5,
        }
    }
}

/// The side of the grid for `n` agents: the integer square root of `n`.
pub open spec fn grid_side(n: usize) -> int {
    choose|r: int| is_isqrt(n as int, r)
}

/// The ternary values of a population.
pub open spec fn values_of(agents: Seq<Agent>) -> Seq<Ternary> {
    agents.map_values(|a: Agent| a.value)
}

/// Trap phase: an active agent draws, and falls when the draw is below the
/// trap rate; a trapped agent draws nothing and stays trapped one tick longer.
pub open spec fn trap_phase(a: Agent, s: u64, cfg: EngineConfig) -> (Agent, u64) {
    if a.value != Ternary::Neutral {
        let s1 = next_state(s);
        (a.after_trap(draw_of(s1) < cfg.trap_rate), s1)
    } else {
        (a.after_trap(false), s)
    }
}

/// Tunnel phase: a trapped agent draws; below the tunnel rate, and with a
/// token left, it draws again for the side it escapes to.
pub open spec fn tunnel_phase(a: Agent, s: u64, cfg: EngineConfig) -> (Agent, u64) {
    if a.value == Ternary::Neutral {
        let s1 = next_state(s);
        let hit = draw_of(s1) < cfg.tunnel_rate;
        if hit && a.forgiveness_tokens > 0 {
            let s2 = next_state(s1);
            (a.after_tunnel(true, draw_of(s2) < COIN_NEGATIVE_BELOW), s2)
        } else {
            (a, s1)
        }
    } else {
        (a, s)
    }
}

/// Mutation phase: below the mutation rate, a second draw picks a new value.
pub open spec fn mutation_phase(a: Agent, s: u64, cfg: EngineConfig) -> (Agent, u64) {
    let s1 = next_state(s);
    if draw_of(s1) < cfg.mutation_rate {
        let s2 = next_state(s1);
        (Agent { value: value_of_draw(draw_of(s2)), ..a }, s2)
    } else {
        (a, s1)
    }
}

/// Species phase: below the switch rate, a second draw picks a new species.
pub open spec fn species_phase(a: Agent, s: u64, cfg: EngineConfig) -> (Agent, u64) {
    let s1 = next_state(s);
    if draw_of(s1) < cfg.species_switch_rate {
        let s2 = next_state(s1);
        (Agent { species: species_of_draw(draw_of(s2), cfg.num_species), ..a }, s2)
    } else {
        (a, s1)
    }
}

/// One agent's update in a tick: it takes the value `v` that the majority
/// rule gave it, then goes through the four phases; with the generator state
/// after them.
pub open spec fn update_agent(a: Agent, v: Ternary, s: u64, cfg: EngineConfig) -> (Agent, u64) {
    let t = trap_phase(Agent { value: v, ..a }, s, cfg);
    let u = tunnel_phase(t.0, t.1, cfg);
    let m = mutation_phase(u.0, u.1, cfg);
    species_phase(m.0, m.1, cfg)
}

/// The agents updated in order, agent `i` taking value `values[i]`, with
/// one generator threaded through them; with its final state.
pub open spec fn update_agents(
    agents: Seq<Agent>,
    values: Seq<Ternary>,
    s: u64,
    cfg: EngineConfig,
) -> (Seq<Agent>, u64)
    decreases agents.len(),
{
    if agents.len() == 0 {
        (Seq::empty(), s)
    } else {
        let prev = update_agents(agents.drop_last(), values, s, cfg);
        let last = update_agent(agents.last(), values[agents.len() - 1], prev.1, cfg);
        (prev.0.push(last.0), last.1)
    }
}

/// The agents after the tick numbered `tick`.
pub open spec fn stepped_agents(agents: Seq<Agent>, cfg: EngineConfig, tick: u64) -> Seq<Agent> {
    let values = majority_values(values_of(agents), grid_side(cfg.grid_size));
    update_agents(agents, values, tick_seed(tick), cfg).0
}

/// The agents after `k` ticks starting at the tick numbered `tick`.
pub open spec fn run_agents(agents: Seq<Agent>, cfg: EngineConfig, tick: u64, k: nat) -> Seq<
    Agent,
>
    decreases k,
{
    if k == 0 {
        agents
    } else {
        stepped_agents(
            run_agents(agents, cfg, tick, (k - 1) as nat),
            cfg,
            (tick + k - 1) as u64,
        )
    }
}

/// The first `n` agents of a new engine, drawn from a generator in state `s`:
/// for each, one draw for its value and one for its species; each starts at
/// tick 0 with `tokens` forgiveness tokens. With the generator's state after
/// them.
pub open spec fn populate(n: nat, s: u64, num_species: usize, tokens: u32) -> (Seq<Agent>, u64)
    decreases n,
{
    if n == 0 {
        (Seq::empty(), s)
    } else {
        let prev = populate((n - 1) as nat, s, num_species, tokens);
        let s1 = next_state(prev.1);
        let s2 = next_state(s1);
        let a = Agent {
            forgiveness_tokens: tokens,
            ..Agent::fresh(
                value_of_draw(draw_of(s1)),
                species_of_draw(draw_of(s2), num_species),
                0,
            )
        };
        (prev.0.push(a), s2)
    }
}

/// The unified ternary simulation engine.
pub struct TernaryEngine {
    pub agents: Vec<Agent>,
    pub config: EngineConfig,
    pub tick: u64,
    pub history: Vec<PopulationCounts>,
}

fn trap_step(a: &mut Agent, rng: &mut Lcg, cfg: &EngineConfig)
    requires
        old(a).value == Ternary::Neutral ==> old(a).ticks_in_zero < u64::MAX,
    ensures
        (*final(a), final(rng).state) == trap_phase(*old(a), old(rng).state, *cfg),
{
    if a.value != Ternary::Neutral {
        let x = rng.next_draw();
        a.fall_into_trap(x < cfg.trap_rate);
    } else {
        a.fall_into_trap(false);
    }
}

fn tunnel_step(a: &mut Agent, rng: &mut Lcg, cfg: &EngineConfig)
    ensures
        (*final(a), final(rng).state) == tunnel_phase(*old(a), old(rng).state, *cfg),
{
    if a.value == Ternary::Neutral {
        let hit = rng.next_draw() < cfg.tunnel_rate;
        if hit && a.forgiveness_tokens > 0 {
            let coin_negative = rng.next_draw() < COIN_NEGATIVE_BELOW;
            a.try_tunnel(true, coin_negative);
        }
    }
}

fn mutation_step(a: &mut Agent, rng: &mut Lcg, cfg: &EngineConfig)
    ensures
        (*final(a), final(rng).state) == mutation_phase(*old(a), old(rng).state, *cfg),
{
    if rng.next_draw() < cfg.mutation_rate {
        let x = rng.next_draw();
        a.value = value_from_draw(x);
    }
}

fn species_step(a: &mut Agent, rng: &mut Lcg, cfg: &EngineConfig)
    ensures
        (*final(a), final(rng).state) == species_phase(*old(a), old(rng).state, *cfg),
{
    if rng.next_draw() < cfg.species_switch_rate {
        let x = rng.next_draw();
        a.species = species_from_draw(x, cfg.num_species);
    }
}

/// The integer square root is unique.
proof fn lemma_isqrt_unique(n: usize, r: int)
    requires
        is_isqrt(n as int, r),
    ensures
        grid_side(n) == r,
{
    let c = grid_side(n);
    assert(is_isqrt(n as int, c));
    if c < r {
        assert((c + 1) * (c + 1) <= r * r) by (nonlinear_arith)
            requires
                0 <= c < r,
        ;
    } else if r < c {
        assert((r + 1) * (r + 1) <= c * c) by (nonlinear_arith)
            requires
                0 <= r < c,
        ;
    }
}

/// One agent's update in a tick.
fn update_one(a: Agent, v: Ternary, rng: &mut Lcg, cfg: &EngineConfig) -> (r: Agent)
    requires
        a.ticks_in_zero < u64::MAX,
    ensures
        (r, final(rng).state) == update_agent(a, v, old(rng).state, *cfg),
{
    let mut b = a;
    b.value = v;
    trap_step(&mut b, rng, cfg);
    tunnel_step(&mut b, rng, cfg);
    mutation_step(&mut b, rng, cfg);
    species_step(&mut b, rng, cfg);
    b
}

/// The values of a population.
fn collect_values(agents: &[Agent]) -> (values: Vec<Ternary>)
    ensures
        values@ == values_of(agents@),
{
    let n = agents.len();
    let mut values: Vec<Ternary> = Vec::new();
    let mut j: usize = 0;
    while j < n
        invariant
            n == agents@.len(),
            j <= n,
            values@ == values_of(agents@).take(j as int),
        decreases n - j,
    {
        values.push(agents[j].value);
        j = j + 1;
        assert(values@ =~= values_of(agents@).take(j as int));
    }
    assert(values@ =~= values_of(agents@));
    values
}

/// Update every agent in order, agent `i` taking value `values[i]`.
fn update_all(agents: &mut Vec<Agent>, values: &Vec<Ternary>, rng: &mut Lcg, cfg: &EngineConfig)
    requires
        values@.len() == old(agents)@.len(),
        forall|k: int|
            0 <= k < old(agents)@.len() ==> #[trigger] old(agents)@[k].ticks_in_zero < u64::MAX,
    ensures
        (final(agents)@, final(rng).state) == update_agents(
            old(agents)@,
            values@,
            old(rng).state,
            *cfg,
        ),
{
    let ghost start = agents@;
    let ghost seed = rng.state;
    let n = agents.len();
    let mut i: usize = 0;
    while i < n
        invariant
            n == agents@.len(),
            n == start.len(),
            n == values@.len(),
            i <= n,
            forall|k: int| 0 <= k < n ==> #[trigger] start[k].ticks_in_zero < u64::MAX,
            (agents@.take(i as int), rng.state) == update_agents(
                start.take(i as int),
                values@,
                seed,
                *cfg,
            ),
            forall|k: int| i <= k < n ==> #[trigger] agents@[k] == start[k],
        decreases n - i,
    {
        let a = agents[i];
        let b = update_one(a, values[i], rng, cfg);
        let ghost before = agents@;
        agents.set(i, b);
        proof {
            assert(start.take(i + 1).drop_last() =~= start.take(i as int));
            assert(agents@.take(i + 1) =~= before.take(i as int).push(b));
        }
        i = i + 1;
    }
    assert(agents@.take(n as int) =~= agents@);
    assert(start.take(n as int) =~= start);
}

impl TernaryEngine {
    /// The engine can advance one tick: the grid fits its index arithmetic,
    /// and neither the tick counter nor any agent's trapped time is at its
    /// limit.
    pub open spec fn can_advance(&self) -> bool {
        &&& grid_fits(self.agents@.len() as int, grid_side(self.config.grid_size))
        &&& self.tick < u64::MAX
        &&& forall|i: int|
            0 <= i < self.agents@.len() ==> #[trigger] self.agents@[i].ticks_in_zero < u64::MAX
    }

    /// The engine can run one tick and census it: it can advance, and after
    /// the tick every agent's species has an entry in the census.
    pub open spec fn can_step(&self) -> bool {
        &&& self.can_advance()
        &&& species_in_range(
            stepped_agents(self.agents@, self.config, self.tick),
            self.config.num_species,
        )
    }

    /// The engine can run `k` ticks, census each, and census the population
    /// it ends with: after each tick (and, for zero ticks, now) every agent's
    /// species has an entry in the census.
    pub open spec fn can_run(&self, k: nat) -> bool {
        &&& grid_fits(self.agents@.len() as int, grid_side(self.config.grid_size))
        &&& forall|j: nat|
            j <= k && (1 <= j || j == k) ==> #[trigger] species_in_range(
                run_agents(self.agents@, self.config, self.tick, j),
                self.config.num_species,
            )
        &&& self.tick + k <= u64::MAX
        &&& forall|i: int|
            0 <= i < self.agents@.len() ==> #[trigger] self.agents@[i].ticks_in_zero + k
                <= u64::MAX
    }

    /// A new engine: `grid_size` agents whose values and species are drawn
    /// from a generator seeded with `POPULATE_SEED`, each holding the
    /// configured forgiveness tokens, at tick 0, with no history.
    pub fn new(config: EngineConfig) -> (e: Self)
        ensures
            e.agents@ == populate(
                config.grid_size as nat,
                POPULATE_SEED,
                config.num_species,
                config.forgiveness_tokens,
            ).0,
            e.agents@.len() == config.grid_size,
            forall|i: int|
                0 <= i < e.agents@.len() ==> (#[trigger] e.agents@[i]).forgiveness_tokens
                    == config.forgiveness_tokens,
            forall|i: int|
                0 <= i < e.agents@.len() ==> {
                    &&& (#[trigger] e.agents@[i]).value == value_of_draw(
                        draw_of(state_after(POPULATE_SEED, (2 * i + 1) as nat)),
                    )
                    &&& e.agents@[i].species == species_of_draw(
                        draw_of(state_after(POPULATE_SEED, (2 * i + 2) as nat)),
                        config.num_species,
                    )
                    &&& e.agents@[i].tick_born == 0
                },
            e.config == config,
            e.tick == 0,
            e.history@.len() == 0,
    {
        let mut rng = Lcg::new(POPULATE_SEED);
        let mut agents: Vec<Agent> = Vec::new();
        let mut i: usize = 0;
        while i < config.grid_size
            invariant
                i <= config.grid_size,
                (agents@, rng.state) == populate(
                    i as nat,
                    POPULATE_SEED,
                    config.num_species,
                    config.forgiveness_tokens,
                ),
            decreases config.grid_size - i,
        {
            let value = value_from_draw(rng.next_draw());
            let species = species_from_draw(rng.next_draw(), config.num_species);
            let mut agent = Agent::new(value, species, 0);
            agent.forgiveness_tokens = config.forgiveness_tokens;
            agents.push(agent);
            i = i + 1;
        }
        proof {
            crate::laws::lemma_populate_facts(
                config.grid_size as nat,
                POPULATE_SEED,
                config.num_species,
                config.forgiveness_tokens,
            );
            crate::rule_laws::lemma_populate_draws(
                config.grid_size as nat,
                POPULATE_SEED,
                config.num_species,
                config.forgiveness_tokens,
            );
        }
        TernaryEngine { agents, config, tick: 0, history: Vec::new() }
    }

    /// Advance one tick; return the census of the population after it, which
    /// is also appended to the history.
    pub fn step(&mut self) -> (m: PopulationCounts)
        requires
            old(self).can_step(),
        ensures
            final(self).agents@ == stepped_agents(old(self).agents@, old(self).config, old(self).tick),
            final(self).config == old(self).config,
            final(self).tick == old(self).tick + 1,
            m.is_census_of(final(self).agents@, final(self).config.num_species),
            final(self).history@ == old(self).history@.push(final(self).history@.last()),
            final(self).history@.last().same_as(m),
    {
        self.advance();
        self.record_census()
    }

    /// Advance one tick, without taking its census.
    pub fn advance(&mut self)
        requires
            old(self).can_advance(),
        ensures
            final(self).agents@ == stepped_agents(old(self).agents@, old(self).config, old(self).tick),
            final(self).config == old(self).config,
            final(self).tick == old(self).tick + 1,
            final(self).history@ == old(self).history@,
    {
        let cfg = self.config;
        let values = collect_values(self.agents.as_slice());
        let side = isqrt(cfg.grid_size);
        proof {
            lemma_isqrt_unique(cfg.grid_size, side as int);
        }
        let next_values = majority_rule(values.as_slice(), side);
        let mut rng = Lcg::for_tick(self.tick);
        update_all(&mut self.agents, &next_values, &mut rng, &cfg);
        self.tick = self.tick + 1;
    }

    /// Take the census of the population, append it to the history and
    /// return it.
    pub fn record_census(&mut self) -> (m: PopulationCounts)
        requires
            species_in_range(old(self).agents@, old(self).config.num_species),
        ensures
            final(self).agents@ == old(self).agents@,
            final(self).config == old(self).config,
            final(self).tick == old(self).tick,
            m.is_census_of(final(self).agents@, final(self).config.num_species),
            final(self).history@ == old(self).history@.push(final(self).history@.last()),
            final(self).history@.last().same_as(m),
    {
        let m = PopulationCounts::compute(self.agents.as_slice(), self.config.num_species);
        let snapshot = m.duplicate();
        self.history.push(snapshot);
        m
    }

    /// Run for `ticks` ticks and return the final counts: the last census of
    /// the history (the census after the last tick), or, where the history
    /// is empty, the census of the population as it stands.
    pub fn run(&mut self, ticks: u64) -> (m: PopulationCounts)
        requires
            old(self).can_run(ticks as nat),
        ensures
            final(self).agents@ == run_agents(
                old(self).agents@,
                old(self).config,
                old(self).tick,
                ticks as nat,
            ),
            final(self).config == old(self).config,
            final(self).tick == old(self).tick + ticks,
            final(self).history@.len() == old(self).history@.len() + ticks,
            final(self).history@.take(old(self).history@.len() as int) == old(self).history@,
            forall|j: int|
                0 <= j < ticks ==> (#[trigger] final(self).history@[old(self).history@.len() + j]).is_census_of(
                    run_agents(old(self).agents@, old(self).config, old(self).tick, (j + 1) as nat),
                    old(self).config.num_species,
                ),
            ticks > 0 ==> m.is_census_of(final(self).agents@, final(self).config.num_species),
            final(self).history@.len() > 0 ==> m.same_as(final(self).history@.last()),
            final(self).history@.len() == 0 ==> m.is_census_of(
                final(self).agents@,
                final(self).config.num_species,
            ),
    {
        let ghost start = self.agents@;
        let ghost t0 = self.tick;
        let ghost h0 = self.history@;
        let ghost cfg = self.config;
        let mut k: u64 = 0;
        while k < ticks
            invariant
                k <= ticks,
                old(self).can_run(ticks as nat),
                start == old(self).agents@,
                t0 == old(self).tick,
                h0 == old(self).history@,
                cfg == old(self).config,
                self.config == cfg,
                self.tick == t0 + k,
                self.agents@ == run_agents(start, cfg, t0, k as nat),
                self.agents@.len() == start.len(),
                forall|i: int|
                    0 <= i < start.len() ==> #[trigger] self.agents@[i].ticks_in_zero
                        <= start[i].ticks_in_zero + k,
                self.history@.len() == h0.len() + k,
                self.history@.take(h0.len() as int) == h0,
                forall|j: int|
                    0 <= j < k ==> (#[trigger] self.history@[h0.len() + j]).is_census_of(
                        run_agents(start, cfg, t0, (j + 1) as nat),
                        cfg.num_species,
                    ),
                k > 0 ==> self.history@.last().is_census_of(self.agents@, cfg.num_species),
            decreases ticks - k,
        {
            let ghost before = self.agents@;
            let ghost hist = self.history@;
            assert forall|i: int| 0 <= i < self.agents@.len() implies #[trigger] self.agents@[
                i].ticks_in_zero < u64::MAX by {
                assert(start[i].ticks_in_zero + ticks <= u64::MAX);
            }
            proof {
                lemma_step_keeps(before, cfg, self.tick);
                assert(run_agents(start, cfg, t0, (k + 1) as nat) == stepped_agents(
                    before,
                    cfg,
                    self.tick,
                ));
                assert(species_in_range(
                    run_agents(start, cfg, t0, (k + 1) as nat),
                    cfg.num_species,
                ));
            }
            let m = self.step();
            proof {
                assert(self.history@.take(h0.len() as int) =~= hist.take(h0.len() as int));
                assert forall|i: int| 0 <= i < start.len() implies #[trigger] self.agents@[
                    i].ticks_in_zero <= start[i].ticks_in_zero + k + 1 by {
                    assert(update_keeps(before[i], self.agents@[i], cfg.num_species));
                }
                lemma_census_same(m, self.history@.last(), self.agents@, cfg.num_species);
                assert forall|j: int| 0 <= j < k + 1 implies (#[trigger] self.history@[h0.len()
                    + j]).is_census_of(run_agents(start, cfg, t0, (j + 1) as nat), cfg.num_species)
                    by {
                    if j < k {
                        assert(self.history@[h0.len() + j] == hist[h0.len() + j]);
                    } else {
                        assert(run_agents(start, cfg, t0, (k + 1) as nat) == stepped_agents(
                            run_agents(start, cfg, t0, k as nat),
                            cfg,
                            (t0 + k) as u64,
                        ));
                    }
                }
            }
            k = k + 1;
        }
        if self.history.len() == 0 {
            proof {
                assert(species_in_range(
                    run_agents(start, cfg, t0, ticks as nat),
                    cfg.num_species,
                ));
            }
            PopulationCounts::compute(self.agents.as_slice(), self.config.num_species)
        } else {
            let last = self.history.len() - 1;
            self.history[last].duplicate()
        }
    }
}

/// What every agent's update keeps: its birth tick, a species in range, no
/// more tokens than before and at most one fewer, and at most one more tick
/// in the trap.
pub open spec fn update_keeps(before: Agent, after: Agent, num_species: usize) -> bool {
    &&& after.tick_born == before.tick_born
    &&& after.forgiveness_tokens <= before.forgiveness_tokens
    &&& before.forgiveness_tokens <= after.forgiveness_tokens + 1
    &&& after.ticks_in_zero <= before.ticks_in_zero + 1
    &&& before.species < num_species ==> after.species < num_species
}

/// What a tick keeps of every agent (see `update_keeps`); it keeps the
/// number of agents.
pub proof fn lemma_step_keeps(agents: Seq<Agent>, cfg: EngineConfig, tick: u64)
    requires
        forall|k: int| 0 <= k < agents.len() ==> #[trigger] agents[k].ticks_in_zero < u64::MAX,
    ensures
        stepped_agents(agents, cfg, tick).len() == agents.len(),
        forall|k: int|
            0 <= k < agents.len() ==> update_keeps(
                #[trigger] agents[k],
                stepped_agents(agents, cfg, tick)[k],
                cfg.num_species,
            ),
{
    let values = majority_values(values_of(agents), grid_side(cfg.grid_size));
    lemma_update_agents_facts(agents, values, tick_seed(tick), cfg);
}

proof fn lemma_update_agent_facts(a: Agent, v: Ternary, s: u64, cfg: EngineConfig)
    requires
        a.ticks_in_zero < u64::MAX,
    ensures
        update_keeps(a, update_agent(a, v, s, cfg).0, cfg.num_species),
{
    let t = trap_phase(Agent { value: v, ..a }, s, cfg);
    let u = tunnel_phase(t.0, t.1, cfg);
    let m = mutation_phase(u.0, u.1, cfg);
    let r = species_phase(m.0, m.1, cfg);
    let s1 = next_state(m.1);
    if draw_of(s1) < cfg.species_switch_rate {
        let s2 = next_state(s1);
        let x = draw_of(s2);
        assert(x < 0x8000_0000) by (bit_vector)
            requires
                x == s2 / 0x2_0000_0000,
        ;
        if a.species < cfg.num_species {
            assert((x as nat * cfg.num_species as nat) / 0x8000_0000 < cfg.num_species) by (
            nonlinear_arith)
                requires
                    x < 0x8000_0000,
                    cfg.num_species > 0,
            ;
        }
    }
}

/// The facts of `update_keeps` for every agent of a population, which keeps
/// its size.
pub proof fn lemma_update_agents_facts(
    agents: Seq<Agent>,
    values: Seq<Ternary>,
    s: u64,
    cfg: EngineConfig,
)
    requires
        forall|k: int| 0 <= k < agents.len() ==> #[trigger] agents[k].ticks_in_zero < u64::MAX,
    ensures
        update_agents(agents, values, s, cfg).0.len() == agents.len(),
        forall|k: int|
            0 <= k < agents.len() ==> update_keeps(
                #[trigger] agents[k],
                update_agents(agents, values, s, cfg).0[k],
                cfg.num_species,
            ),
    decreases agents.len(),
{
    if agents.len() > 0 {
        let prefix = agents.drop_last();
        lemma_update_agents_facts(prefix, values, s, cfg);
        let prev = update_agents(prefix, values, s, cfg);
        lemma_update_agent_facts(agents.last(), values[agents.len() - 1], prev.1, cfg);
        assert forall|k: int| 0 <= k < agents.len() implies update_keeps(
            #[trigger] agents[k],
            update_agents(agents, values, s, cfg).0[k],
            cfg.num_species,
        ) by {
            if k < agents.len() - 1 {
                assert(prefix[k] == agents[k]);
            }
        }
    }
}

} // verus!
