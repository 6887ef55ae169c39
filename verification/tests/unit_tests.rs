use lib::agent::Agent;
use lib::census::{PopulationCounts, StateCounts};
use lib::draws::{species_from_draw, value_from_draw, Lcg, DRAW_SCALE, NEGATIVE_BELOW, NEUTRAL_BELOW};
use lib::engine::{EngineConfig, TernaryEngine};
use lib::grid::{isqrt, majority_rule, neighbor_charge_at};
use lib::health::EngineHealth;
use lib::ternary::Ternary;
use lib::ternary::Ternary::{Negative, Neutral, Positive};

#[test]
fn ternary_from_i8_reads_values() {
    assert_eq!(Ternary::from_i8(-1), Ternary::Negative);
    assert_eq!(Ternary::from_i8(0), Ternary::Neutral);
    assert_eq!(Ternary::from_i8(1), Ternary::Positive);
    // any other value reads as positive
    assert_eq!(Ternary::from_i8(5), Ternary::Positive);
    assert_eq!(Ternary::from_i8(-7), Ternary::Positive);
    assert_eq!(Ternary::from_i8(i8::MIN), Ternary::Positive);
}

#[test]
fn ternary_round_trips() {
    for t in [Ternary::Negative, Ternary::Neutral, Ternary::Positive] {
        assert_eq!(Ternary::from_i8(t.to_i8()), t);
    }
    for v in [-1i8, 0, 1] {
        assert_eq!(Ternary::from_i8(v).to_i8(), v);
    }
    assert!(!Ternary::Negative.is_insulator());
}

#[test]
fn agent_new_fields() {
    let a = Agent::new(Ternary::Negative, 4, 17);
    assert_eq!(a.value, Ternary::Negative);
    assert_eq!(a.species, 4);
    assert_eq!(a.tick_born, 17);
    assert_eq!(a.ticks_in_zero, 0);
    assert_eq!(a.forgiveness_tokens, 3);
    let b = Agent::new(Ternary::Neutral, 0, 0);
    assert_eq!(b.ticks_in_zero, 1);
}

#[test]
fn trap_closes_on_active_agent() {
    let mut a = Agent::new(Ternary::Negative, 0, 0);
    assert!(a.fall_into_trap(true));
    assert_eq!(a.value, Ternary::Neutral);
    assert_eq!(a.ticks_in_zero, 1);
    assert_eq!(a.forgiveness_tokens, 3);
}

#[test]
fn trapped_agent_stays_and_counts_ticks() {
    let mut a = Agent::new(Ternary::Neutral, 0, 0);
    assert!(!a.fall_into_trap(true));
    assert_eq!(a.value, Ternary::Neutral);
    assert_eq!(a.ticks_in_zero, 2);
    assert!(!a.fall_into_trap(false));
    assert_eq!(a.ticks_in_zero, 3);
}

#[test]
fn tunnel_to_negative_side() {
    let mut a = Agent::new(Ternary::Neutral, 0, 0);
    a.ticks_in_zero = 9;
    assert!(a.try_tunnel(true, true));
    assert_eq!(a.value, Ternary::Negative);
    assert_eq!(a.ticks_in_zero, 0);
    assert_eq!(a.forgiveness_tokens, 2);
}

#[test]
fn tunnel_needs_roll_and_trap() {
    let mut a = Agent::new(Ternary::Neutral, 0, 0);
    assert!(!a.try_tunnel(false, true));
    assert_eq!(a.value, Ternary::Neutral);
    assert_eq!(a.forgiveness_tokens, 3);
    let mut b = Agent::new(Ternary::Positive, 0, 0);
    assert!(!b.try_tunnel(true, true));
    assert_eq!(b.value, Ternary::Positive);
    assert_eq!(b.forgiveness_tokens, 3);
}

#[test]
fn tokens_run_out_after_three_escapes() {
    let mut a = Agent::new(Ternary::Neutral, 0, 0);
    for _ in 0..3 {
        assert!(a.try_tunnel(true, false));
        assert!(a.fall_into_trap(true));
    }
    assert_eq!(a.forgiveness_tokens, 0);
    assert!(!a.try_tunnel(true, false));
    assert_eq!(a.value, Ternary::Neutral);
}

#[test]
fn diagnose_priorities() {
    assert_eq!(EngineHealth::diagnose(true, true, true, true), EngineHealth::Dead);
    assert_eq!(EngineHealth::diagnose(false, true, true, true), EngineHealth::Critical);
    assert_eq!(EngineHealth::diagnose(false, false, true, true), EngineHealth::Vibrant);
    assert_eq!(EngineHealth::diagnose(false, false, false, true), EngineHealth::Consensus);
    assert_eq!(EngineHealth::diagnose(false, false, false, false), EngineHealth::Transitioning);
}

#[test]
fn health_labels() {
    assert_eq!(EngineHealth::Dead.label(), "💀 DEAD");
    assert_eq!(EngineHealth::Critical.label(), "⚠️ CRITICAL");
    assert_eq!(EngineHealth::Transitioning.label(), "🔄 TRANSITIONING");
    assert_eq!(EngineHealth::Vibrant.label(), "🌿 VIBRANT");
    assert_eq!(EngineHealth::Consensus.label(), "✅ CONSENSUS");
}

#[test]
fn generator_draws() {
    let mut g = Lcg::new(42);
    assert_eq!(g.next_draw(), 1052313527);
    assert_eq!(g.state, 9039304369631583587);
    assert_eq!(g.next_draw(), 1006665568);
    assert_eq!(g.next_draw(), 1203072297);
    assert_eq!(g.next_draw(), 53530574);
    let mut t = Lcg::for_tick(5);
    assert_eq!(t.state, 51940);
    assert_eq!(t.next_draw(), 701799267);
}

#[test]
fn draws_pick_values_and_species() {
    assert_eq!(value_from_draw(0), Ternary::Negative);
    assert_eq!(value_from_draw(NEGATIVE_BELOW - 1), Ternary::Negative);
    assert_eq!(value_from_draw(NEGATIVE_BELOW), Ternary::Neutral);
    assert_eq!(value_from_draw(NEUTRAL_BELOW - 1), Ternary::Neutral);
    assert_eq!(value_from_draw(NEUTRAL_BELOW), Ternary::Positive);
    assert_eq!(value_from_draw(DRAW_SCALE - 1), Ternary::Positive);
    assert_eq!(species_from_draw(1006665568, 5), 2);
    assert_eq!(species_from_draw(0, 5), 0);
    assert_eq!(species_from_draw(DRAW_SCALE - 1, 5), 4);
    assert_eq!(species_from_draw(DRAW_SCALE - 1, 0), 0);
    assert_eq!(
        species_from_draw(DRAW_SCALE - 1, usize::MAX) as u128,
        ((DRAW_SCALE as u128 - 1) * usize::MAX as u128) >> 31
    );
}

#[test]
fn integer_square_roots() {
    assert_eq!(isqrt(0), 0);
    assert_eq!(isqrt(1), 1);
    assert_eq!(isqrt(24), 4);
    assert_eq!(isqrt(25), 5);
    assert_eq!(isqrt(99), 9);
    assert_eq!(isqrt(100), 10);
    assert_eq!(isqrt(usize::MAX), (1usize << (usize::BITS / 2)) - 1);
}

#[test]
fn neighbourhood_wraps_and_skips_empty_cells() {
    // 3x3 grid, the centre sees all eight others
    let v = vec![Positive, Positive, Negative, Neutral, Negative, Positive, Positive, Neutral, Positive];
    assert_eq!(neighbor_charge_at(&v, 3, 4), 4);
    // the corner sees the whole grid around it by wrapping
    assert_eq!(neighbor_charge_at(&v, 3, 0), 2);
    // a 2x2 grid wraps onto the same cells twice
    let w = vec![Positive, Negative, Negative, Negative];
    assert_eq!(neighbor_charge_at(&w, 2, 0), -8);
    // 10 agents on a 3x3 side: cells past the end are empty
    let x = vec![Positive; 10];
    assert_eq!(neighbor_charge_at(&x, 3, 9), 8);
}

#[test]
fn majority_rule_keeps_balanced_cells() {
    let v = vec![Positive, Negative, Neutral, Neutral];
    // side 2: each cell sees its row mate and column mate twice, its diagonal four times
    let next = majority_rule(&v, 2);
    assert_eq!(next, vec![Negative, Positive, Negative, Positive]);
    // all-neutral grids stay as they are
    let n = vec![Neutral; 9];
    assert_eq!(majority_rule(&n, 3), n);
    // a cell whose neighbours balance keeps its value
    let b = vec![Positive, Negative, Neutral, Neutral, Negative, Neutral, Neutral, Neutral, Neutral];
    let nb = majority_rule(&b, 3);
    assert_eq!(nb[4], Negative);
    assert_eq!(neighbor_charge_at(&b, 3, 4), 0);
}

#[test]
fn census_counts() {
    let agents = vec![
        Agent::new(Ternary::Positive, 0, 0),
        Agent::new(Ternary::Negative, 1, 0),
        Agent::new(Ternary::Neutral, 1, 0),
        Agent::new(Ternary::Neutral, 2, 0),
    ];
    let mut agents = agents;
    agents[3].ticks_in_zero = 7;
    let c = PopulationCounts::compute(&agents, 3);
    assert_eq!(c.population, 4);
    assert_eq!(c.positive, 1);
    assert_eq!(c.negative, 1);
    assert_eq!(c.total_trapped, 2);
    assert_eq!(c.total_active, 2);
    assert_eq!(c.species_counts, vec![1, 2, 1]);
    assert_eq!(
        c.joint_counts,
        vec![
            StateCounts { negative: 0, neutral: 0, positive: 1 },
            StateCounts { negative: 1, neutral: 1, positive: 0 },
            StateCounts { negative: 0, neutral: 1, positive: 0 },
        ]
    );
    assert_eq!(c.trapped_ticks, 8);
    let d = c.duplicate();
    assert_eq!(d.species_counts, c.species_counts);
    assert_eq!(d.trapped_ticks, 8);
}

#[test]
fn census_of_empty_population() {
    let c = PopulationCounts::compute(&[], 4);
    assert_eq!(c.population, 0);
    assert!(c.species_counts.is_empty());
    assert!(c.joint_counts.is_empty());
}

#[test]
fn new_engine_population() {
    let engine = TernaryEngine::new(EngineConfig::default());
    assert_eq!(engine.agents[0].value, Ternary::Neutral);
    assert_eq!(engine.agents[0].species, 2);
    assert_eq!(engine.agents[1].value, Ternary::Neutral);
    assert_eq!(engine.agents[1].species, 0);
    assert!(engine.agents.iter().all(|a| a.species < 5 && a.tick_born == 0 && a.forgiveness_tokens == 3));
    assert!(engine.history.is_empty());
}

#[test]
fn engine_is_deterministic() {
    let mut a = TernaryEngine::new(EngineConfig::default());
    let mut b = TernaryEngine::new(EngineConfig::default());
    for _ in 0..20 {
        a.step();
        b.step();
    }
    for (x, y) in a.agents.iter().zip(b.agents.iter()) {
        assert_eq!(x.value, y.value);
        assert_eq!(x.species, y.species);
        assert_eq!(x.ticks_in_zero, y.ticks_in_zero);
        assert_eq!(x.forgiveness_tokens, y.forgiveness_tokens);
    }
}

#[test]
fn run_records_history_and_tick() {
    let mut e = TernaryEngine::new(EngineConfig { grid_size: 36, ..Default::default() });
    let now = e.run(0);
    assert!(e.history.is_empty());
    assert_eq!(e.tick, 0);
    let direct = PopulationCounts::compute(&e.agents, 5);
    assert_eq!(now.population, 36);
    assert_eq!(now.species_counts.len(), 5);
    assert_eq!(now.species_counts, direct.species_counts);
    assert_eq!(now.total_trapped, direct.total_trapped);
    assert_eq!(now.total_active, direct.total_active);
    let m = e.run(7);
    assert_eq!(e.tick, 7);
    assert_eq!(e.history.len(), 7);
    assert_eq!(m.population, 36);
    assert_eq!(m.total_trapped + m.total_active, 36);
    assert_eq!(m.species_counts.iter().sum::<usize>(), 36);
    let again = e.run(0);
    assert_eq!(again.species_counts, m.species_counts);
    let before: Vec<u32> = e.agents.iter().map(|a| a.forgiveness_tokens).collect();
    e.step();
    for (a, t) in e.agents.iter().zip(before) {
        assert!(a.forgiveness_tokens <= t && t <= a.forgiveness_tokens + 1);
    }
}

#[test]
fn no_tunnelling_keeps_tokens() {
    let cfg = EngineConfig { tunnel_rate: 0, ..Default::default() };
    let mut e = TernaryEngine::new(cfg);
    e.run(200);
    assert!(e.agents.iter().all(|a| a.forgiveness_tokens == 3));
}

#[test]
fn certain_trap_without_escape_or_mutation_seizes_engine() {
    let cfg = EngineConfig {
        trap_rate: DRAW_SCALE,
        tunnel_rate: 0,
        mutation_rate: 0,
        ..Default::default()
    };
    let mut e = TernaryEngine::new(cfg);
    let m = e.run(3);
    assert_eq!(m.total_trapped, 100);
    assert_eq!(m.total_active, 0);
    let h = EngineHealth::diagnose(m.total_active * 100 < m.population, true, false, false);
    assert_eq!(h, EngineHealth::Dead);
}

#[test]
fn new_engine_uses_configured_tokens() {
    let e = TernaryEngine::new(EngineConfig { forgiveness_tokens: 5, grid_size: 16, ..Default::default() });
    assert_eq!(e.agents.len(), 16);
    assert!(e.agents.iter().all(|a| a.forgiveness_tokens == 5));
    let z = TernaryEngine::new(EngineConfig { forgiveness_tokens: 0, grid_size: 9, ..Default::default() });
    assert!(z.agents.iter().all(|a| a.forgiveness_tokens == 0));
}

#[test]
fn empty_engine_with_huge_grid_steps() {
    let mut e = TernaryEngine {
        agents: Vec::new(),
        config: EngineConfig { grid_size: usize::MAX, ..Default::default() },
        tick: 0,
        history: Vec::new(),
    };
    let m = e.step();
    assert_eq!(m.population, 0);
    assert_eq!(e.tick, 1);
    assert_eq!(e.history.len(), 1);
}

#[test]
fn run_history_holds_each_tick() {
    let cfg = EngineConfig { grid_size: 49, ..Default::default() };
    let mut a = TernaryEngine::new(cfg);
    let mut b = TernaryEngine::new(cfg);
    a.run(5);
    for j in 0..5 {
        let m = b.step();
        assert_eq!(a.history[j].total_trapped, m.total_trapped);
        assert_eq!(a.history[j].positive, m.positive);
        assert_eq!(a.history[j].species_counts, m.species_counts);
        assert_eq!(a.history[j].trapped_ticks, m.trapped_ticks);
    }
}

#[test]
fn dead_grid_stays_dead() {
    let cfg = EngineConfig { tunnel_rate: 0, mutation_rate: 0, grid_size: 25, ..Default::default() };
    let mut e = TernaryEngine {
        agents: vec![Agent::new(Ternary::Neutral, 1, 0); 25],
        config: cfg,
        tick: 3,
        history: Vec::new(),
    };
    let m = e.step();
    assert_eq!(m.total_active, 0);
    assert!(e.agents.iter().all(|a| a.value == Ternary::Neutral && a.ticks_in_zero == 2 && a.forgiveness_tokens == 3));
}

#[test]
fn census_is_order_free() {
    let agents = vec![
        Agent::new(Ternary::Positive, 0, 0),
        Agent::new(Ternary::Negative, 1, 0),
        Agent::new(Ternary::Neutral, 1, 0),
        Agent::new(Ternary::Neutral, 2, 0),
    ];
    let mut reversed = agents.clone();
    reversed.reverse();
    let c = PopulationCounts::compute(&agents, 3);
    let d = PopulationCounts::compute(&reversed, 3);
    assert_eq!(c.species_counts, d.species_counts);
    assert_eq!(c.joint_counts, d.joint_counts);
    assert_eq!(c.total_trapped, d.total_trapped);
    assert_eq!(c.trapped_ticks, d.trapped_ticks);
}

#[test]
fn advance_then_census_is_a_step() {
    let cfg = EngineConfig { grid_size: 16, ..Default::default() };
    let mut a = TernaryEngine::new(cfg);
    let mut b = TernaryEngine::new(cfg);
    let m = a.step();
    b.advance();
    assert!(b.history.is_empty());
    let n = b.record_census();
    assert_eq!(a.tick, b.tick);
    assert_eq!(m.species_counts, n.species_counts);
    assert_eq!(m.joint_counts, n.joint_counts);
    assert_eq!(b.history.len(), 1);
}

#[test]
fn out_of_range_species_may_be_switched_back() {
    // every agent switches species each tick, so a species out of range
    // before the tick is back in range after it
    let cfg = EngineConfig { species_switch_rate: DRAW_SCALE, grid_size: 9, ..Default::default() };
    let mut e = TernaryEngine::new(cfg);
    e.agents[0].species = 99;
    let m = e.step();
    assert!(e.agents.iter().all(|a| a.species < 5));
    assert_eq!(m.species_counts.iter().sum::<usize>(), 9);
}
