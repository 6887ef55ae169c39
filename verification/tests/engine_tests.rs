use lib::agent::Agent;
use lib::census::PopulationCounts;
use lib::draws::DRAW_SCALE;
use lib::engine::{EngineConfig, TernaryEngine};
use lib::health::EngineHealth;
use lib::ternary::Ternary;

/// A rate given as a probability, on the scale of the engine's draws.
fn rate(p: f64) -> u64 {
    if !(p > 0.0) {
        0
    } else if p >= 1.0 {
        DRAW_SCALE
    } else {
        (p * DRAW_SCALE as f64).ceil() as u64
    }
}

struct Metrics {
    signed_gamma: f64,
    abs_gamma: f64,
    shannon_entropy: f64,
    frac_zero: f64,
    frac_alive: f64,
}

fn metrics(c: &PopulationCounts) -> Metrics {
    let n = c.population as f64;
    if c.population == 0 {
        return Metrics {
            signed_gamma: 0.0,
            abs_gamma: 0.0,
            shannon_entropy: 0.0,
            frac_zero: 0.0,
            frac_alive: 0.0,
        };
    }
    let mut h = 0.0f64;
    for cell in &c.joint_counts {
        for count in [cell.negative, cell.neutral, cell.positive] {
            let p = count as f64 / n;
            if p > 0.0 {
                h -= p * p.ln();
            }
        }
    }
    let frac_zero = c.total_trapped as f64 / n;
    Metrics {
        signed_gamma: (c.positive as f64 - c.negative as f64) / n,
        abs_gamma: (c.positive + c.negative) as f64 / n,
        shannon_entropy: h,
        frac_zero,
        frac_alive: 1.0 - frac_zero,
    }
}

fn health(c: &PopulationCounts) -> EngineHealth {
    let m = metrics(c);
    EngineHealth::diagnose(
        m.frac_alive < 0.01,
        m.frac_alive < 0.3,
        m.shannon_entropy > 1.0 && m.frac_alive > 0.7,
        m.frac_alive > 0.9,
    )
}

#[test]
fn test_ternary_values() {
    assert_eq!(Ternary::Negative.to_i8(), -1);
    assert_eq!(Ternary::Neutral.to_i8(), 0);
    assert_eq!(Ternary::Positive.to_i8(), 1);
    assert!(Ternary::Neutral.is_insulator());
    assert!(!Ternary::Positive.is_insulator());
}

#[test]
fn test_agent_tunnel() {
    let mut agent = Agent::new(Ternary::Neutral, 0, 0);
    assert_eq!(agent.forgiveness_tokens, 3);

    // Tunnel should succeed with rate=1.0 and every roll at 0.5
    let roll = 0.5f64;
    assert!(agent.try_tunnel(roll < 1.0, roll < 0.5));
    assert_ne!(agent.value, Ternary::Neutral);
    assert_eq!(agent.forgiveness_tokens, 2);
}

#[test]
fn test_agent_tunnel_exhaustion() {
    let mut agent = Agent::new(Ternary::Neutral, 0, 0);
    agent.forgiveness_tokens = 0;
    let roll = 0.5f64;
    assert!(!agent.try_tunnel(roll < 1.0, roll < 0.5));
    assert_eq!(agent.value, Ternary::Neutral); // Still trapped
}

#[test]
fn test_trap_absorbing() {
    let mut agent = Agent::new(Ternary::Positive, 0, 0);
    // Rate=0 means no trap
    let never = 1.0f64;
    assert!(!agent.fall_into_trap(never < 0.0));
    assert_eq!(agent.value, Ternary::Positive);
}

#[test]
fn test_population_metrics() {
    let agents = vec![
        Agent::new(Ternary::Positive, 0, 0),
        Agent::new(Ternary::Negative, 0, 0),
        Agent::new(Ternary::Neutral, 1, 0),
    ];
    let m = metrics(&PopulationCounts::compute(&agents, 2));
    assert!((m.signed_gamma - 0.0).abs() < 0.01); // +1-1+0 = 0/3
    assert!((m.abs_gamma - 2.0 / 3.0).abs() < 0.01);
    assert!((m.frac_zero - 1.0 / 3.0).abs() < 0.01);
}

#[test]
fn test_engine_creation() {
    let config = EngineConfig::default();
    let engine = TernaryEngine::new(config);
    assert_eq!(engine.agents.len(), 100);
    assert_eq!(engine.tick, 0);
}

#[test]
fn test_engine_step() {
    let config = EngineConfig { grid_size: 25, ..Default::default() };
    let mut engine = TernaryEngine::new(config);
    let m = engine.step();
    assert_eq!(engine.tick, 1);
    assert!(metrics(&m).frac_alive >= 0.0);
}

#[test]
fn test_engine_run_survives() {
    let config = EngineConfig { grid_size: 100, ..Default::default() };
    let mut engine = TernaryEngine::new(config);
    let m = metrics(&engine.run(1000));
    // With tunneling enabled, system should survive
    assert!(m.frac_alive > 0.1, "Engine died with tunneling enabled! alive={}", m.frac_alive);
}

#[test]
fn test_trap_without_tunneling_drains_charge() {
    let config_with_tunnel = EngineConfig {
        grid_size: 100,
        tunnel_rate: rate(0.01),
        trap_rate: rate(0.05),
        mutation_rate: rate(0.0),
        ..Default::default()
    };
    let config_no_tunnel = EngineConfig {
        grid_size: 100,
        tunnel_rate: rate(0.0),
        trap_rate: rate(0.05),
        mutation_rate: rate(0.0),
        ..Default::default()
    };
    let mut engine_t = TernaryEngine::new(config_with_tunnel);
    let mut engine_nt = TernaryEngine::new(config_no_tunnel);
    let m_t = metrics(&engine_t.run(2000));
    let m_nt = metrics(&engine_nt.run(2000));
    // With tunneling should have more active agents than without
    assert!(
        m_t.frac_alive >= m_nt.frac_alive - 0.05,
        "Tunneling didn't help: with={} without={}",
        m_t.frac_alive,
        m_nt.frac_alive
    );
    // Some agents should have used forgiveness tokens
    let used_forgiveness = engine_t.agents.iter().filter(|a| a.forgiveness_tokens < 3).count();
    assert!(used_forgiveness > 0, "No agent ever used forgiveness tokens!");
}

#[test]
fn test_health_diagnostic() {
    let mut agents = vec![Agent::new(Ternary::Neutral, 0, 0); 100];
    let c = PopulationCounts::compute(&agents, 1);
    assert_eq!(health(&c), EngineHealth::Dead);

    // Make most alive
    for a in agents.iter_mut().take(95) {
        a.value = Ternary::Positive;
    }
    let c = PopulationCounts::compute(&agents, 1);
    assert!(matches!(health(&c), EngineHealth::Consensus));
}

#[test]
fn test_abs_gamma_more_stable() {
    let config = EngineConfig { grid_size: 100, ..Default::default() };
    let mut engine = TernaryEngine::new(config);

    let mut signed_drifts = Vec::new();
    let mut abs_drifts = Vec::new();
    let initial = metrics(&engine.step());

    for _ in 0..500 {
        let m = metrics(&engine.step());
        signed_drifts.push((m.signed_gamma - initial.signed_gamma).abs());
        abs_drifts.push((m.abs_gamma - initial.abs_gamma).abs());
    }

    let avg_signed: f64 = signed_drifts.iter().sum::<f64>() / signed_drifts.len() as f64;
    let avg_abs: f64 = abs_drifts.iter().sum::<f64>() / abs_drifts.len() as f64;

    // |γ| should drift less than signed γ
    assert!(
        avg_abs < avg_signed * 1.5,
        "|γ| drift ({}) not smaller than signed γ ({})",
        avg_abs,
        avg_signed
    );
}
