//! System health diagnostic: is the engine running or seized?
use vstd::prelude::*;

verus! {

#[derive(Debug, Clone, Copy, PartialEq, Eq, Structural)]
pub enum EngineHealth {
    /// All agents in the 0-trap, engine seized.
    Dead,
    /// Most agents trapped.
    Critical,
    /// In flux: the interesting phase.
    Transitioning,
    /// High diversity and high activity.
    Vibrant,
    /// Active but low diversity.
    Consensus,
}

/// The diagnosis for the four observations, checked in order of priority:
/// a seized engine is dead whatever else holds, a mostly trapped one is
/// critical, a diverse and lively one vibrant, a nearly all active one in
/// consensus, and any other in transition.
pub open spec fn diagnosis(
    nearly_all_trapped: bool,
    mostly_trapped: bool,
    diverse_and_lively: bool,
    nearly_all_active: bool,
) -> EngineHealth {
    if nearly_all_trapped {
        EngineHealth::Dead
    } else if mostly_trapped {
        EngineHealth::Critical
    } else if diverse_and_lively {
        EngineHealth::Vibrant
    } else if nearly_all_active {
        EngineHealth::Consensus
    } else {
        EngineHealth::Transitioning
    }
}

impl EngineHealth {
    /// Diagnose a population from four observations of it:
    /// - `nearly_all_trapped`: fewer than 1% of the agents are alive;
    /// - `mostly_trapped`: fewer than 30% are alive;
    /// - `diverse_and_lively`: the entropy of the {species x state}
    ///   distribution exceeds 1 and more than 70% are alive;
    /// - `nearly_all_active`: more than 90% are alive.
    pub fn diagnose(
        nearly_all_trapped: bool,
        mostly_trapped: bool,
        diverse_and_lively: bool,
        nearly_all_active: bool,
    ) -> (h: EngineHealth)
        ensures
            h == diagnosis(nearly_all_trapped, mostly_trapped, diverse_and_lively, nearly_all_active),
            nearly_all_trapped ==> h == EngineHealth::Dead,
            !nearly_all_trapped && mostly_trapped ==> h == EngineHealth::Critical,
            !nearly_all_trapped && !mostly_trapped && diverse_and_lively ==> h
                == EngineHealth::Vibrant,
            !nearly_all_trapped && !mostly_trapped && !diverse_and_lively && nearly_all_active ==> h
                == EngineHealth::Consensus,
            !nearly_all_trapped && !mostly_trapped && !diverse_and_lively && !nearly_all_active ==> h
                == EngineHealth::Transitioning,
    {
        if nearly_all_trapped {
            EngineHealth::Dead
        } else if mostly_trapped {
            EngineHealth::Critical
        } else if diverse_and_lively {
            EngineHealth::Vibrant
        } else if nearly_all_active {
            EngineHealth::Consensus
        } else {
            EngineHealth::Transitioning
        }
    }

    /// The text by which the state is shown.
    pub fn label(&self) -> (s: &'static str)
        ensures
            *self == EngineHealth::Dead ==> s@ == "💀 DEAD"@,
            *self == EngineHealth::Critical ==> s@ == "⚠️ CRITICAL"@,
            *self == EngineHealth::Transitioning ==> s@ == "🔄 TRANSITIONING"@,
            *self == EngineHealth::Vibrant ==> s@ == "🌿 VIBRANT"@,
            *self == EngineHealth::Consensus ==> s@ == "✅ CONSENSUS"@,
    {
        match self {
            EngineHealth::Dead => "💀 DEAD",
            EngineHealth::Critical => "⚠️ CRITICAL",
            EngineHealth::Transitioning => "🔄 TRANSITIONING",
            EngineHealth::Vibrant => "🌿 VIBRANT",
            EngineHealth::Consensus => "✅ CONSENSUS",
        }
    }
}

} // verus!
