//! Population-level counts: the integer measurements from which the engine's
//! metrics (charge, entropy, trapped fraction) are derived.
use vstd::prelude::*;

use crate::agent::Agent;
use crate::ternary::Ternary;

verus! {

/// How many agents of a group are negative, neutral and positive.
#[derive(Debug, Clone, Copy, PartialEq, Eq, Structural)]
pub struct StateCounts {
    pub negative: usize,
    pub neutral: usize,
    pub positive: usize,
}

/// Counts over a population of agents.
#[derive(Debug, Clone)]
pub struct PopulationCounts {
    /// Number of agents.
    pub population: usize,
    /// Agents in the negative state.
    pub negative: usize,
    /// Agents in the positive state.
    pub positive: usize,
    /// Agents stuck in 0.
    pub total_trapped: usize,
    /// Agents not in 0.
    pub total_active: usize,
    /// Number of agents of each species.
    pub species_counts: Vec<usize>,
    /// Number of agents of each species in each state: the joint
    /// {species x state} distribution.
    pub joint_counts: Vec<StateCounts>,
    /// Sum of `ticks_in_zero` over the trapped agents.
    pub trapped_ticks: u128,
}

/// Number of agents whose value is `v`.
pub open spec fn count_value(agents: Seq<Agent>, v: Ternary) -> nat
    decreases agents.len(),
{
    if agents.len() == 0 {
        0
    } else {
        count_value(agents.drop_last(), v) + (if agents.last().value == v { 1nat } else { 0nat })
    }
}

/// Number of agents of species `s`.
pub open spec fn count_species(agents: Seq<Agent>, s: int) -> nat
    decreases agents.len(),
{
    if agents.len() == 0 {
        0
    } else {
        count_species(agents.drop_last(), s) + (if agents.last().species == s {
            1nat
        } else {
            0nat
        })
    }
}

/// Number of agents of species `s` whose value is `v`.
pub open spec fn count_species_value(agents: Seq<Agent>, s: int, v: Ternary) -> nat
    decreases agents.len(),
{
    if agents.len() == 0 {
        0
    } else {
        count_species_value(agents.drop_last(), s, v) + (if agents.last().species == s
            && agents.last().value == v {
            1nat
        } else {
            0nat
        })
    }
}

/// Sum of `ticks_in_zero` over the agents in the neutral state.
pub open spec fn trapped_ticks_of(agents: Seq<Agent>) -> nat
    decreases agents.len(),
{
    if agents.len() == 0 {
        0
    } else {
        trapped_ticks_of(agents.drop_last()) + (if agents.last().value == Ternary::Neutral {
            agents.last().ticks_in_zero as nat
        } else {
            0nat
        })
    }
}

/// Sum of `count_species(agents, s)` over the species `s` below `k`.
pub open spec fn species_total(agents: Seq<Agent>, k: int) -> nat
    decreases k,
{
    if k <= 0 {
        0
    } else {
        species_total(agents, k - 1) + count_species(agents, k - 1)
    }
}

/// Every agent's species is below `num_species`.
pub open spec fn species_in_range(agents: Seq<Agent>, num_species: usize) -> bool {
    forall|i: int| 0 <= i < agents.len() ==> #[trigger] agents[i].species < num_species
}

impl Default for PopulationCounts {
    /// The counts of an empty population.
    fn default() -> (c: Self)
        ensures
            c.is_census_of(Seq::empty(), 0),
            c.population == 0,
            c.species_counts@.len() == 0,
            c.joint_counts@.len() == 0,
    {
        PopulationCounts {
            population: 0,
            negative: 0,
            positive: 0,
            total_trapped: 0,
            total_active: 0,
            species_counts: Vec::new(),
            joint_counts: Vec::new(),
            trapped_ticks: 0,
        }
    }
}

impl PopulationCounts {
    /// `self` holds the counts of `agents`, a population of `num_species`
    /// species. An empty population has no species entries at all.
    pub open spec fn is_census_of(self, agents: Seq<Agent>, num_species: usize) -> bool {
        let table_len: int = if agents.len() == 0 { 0 } else { num_species as int };
        &&& self.population == agents.len()
        &&& self.negative == count_value(agents, Ternary::Negative)
        &&& self.positive == count_value(agents, Ternary::Positive)
        &&& self.total_trapped == count_value(agents, Ternary::Neutral)
        &&& self.total_active == agents.len() - count_value(agents, Ternary::Neutral)
        &&& self.species_counts@.len() == table_len
        &&& self.joint_counts@.len() == table_len
        &&& forall|s: int|
            0 <= s < table_len ==> #[trigger] self.species_counts@[s] == count_species(agents, s)
        &&& forall|s: int|
            0 <= s < table_len ==> {
                &&& (#[trigger] self.joint_counts@[s]).negative == count_species_value(
                    agents,
                    s,
                    Ternary::Negative,
                )
                &&& self.joint_counts@[s].neutral == count_species_value(
                    agents,
                    s,
                    Ternary::Neutral,
                )
                &&& self.joint_counts@[s].positive == count_species_value(
                    agents,
                    s,
                    Ternary::Positive,
                )
            }
        &&& self.trapped_ticks == trapped_ticks_of(agents)
    }

    /// The same counts as `other`, field by field.
    pub open spec fn same_as(self, other: PopulationCounts) -> bool {
        &&& self.population == other.population
        &&& self.negative == other.negative
        &&& self.positive == other.positive
        &&& self.total_trapped == other.total_trapped
        &&& self.total_active == other.total_active
        &&& self.species_counts@ == other.species_counts@
        &&& self.joint_counts@ == other.joint_counts@
        &&& self.trapped_ticks == other.trapped_ticks
    }

    /// A field-by-field copy.
    pub fn duplicate(&self) -> (c: PopulationCounts)
        ensures
            c.same_as(*self),
    {
        let mut species_counts: Vec<usize> = Vec::new();
        let mut i: usize = 0;
        while i < self.species_counts.len()
            invariant
                i <= self.species_counts@.len(),
                species_counts@ == self.species_counts@.take(i as int),
            decreases self.species_counts@.len() - i,
        {
            species_counts.push(self.species_counts[i]);
            i = i + 1;
            assert(species_counts@ =~= self.species_counts@.take(i as int));
        }
        assert(species_counts@ =~= self.species_counts@);
        let mut joint_counts: Vec<StateCounts> = Vec::new();
        let mut j: usize = 0;
        while j < self.joint_counts.len()
            invariant
                j <= self.joint_counts@.len(),
                joint_counts@ == self.joint_counts@.take(j as int),
            decreases self.joint_counts@.len() - j,
        {
            joint_counts.push(self.joint_counts[j]);
            j = j + 1;
            assert(joint_counts@ =~= self.joint_counts@.take(j as int));
        }
        assert(joint_counts@ =~= self.joint_counts@);
        PopulationCounts {
            population: self.population,
            negative: self.negative,
            positive: self.positive,
            total_trapped: self.total_trapped,
            total_active: self.total_active,
            species_counts,
            joint_counts,
            trapped_ticks: self.trapped_ticks,
        }
    }

    /// Count a population of agents of `num_species` species.
    pub fn compute(agents: &[Agent], num_species: usize) -> (c: PopulationCounts)
        requires
            species_in_range(agents@, num_species),
        ensures
            c.is_census_of(agents@, num_species),
    {
        let n = agents.len();
        if n == 0 {
            return PopulationCounts::default();
        }
        let mut species_counts: Vec<usize> = Vec::new();
        let mut joint_counts: Vec<StateCounts> = Vec::new();
        let mut k: usize = 0;
        while k < num_species
            invariant
                k <= num_species,
                species_counts@.len() == k,
                joint_counts@.len() == k,
                forall|s: int| 0 <= s < k ==> #[trigger] species_counts@[s] == 0,
                forall|s: int|
                    0 <= s < k ==> #[trigger] joint_counts@[s] == (StateCounts {
                        negative: 0,
                        neutral: 0,
                        positive: 0,
                    }),
            decreases num_species - k,
        {
            species_counts.push(0);
            joint_counts.push(StateCounts { negative: 0, neutral: 0, positive: 0 });
            k = k + 1;
        }
        let mut negative: usize = 0;
        let mut positive: usize = 0;
        let mut trapped: usize = 0;
        let mut trapped_ticks: u128 = 0;
        let mut i: usize = 0;
        while i < n
            invariant
                n == agents@.len(),
                species_in_range(agents@, num_species),
                i <= n,
                negative == count_value(agents@.take(i as int), Ternary::Negative),
                positive == count_value(agents@.take(i as int), Ternary::Positive),
                trapped == count_value(agents@.take(i as int), Ternary::Neutral),
                trapped_ticks == trapped_ticks_of(agents@.take(i as int)),
                species_counts@.len() == num_species,
                joint_counts@.len() == num_species,
                forall|s: int|
                    0 <= s < num_species ==> #[trigger] species_counts@[s] == count_species(
                        agents@.take(i as int),
                        s,
                    ),
                forall|s: int|
                    0 <= s < num_species ==> {
                        &&& (#[trigger] joint_counts@[s]).negative == count_species_value(
                            agents@.take(i as int),
                            s,
                            Ternary::Negative,
                        )
                        &&& joint_counts@[s].neutral == count_species_value(
                            agents@.take(i as int),
                            s,
                            Ternary::Neutral,
                        )
                        &&& joint_counts@[s].positive == count_species_value(
                            agents@.take(i as int),
                            s,
                            Ternary::Positive,
                        )
                    },
            decreases n - i,
        {
            let ghost prefix = agents@.take(i as int);
            let ghost next = agents@.take(i + 1);
            assert(next.drop_last() =~= prefix);
            let a = agents[i];
            assert(next.last() == a);
            proof {
                lemma_counts_bounded(prefix, a.species as int);
                assert(trapped_ticks <= (i as nat) * 0xffff_ffff_ffff_ffff) by (nonlinear_arith)
                    requires
                        trapped_ticks == trapped_ticks_of(prefix),
                        trapped_ticks_of(prefix) <= prefix.len() * 0xffff_ffff_ffff_ffff,
                        prefix.len() == i,
                ;
                assert((i as nat) * 0xffff_ffff_ffff_ffff + 0xffff_ffff_ffff_ffff
                    <= 0xffff_ffff_ffff_ffff_ffff_ffff_ffff_ffff) by (nonlinear_arith)
                    requires
                        i < 0x1_0000_0000_0000_0000,
                ;
            }
            let s = a.species;
            let mut cell = joint_counts[s];
            match a.value {
                Ternary::Negative => {
                    negative = negative + 1;
                    cell.negative = cell.negative + 1;
                },
                Ternary::Neutral => {
                    trapped = trapped + 1;
                    trapped_ticks = trapped_ticks + a.ticks_in_zero as u128;
                    cell.neutral = cell.neutral + 1;
                },
                Ternary::Positive => {
                    positive = positive + 1;
                    cell.positive = cell.positive + 1;
                },
            }
            let count = species_counts[s];
            species_counts.set(s, count + 1);
            joint_counts.set(s, cell);
            i = i + 1;
        }
        assert(agents@.take(n as int) =~= agents@);
        proof {
            lemma_value_counts_partition(agents@);
        }
        PopulationCounts {
            population: n,
            negative,
            positive,
            total_trapped: trapped,
            total_active: n - trapped,
            species_counts,
            joint_counts,
            trapped_ticks,
        }
    }
}

/// Counts that are the same field by field are the census of the same
/// population.
pub proof fn lemma_census_same(
    a: PopulationCounts,
    b: PopulationCounts,
    agents: Seq<Agent>,
    num_species: usize,
)
    requires
        a.is_census_of(agents, num_species),
        b.same_as(a),
    ensures
        b.is_census_of(agents, num_species),
{
}

/// No count exceeds the number of agents counted, and the trapped ticks
/// are at most `u64::MAX` per agent.
pub proof fn lemma_counts_bounded(agents: Seq<Agent>, s: int)
    ensures
        count_value(agents, Ternary::Negative) <= agents.len(),
        count_value(agents, Ternary::Neutral) <= agents.len(),
        count_value(agents, Ternary::Positive) <= agents.len(),
        count_species(agents, s) <= agents.len(),
        count_species_value(agents, s, Ternary::Negative) <= agents.len(),
        count_species_value(agents, s, Ternary::Neutral) <= agents.len(),
        count_species_value(agents, s, Ternary::Positive) <= agents.len(),
        trapped_ticks_of(agents) <= agents.len() * 0xffff_ffff_ffff_ffff,
    decreases agents.len(),
{
    if agents.len() > 0 {
        lemma_counts_bounded(agents.drop_last(), s);
        assert(trapped_ticks_of(agents) <= agents.len() * 0xffff_ffff_ffff_ffff) by (
        nonlinear_arith)
            requires
                trapped_ticks_of(agents) <= trapped_ticks_of(agents.drop_last())
                    + 0xffff_ffff_ffff_ffff,
                trapped_ticks_of(agents.drop_last()) <= agents.drop_last().len()
                    * 0xffff_ffff_ffff_ffff,
                agents.drop_last().len() + 1 == agents.len(),
        ;
    }
}

/// Every agent is negative, neutral or positive: the three value counts add
/// up to the population.
pub proof fn lemma_value_counts_partition(agents: Seq<Agent>)
    ensures
        count_value(agents, Ternary::Negative) + count_value(agents, Ternary::Neutral)
            + count_value(agents, Ternary::Positive) == agents.len(),
    decreases agents.len(),
{
    if agents.len() > 0 {
        lemma_value_counts_partition(agents.drop_last());
    }
}

} // verus!
