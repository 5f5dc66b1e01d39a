use vstd::prelude::*;

verus! {

/// Sum of `xs[i]` over the indices `i < k` where `genes[i]` holds.
pub open spec fn picked_sum(genes: Seq<bool>, xs: Seq<u32>, k: int) -> int
    decreases k,
{
    if k <= 0 {
        0
    } else if genes[k - 1] {
        picked_sum(genes, xs, k - 1) + xs[k - 1]
    } else {
        picked_sum(genes, xs, k - 1)
    }
}

/// Sum of `xs[i]` over the indices `i < k`.
pub open spec fn total(xs: Seq<u32>, k: int) -> int
    decreases k,
{
    if k <= 0 {
        0
    } else {
        total(xs, k - 1) + xs[k - 1]
    }
}

pub proof fn lemma_picked_le_total(genes: Seq<bool>, xs: Seq<u32>, k: int)
    ensures
        0 <= picked_sum(genes, xs, k) <= total(xs, k),
    decreases k,
{
    if k > 0 {
        lemma_picked_le_total(genes, xs, k - 1);
    }
}

pub proof fn lemma_total_monotone(xs: Seq<u32>, j: int, k: int)
    requires
        j <= k,
    ensures
        total(xs, j) <= total(xs, k),
    decreases k - j,
{
    if j < k {
        lemma_total_monotone(xs, j, k - 1);
    }
}

/// Why a problem instance or a configuration is refused.
#[derive(Debug, Clone, Copy, PartialEq, Eq, Structural)]
pub enum ConfigError {
    /// `values` and `weights` differ in length.
    LengthMismatch,
    /// The sum of all values or of all weights does not fit in `u64`.
    TotalTooLarge,
    /// The population size is zero.
    EmptyPopulation,
    /// The tournament size is zero or larger than the population.
    BadTournamentSize,
    /// More elites than the population holds.
    EliteTooLarge,
    /// The mutation rate `numerator / denominator` is not in `[0, 1]`.
    BadMutationRate,
}

/// An instance of the 0/1 knapsack problem: item values, item weights
/// (index-aligned) and the weight budget.
pub struct Problem {
    pub values: Vec<u32>,
    pub weights: Vec<u32>,
    pub capacity: u64,
}

impl Problem {
    /// Item count.
    pub open spec fn n(&self) -> int {
        self.values@.len() as int
    }

    /// Aligned lengths, and sums that fit in `u64`.
    pub open spec fn wf(&self) -> bool {
        &&& self.values@.len() == self.weights@.len()
        &&& total(self.values@, self.n()) <= u64::MAX
        &&& total(self.weights@, self.n()) <= u64::MAX
    }

    /// Total weight of the items that `genes` selects.
    pub open spec fn weight_of(&self, genes: Seq<bool>) -> int {
        picked_sum(genes, self.weights@, self.n())
    }

    /// Total value of the items that `genes` selects.
    pub open spec fn value_of(&self, genes: Seq<bool>) -> int {
        picked_sum(genes, self.values@, self.n())
    }

    /// The value of the selection when it fits the capacity, else zero.
    pub open spec fn fitness_of(&self, genes: Seq<bool>) -> int {
        if self.weight_of(genes) <= self.capacity {
            self.value_of(genes)
        } else {
            0
        }
    }

    /// Builds an instance, refusing misaligned lengths and sums that do not
    /// fit in `u64`.
    pub fn new(values: Vec<u32>, weights: Vec<u32>, capacity: u64) -> (r: Result<Problem, ConfigError>)
        ensures
            values@.len() != weights@.len() ==> r == Err::<Problem, ConfigError>(ConfigError::LengthMismatch),
            values@.len() == weights@.len() ==> match r {
                Ok(p) => p.values@ == values@ && p.weights@ == weights@ && p.capacity == capacity && p.wf(),
                Err(e) => e == ConfigError::TotalTooLarge && (total(values@, values@.len() as int) > u64::MAX
                    || total(weights@, weights@.len() as int) > u64::MAX),
            },
    {
        if values.len() != weights.len() {
            return Err(ConfigError::LengthMismatch);
        }
        if !fits_in_u64(&values) || !fits_in_u64(&weights) {
            return Err(ConfigError::TotalTooLarge);
        }
        Ok(Problem { values, weights, capacity })
    }
}

/// Whether the sum of all of `xs` fits in `u64`.
pub fn fits_in_u64(xs: &Vec<u32>) -> (r: bool)
    ensures
        r == (total(xs@, xs@.len() as int) <= u64::MAX),
{
    let mut acc: u64 = 0;
    let mut i: usize = 0;
    while i < xs.len()
        invariant
            i <= xs@.len(),
            acc == total(xs@, i as int),
        decreases xs@.len() - i,
    {
        match acc.checked_add(xs[i] as u64) {
            Some(s) => {
                acc = s;
            },
            None => {
                proof {
                    lemma_total_monotone(xs@, i + 1, xs@.len() as int);
                }
                return false;
            },
        }
        i += 1;
    }
    true
}

proof fn lemma_picked_covers(genes: Seq<bool>, xs: Seq<u32>, i: int, k: int)
    requires
        0 <= i < k,
        genes[i],
    ensures
        picked_sum(genes, xs, k) >= xs[i],
    decreases k,
{
    lemma_picked_le_total(genes, xs, k - 1);
    if i < k - 1 {
        lemma_picked_covers(genes, xs, i, k - 1);
    }
}

proof fn lemma_picked_none(genes: Seq<bool>, xs: Seq<u32>, k: int)
    requires
        forall|i: int| 0 <= i < k ==> !#[trigger] genes[i],
    ensures
        picked_sum(genes, xs, k) == 0,
    decreases k,
{
    if k > 0 {
        lemma_picked_none(genes, xs, k - 1);
    }
}

/// When every item on its own outweighs the capacity, no selection has a
/// fitness other than zero: a non-empty one is over the capacity, and the
/// empty one has no value.
pub proof fn lemma_nothing_fits(p: &Problem, genes: Seq<bool>)
    requires
        p.wf(),
        genes.len() == p.n(),
        forall|i: int| 0 <= i < p.n() ==> #[trigger] p.weights@[i] > p.capacity,
    ensures
        p.fitness_of(genes) == 0,
{
    if exists|i: int| 0 <= i < p.n() && #[trigger] genes[i] {
        let i = choose|i: int| 0 <= i < p.n() && #[trigger] genes[i];
        lemma_picked_covers(genes, p.weights@, i, p.n());
    } else {
        lemma_picked_none(genes, p.values@, p.n());
    }
}

} // verus!
