use vstd::prelude::*;
use rand::rngs::StdRng;
use crate::individual::Individual;
use crate::random::{draw_below, draw_ratio};

verus! {

/// The genes of `a` before `point` followed by those of `b` from `point` on.
pub open spec fn spliced(a: Seq<bool>, b: Seq<bool>, point: int) -> Seq<bool> {
    a.subrange(0, point) + b.subrange(point, b.len() as int)
}

/// `genes` with each gene negated where `flips` holds.
pub open spec fn flipped(genes: Seq<bool>, flips: Seq<bool>) -> Seq<bool> {
    Seq::new(genes.len(), |i: int| genes[i] != flips[i])
}

/// What a mutation rate of `numerator / denominator` allows of the flip
/// decisions: none at rate zero, all at rate one.
pub open spec fn rate_allows(flips: Seq<bool>, numerator: u32, denominator: u32) -> bool {
    &&& numerator == 0 ==> forall|j: int| 0 <= j < flips.len() ==> !#[trigger] flips[j]
    &&& numerator == denominator ==> forall|j: int| 0 <= j < flips.len() ==> #[trigger] flips[j]
}

/// Flips each gene for which `flips` holds; the cached fields are kept as
/// they were, so the individual must be evaluated again.
pub fn apply_flips(individual: &mut Individual, flips: &Vec<bool>)
    requires
        flips@.len() == old(individual).genes@.len(),
    ensures
        final(individual).genes@ == flipped(old(individual).genes@, flips@),
        final(individual).genes@.len() == old(individual).genes@.len(),
        forall|i: int| 0 <= i < flips@.len() ==>
            #[trigger] final(individual).genes@[i] == (old(individual).genes@[i] != flips@[i]),
        final(individual).fitness == old(individual).fitness,
        final(individual).total_weight == old(individual).total_weight,
{
    let n = individual.genes.len();
    let mut i: usize = 0;
    while i < n
        invariant
            n == individual.genes@.len() == flips@.len(),
            i <= n,
            forall|j: int| 0 <= j < i ==>
                #[trigger] individual.genes@[j] == (old(individual).genes@[j] != flips@[j]),
            forall|j: int| i <= j < n ==> #[trigger] individual.genes@[j] == old(individual).genes@[j],
            individual.fitness == old(individual).fitness,
            individual.total_weight == old(individual).total_weight,
        decreases n - i,
    {
        if flips[i] {
            let g = !individual.genes[i];
            individual.genes.set(i, g);
        }
        i += 1;
    }
    assert(individual.genes@ =~= flipped(old(individual).genes@, flips@));
}

/// Draws `n` flip decisions, each true with chance
/// `numerator / denominator`.
pub fn draw_flips(n: usize, numerator: u32, denominator: u32, rng: &mut StdRng) -> (r: Vec<bool>)
    requires
        0 < denominator,
        numerator <= denominator,
    ensures
        r@.len() == n,
        rate_allows(r@, numerator, denominator),
{
    let mut flips: Vec<bool> = Vec::new();
    let mut i: usize = 0;
    while i < n
        invariant
            i <= n,
            flips@.len() == i,
            rate_allows(flips@, numerator, denominator),
            0 < denominator,
            numerator <= denominator,
        decreases n - i,
    {
        let f = draw_ratio(rng, numerator, denominator);
        flips.push(f);
        i += 1;
    }
    flips
}

/// Bit-flip mutation: each gene is flipped, independently, with chance
/// `numerator / denominator`. A rate of zero leaves the genes as they were
/// and a rate of one flips every gene. The cached fields are left stale.
pub fn mutate(individual: &mut Individual, numerator: u32, denominator: u32, rng: &mut StdRng)
    requires
        0 < denominator,
        numerator <= denominator,
    ensures
        final(individual).genes@.len() == old(individual).genes@.len(),
        numerator == 0 ==> final(individual).genes@ == old(individual).genes@,
        numerator == denominator ==> forall|i: int| 0 <= i < old(individual).genes@.len() ==>
            #[trigger] final(individual).genes@[i] == !old(individual).genes@[i],
        final(individual).fitness == old(individual).fitness,
        final(individual).total_weight == old(individual).total_weight,
        exists|f: Seq<bool>| f.len() == old(individual).genes@.len() && rate_allows(f, numerator, denominator)
            && final(individual).genes@ == #[trigger] flipped(old(individual).genes@, f),
{
    let flips = draw_flips(individual.genes.len(), numerator, denominator, rng);
    apply_flips(individual, &flips);
    if numerator == 0 {
        assert(individual.genes@ =~= old(individual).genes@);
    }
}

/// Single-point crossover at a given point: the offspring takes `parent1`'s
/// genes before `point` and `parent2`'s from `point` on. Its cached fields
/// are zero until it is evaluated. Neither parent is changed.
pub fn crossover_at(parent1: &Individual, parent2: &Individual, point: usize) -> (r: Individual)
    requires
        parent1.genes@.len() == parent2.genes@.len(),
        point <= parent1.genes@.len(),
    ensures
        r.genes@ == spliced(parent1.genes@, parent2.genes@, point as int),
        r.genes@.len() == parent1.genes@.len(),
        forall|i: int| 0 <= i < point ==> #[trigger] r.genes@[i] == parent1.genes@[i],
        forall|i: int| point <= i < parent2.genes@.len() ==> #[trigger] r.genes@[i] == parent2.genes@[i],
        r.fitness == 0,
        r.total_weight == 0,
{
    let n = parent1.genes.len();
    let mut genes: Vec<bool> = Vec::new();
    let mut i: usize = 0;
    while i < n
        invariant
            n == parent1.genes@.len() == parent2.genes@.len(),
            point <= n,
            i <= n,
            genes@.len() == i,
            forall|j: int| 0 <= j < i ==> #[trigger] genes@[j] == (if j < point {
                parent1.genes@[j]
            } else {
                parent2.genes@[j]
            }),
        decreases n - i,
    {
        if i < point {
            genes.push(parent1.genes[i]);
        } else {
            genes.push(parent2.genes[i]);
        }
        i += 1;
    }
    assert(genes@ =~= spliced(parent1.genes@, parent2.genes@, point as int));
    Individual::from_genes(genes)
}

/// Single-point crossover at a point drawn from `0..n`, `n` being the gene
/// length (with no genes there is nothing to draw and the offspring is
/// empty). Neither parent is changed.
pub fn crossover(parent1: &Individual, parent2: &Individual, rng: &mut StdRng) -> (r: Individual)
    requires
        parent1.genes@.len() == parent2.genes@.len(),
    ensures
        r.genes@.len() == parent1.genes@.len(),
        parent1.genes@.len() == 0 ==> r.genes@.len() == 0,
        parent1.genes@.len() > 0 ==> exists|p: int| 0 <= p < parent1.genes@.len()
            && r.genes@ == #[trigger] spliced(parent1.genes@, parent2.genes@, p),
        r.fitness == 0,
        r.total_weight == 0,
{
    let point = draw_point(parent1.genes.len(), rng);
    crossover_at(parent1, parent2, point)
}

/// A crossover point drawn uniformly from `0..n`, or zero when `n` is zero.
pub fn draw_point(n: usize, rng: &mut StdRng) -> (r: usize)
    ensures
        n == 0 ==> r == 0,
        n > 0 ==> r < n,
{
    if n == 0 {
        0
    } else {
        draw_below(rng, n)
    }
}

/// `r` is the first of `picks` whose individual has the highest fitness among
/// all the picked ones.
pub open spec fn first_fittest(population: Seq<Individual>, picks: Seq<usize>, r: int) -> bool {
    &&& exists|k: int| 0 <= k < picks.len() && r == picks[k] && (forall|j: int| 0 <= j < k
        ==> #[trigger] population[picks[j] as int].fitness < population[r].fitness)
    &&& forall|j: int| 0 <= j < picks.len() ==> #[trigger] population[picks[j] as int].fitness
        <= population[r].fitness
}

/// The winner of a tournament among the picked indices: the strictly fittest
/// one, the earliest pick on ties.
pub fn tournament_winner(population: &[Individual], picks: &Vec<usize>) -> (r: usize)
    requires
        picks@.len() > 0,
        forall|j: int| 0 <= j < picks@.len() ==> #[trigger] picks@[j] < population@.len(),
    ensures
        r < population@.len(),
        first_fittest(population@, picks@, r as int),
{
    let mut best = picks[0];
    let ghost mut best_k: int = 0;
    let mut i: usize = 1;
    while i < picks.len()
        invariant
            forall|j: int| 0 <= j < picks@.len() ==> #[trigger] picks@[j] < population@.len(),
            1 <= i <= picks@.len(),
            0 <= best_k < i,
            best == picks@[best_k],
            forall|j: int| 0 <= j < best_k ==> #[trigger] population@[picks@[j] as int].fitness
                < population@[best as int].fitness,
            forall|j: int| 0 <= j < i ==> #[trigger] population@[picks@[j] as int].fitness
                <= population@[best as int].fitness,
        decreases picks@.len() - i,
    {
        let contender = picks[i];
        if population[contender].fitness > population[best].fitness {
            best = contender;
            proof {
                best_k = i as int;
            }
        }
        i += 1;
    }
    assert(picks@[best_k] == best);
    best
}

/// `w` wins some tournament of `size` picks from the population.
pub open spec fn tournament_pick(population: Seq<Individual>, size: usize, w: int) -> bool {
    exists|picks: Seq<usize>| picks.len() == size && (forall|j: int| 0 <= j < picks.len() ==> #[trigger] picks[j]
        < population.len()) && #[trigger] first_fittest(population, picks, w)
}

/// Draws `size` indices uniformly, with replacement, and returns the index of
/// the fittest of them (the earliest drawn on ties).
pub fn draw_tournament(population: &[Individual], size: usize, rng: &mut StdRng) -> (r: usize)
    requires
        population@.len() > 0,
        size > 0,
    ensures
        r < population@.len(),
        tournament_pick(population@, size, r as int),
{
    let n = population.len();
    let mut picks: Vec<usize> = Vec::new();
    let mut i: usize = 0;
    while i < size
        invariant
            i <= size,
            picks@.len() == i,
            n == population@.len() > 0,
            forall|j: int| 0 <= j < picks@.len() ==> #[trigger] picks@[j] < n,
        decreases size - i,
    {
        picks.push(draw_below(rng, n));
        i += 1;
    }
    let w = tournament_winner(population, &picks);
    assert(first_fittest(population@, picks@, w as int));
    w
}

/// Tournament selection: `size` indices are drawn uniformly, with
/// replacement, and the fittest of them wins (the earliest drawn on ties).
/// The population is left unchanged.
pub fn tournament_selection<'a>(population: &'a [Individual], size: usize, rng: &mut StdRng) -> (r: &'a Individual)
    requires
        population@.len() > 0,
        size > 0,
    ensures
        exists|w: int| 0 <= w < population@.len() && #[trigger] tournament_pick(population@, size, w) && *r
            == population@[w],
{
    let w = draw_tournament(population, size, rng);
    &population[w]
}

} // verus!
