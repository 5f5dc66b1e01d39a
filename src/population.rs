use vstd::prelude::*;
use vstd::multiset::Multiset;
use rand::rngs::StdRng;
use crate::config::{Config, CAPACITY};
use crate::individual::Individual;
use crate::operators::{
    apply_flips, crossover_at, draw_flips, draw_point, draw_tournament, flipped, rate_allows, spliced,
    tournament_pick,
};
use crate::problem::{ConfigError, Problem, lemma_nothing_fits, total};

verus! {

broadcast use vstd::seq_lib::group_to_multiset_ensures;

/// Fitness never rises along the sequence.
pub open spec fn sorted_desc(pop: Seq<Individual>) -> bool {
    forall|i: int, j: int| 0 <= i < j < pop.len() ==> #[trigger] pop[i].fitness >= #[trigger] pop[j].fitness
}

/// Every member's cached fields agree with its genes.
pub open spec fn all_evaluated(pop: Seq<Individual>, p: &Problem) -> bool {
    forall|i: int| 0 <= i < pop.len() ==> #[trigger] pop[i].evaluated(p)
}

/// The same individuals, in any order, keep being evaluated.
pub proof fn lemma_permutation_evaluated(a: Seq<Individual>, b: Seq<Individual>, p: &Problem)
    requires
        a.to_multiset() == b.to_multiset(),
        all_evaluated(b, p),
    ensures
        all_evaluated(a, p),
{
    assert forall|i: int| 0 <= i < a.len() implies #[trigger] a[i].evaluated(p) by {
        assert(a.contains(a[i]));
        assert(a.to_multiset().count(a[i]) > 0);
        let j = choose|j: int| 0 <= j < b.len() && b[j] == a[i];
        assert(b[j].evaluated(p));
    }
}

/// Sorts by descending fitness; individuals of equal fitness keep their
/// order. The result holds the same individuals.
pub fn sort_by_fitness(pop: Vec<Individual>) -> (r: Vec<Individual>)
    ensures
        r@.to_multiset() == pop@.to_multiset(),
        r@.len() == pop@.len(),
        sorted_desc(r@),
{
    let mut rest = pop;
    let mut out: Vec<Individual> = Vec::new();
    while rest.len() > 0
        invariant
            out@.to_multiset().add(rest@.to_multiset()) == pop@.to_multiset(),
            sorted_desc(out@),
            out@.len() + rest@.len() == pop@.len(),
        decreases rest@.len(),
    {
        let ghost before = rest@;
        let x = rest.pop().unwrap();
        assert(before == rest@.push(x));
        let mut j: usize = 0;
        while j < out.len() && out[j].fitness > x.fitness
            invariant
                j <= out@.len(),
                forall|k: int| 0 <= k < j ==> #[trigger] out@[k].fitness > x.fitness,
            decreases out@.len() - j,
        {
            j += 1;
        }
        let ghost prev = out@;
        out.insert(j, x);
        assert(out@ == prev.insert(j as int, x));
        assert forall|a: int, b: int| 0 <= a < b < out@.len() implies #[trigger] out@[a].fitness
            >= #[trigger] out@[b].fitness by {
            if b == j {
            } else if a == j {
                assert(out@[b] == prev[b - 1]);
            } else if a < j && b > j {
                assert(out@[b] == prev[b - 1]);
            } else if a > j {
                assert(out@[b] == prev[b - 1]);
                assert(out@[a] == prev[a - 1]);
            }
        }
        assert(out@.to_multiset().add(rest@.to_multiset()) =~= pop@.to_multiset());
    }
    assert(rest@.to_multiset() =~= Multiset::empty());
    assert(out@.to_multiset() =~= pop@.to_multiset());
    out
}

/// The offspring of `sorted[a]` and `sorted[b]` crossed over at `q` and
/// mutated by the flips `f` has the genes `genes`; both parents are
/// tournament winners, and the point and the flips are ones that the
/// configuration allows.
pub open spec fn breeding(
    sorted: Seq<Individual>,
    c: &Config,
    a: int,
    b: int,
    q: int,
    f: Seq<bool>,
    genes: Seq<bool>,
) -> bool {
    &&& 0 <= a < sorted.len()
    &&& 0 <= b < sorted.len()
    &&& tournament_pick(sorted, c.tournament_size, a)
    &&& tournament_pick(sorted, c.tournament_size, b)
    &&& 0 <= q <= sorted[a].genes@.len()
    &&& sorted[a].genes@.len() > 0 ==> q < sorted[a].genes@.len()
    &&& f.len() == sorted[a].genes@.len()
    &&& rate_allows(f, c.mutation_numerator, c.mutation_denominator)
    &&& genes == flipped(spliced(sorted[a].genes@, sorted[b].genes@, q), f)
}

/// `genes` can be bred from the sorted population under the configuration.
pub open spec fn bred_from(sorted: Seq<Individual>, c: &Config, genes: Seq<bool>) -> bool {
    exists|a: int, b: int, q: int, f: Seq<bool>| #[trigger] breeding(sorted, c, a, b, q, f, genes)
}

/// `next` is a generation bred from the sorted population `sorted`: its
/// first `elite_count` members are copies of the first ones of `sorted`, and
/// each of the others is bred from `sorted`.
pub open spec fn bred_generation(sorted: Seq<Individual>, next: Seq<Individual>, c: &Config) -> bool {
    &&& next.len() == c.pop_size
    &&& forall|k: int| 0 <= k < c.elite_count ==> #[trigger] next[k].same_as(&sorted[k])
    &&& forall|k: int| c.elite_count <= k < next.len() ==> bred_from(sorted, c, #[trigger] next[k].genes@)
}

/// Crossover at `point`, then the given flips, then evaluation: one
/// offspring, from draws made beforehand.
pub fn breed(parent1: &Individual, parent2: &Individual, point: usize, flips: &Vec<bool>, p: &Problem) -> (r: Individual)
    requires
        p.wf(),
        parent1.genes@.len() == p.n(),
        parent2.genes@.len() == p.n(),
        point <= p.n(),
        flips@.len() == p.n(),
    ensures
        r.genes@ == flipped(spliced(parent1.genes@, parent2.genes@, point as int), flips@),
        r.evaluated(p),
{
    let mut child = crossover_at(parent1, parent2, point);
    apply_flips(&mut child, flips);
    child.evaluate(p);
    child
}

/// One generation step on a population sorted by descending fitness: the
/// first `elite_count` members are copied unchanged, and the rest is filled
/// with offspring, each bred from two tournament winners by crossover, then
/// mutated and evaluated. With at least one elite, the new generation's first
/// member is at least as fit as every member of the old one.
pub fn next_generation(sorted: &Vec<Individual>, p: &Problem, c: &Config, rng: &mut StdRng) -> (r: Vec<Individual>)
    requires
        p.wf(),
        c.wf(),
        sorted@.len() == c.pop_size,
        sorted_desc(sorted@),
        all_evaluated(sorted@, p),
    ensures
        bred_generation(sorted@, r@, c),
        all_evaluated(r@, p),
        c.elite_count >= 1 ==> forall|i: int| 0 <= i < sorted@.len() ==> #[trigger] sorted@[i].fitness
            <= r@[0].fitness,
{
    let mut next: Vec<Individual> = Vec::new();
    let mut i: usize = 0;
    while i < c.elite_count
        invariant
            c.wf(),
            sorted@.len() == c.pop_size,
            all_evaluated(sorted@, p),
            i <= c.elite_count,
            next@.len() == i,
            forall|k: int| 0 <= k < i ==> #[trigger] next@[k].same_as(&sorted@[k]),
            all_evaluated(next@, p),
        decreases c.elite_count - i,
    {
        let e = sorted[i].duplicate();
        assert(sorted@[i as int].evaluated(p));
        next.push(e);
        i += 1;
    }
    let n = p.values.len();
    while next.len() < c.pop_size
        invariant
            p.wf(),
            c.wf(),
            n == p.n(),
            sorted@.len() == c.pop_size,
            all_evaluated(sorted@, p),
            c.elite_count <= next@.len() <= c.pop_size,
            forall|k: int| 0 <= k < c.elite_count ==> #[trigger] next@[k].same_as(&sorted@[k]),
            forall|k: int| c.elite_count <= k < next@.len() ==> bred_from(sorted@, c, #[trigger] next@[k].genes@),
            all_evaluated(next@, p),
        decreases c.pop_size - next@.len(),
    {
        let a = draw_tournament(sorted.as_slice(), c.tournament_size, rng);
        let b = draw_tournament(sorted.as_slice(), c.tournament_size, rng);
        assert(sorted@[a as int].evaluated(p));
        assert(sorted@[b as int].evaluated(p));
        let q = draw_point(n, rng);
        let flips = draw_flips(n, c.mutation_numerator, c.mutation_denominator, rng);
        let child = breed(&sorted[a], &sorted[b], q, &flips, p);
        assert(breeding(sorted@, c, a as int, b as int, q as int, flips@, child.genes@));
        let ghost prev = next@;
        next.push(child);
        assert forall|k: int| 0 <= k < c.elite_count implies #[trigger] next@[k].same_as(&sorted@[k]) by {
            assert(next@[k] == prev[k]);
        }
        assert forall|k: int| c.elite_count <= k < next@.len() implies bred_from(
            sorted@,
            c,
            #[trigger] next@[k].genes@,
        ) by {
            if k < prev.len() {
                assert(next@[k] == prev[k]);
            }
        }
    }
    if c.elite_count >= 1 {
        assert(next@[0].same_as(&sorted@[0]));
    }
    next
}

/// `f` is the highest fitness in the population.
pub open spec fn top_fitness(pop: Seq<Individual>, f: int) -> bool {
    &&& exists|i: int| 0 <= i < pop.len() && #[trigger] pop[i].fitness == f
    &&& forall|i: int| 0 <= i < pop.len() ==> #[trigger] pop[i].fitness <= f
}

/// `next` is bred from `prev` once sorted by descending fitness.
pub open spec fn follows(prev: Seq<Individual>, next: Seq<Individual>, c: &Config) -> bool {
    exists|sorted: Seq<Individual>| sorted.to_multiset() == prev.to_multiset() && sorted_desc(sorted)
        && #[trigger] bred_generation(sorted, next, c)
}

/// The first member of a sorted copy of `pop` is a fittest member of `pop`.
pub proof fn lemma_top_of_sorted(sorted: Seq<Individual>, pop: Seq<Individual>)
    requires
        sorted.to_multiset() == pop.to_multiset(),
        sorted_desc(sorted),
        sorted.len() > 0,
    ensures
        top_fitness(pop, sorted[0].fitness as int),
        pop.contains(sorted[0]),
{
    assert(sorted.contains(sorted[0]));
    assert(sorted.to_multiset().count(sorted[0]) > 0);
    let i = choose|i: int| 0 <= i < pop.len() && pop[i] == sorted[0];
    assert(pop[i].fitness == sorted[0].fitness);
    assert forall|i: int| 0 <= i < pop.len() implies #[trigger] pop[i].fitness <= sorted[0].fitness by {
        assert(pop.contains(pop[i]));
        assert(pop.to_multiset().count(pop[i]) > 0);
        let j = choose|j: int| 0 <= j < sorted.len() && sorted[j] == pop[i];
        if j > 0 {
            assert(sorted[0].fitness >= sorted[j].fitness);
        }
    }
}

/// What a run reports: its best individual, the best fitness of each
/// generation it went through (the initial one first), and, for proofs, the
/// generations themselves.
pub struct Outcome {
    pub best: Individual,
    pub history: Vec<u64>,
    pub generations: Ghost<Seq<Seq<Individual>>>,
}

/// `o` is what a run on `p` under `c` reports: one or more generations,
/// each of `pop_size` evaluated individuals; generation `g + 1` bred from
/// generation `g`; the recorded best fitness of each generation being its
/// highest; the best individual a fittest member of the last generation; a
/// stop before the budget only on reaching the target, never before. With
/// at least one elite the recorded best fitness never falls.
pub open spec fn ran(p: &Problem, c: &Config, o: &Outcome) -> bool {
    let gens = o.generations@;
    let h = o.history@;
    &&& 1 <= gens.len() <= c.max_generations + 1
    &&& h.len() == gens.len()
    &&& forall|g: int| 0 <= g < gens.len() ==> (#[trigger] gens[g]).len() == c.pop_size && all_evaluated(gens[g], p)
        && top_fitness(gens[g], h[g] as int)
    &&& forall|g: int| 0 < g < gens.len() ==> #[trigger] follows(gens[g - 1], gens[g], c)
    &&& o.best.evaluated(p)
    &&& gens.last().contains(o.best)
    &&& o.best.fitness == h.last()
    &&& forall|g: int| 0 <= g < h.len() - 1 ==> c.target != Some(#[trigger] h[g])
    &&& h.len() < c.max_generations + 1 ==> c.target == Some(o.best.fitness)
    &&& c.elite_count >= 1 ==> forall|g: int, k: int| 0 <= g <= k < h.len() ==> #[trigger] h[g] <= #[trigger] h[k]
}

/// An initial population of `c.pop_size` random individuals, all evaluated.
pub fn initial_population(p: &Problem, c: &Config, rng: &mut StdRng) -> (r: Vec<Individual>)
    requires
        p.wf(),
    ensures
        r@.len() == c.pop_size,
        all_evaluated(r@, p),
{
    let mut pop: Vec<Individual> = Vec::new();
    while pop.len() < c.pop_size
        invariant
            p.wf(),
            pop@.len() <= c.pop_size,
            all_evaluated(pop@, p),
        decreases c.pop_size - pop@.len(),
    {
        let mut ind = Individual::new(p.values.len(), rng);
        ind.evaluate(p);
        pop.push(ind);
    }
    pop
}

/// Runs the genetic algorithm: an initial random population, then
/// generations until the budget of `c.max_generations` is spent or a
/// generation's best fitness equals `c.target`. Each generation is sorted by
/// descending fitness and its best fitness recorded; the best individual of
/// the last one is returned.
pub fn run(p: &Problem, c: &Config, rng: &mut StdRng) -> (r: Outcome)
    requires
        p.wf(),
        c.wf(),
    ensures
        ran(p, c, &r),
{
    let mut pop = initial_population(p, c, rng);
    let mut history: Vec<u64> = Vec::new();
    let ghost mut gens: Seq<Seq<Individual>> = Seq::empty();
    let mut generation: usize = 0;
    loop
        invariant
            p.wf(),
            c.wf(),
            pop@.len() == c.pop_size,
            all_evaluated(pop@, p),
            generation <= c.max_generations,
            history@.len() == generation,
            gens.len() == generation,
            forall|g: int| 0 <= g < gens.len() ==> (#[trigger] gens[g]).len() == c.pop_size && all_evaluated(
                gens[g],
                p,
            ) && top_fitness(gens[g], history@[g] as int),
            forall|g: int| 0 < g < gens.len() ==> #[trigger] follows(gens[g - 1], gens[g], c),
            generation > 0 ==> follows(gens.last(), pop@, c),
            forall|g: int| 0 <= g < history@.len() ==> c.target != Some(#[trigger] history@[g]),
            c.elite_count >= 1 ==> forall|g: int, h: int| 0 <= g <= h < history@.len() ==> #[trigger] history@[g]
                <= #[trigger] history@[h],
            c.elite_count >= 1 && generation > 0 ==> pop@[0].fitness == history@.last(),
        decreases c.max_generations - generation,
    {
        let mut sorted = sort_by_fitness(pop);
        proof {
            lemma_permutation_evaluated(sorted@, pop@, p);
            lemma_top_of_sorted(sorted@, pop@);
            if c.elite_count >= 1 && generation > 0 {
                assert(pop@.contains(pop@[0]));
                assert(pop@.to_multiset().count(pop@[0]) > 0);
                assert(sorted@.contains(pop@[0]));
                let j = choose|j: int| 0 <= j < sorted@.len() && sorted@[j] == pop@[0];
                assert(sorted@[0].fitness >= sorted@[j].fitness);
            }
        }
        let top = sorted[0].fitness;
        let ghost prev = history@;
        let ghost prev_gens = gens;
        history.push(top);
        proof {
            gens = gens.push(pop@);
        }
        assert(history@ == prev.push(top));
        assert forall|g: int| 0 < g < gens.len() implies #[trigger] follows(gens[g - 1], gens[g], c) by {
            if g < gens.len() - 1 {
                assert(gens[g] == prev_gens[g]);
                assert(gens[g - 1] == prev_gens[g - 1]);
            }
        }
        let reached = match c.target {
            Some(t) => t == top,
            None => false,
        };
        if generation == c.max_generations || reached {
            let best = sorted.swap_remove(0);
            return Outcome { best, history, generations: Ghost(gens) };
        }
        pop = next_generation(&sorted, p, c, rng);
        assert(bred_generation(sorted@, pop@, c));
        assert(follows(gens.last(), pop@, c));
        if c.elite_count >= 1 {
            assert(pop@[0].same_as(&sorted@[0]));
        }
        generation += 1;
    }
}

/// Copies a slice of integers into a vector.
fn copy_items(xs: &[u32]) -> (r: Vec<u32>)
    ensures
        r@ == xs@,
{
    let mut r: Vec<u32> = Vec::new();
    let mut i: usize = 0;
    while i < xs.len()
        invariant
            i <= xs@.len(),
            r@ == xs@.subrange(0, i as int),
        decreases xs@.len() - i,
    {
        r.push(xs[i]);
        i += 1;
    }
    assert(r@ =~= xs@);
    r
}

/// `o` is what a run of the standard configuration reports on these items
/// with capacity `CAPACITY`.
pub open spec fn standard_run(values: Seq<u32>, weights: Seq<u32>, o: &Outcome) -> bool {
    exists|p: Problem, c: Config| p.values@ == values && p.weights@ == weights && p.capacity == CAPACITY && p.wf()
        && c.is_standard() && #[trigger] ran(&p, &c, o)
}

/// Runs the standard configuration on the given items with capacity
/// `CAPACITY`. The instance is refused as `Problem::new` refuses it;
/// otherwise the run's outcome is returned, its best individual a fittest
/// member of the last generation.
pub fn evolve(values: &[u32], weights: &[u32], rng: &mut StdRng) -> (r: Result<Outcome, ConfigError>)
    ensures
        values@.len() != weights@.len() ==> r == Err::<Outcome, ConfigError>(ConfigError::LengthMismatch),
        values@.len() == weights@.len() ==> match r {
            Ok(o) => standard_run(values@, weights@, &o),
            Err(e) => e == ConfigError::TotalTooLarge && (total(values@, values@.len() as int) > u64::MAX
                || total(weights@, weights@.len() as int) > u64::MAX),
        },
        (forall|i: int| 0 <= i < weights@.len() ==> #[trigger] weights@[i] > CAPACITY) ==> match r {
            Ok(o) => o.best.fitness == 0,
            Err(_) => true,
        },
{
    let p = match Problem::new(copy_items(values), copy_items(weights), CAPACITY) {
        Ok(p) => p,
        Err(e) => {
            return Err(e);
        },
    };
    let c = Config::standard();
    let outcome = run(&p, &c, rng);
    proof {
        if forall|i: int| 0 <= i < weights@.len() ==> #[trigger] weights@[i] > CAPACITY {
            lemma_nothing_fits(&p, outcome.best.genes@);
        }
    }
    assert(p.values@ == values@ && p.weights@ == weights@ && p.capacity == CAPACITY && p.wf());
    assert(c.is_standard());
    assert(ran(&p, &c, &outcome));
    assert(standard_run(values@, weights@, &outcome));
    Ok(outcome)
}

} // verus!
