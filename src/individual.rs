use vstd::prelude::*;
use rand::rngs::StdRng;
use crate::random::draw_ratio;
use crate::problem::{Problem, picked_sum, lemma_picked_le_total, lemma_total_monotone};

verus! {

/// One candidate solution: a gene per item, and the cached fitness and
/// total weight of the selection.
pub struct Individual {
    pub genes: Vec<bool>,
    pub fitness: u64,
    pub total_weight: u64,
}

impl Individual {
    /// The cached fields agree with the genes: the weight is the selected
    /// weight, and the fitness is the selected value when the weight fits the
    /// capacity and zero otherwise.
    pub open spec fn evaluated(&self, p: &Problem) -> bool {
        &&& self.genes@.len() == p.n()
        &&& self.total_weight == p.weight_of(self.genes@)
        &&& self.fitness == p.fitness_of(self.genes@)
    }

    /// Same genes and same cached fields.
    pub open spec fn same_as(&self, other: &Individual) -> bool {
        &&& self.genes@ == other.genes@
        &&& self.fitness == other.fitness
        &&& self.total_weight == other.total_weight
    }

    /// A fresh individual whose genes are each drawn true or false with equal
    /// chance; its cached fields are zero until it is evaluated.
    pub fn new(size: usize, rng: &mut StdRng) -> (r: Individual)
        ensures
            r.genes@.len() == size,
            r.fitness == 0,
            r.total_weight == 0,
    {
        let mut genes: Vec<bool> = Vec::new();
        let mut i: usize = 0;
        while i < size
            invariant
                i <= size,
                genes@.len() == i,
            decreases size - i,
        {
            genes.push(draw_ratio(rng, 1, 2));
            i += 1;
        }
        Individual::from_genes(genes)
    }

    /// An unevaluated individual with the given genes.
    pub fn from_genes(genes: Vec<bool>) -> (r: Individual)
        ensures
            r.genes@ == genes@,
            r.fitness == 0,
            r.total_weight == 0,
    {
        Individual { genes, fitness: 0, total_weight: 0 }
    }

    /// A copy with the same genes and cached fields.
    pub fn duplicate(&self) -> (r: Individual)
        ensures
            r.same_as(self),
    {
        let mut genes: Vec<bool> = Vec::new();
        let mut i: usize = 0;
        while i < self.genes.len()
            invariant
                i <= self.genes@.len(),
                genes@ == self.genes@.subrange(0, i as int),
            decreases self.genes@.len() - i,
        {
            genes.push(self.genes[i]);
            i += 1;
        }
        assert(genes@ =~= self.genes@);
        Individual { genes, fitness: self.fitness, total_weight: self.total_weight }
    }

    /// Recomputes the total weight and the fitness from the genes.
    pub fn evaluate(&mut self, p: &Problem)
        requires
            p.wf(),
            old(self).genes@.len() == p.n(),
        ensures
            final(self).genes@ == old(self).genes@,
            final(self).evaluated(p),
            final(self).total_weight == p.weight_of(old(self).genes@),
            final(self).total_weight > p.capacity ==> final(self).fitness == 0,
            final(self).total_weight <= p.capacity ==> final(self).fitness == p.value_of(old(self).genes@),
    {
        let mut v: u64 = 0;
        let mut w: u64 = 0;
        let mut i: usize = 0;
        let n = self.genes.len();
        while i < n
            invariant
                n == self.genes@.len() == p.n(),
                p.wf(),
                i <= n,
                v == picked_sum(self.genes@, p.values@, i as int),
                w == picked_sum(self.genes@, p.weights@, i as int),
            decreases n - i,
        {
            proof {
                lemma_picked_le_total(self.genes@, p.values@, i + 1);
                lemma_picked_le_total(self.genes@, p.weights@, i + 1);
                lemma_total_monotone(p.values@, i + 1, n as int);
                lemma_total_monotone(p.weights@, i + 1, n as int);
            }
            if self.genes[i] {
                v = v + p.values[i] as u64;
                w = w + p.weights[i] as u64;
            }
            i += 1;
        }
        self.total_weight = w;
        self.fitness = if w <= p.capacity { v } else { 0 };
    }
}

} // verus!
