use knapsack_evolutionary::individual::Individual;
use knapsack_evolutionary::operators::{
    apply_flips, crossover, crossover_at, mutate, tournament_selection, tournament_winner,
};
use knapsack_evolutionary::population::{breed, sort_by_fitness};
use knapsack_evolutionary::problem::Problem;
use rand::rngs::StdRng;
use rand::SeedableRng;

fn scored(genes: Vec<bool>, fitness: u64) -> Individual {
    let mut ind = Individual::from_genes(genes);
    ind.fitness = fitness;
    ind
}

#[test]
fn evaluate_sums_selected_items() {
    let p = Problem::new(vec![10, 20, 30], vec![5, 10, 15], 20).unwrap();
    let mut ind = Individual::from_genes(vec![true, false, true]);
    ind.evaluate(&p);
    assert_eq!(ind.total_weight, 20);
    assert_eq!(ind.fitness, 40);
}

#[test]
fn evaluate_over_capacity_scores_zero() {
    let p = Problem::new(vec![10, 20, 30], vec![5, 10, 15], 20).unwrap();
    let mut ind = Individual::from_genes(vec![false, true, true]);
    ind.evaluate(&p);
    assert_eq!(ind.total_weight, 25);
    assert_eq!(ind.fitness, 0);
}

#[test]
fn crossover_at_splices_parents() {
    let a = Individual::from_genes(vec![true, true, true, true, true]);
    let b = Individual::from_genes(vec![false, false, false, false, false]);
    let c = crossover_at(&a, &b, 2);
    assert_eq!(c.genes, vec![true, true, false, false, false]);
    assert_eq!(c.fitness, 0);
    assert_eq!(c.total_weight, 0);
    assert_eq!(crossover_at(&a, &b, 0).genes, b.genes);
    assert_eq!(crossover_at(&a, &b, 5).genes, a.genes);
}

#[test]
fn crossover_keeps_length_and_takes_a_prefix() {
    let a = Individual::from_genes(vec![true; 8]);
    let b = Individual::from_genes(vec![false; 8]);
    let mut rng = StdRng::seed_from_u64(11);
    for _ in 0..50 {
        let c = crossover(&a, &b, &mut rng);
        assert_eq!(c.genes.len(), 8);
        let p = c.genes.iter().take_while(|&&g| g).count();
        assert!(p < 8);
        assert!(c.genes[p..].iter().all(|&g| !g));
    }
    let empty = Individual::from_genes(vec![]);
    assert!(crossover(&empty, &empty, &mut rng).genes.is_empty());
}

#[test]
fn mutation_rate_zero_keeps_genes() {
    let mut rng = StdRng::seed_from_u64(12);
    let genes = vec![true, false, false, true, true, false];
    let mut ind = Individual::from_genes(genes.clone());
    mutate(&mut ind, 0, 10, &mut rng);
    assert_eq!(ind.genes, genes);
}

#[test]
fn mutation_rate_one_flips_every_gene() {
    let mut rng = StdRng::seed_from_u64(13);
    let mut ind = Individual::from_genes(vec![true, false, false, true, true, false]);
    mutate(&mut ind, 7, 7, &mut rng);
    assert_eq!(ind.genes, vec![false, true, true, false, false, true]);
}

#[test]
fn apply_flips_negates_marked_genes() {
    let mut ind = Individual::from_genes(vec![true, false, true]);
    apply_flips(&mut ind, &vec![true, true, false]);
    assert_eq!(ind.genes, vec![false, true, true]);
}

#[test]
fn new_individual_has_requested_length() {
    let mut rng = StdRng::seed_from_u64(14);
    let ind = Individual::new(64, &mut rng);
    assert_eq!(ind.genes.len(), 64);
    assert!(ind.genes.iter().any(|&g| g));
    assert!(ind.genes.iter().any(|&g| !g));
}

#[test]
fn tournament_winner_takes_first_fittest() {
    let pop = vec![scored(vec![], 3), scored(vec![], 7), scored(vec![], 7), scored(vec![], 1)];
    assert_eq!(tournament_winner(&pop, &vec![0, 2, 1, 3]), 2);
    assert_eq!(tournament_winner(&pop, &vec![3, 0]), 0);
    assert_eq!(tournament_winner(&pop, &vec![3]), 3);
}

#[test]
fn tournament_selection_returns_a_member() {
    let pop = vec![scored(vec![true], 3), scored(vec![false], 9)];
    let mut rng = StdRng::seed_from_u64(15);
    let mut saw_best = false;
    for _ in 0..20 {
        let w = tournament_selection(&pop, 2, &mut rng);
        assert!(w.fitness == 3 || w.fitness == 9);
        saw_best |= w.fitness == 9;
    }
    assert!(saw_best);
}

#[test]
fn sort_orders_by_descending_fitness_stably() {
    let pop = vec![
        scored(vec![true], 2),
        scored(vec![false], 5),
        scored(vec![true, true], 2),
        scored(vec![], 9),
    ];
    let sorted = sort_by_fitness(pop);
    let fits: Vec<u64> = sorted.iter().map(|i| i.fitness).collect();
    assert_eq!(fits, vec![9, 5, 2, 2]);
    assert_eq!(sorted[2].genes, vec![true]);
    assert_eq!(sorted[3].genes, vec![true, true]);
}

#[test]
fn breed_splices_then_flips_then_evaluates() {
    let p = Problem::new(vec![1, 2, 4, 8], vec![1, 1, 1, 1], 3).unwrap();
    let a = Individual::from_genes(vec![true, true, true, true]);
    let b = Individual::from_genes(vec![false, false, false, false]);
    let child = breed(&a, &b, 1, &vec![false, true, false, false], &p);
    assert_eq!(child.genes, vec![true, true, false, false]);
    assert_eq!(child.total_weight, 2);
    assert_eq!(child.fitness, 3);
}
