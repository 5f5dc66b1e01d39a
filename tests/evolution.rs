use knapsack_evolutionary::config::{Config, CAPACITY};
use knapsack_evolutionary::population::{evolve, run};
use knapsack_evolutionary::problem::{ConfigError, Problem};
use rand::rngs::StdRng;
use rand::SeedableRng;

#[test]
fn test_evolution_basic() {
    let values = vec![10, 20, 30, 40, 50, 60, 70, 80, 90, 100];
    let weights = vec![5, 10, 15, 20, 25, 30, 35, 40, 45, 50];
    let mut rng = StdRng::seed_from_u64(1);
    let best_solution = evolve(&values, &weights, &mut rng).unwrap().best;
    assert!(best_solution.fitness > 0);
}

#[test]
fn test_empty_knapsack() {
    let values = vec![10, 20, 30];
    let weights = vec![2501, 2600, 2700];
    let mut rng = StdRng::seed_from_u64(2);
    let best_solution = evolve(&values, &weights, &mut rng).unwrap().best;
    assert_eq!(best_solution.fitness, 0);
}

#[test]
fn test_single_item_fit() {
    let values = vec![100];
    let weights = vec![2000];
    let mut rng = StdRng::seed_from_u64(3);
    let best_solution = evolve(&values, &weights, &mut rng).unwrap().best;
    assert_eq!(best_solution.fitness, 100);
}

#[test]
fn all_items_fit_converges_to_full_value() {
    let values = vec![10, 20, 30, 40, 50, 60, 70, 80, 90, 100];
    let weights = vec![5, 10, 15, 20, 25, 30, 35, 40, 45, 50];
    let mut rng = StdRng::seed_from_u64(4);
    let best = evolve(&values, &weights, &mut rng).unwrap().best;
    assert_eq!(best.fitness, 550);
    assert_eq!(best.total_weight, 275);
    assert!(best.genes.iter().all(|&g| g));
}

#[test]
fn single_item_selected_when_it_fits() {
    let values = vec![100];
    let weights = vec![2000];
    let mut rng = StdRng::seed_from_u64(5);
    let best = evolve(&values, &weights, &mut rng).unwrap().best;
    assert_eq!(best.genes, vec![true]);
    assert_eq!(best.total_weight, 2000);
}

#[test]
fn nothing_fits_gives_zero_in_every_generation() {
    let p = Problem::new(vec![10, 20, 30], vec![2501, 2600, 2700], CAPACITY).unwrap();
    let c = Config::new(20, 30, 1, 10, 2, 3, None).unwrap();
    let mut rng = StdRng::seed_from_u64(6);
    let out = run(&p, &c, &mut rng);
    assert_eq!(out.history.len(), 31);
    assert!(out.history.iter().all(|&f| f == 0));
    assert_eq!(out.best.fitness, 0);
}

#[test]
fn zero_items_is_handled() {
    let p = Problem::new(vec![], vec![], 10).unwrap();
    let c = Config::new(4, 5, 1, 2, 1, 2, None).unwrap();
    let mut rng = StdRng::seed_from_u64(7);
    let out = run(&p, &c, &mut rng);
    assert_eq!(out.best.fitness, 0);
    assert_eq!(out.best.total_weight, 0);
    assert!(out.best.genes.is_empty());
}

#[test]
fn best_fitness_never_falls_with_elitism() {
    let p = Problem::new(vec![6, 5, 8, 9, 6, 7, 3], vec![2, 3, 6, 7, 5, 9, 4], 9).unwrap();
    let c = Config::new(10, 50, 1, 5, 1, 2, None).unwrap();
    let mut rng = StdRng::seed_from_u64(8);
    let out = run(&p, &c, &mut rng);
    assert_eq!(out.history.len(), 51);
    for g in 1..out.history.len() {
        assert!(out.history[g - 1] <= out.history[g]);
    }
    assert_eq!(out.best.fitness, *out.history.last().unwrap());
    assert!(out.best.total_weight <= 9);
}

#[test]
fn same_seed_gives_same_history() {
    let make = || Problem::new(vec![6, 5, 8, 9, 6, 7, 3], vec![2, 3, 6, 7, 5, 9, 4], 9).unwrap();
    let c = Config::new(12, 40, 1, 10, 2, 3, None).unwrap();
    let mut rng1 = StdRng::seed_from_u64(42);
    let mut rng2 = StdRng::seed_from_u64(42);
    let a = run(&make(), &c, &mut rng1);
    let b = run(&make(), &c, &mut rng2);
    assert_eq!(a.history, b.history);
    assert_eq!(a.best.genes, b.best.genes);
    assert_eq!(a.best.fitness, b.best.fitness);
}

#[test]
fn target_stops_the_run_early() {
    let p = Problem::new(vec![100], vec![2000], 2500).unwrap();
    let c = Config::new(20, 1000, 1, 10, 2, 3, Some(100)).unwrap();
    let mut rng = StdRng::seed_from_u64(9);
    let out = run(&p, &c, &mut rng);
    assert_eq!(out.best.fitness, 100);
    assert!(out.history.len() < 1001);
    assert_eq!(*out.history.last().unwrap(), 100);
}

#[test]
fn evolve_refuses_mismatched_lengths() {
    let mut rng = StdRng::seed_from_u64(10);
    let r = evolve(&[10, 20], &[5], &mut rng);
    assert_eq!(r.err(), Some(ConfigError::LengthMismatch));
}

#[test]
fn evolve_reports_history_of_the_run() {
    let mut rng = StdRng::seed_from_u64(11);
    let out = evolve(&[100], &[2000], &mut rng).unwrap();
    assert_eq!(out.history.len(), 1001);
    assert_eq!(out.best.fitness, *out.history.last().unwrap());
}
