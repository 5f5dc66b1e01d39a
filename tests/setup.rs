use knapsack_evolutionary::config::Config;
use knapsack_evolutionary::problem::{fits_in_u64, ConfigError, Problem};

#[test]
fn problem_rejects_mismatched_lengths() {
    assert_eq!(Problem::new(vec![1, 2], vec![1], 5).err(), Some(ConfigError::LengthMismatch));
}

#[test]
fn problem_rejects_totals_past_u64() {
    assert!(fits_in_u64(&vec![u32::MAX, u32::MAX]));
    assert!(fits_in_u64(&vec![]));
    let p = Problem::new(vec![1, 2], vec![3, 4], 5).unwrap();
    assert_eq!(p.capacity, 5);
    assert_eq!(p.values, vec![1, 2]);
}

#[test]
fn config_checks_each_knob() {
    assert_eq!(Config::new(0, 10, 1, 10, 0, 1, None).err(), Some(ConfigError::EmptyPopulation));
    assert_eq!(Config::new(5, 10, 1, 10, 1, 6, None).err(), Some(ConfigError::BadTournamentSize));
    assert_eq!(Config::new(5, 10, 1, 10, 1, 0, None).err(), Some(ConfigError::BadTournamentSize));
    assert_eq!(Config::new(5, 10, 1, 10, 6, 2, None).err(), Some(ConfigError::EliteTooLarge));
    assert_eq!(Config::new(5, 10, 1, 0, 1, 2, None).err(), Some(ConfigError::BadMutationRate));
    assert_eq!(Config::new(5, 10, 3, 2, 1, 2, None).err(), Some(ConfigError::BadMutationRate));
    let c = Config::new(5, 10, 2, 2, 5, 5, Some(7)).unwrap();
    assert_eq!(c.pop_size, 5);
    assert_eq!(c.target, Some(7));
}

#[test]
fn standard_config_values() {
    let c = Config::standard();
    assert_eq!(c.pop_size, 100);
    assert_eq!(c.max_generations, 1000);
    assert_eq!((c.mutation_numerator, c.mutation_denominator), (1, 10));
    assert_eq!(c.elite_count, 5);
    assert_eq!(c.tournament_size, 5);
    assert_eq!(c.target, None);
}
