use vstd::prelude::*;
use crate::problem::ConfigError;

verus! {

/// Population size of the standard configuration.
pub const POP_SIZE: usize = 100;
/// Generation budget of the standard configuration.
pub const MAX_GENERATIONS: usize = 1000;
/// Numerator of the standard configuration's per-gene flip chance.
pub const MUTATION_NUMERATOR: u32 = 1;
/// Denominator of the standard configuration's per-gene flip chance.
pub const MUTATION_DENOMINATOR: u32 = 10;
/// Individuals carried over unchanged each generation.
pub const ELITE_COUNT: usize = 5;
/// Contenders per tournament.
pub const TOURNAMENT_SIZE: usize = 5;
/// Weight budget used by `evolve`.
pub const CAPACITY: u64 = 2500;

/// The knobs of a run. `target`, when set, stops the run as soon as the best
/// fitness of a generation equals it.
pub struct Config {
    pub pop_size: usize,
    pub max_generations: usize,
    pub mutation_numerator: u32,
    pub mutation_denominator: u32,
    pub elite_count: usize,
    pub tournament_size: usize,
    pub target: Option<u64>,
}

impl Config {
    pub open spec fn wf(&self) -> bool {
        &&& self.pop_size > 0
        &&& 0 < self.tournament_size <= self.pop_size
        &&& self.elite_count <= self.pop_size
        &&& 0 < self.mutation_denominator
        &&& self.mutation_numerator <= self.mutation_denominator
    }

    /// Builds a configuration, refusing an empty population, a tournament
    /// that is empty or larger than the population, more elites than the
    /// population holds, and a mutation rate outside `[0, 1]` (checked in that
    /// order).
    pub fn new(
        pop_size: usize,
        max_generations: usize,
        mutation_numerator: u32,
        mutation_denominator: u32,
        elite_count: usize,
        tournament_size: usize,
        target: Option<u64>,
    ) -> (r: Result<Config, ConfigError>)
        ensures
            pop_size == 0 ==> r == Err::<Config, ConfigError>(ConfigError::EmptyPopulation),
            pop_size > 0 && (tournament_size == 0 || tournament_size > pop_size) ==> r == Err::<
                Config,
                ConfigError,
            >(ConfigError::BadTournamentSize),
            pop_size > 0 && 0 < tournament_size <= pop_size && elite_count > pop_size ==> r == Err::<
                Config,
                ConfigError,
            >(ConfigError::EliteTooLarge),
            pop_size > 0 && 0 < tournament_size <= pop_size && elite_count <= pop_size && (
            mutation_denominator == 0 || mutation_numerator > mutation_denominator) ==> r == Err::<
                Config,
                ConfigError,
            >(ConfigError::BadMutationRate),
            r is Ok ==> r->Ok_0 == (Config {
                pop_size,
                max_generations,
                mutation_numerator,
                mutation_denominator,
                elite_count,
                tournament_size,
                target,
            }) && r->Ok_0.wf(),
            pop_size > 0 && 0 < tournament_size <= pop_size && elite_count <= pop_size && 0
                < mutation_denominator && mutation_numerator <= mutation_denominator ==> r is Ok,
    {
        if pop_size == 0 {
            return Err(ConfigError::EmptyPopulation);
        }
        if tournament_size == 0 || tournament_size > pop_size {
            return Err(ConfigError::BadTournamentSize);
        }
        if elite_count > pop_size {
            return Err(ConfigError::EliteTooLarge);
        }
        if mutation_denominator == 0 || mutation_numerator > mutation_denominator {
            return Err(ConfigError::BadMutationRate);
        }
        Ok(
            Config {
                pop_size,
                max_generations,
                mutation_numerator,
                mutation_denominator,
                elite_count,
                tournament_size,
                target,
            },
        )
    }

    /// The knobs of the standard configuration.
    pub open spec fn is_standard(&self) -> bool {
        &&& self.pop_size == POP_SIZE
        &&& self.max_generations == MAX_GENERATIONS
        &&& self.mutation_numerator == MUTATION_NUMERATOR
        &&& self.mutation_denominator == MUTATION_DENOMINATOR
        &&& self.elite_count == ELITE_COUNT
        &&& self.tournament_size == TOURNAMENT_SIZE
        &&& self.target is None
    }

    /// The standard configuration: population 100, 1000 generations, flip
    /// chance 1/10, 5 elites, tournaments of 5, no early stop.
    pub fn standard() -> (r: Config)
        ensures
            r.wf(),
            r.is_standard(),
            r.pop_size == POP_SIZE,
            r.max_generations == MAX_GENERATIONS,
            r.mutation_numerator == MUTATION_NUMERATOR,
            r.mutation_denominator == MUTATION_DENOMINATOR,
            r.elite_count == ELITE_COUNT,
            r.tournament_size == TOURNAMENT_SIZE,
            r.target is None,
    {
        Config {
            pop_size: POP_SIZE,
            max_generations: MAX_GENERATIONS,
            mutation_numerator: MUTATION_NUMERATOR,
            mutation_denominator: MUTATION_DENOMINATOR,
            elite_count: ELITE_COUNT,
            tournament_size: TOURNAMENT_SIZE,
            target: None,
        }
    }
}

} // verus!
