//! Configuration for simulation runs.

use vstd::prelude::*;
use crate::player::Player;

verus! {

/// Configuration for running game simulations: how many games to play,
/// which engine picks the moves, and who moves first. Immutable once
/// built and consumed by the runner.
pub struct SimulationConfig<E> {
    pub(crate) num_games: usize,
    pub(crate) engine: E,
    pub(crate) starting_player: Player,
    pub(crate) seed: Option<u64>,
}

impl<E> SimulationConfig<E> {
    /// The configured number of games.
    pub closed spec fn spec_num_games(&self) -> usize {
        self.num_games
    }

    /// The configured engine.
    pub closed spec fn spec_engine(&self) -> E {
        self.engine
    }

    /// The configured starting player.
    pub closed spec fn spec_starting_player(&self) -> Player {
        self.starting_player
    }

    /// The configured seed, if any.
    pub closed spec fn spec_seed(&self) -> Option<u64> {
        self.seed
    }

    /// Reads the configured number of games.
    pub(crate) fn num_games(&self) -> (r: usize)
        ensures
            r == self.spec_num_games(),
    {
        self.num_games
    }

    /// Borrows the configured engine.
    pub(crate) fn engine(&self) -> (r: &E)
        ensures
            *r == self.spec_engine(),
    {
        &self.engine
    }

    /// Reads the configured starting player.
    pub(crate) fn starting_player(&self) -> (r: Player)
        ensures
            r == self.spec_starting_player(),
    {
        self.starting_player
    }
}

impl SimulationConfig<()> {
    /// Creates a new configuration builder with no field set.
    pub fn builder() -> (r: SimulationConfigBuilder)
        ensures
            r.spec_num_games() is None,
            r.spec_starting_player() is None,
            r.spec_seed() is None,
    {
        SimulationConfigBuilder { num_games: None, starting_player: None, seed: None }
    }
}

/// Builder for `SimulationConfig`, before an engine has been chosen.
pub struct SimulationConfigBuilder {
    num_games: Option<usize>,
    starting_player: Option<Player>,
    seed: Option<u64>,
}

impl SimulationConfigBuilder {
    /// The number of games set so far, if any.
    pub closed spec fn spec_num_games(&self) -> Option<usize> {
        self.num_games
    }

    /// The starting player set so far, if any.
    pub closed spec fn spec_starting_player(&self) -> Option<Player> {
        self.starting_player
    }

    /// The seed set so far, if any.
    pub closed spec fn spec_seed(&self) -> Option<u64> {
        self.seed
    }

    /// Sets the number of games to simulate.
    pub fn num_games(self, num_games: usize) -> (r: SimulationConfigBuilder)
        ensures
            r.spec_num_games() == Some(num_games),
            r.spec_starting_player() == self.spec_starting_player(),
            r.spec_seed() == self.spec_seed(),
    {
        SimulationConfigBuilder {
            num_games: Some(num_games),
            starting_player: self.starting_player,
            seed: self.seed,
        }
    }

    /// Sets the engine to use for move selection.
    pub fn engine<E>(self, engine: E) -> (r: SimulationConfigBuilderWithEngine<E>)
        ensures
            r.spec_num_games() == self.spec_num_games(),
            r.spec_engine() == engine,
            r.spec_starting_player() == self.spec_starting_player(),
            r.spec_seed() == self.spec_seed(),
    {
        SimulationConfigBuilderWithEngine {
            num_games: self.num_games,
            engine,
            starting_player: self.starting_player,
            seed: self.seed,
        }
    }

    /// Sets the starting player.
    pub fn starting_player(self, player: Player) -> (r: SimulationConfigBuilder)
        ensures
            r.spec_num_games() == self.spec_num_games(),
            r.spec_starting_player() == Some(player),
            r.spec_seed() == self.spec_seed(),
    {
        SimulationConfigBuilder {
            num_games: self.num_games,
            starting_player: Some(player),
            seed: self.seed,
        }
    }

    /// Sets an optional seed for reproducibility. The sequential runner
    /// is deterministic and does not consume it.
    pub fn seed(self, seed: u64) -> (r: SimulationConfigBuilder)
        ensures
            r.spec_num_games() == self.spec_num_games(),
            r.spec_starting_player() == self.spec_starting_player(),
            r.spec_seed() == Some(seed),
    {
        SimulationConfigBuilder {
            num_games: self.num_games,
            starting_player: self.starting_player,
            seed: Some(seed),
        }
    }
}

/// Builder for `SimulationConfig` once an engine has been chosen.
pub struct SimulationConfigBuilderWithEngine<E> {
    num_games: Option<usize>,
    engine: E,
    starting_player: Option<Player>,
    seed: Option<u64>,
}

impl<E> SimulationConfigBuilderWithEngine<E> {
    /// The number of games set so far, if any.
    pub closed spec fn spec_num_games(&self) -> Option<usize> {
        self.num_games
    }

    /// The chosen engine.
    pub closed spec fn spec_engine(&self) -> E {
        self.engine
    }

    /// The starting player set so far, if any.
    pub closed spec fn spec_starting_player(&self) -> Option<Player> {
        self.starting_player
    }

    /// The seed set so far, if any.
    pub closed spec fn spec_seed(&self) -> Option<u64> {
        self.seed
    }

    /// Sets the number of games to simulate.
    pub fn num_games(self, num_games: usize) -> (r: SimulationConfigBuilderWithEngine<E>)
        ensures
            r.spec_num_games() == Some(num_games),
            r.spec_engine() == self.spec_engine(),
            r.spec_starting_player() == self.spec_starting_player(),
            r.spec_seed() == self.spec_seed(),
    {
        SimulationConfigBuilderWithEngine {
            num_games: Some(num_games),
            engine: self.engine,
            starting_player: self.starting_player,
            seed: self.seed,
        }
    }

    /// Sets the starting player.
    pub fn starting_player(self, player: Player) -> (r: SimulationConfigBuilderWithEngine<E>)
        ensures
            r.spec_num_games() == self.spec_num_games(),
            r.spec_engine() == self.spec_engine(),
            r.spec_starting_player() == Some(player),
            r.spec_seed() == self.spec_seed(),
    {
        SimulationConfigBuilderWithEngine {
            num_games: self.num_games,
            engine: self.engine,
            starting_player: Some(player),
            seed: self.seed,
        }
    }

    /// Sets an optional seed for reproducibility. The sequential runner
    /// is deterministic and does not consume it.
    pub fn seed(self, seed: u64) -> (r: SimulationConfigBuilderWithEngine<E>)
        ensures
            r.spec_num_games() == self.spec_num_games(),
            r.spec_engine() == self.spec_engine(),
            r.spec_starting_player() == self.spec_starting_player(),
            r.spec_seed() == Some(seed),
    {
        SimulationConfigBuilderWithEngine {
            num_games: self.num_games,
            engine: self.engine,
            starting_player: self.starting_player,
            seed: Some(seed),
        }
    }

    /// Builds the configuration. The required fields -- the number of
    /// games and the starting player -- must have been set.
    pub fn build(self) -> (r: SimulationConfig<E>)
        requires
            self.spec_num_games() is Some,
            self.spec_starting_player() is Some,
        ensures
            Some(r.spec_num_games()) == self.spec_num_games(),
            r.spec_engine() == self.spec_engine(),
            Some(r.spec_starting_player()) == self.spec_starting_player(),
            r.spec_seed() == self.spec_seed(),
    {
        let num_games = self.num_games.unwrap();
        let starting_player = self.starting_player.unwrap();
        SimulationConfig { num_games, engine: self.engine, starting_player, seed: self.seed }
    }
}

} // verus!
