//! The per-location state of the grid and the run's configuration.
use vstd::prelude::*;

verus! {

/// The tag of a cell.
#[derive(Clone, Copy, Debug, PartialEq, Eq, Structural)]
pub enum Category {
    Predator,
    Prey,
    Empty,
}

/// The display attribute of a cell, derived from its category alone.
#[derive(Clone, Copy, Debug, PartialEq, Eq, Structural)]
pub enum Shade {
    Red,
    Green,
    Black,
}

/// A grid location: what lives there and how healthy it is.
#[derive(Clone, Copy, Debug, PartialEq, Eq, Structural)]
pub struct Cell {
    pub category: Category,
    pub health: u16,
}

/// Why a configuration was refused.
#[derive(Clone, Copy, Debug, PartialEq, Eq, Structural)]
pub enum ConfigError {
    /// An initial health or the split threshold is zero.
    ZeroValue,
    /// A grid dimension is zero.
    ZeroDimension,
    /// The grid has more cells than can be addressed.
    TooLarge,
}

/// The parameters fixed for a whole run.
#[derive(Clone, Copy, Debug, PartialEq, Eq, Structural)]
pub struct Config {
    pub prey_initial_health: u16,
    pub predator_initial_health: u16,
    pub prey_split_threshold: u16,
}

/// Health at which a predator starves at the start of its turn.
pub const PREDATOR_STARVATION_HEALTH: u16 = 1;

impl Cell {
    /// A cell is empty exactly when its health is zero.
    pub open spec fn wf(self) -> bool {
        (self.category == Category::Empty) == (self.health == 0)
    }

    pub open spec fn spec_empty() -> Cell {
        Cell { category: Category::Empty, health: 0 }
    }

    /// The fresh cell of a category: the configured starting health for a
    /// creature, zero for an empty cell.
    pub open spec fn fresh(category: Category, cfg: Config) -> Cell {
        match category {
            Category::Prey => Cell { category, health: cfg.prey_initial_health },
            Category::Predator => Cell { category, health: cfg.predator_initial_health },
            Category::Empty => Cell::spec_empty(),
        }
    }

    pub open spec fn spec_shade(self) -> Shade {
        match self.category {
            Category::Predator => Shade::Red,
            Category::Prey => Shade::Green,
            Category::Empty => Shade::Black,
        }
    }

    /// The empty cell.
    pub fn empty() -> (r: Cell)
        ensures
            r == Cell::spec_empty(),
    {
        Cell { category: Category::Empty, health: 0 }
    }

    /// A fresh cell of the given category.
    pub fn new_cell(category: Category, cfg: &Config) -> (r: Cell)
        ensures
            r == Cell::fresh(category, *cfg),
    {
        match category {
            Category::Prey => Cell { category, health: cfg.prey_initial_health },
            Category::Predator => Cell { category, health: cfg.predator_initial_health },
            Category::Empty => Cell { category, health: 0 },
        }
    }

    /// Turns this cell into a fresh cell of the given category.
    pub fn change(&mut self, category: Category, cfg: &Config)
        ensures
            *final(self) == Cell::fresh(category, *cfg),
    {
        *self = Cell::new_cell(category, cfg);
    }

    /// The display attribute: red for a predator, green for prey, black when empty.
    pub fn shade(&self) -> (r: Shade)
        ensures
            r == self.spec_shade(),
    {
        match self.category {
            Category::Predator => Shade::Red,
            Category::Prey => Shade::Green,
            Category::Empty => Shade::Black,
        }
    }
}

impl Config {
    /// Every configured health and threshold is at least one.
    pub open spec fn wf(self) -> bool {
        self.prey_initial_health >= 1 && self.predator_initial_health >= 1
            && self.prey_split_threshold >= 1
    }

    /// A configuration, refused when any value is zero.
    pub fn new(prey_initial_health: u16, predator_initial_health: u16, prey_split_threshold: u16)
        -> (r: Result<Config, ConfigError>)
        ensures
            match r {
                Ok(c) => c.wf() && c.prey_initial_health == prey_initial_health
                    && c.predator_initial_health == predator_initial_health
                    && c.prey_split_threshold == prey_split_threshold,
                Err(e) => e == ConfigError::ZeroValue,
            },
            r is Ok <==> (prey_initial_health >= 1 && predator_initial_health >= 1
                && prey_split_threshold >= 1),
    {
        if prey_initial_health == 0 || predator_initial_health == 0 || prey_split_threshold == 0 {
            Err(ConfigError::ZeroValue)
        } else {
            Ok(Config { prey_initial_health, predator_initial_health, prey_split_threshold })
        }
    }
}

} // verus!
