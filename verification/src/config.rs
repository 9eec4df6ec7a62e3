//! The configuration of a run, its control state and the energy constants.

use crate::action::N_ACTIONS;
use crate::coord::Coord;
use crate::ns::NsShape;
use vstd::prelude::*;

verus! {

/// The energy of a freshly spawned organism.
pub const INITIAL_ENERGY: i64 = 1000;

/// The energy of one pellet.
pub const PELLET_ENERGY: i64 = 200;

/// The upkeep that every organism pays per tick.
pub const METABOLISM_COST: i64 = 10;

/// An organism replicates only with more energy than this.
pub const REPLICATION_THRESHOLD: i64 = 500;

/// The probability, in parts per million, that a gene is mutated when it is
/// copied to a child.
pub const MUTATION_PPM: u32 = 50_000;

/// The probability, in parts per million, that a fresh gene is put in after a
/// gene that is copied to a child.
pub const INSERTION_PPM: u32 = 10_000;

/// The number of sensor readings that the world offers an organism.
pub const N_SENSORS: usize = 18;

/// The options of a run.
#[derive(Clone, Copy, Debug, PartialEq, Eq, Structural)]
pub struct Parameters {
    /// The width and the height of the grid.
    pub grid_size: usize,
    /// How many organisms a new world starts with.
    pub n_initial_entities: usize,
    /// No organism replicates once there are this many.
    pub n_max_entities: usize,
    /// The number of genes of a spawned organism.
    pub genome_len: usize,
    /// The architecture of every controller.
    pub ns_shape: NsShape,
    /// An organism that has lived this many ticks dies at its next tick.
    pub average_lifespan: usize,
}

impl Parameters {
    /// Whether a world can be built from the options on this machine: the
    /// number of cells is a `usize` and twice the energy of the initial
    /// organisms is an `i64`.
    pub open spec fn valid(self) -> bool {
        &&& self.grid_size * self.grid_size <= usize::MAX
        &&& 2 * self.n_initial_entities * INITIAL_ENERGY <= i64::MAX
    }

    /// Whether a world can be built from the options on this machine.
    pub fn is_valid(&self) -> (ok: bool)
        ensures
            ok == self.valid(),
    {
        let cells: Option<usize> = self.grid_size.checked_mul(self.grid_size);
        let fits: bool = self.n_initial_entities as u64 <= 4_611_686_018_427_387u64;
        assert(fits == (2 * self.n_initial_entities * INITIAL_ENERGY <= i64::MAX));
        cells.is_some() && fits
    }

    /// The options of the interactive application: a grid of 500 by 500
    /// cells, 100 organisms at the start and at most 500, genomes of 20 genes,
    /// five hidden nodes and a lifespan of seven ticks.
    pub fn standard() -> (params: Parameters)
        ensures
            params == (Parameters {
                grid_size: 500,
                n_initial_entities: 100,
                n_max_entities: 500,
                genome_len: 20,
                ns_shape: NsShape {
                    sensor_count: N_SENSORS,
                    hidden_count: 5,
                    action_count: N_ACTIONS,
                },
                average_lifespan: 7,
            }),
            params.valid(),
    {
        Parameters {
            grid_size: 500,
            n_initial_entities: 100,
            n_max_entities: 500,
            genome_len: 20,
            ns_shape: NsShape::new(N_SENSORS, 5, N_ACTIONS),
            average_lifespan: 7,
        }
    }
}

/// The speed presets of the tick timer.
#[derive(Clone, Copy, Debug, PartialEq, Eq, Structural)]
pub enum Speed {
    Slow,
    Normal,
    Fast,
}

impl Speed {
    /// The time between two ticks, in milliseconds.
    pub open spec fn interval_millis_spec(self) -> u64 {
        match self {
            Speed::Slow => 100,
            Speed::Normal => 50,
            Speed::Fast => 25,
        }
    }

    /// The time between two ticks, in milliseconds: 100 when slow, 50
    /// normally, 25 when fast.
    pub fn interval_millis(self) -> (millis: u64)
        ensures
            millis == self.interval_millis_spec(),
    {
        match self {
            Speed::Slow => 100,
            Speed::Normal => 50,
            Speed::Fast => 25,
        }
    }
}

/// The time between two steps of the epoch counter, in milliseconds.
pub const EPOCH_INTERVAL_MILLIS: u64 = 10_000;

/// The control state that the presentation layer writes between ticks.
#[derive(Clone, Copy, Debug, PartialEq, Eq, Structural)]
pub struct SimState {
    /// While set, a step does nothing.
    pub paused: bool,
    /// When set, the next step rebuilds the world and clears the flag.
    pub reset: bool,
    /// A slow counter for the statistics; the simulation does not read it.
    pub epoch: usize,
    /// The preset of the tick timer.
    pub speed: Speed,
}

impl SimState {
    /// The state at the start: running at normal speed in epoch zero.
    pub open spec fn initial() -> SimState {
        SimState { paused: false, reset: false, epoch: 0, speed: Speed::Normal }
    }

    /// The state at the start: running at normal speed in epoch zero.
    pub fn new() -> (state: SimState)
        ensures
            state == SimState::initial(),
    {
        SimState { paused: false, reset: false, epoch: 0, speed: Speed::Normal }
    }
}

/// An energy deposit in one cell of the grid.
#[derive(Clone, Copy, Debug, PartialEq, Eq)]
pub struct Pellet {
    pub coord: Coord<usize>,
    pub energy: i64,
}

} // verus!
