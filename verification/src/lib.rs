//! An artificial-life simulation on a discrete grid.
//!
//! Organisms carry an evolvable genome that is decoded into a small
//! feed-forward neural controller. Every tick each organism senses its
//! neighbourhood, picks an action, moves, eats, replicates, ages and possibly
//! dies; afterwards the energy that left the system is handed back as pellets.
//!
//! All quantities are integers. Energies, weights and activations are fixed
//! point numbers with three decimal digits: the value `1000` stands for `1.0`.

pub mod action;
pub mod config;
pub mod coord;
pub mod dir;
pub mod gene;
pub mod genome;
pub mod grid;
pub mod laws;
pub mod model;
pub mod ns;
pub mod organism;
pub mod rng;
pub mod world;

pub use action::Action;
pub use config::{Parameters, Pellet, SimState, Speed};
pub use coord::Coord;
pub use dir::{sample_direction, Dir};
pub use gene::{Gene, SinkKind, SourceKind};
pub use genome::Genome;
pub use grid::{CellType, Grid};
pub use ns::{Conn, NsShape, NS};
pub use organism::Organism;
pub use rng::Rng;
pub use world::World;
