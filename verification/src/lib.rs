//! Settle tracking for a packing of circles.
//!
//! Circles are pulled toward the middle of a window and pushed apart where
//! they overlap. This crate keeps the books on that: for every circle, how
//! many frames in a row it went without being pushed by a pixel or more, and
//! whether that run is long enough to call the circle stable. Positions and
//! velocities are not its business; each frame it is told which pairs of
//! circles were pushed apart.
//!
//! - [`config`]: the settings of a run and their minimums.
//! - [`stability`]: the record of one circle and its moves.
//! - [`frame`]: what one frame does to all records, stated over sequences.
//! - [`game`]: the state of a run, made once and stepped once per frame.
//! - [`spawn`]: the random choice of a starting direction.
//! - [`laws`]: what holds over any number of frames.

pub mod config;
pub mod frame;
pub mod game;
pub mod laws;
pub mod spawn;
pub mod stability;

pub use config::{ConfigError, SimulationConfig};
pub use game::Game;
pub use stability::Stability;
