//! Simulated annealing: approximating the global minimum of a scalar
//! objective over a bounded parameter space.
//!
//! The library holds the decisions of the search: the order of numbers,
//! the bounds test of the neighbour sampler, the Metropolis criterion, the
//! choice of cooling rule, the reporting period, and the engine that strings
//! them together as a state machine. Arithmetic on the numbers themselves,
//! random draws and the objective are the caller's: the engine asks for
//! them one at a time and is handed the outcome.

pub mod apf;
pub mod error;
pub mod guarantees;
pub mod neighbour;
pub mod sa;
pub mod scalar;
pub mod schedule;
pub mod space;
pub mod status;
pub mod utils;

pub use apf::{Chance, Verdict, APF};
pub use error::Error;
pub use neighbour::{spread_ok, Draw, Method as NeighbourMethod, Proposal};
pub use sa::{Action, Event, Phase, Search, SA};
pub use scalar::Scalar;
pub use schedule::{Cooling, Schedule};
pub use space::{within, Bounds, Interval, Point};
pub use status::{Record, Status};
pub use utils::cast;
