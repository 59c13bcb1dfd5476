//! Steppable grid simulations: a sparse cellular automaton and a
//! turn-and-flip walker automaton, each behind the same
//! clear / initialise / step surface, with one switchboard that decides
//! which of the hosted simulations is active.
//!
//! Every engine is a plain value: the host hands in the readings of its
//! monotonic clock (in milliseconds) and its viewport, and reads back
//! the cells to draw.

pub mod cell;
pub mod langtons_ant;
pub mod life;
pub mod listing;
pub mod pacing;
pub mod region;
pub mod rules;
pub mod state;

pub use cell::Cell;
pub use langtons_ant::Ant;
pub use langtons_ant::AntAutomata;
pub use langtons_ant::Direction;
pub use life::Life;
pub use pacing::Stopwatch;
pub use region::Region;
pub use state::Keys;
pub use state::Requests;
pub use state::Selection;
pub use state::State;
pub use state::SystemId;
