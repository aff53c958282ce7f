//! Repeated combat rounds between two players, decided by d20-style rolls.
//!
//! Each round both players roll one die. The first player then attacks the
//! second, and the second attacks the first, both exchanges reusing the same
//! pair of rolls. Every exchange is recorded as `1` when the first player
//! wins it and `-1` when the second player wins it.

pub mod combat;
pub mod die;
pub mod player;
pub mod state;
pub mod stats;

pub use combat::{calculate, replay, resolve_round, simulate};
pub use die::{roll, DieError};
pub use player::{Combatant, Player};
pub use state::{App, RunError};
pub use stats::{tally, Tally, Verdict};
