//! Rules engine of a turn-based, hidden-movement strategy game played on a graph.
//!
//! The board is an undirected graph of locations, the roster a list of players,
//! and every action computes, per player, exactly the observation that player is
//! entitled to, appending it to the ledger of the current cycle.


pub mod intel;
pub mod board;
pub mod ledger;
pub mod game;
pub mod effects;
pub mod laws;

pub use intel::{GameError, GameResult, Intel, IntelKind, LocationId, Player, PlayerId};
pub use board::{Board, Location};
pub use ledger::{Event, Observation, PrivateQueues};
pub use game::{Action, Game};
