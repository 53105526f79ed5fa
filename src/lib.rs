//! Hidden-board battleship: the board-validity predicate that a player proves
//! about a committed board, the per-tile commit/open protocol that keeps every
//! reported attack outcome honest, and the game built on the two.
//!
//! - `commitment`: per-cell Blake2s commitments and blinding values.
//! - `circuit`: the four checks of the board-validity statement.
//! - `session`: the ordered public inputs a validity proof is checked against.
//! - `moves`: the opening check run on each attacked tile.
//! - `game`: placement, the start of play, turns and the win check.
pub mod circuit;
pub mod commitment;
pub mod game;
pub mod moves;
pub mod session;
