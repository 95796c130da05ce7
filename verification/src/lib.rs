//! A verified move generator and perft engine for the board game Quoridor.
//!
//! The crate models the two coordinate spaces of the game — the 81-cell
//! pawn grid and the 64-cell wall-crossing grid — as index types with
//! bitset occupancy sets over each, a `Board` state with a legal-move
//! generator, and a recursive move counter (`perft`) with a memoized
//! variant. Every executable function carries a contract relating it to
//! a mathematical model of the game rules.

pub mod types;
pub mod squareset;
pub mod squareset9x9;
pub mod board;
pub mod perft;
