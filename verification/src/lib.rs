//! A verified engine for the 3-by-3 grid game of crosses and noughts.
//!
//! The engine classifies a position as won, lost, drawn or unfinished from
//! either player's perspective (`evaluate`), exhaustively enumerates every
//! terminal position reachable from an unfinished one under alternating
//! turns (`enumerate`), and picks the agent's move by ranking the candidate
//! squares on their exact outcome counts (`select`). Each executable
//! function carries a contract that pins its result to a mathematical model
//! of the game, and the laws the engine obeys — exact leaf counting, bounds
//! on every tally, perspective-free terminality, when a move is owed — are
//! stated and proved beside the functions they speak of.
//!
//! Reading a move, drawing the grid and driving the turns are left to the
//! surrounding program; the engine itself neither reads nor writes anything.

pub mod board;
pub mod tally;
pub mod evaluate;
pub mod enumerate;
pub mod select;
