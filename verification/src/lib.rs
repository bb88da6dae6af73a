//! A turn-based chess engine with timed "gates": hazards that overlay squares
//! for a limited number of turns and block pawn advances.
//!
//! Every function is verified against a contract stated over a mathematical
//! model of the board ([`board::Grid`]) and of the rules ([`game::rules`]).
//!
//! - [`pieces`] and [`board`] hold the data model and the starting position.
//! - [`game`] holds the move generator, the check detector, the legality
//!   filter, the game itself and the registry of piece handles.
//! - [`gates`] places gates, counts them down and animates them.
//! - [`parser`] reads moves in coordinate notation.
//! - [`frontend`] holds what a presentation layer decides between reading
//!   input and drawing: selection, move record, frame counters.

pub mod board;
pub mod config;
pub mod frontend;
pub mod game;
pub mod gates;
pub mod parser;
pub mod pieces;
