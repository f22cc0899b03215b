//! The rules of chess for one match between two players: the board, what each
//! piece is offered on it, and the sequence of selections and moves.
//!
//! - `square`: the 64 squares and the off-board value.
//! - `pieces`: the two sides, the six kinds of piece, and why a square is
//!   offered to a piece.
//! - `moves`: the squares that pieces bear on, rays and attacks.
//! - `board`: the squares with their pieces, marks and castling rights.
//! - `game`: whose turn it is, selecting and moving, check, mate, stalemate
//!   and promotion.
//! - `laws`: what holds of all of this, proved.

pub mod board;
pub mod game;
pub mod laws;
pub mod moves;
pub mod pieces;
pub mod square;
