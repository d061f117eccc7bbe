//! A verified chess rules engine: board position, legal-move validation
//! (castling, en passant, promotion), terminal-condition detection
//! (checkmate, stalemate, draws) and a reversible game history.

pub mod board;
pub mod game;
pub mod laws;
pub mod moves;
pub mod pieces;
pub mod square;
