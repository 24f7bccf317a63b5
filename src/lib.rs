//! A falling-block puzzle engine: the playfield, the falling piece, the gravity
//! tick, row clearing and scoring, and the Start / Playing / End session.

pub mod board;
pub mod end;
pub mod game;
pub mod keys;
pub mod pieces;
pub mod playing;
mod random;
pub mod start;
