//! A Connect Four engine: a bit-packed board with constant-time win
//! detection, a generic two-player game abstraction, and interchangeable
//! move-suggesting strategies.

pub mod bitboard;
pub mod connect_four;
pub mod game;
pub mod player;
pub mod random;

pub use bitboard::Bitboard;
pub use connect_four::{Column, ConnectFour, Field};
pub use game::{Game, GameState};
pub use player::Player;
pub use random::Random;
