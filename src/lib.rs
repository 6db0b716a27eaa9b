pub mod board;
pub mod ia;
pub mod game;
