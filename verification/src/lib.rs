//! Core rules of a settlement-building game: resources, settlements, the
//! life of a game and the lazy, time-based advancement of its state.
pub mod dto;
pub mod error;
pub mod game;
pub mod rows;
pub mod text;
