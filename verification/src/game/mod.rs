pub mod game;
pub mod game_state;
pub mod rules;
