pub mod game_base;
pub mod math;
