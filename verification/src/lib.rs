pub mod aimbot;
pub mod control;
pub mod game;
pub mod hacks;
pub mod instance;
pub mod memory;
pub mod patch;
pub mod player;
pub mod text;
pub mod utils;
