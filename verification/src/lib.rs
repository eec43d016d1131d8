//! Gameplay core of a combo-typing arcade game: symbol buffers, combo
//! matching, keystroke distance, spawn scheduling and the mode machine.

pub mod combo;
pub mod distance;
pub mod game_states;
pub mod input_buffer;
pub mod orbs;
pub mod scheduler;
pub mod settings;
pub mod spells;
pub mod state_machine;
