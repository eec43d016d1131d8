//! The modes of the game, each with the state it owns.

pub mod game_over_state;
pub mod menu_state;
pub mod play_state;
pub mod pro_mode_state;
pub mod settings_state;
