//! The settings screen, which shows the bindings and takes no input.

use vstd::prelude::*;
use crate::settings::Key;
use crate::state_machine::{ButtonHits, MouseButton, Transition, TransitionView};

verus! {

/// The settings screen. It owns no state of its own.
#[derive(Clone, Copy, Debug, PartialEq, Eq, Structural)]
pub struct SettingsState {}

impl SettingsState {
    /// The settings screen.
    pub fn new() -> (state: SettingsState) {
        SettingsState {  }
    }

    /// One tick, which does nothing here.
    pub fn update(&self) -> (transition: Transition)
        ensures
            transition@ == TransitionView::Stay,
    {
        Transition::Stay
    }

    /// Handles one key press, which does nothing here.
    pub fn key_down_event(&self, key: Key) -> (transition: Transition)
        ensures
            transition@ == TransitionView::Stay,
    {
        Transition::Stay
    }

    /// Handles the release of a mouse button, which does nothing here.
    pub fn mouse_button_up_event(&self, button: MouseButton, hits: ButtonHits) -> (transition:
        Transition)
        ensures
            transition@ == TransitionView::Stay,
    {
        Transition::Stay
    }
}

} // verus!
