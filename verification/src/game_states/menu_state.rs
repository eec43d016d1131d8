//! The menu: the mode the game starts in.

use vstd::prelude::*;
use crate::settings::Key;
use crate::state_machine::{ButtonHits, MouseButton, Transition, TransitionView};

verus! {

/// The letter of the key that starts a hard-mode run from the menu.
pub const PRO_MODE_LETTER: char = 'P';

/// What a key press in the menu asks for: Return starts a normal run, `P`
/// a hard-mode run, Escape quits; other keys do nothing.
pub open spec fn menu_key(key: Key) -> TransitionView {
    if key == Key::Return {
        TransitionView::Game
    } else if key == Key::Escape {
        TransitionView::Quit
    } else if key == Key::Letter(PRO_MODE_LETTER) {
        TransitionView::ProMode
    } else {
        TransitionView::Stay
    }
}

/// What the release of a mouse button in the menu asks for. The menu lists
/// the buttons start, hard mode, quit. With the left button, the first of
/// them that the cursor is over is taken; anything else does nothing.
pub open spec fn menu_click(button: MouseButton, hits: ButtonHits) -> TransitionView {
    if button != MouseButton::Left {
        TransitionView::Stay
    } else if hits.first {
        TransitionView::Game
    } else if hits.second {
        TransitionView::ProMode
    } else if hits.third {
        TransitionView::Quit
    } else {
        TransitionView::Stay
    }
}

/// The menu. It owns no state of its own.
#[derive(Clone, Copy, Debug, PartialEq, Eq, Structural)]
pub struct MenuState {}

impl MenuState {
    /// The menu.
    pub fn new() -> (state: MenuState) {
        MenuState {  }
    }

    /// One tick, which does nothing in the menu.
    pub fn update(&self) -> (transition: Transition)
        ensures
            transition@ == TransitionView::Stay,
    {
        Transition::Stay
    }

    /// Handles one key press.
    pub fn key_down_event(&self, key: Key) -> (transition: Transition)
        ensures
            transition@ == menu_key(key),
    {
        if key == Key::Return {
            Transition::Game
        } else if key == Key::Escape {
            Transition::Quit
        } else if key == Key::Letter(PRO_MODE_LETTER) {
            Transition::ProMode
        } else {
            Transition::Stay
        }
    }

    /// Handles the release of a mouse button.
    pub fn mouse_button_up_event(&self, button: MouseButton, hits: ButtonHits) -> (transition:
        Transition)
        ensures
            transition@ == menu_click(button, hits),
    {
        if button == MouseButton::Left {
            if hits.first {
                return Transition::Game;
            }
            if hits.second {
                return Transition::ProMode;
            }
            if hits.third {
                return Transition::Quit;
            }
        }
        Transition::Stay
    }
}

} // verus!
