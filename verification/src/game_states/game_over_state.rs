//! The two screens shown when a run is over.

use vstd::prelude::*;
use crate::settings::Key;
use crate::state_machine::{ButtonHits, MouseButton, Transition, TransitionView};

verus! {

/// What a key press asks for after a run: Return starts a run of the same
/// kind again, which `retry` stands for; Escape leaves for the menu; other
/// keys do nothing.
pub open spec fn game_over_key(key: Key, retry: TransitionView) -> TransitionView {
    if key == Key::Return {
        retry
    } else if key == Key::Escape {
        TransitionView::Menu
    } else {
        TransitionView::Stay
    }
}

/// What the release of a mouse button asks for after a run. The screen
/// lists the score, the button to the menu and the button to try again; the
/// score is no button. With the left button, the first of the two buttons
/// that the cursor is over is taken; anything else does nothing.
pub open spec fn game_over_click(button: MouseButton, hits: ButtonHits, retry: TransitionView) -> TransitionView {
    if button != MouseButton::Left {
        TransitionView::Stay
    } else if hits.second {
        TransitionView::Menu
    } else if hits.third {
        retry
    } else {
        TransitionView::Stay
    }
}

/// The end of a normal-mode run.
#[derive(Clone, Copy, Debug, PartialEq, Eq, Structural)]
pub struct GameOverState {
    pub score: usize,
}

impl GameOverState {
    /// The end of a run that cleared `score` spells.
    pub fn new(score: usize) -> (state: GameOverState)
        ensures
            state.score == score,
    {
        GameOverState { score }
    }

    /// One tick, which does nothing here.
    pub fn update(&self) -> (transition: Transition)
        ensures
            transition@ == TransitionView::Stay,
    {
        Transition::Stay
    }

    /// Handles one key press.
    pub fn key_down_event(&self, key: Key) -> (transition: Transition)
        ensures
            transition@ == game_over_key(key, TransitionView::Game),
    {
        if key == Key::Return {
            Transition::Game
        } else if key == Key::Escape {
            Transition::Menu
        } else {
            Transition::Stay
        }
    }

    /// Handles the release of a mouse button.
    pub fn mouse_button_up_event(&self, button: MouseButton, hits: ButtonHits) -> (transition:
        Transition)
        ensures
            transition@ == game_over_click(button, hits, TransitionView::Game),
    {
        if button == MouseButton::Left {
            if hits.second {
                return Transition::Menu;
            }
            if hits.third {
                return Transition::Game;
            }
        }
        Transition::Stay
    }
}

/// The end of a hard-mode run, with what was said of the commit that ended
/// it, if anything was.
#[derive(Clone, Debug, PartialEq, Eq)]
pub struct GameOverProState {
    pub score: usize,
    pub info: Option<String>,
}

impl GameOverProState {
    /// The end of a run that cleared `score` spells.
    pub fn new(score: usize, info: Option<String>) -> (state: GameOverProState)
        ensures
            state.score == score,
            state.info == info,
    {
        GameOverProState { score, info }
    }

    /// One tick, which does nothing here.
    pub fn update(&self) -> (transition: Transition)
        ensures
            transition@ == TransitionView::Stay,
    {
        Transition::Stay
    }

    /// Handles one key press.
    pub fn key_down_event(&self, key: Key) -> (transition: Transition)
        ensures
            transition@ == game_over_key(key, TransitionView::ProMode),
    {
        if key == Key::Return {
            Transition::ProMode
        } else if key == Key::Escape {
            Transition::Menu
        } else {
            Transition::Stay
        }
    }

    /// Handles the release of a mouse button.
    pub fn mouse_button_up_event(&self, button: MouseButton, hits: ButtonHits) -> (transition:
        Transition)
        ensures
            transition@ == game_over_click(button, hits, TransitionView::ProMode),
    {
        if button == MouseButton::Left {
            if hits.second {
                return Transition::Menu;
            }
            if hits.third {
                return Transition::ProMode;
            }
        }
        Transition::Stay
    }
}

} // verus!
