//! The mode machine: one mode is active at a time, every event is handled
//! by the active mode, and the transition it answers with is applied at once.

use vstd::prelude::*;
use crate::game_states::game_over_state::{
    game_over_click, game_over_key, GameOverProState, GameOverState,
};
use crate::game_states::menu_state::{menu_click, menu_key, MenuState};
use crate::game_states::play_state::{lemma_key, lemma_tick, MainState, PlayView};
use crate::game_states::pro_mode_state::{lemma_pro_key, lemma_pro_tick, ProMode, ProView};
use crate::game_states::settings_state::SettingsState;
use crate::settings::{Key, Settings};
use crate::spells::{Position, Spell, SpellType};

verus! {

/// What the handling of one event asks the machine to do next.
#[derive(Clone, Debug, PartialEq, Eq)]
pub enum Transition {
    /// Stay in the current mode, as the handler left it.
    Stay,
    Menu,
    Game,
    ProMode,
    GameOver { score: usize },
    GameOverPro { score: usize, info: Option<String> },
    Quit,
}

/// A transition as contracts speak of it: the text it carries is taken as
/// its sequence of characters.
pub enum TransitionView {
    Stay,
    Menu,
    Game,
    ProMode,
    GameOver { score: usize },
    GameOverPro { score: usize, info: Option<Seq<char>> },
    Quit,
}

impl View for Transition {
    type V = TransitionView;

    open spec fn view(&self) -> TransitionView {
        match *self {
            Transition::Stay => TransitionView::Stay,
            Transition::Menu => TransitionView::Menu,
            Transition::Game => TransitionView::Game,
            Transition::ProMode => TransitionView::ProMode,
            Transition::GameOver { score } => TransitionView::GameOver { score },
            Transition::GameOverPro { score, info } => TransitionView::GameOverPro {
                score,
                info: match info {
                    Some(text) => Some(text@),
                    None => None,
                },
            },
            Transition::Quit => TransitionView::Quit,
        }
    }
}

/// The button of the mouse that was released.
#[derive(Clone, Copy, Debug, PartialEq, Eq, Structural)]
pub enum MouseButton {
    Left,
    Right,
    Middle,
    Other,
}

/// Over which of the active screen's buttons the cursor was when the mouse
/// button was released, the buttons taken in the order the screen lists them.
#[derive(Clone, Copy, Debug, PartialEq, Eq, Structural)]
pub struct ButtonHits {
    pub first: bool,
    pub second: bool,
    pub third: bool,
}


/// The active mode, with the state it owns.
#[derive(Debug)]
pub enum GameMode {
    Menu(MenuState),
    Play(MainState),
    ProMode(ProMode),
    GameOver(GameOverState),
    GameOverPro(GameOverProState),
    Settings(SettingsState),
}

/// The active mode as contracts speak of it.
pub enum ModeView {
    Menu,
    Play(PlayView),
    ProMode(ProView),
    GameOver { score: usize },
    GameOverPro { score: usize, info: Option<Seq<char>> },
    Settings,
}

/// What the machine is handed: a tick, with the time since the last one and
/// the spell that is drawn if a spawn is due; a key press; the release of a
/// mouse button.
pub enum Event {
    Tick { delta: u64, fresh: Spell },
    Key(Key),
    Click { button: MouseButton, hits: ButtonHits },
}

impl View for GameMode {
    type V = ModeView;

    open spec fn view(&self) -> ModeView {
        match *self {
            GameMode::Menu(_) => ModeView::Menu,
            GameMode::Play(state) => ModeView::Play(state@),
            GameMode::ProMode(state) => ModeView::ProMode(state@),
            GameMode::GameOver(state) => ModeView::GameOver { score: state.score },
            GameMode::GameOverPro(state) => ModeView::GameOverPro {
                score: state.score,
                info: match state.info {
                    Some(text) => Some(text@),
                    None => None,
                },
            },
            GameMode::Settings(_) => ModeView::Settings,
        }
    }
}

impl ModeView {
    /// What holds of the active mode between two events: a run is well
    /// formed and not over.
    pub open spec fn wf(self) -> bool {
        match self {
            ModeView::Play(run) => run.wf() && !run.game_over,
            ModeView::ProMode(run) => run.wf() && !run.game_over,
            _ => true,
        }
    }

    /// A run is played with the given settings.
    pub open spec fn plays_with(self, settings: Settings) -> bool {
        match self {
            ModeView::Play(run) => run.settings == settings,
            ModeView::ProMode(run) => run.settings == settings,
            _ => true,
        }
    }

    /// `fresh` can enter the field on a run's next tick. The other modes
    /// have no field, and accept any.
    pub open spec fn accepts(self, fresh: Spell) -> bool {
        match self {
            ModeView::Play(run) => fresh.enters_at(run.next_speed()),
            ModeView::ProMode(run) => fresh.enters_at(run.next_speed()),
            _ => true,
        }
    }

    /// `fresh` is a spell as a run draws it on its next tick. The other
    /// modes draw none, and admit any.
    pub open spec fn admits(self, fresh: Spell) -> bool {
        match self {
            ModeView::Play(run) => fresh.is_fresh(run.next_speed(), run.settings),
            ModeView::ProMode(run) => fresh.is_fresh(run.next_speed(), run.settings),
            _ => true,
        }
    }

    /// A tick that adds `delta` to the time keeps a run within the range of
    /// the machine's integers.
    pub open spec fn can_tick(self, delta: u64) -> bool {
        match self {
            ModeView::Play(run) => run.can_tick(delta),
            ModeView::ProMode(run) => run.can_tick(delta),
            _ => true,
        }
    }

    /// A press of `key` keeps a run within the range of the machine's
    /// integers.
    pub open spec fn can_key(self, key: Key) -> bool {
        match self {
            ModeView::Play(run) => run.can_key(key),
            ModeView::ProMode(run) => run.can_key(key),
            _ => true,
        }
    }

    /// The event keeps a run within the range of the machine's integers.
    pub open spec fn can_handle(self, event: Event) -> bool {
        match event {
            Event::Tick { delta, .. } => self.can_tick(delta),
            Event::Key(key) => self.can_key(key),
            Event::Click { .. } => true,
        }
    }

    /// The counters of a run can all be raised once more, which is all
    /// that an event can ask.
    pub open spec fn has_headroom(self) -> bool {
        match self {
            ModeView::Play(run) => run.can_spawn() && run.can_score(),
            ModeView::ProMode(run) => run.can_spawn() && run.can_score() && run.can_count(),
            _ => true,
        }
    }

    /// The speed that a spell drawn on the next tick is given.
    pub open spec fn spawn_speed(self) -> u64 {
        match self {
            ModeView::Play(run) => run.next_speed(),
            ModeView::ProMode(run) => run.next_speed(),
            _ => 0,
        }
    }

    /// The mode's handling of one event: the mode as the handler leaves it,
    /// and the transition that the handler answers with.
    pub open spec fn handled(self, event: Event) -> (ModeView, TransitionView) {
        match self {
            ModeView::Menu => (
                self,
                match event {
                    Event::Tick { .. } => TransitionView::Stay,
                    Event::Key(key) => menu_key(key),
                    Event::Click { button, hits } => menu_click(button, hits),
                },
            ),
            ModeView::Play(run) => match event {
                Event::Tick { delta, fresh } => (
                    ModeView::Play(run.ticked(delta, fresh).0),
                    run.ticked(delta, fresh).1,
                ),
                Event::Key(key) => (ModeView::Play(run.keyed(key).0), run.keyed(key).1),
                Event::Click { .. } => (self, TransitionView::Stay),
            },
            ModeView::ProMode(run) => match event {
                Event::Tick { delta, fresh } => (
                    ModeView::ProMode(run.ticked(delta, fresh).0),
                    run.ticked(delta, fresh).1,
                ),
                Event::Key(key) => (ModeView::ProMode(run.keyed(key).0), run.keyed(key).1),
                Event::Click { .. } => (self, TransitionView::Stay),
            },
            ModeView::GameOver { .. } => (
                self,
                match event {
                    Event::Tick { .. } => TransitionView::Stay,
                    Event::Key(key) => game_over_key(key, TransitionView::Game),
                    Event::Click { button, hits } => game_over_click(
                        button,
                        hits,
                        TransitionView::Game,
                    ),
                },
            ),
            ModeView::GameOverPro { .. } => (
                self,
                match event {
                    Event::Tick { .. } => TransitionView::Stay,
                    Event::Key(key) => game_over_key(key, TransitionView::ProMode),
                    Event::Click { button, hits } => game_over_click(
                        button,
                        hits,
                        TransitionView::ProMode,
                    ),
                },
            ),
            ModeView::Settings => (self, TransitionView::Stay),
        }
    }

    /// `self` is the active mode after `transition` was applied to the
    /// mode `handled`. On `Stay` and on `Quit` the mode stays exactly as the
    /// handler left it. Every other transition replaces it: by the menu, by
    /// a run at its start, or by the screen that ends a run, with the score
    /// and the text that the transition carries.
    pub open spec fn follows(self, handled: ModeView, transition: TransitionView, settings: Settings) -> bool {
        match transition {
            TransitionView::Stay => self == handled,
            TransitionView::Quit => self == handled,
            TransitionView::Menu => self == ModeView::Menu,
            TransitionView::Game => self == ModeView::Play(PlayView::initial(settings)),
            TransitionView::ProMode => self matches ModeView::ProMode(run) && run.starts(settings),
            TransitionView::GameOver { score } => self == (ModeView::GameOver { score }),
            TransitionView::GameOverPro { score, info } => self == (ModeView::GameOverPro {
                score,
                info,
            }),
        }
    }

    /// The key means something to the mode: the keys of the menu and of
    /// the screens that end a run, and in a run Escape and the bound keys.
    pub open spec fn recognizes(self, key: Key) -> bool {
        match self {
            ModeView::Menu => menu_key(key) != TransitionView::Stay,
            ModeView::Play(run) => key == Key::Escape || run.settings.orb_for(key) is Some,
            ModeView::ProMode(run) => key == Key::Escape || run.settings.orb_for(key) is Some,
            ModeView::GameOver { .. } => key == Key::Return || key == Key::Escape,
            ModeView::GameOverPro { .. } => key == Key::Return || key == Key::Escape,
            ModeView::Settings => false,
        }
    }
}

impl GameMode {
    /// What holds of the active mode between two events.
    pub open spec fn wf(&self) -> bool {
        &&& self@.wf()
        &&& match *self {
            GameMode::Play(state) => state.wf(),
            GameMode::ProMode(state) => state.wf(),
            _ => true,
        }
    }

    /// Whether the counters of a run can all be raised once more, which is
    /// all that the handling of an event can ask.
    pub fn has_headroom(&self) -> (room: bool)
        ensures
            room == self@.has_headroom(),
    {
        match self {
            GameMode::Play(state) => state.has_headroom(),
            GameMode::ProMode(state) => state.has_headroom(),
            _ => true,
        }
    }

    /// One tick with the spell that is drawn given: `delta` is the time
    /// since the last tick, in nanoseconds.
    pub fn tick(&mut self, delta: u64, spell_type: SpellType, column: u32) -> (transition: Transition)
        requires
            old(self).wf(),
            old(self)@.can_tick(delta),
        ensures
            (final(self)@, transition@) == old(self)@.handled(
                Event::Tick {
                    delta,
                    fresh: Spell::spec_of_kind(
                        spell_type,
                        Position::spec_at_column(column),
                        old(self)@.spawn_speed(),
                    ),
                },
            ),
            final(self).keeps(*old(self)),
    {
        match self {
            GameMode::Menu(state) => state.update(),
            GameMode::Play(state) => state.tick(delta, spell_type, column),
            GameMode::ProMode(state) => state.tick(delta, spell_type, column),
            GameMode::GameOver(state) => state.update(),
            GameMode::GameOverPro(state) => state.update(),
            GameMode::Settings(state) => state.update(),
        }
    }

    /// One tick: `delta` is the time since the last tick, in nanoseconds.
    /// A run draws a spell at random if a spawn is due.
    pub fn update(&mut self, delta: u64) -> (transition: Transition)
        requires
            old(self).wf(),
            old(self)@.can_tick(delta),
        ensures
            exists|fresh: Spell|
                old(self)@.admits(fresh) && (final(self)@, transition@) == #[trigger] old(
                    self,
                )@.handled(Event::Tick { delta, fresh }),
            final(self).keeps(*old(self)),
    {
        let ghost placeholder = Spell::spec_of_kind(
            SpellType::Alacrity,
            Position::spec_at_column(crate::settings::SPAWN_MARGIN),
            self@.spawn_speed(),
        );
        let ghost before = self@;
        match self {
            GameMode::Menu(state) => {
                let transition = state.update();
                assert((before, transition@) == before.handled(Event::Tick { delta, fresh: placeholder }));
                transition
            },
            GameMode::Play(state) => {
                let ghost run = state@;
                let transition = state.update(delta);
                proof {
                    let fresh = choose|fresh: Spell|
                        fresh.is_fresh(run.next_speed(), run.settings) && (state@, transition@)
                            == #[trigger] run.ticked(delta, fresh);
                    assert((ModeView::Play(state@), transition@) == before.handled(
                        Event::Tick { delta, fresh },
                    ));
                }
                transition
            },
            GameMode::ProMode(state) => {
                let ghost run = state@;
                let transition = state.update(delta);
                proof {
                    let fresh = choose|fresh: Spell|
                        fresh.is_fresh(run.next_speed(), run.settings) && (state@, transition@)
                            == #[trigger] run.ticked(delta, fresh);
                    assert((ModeView::ProMode(state@), transition@) == before.handled(
                        Event::Tick { delta, fresh },
                    ));
                }
                transition
            },
            GameMode::GameOver(state) => {
                let transition = state.update();
                assert((before, transition@) == before.handled(Event::Tick { delta, fresh: placeholder }));
                transition
            },
            GameMode::GameOverPro(state) => {
                let transition = state.update();
                assert((before, transition@) == before.handled(Event::Tick { delta, fresh: placeholder }));
                transition
            },
            GameMode::Settings(state) => {
                let transition = state.update();
                assert((before, transition@) == before.handled(Event::Tick { delta, fresh: placeholder }));
                transition
            },
        }
    }

    /// Handles one key press.
    pub fn key_down_event(&mut self, key: Key) -> (transition: Transition)
        requires
            old(self).wf(),
            old(self)@.can_key(key),
        ensures
            (final(self)@, transition@) == old(self)@.handled(Event::Key(key)),
            final(self).keeps(*old(self)),
    {
        match self {
            GameMode::Menu(state) => state.key_down_event(key),
            GameMode::Play(state) => state.key_down_event(key),
            GameMode::ProMode(state) => state.key_down_event(key),
            GameMode::GameOver(state) => state.key_down_event(key),
            GameMode::GameOverPro(state) => state.key_down_event(key),
            GameMode::Settings(state) => state.key_down_event(key),
        }
    }

    /// Handles the release of a mouse button.
    pub fn mouse_button_up_event(&mut self, button: MouseButton, hits: ButtonHits) -> (transition:
        Transition)
        requires
            old(self).wf(),
        ensures
            (final(self)@, transition@) == old(self)@.handled(Event::Click { button, hits }),
            final(self).keeps(*old(self)),
    {
        match self {
            GameMode::Menu(state) => state.mouse_button_up_event(button, hits),
            GameMode::Play(state) => state.mouse_button_up_event(button, hits),
            GameMode::ProMode(state) => state.mouse_button_up_event(button, hits),
            GameMode::GameOver(state) => state.mouse_button_up_event(button, hits),
            GameMode::GameOverPro(state) => state.mouse_button_up_event(button, hits),
            GameMode::Settings(state) => state.mouse_button_up_event(button, hits),
        }
    }

    /// The handler left a run well formed, whether it is over or not, and
    /// left every other mode as it was.
    pub open spec fn keeps(&self, before: GameMode) -> bool {
        match *self {
            GameMode::Play(state) => state.wf() && before is Play,
            GameMode::ProMode(state) => state.wf() && before is ProMode,
            _ => *self == before,
        }
    }
}


/// The handling of an event by a well-formed mode, and any mode that
/// follows it, are well formed again, and the mode that follows plays with
/// the same settings.
pub proof fn lemma_step_keeps_wf(mode: ModeView, event: Event, after: ModeView, settings: Settings)
    requires
        mode.wf(),
        mode.plays_with(settings),
        mode.can_handle(event),
        settings.has_spawn_room(),
        event matches Event::Tick { fresh, .. } ==> mode.accepts(fresh),
        after.follows(mode.handled(event).0, mode.handled(event).1, settings),
    ensures
        after.wf(),
        after.plays_with(settings),
{
    match mode {
        ModeView::Play(run) => {
            match event {
                Event::Tick { delta, fresh } => {
                    lemma_tick(run, delta, fresh);
                },
                Event::Key(key) => {
                    lemma_key(run, key);
                },
                _ => {},
            }
        },
        ModeView::ProMode(run) => {
            match event {
                Event::Tick { delta, fresh } => {
                    lemma_pro_tick(run, delta, fresh);
                },
                Event::Key(key) => {
                    lemma_pro_key(run, key);
                },
                _ => {},
            }
        },
        _ => {},
    }
}

/// The modes that one event can lead to, and the transitions that lead
/// there. From the menu: a normal run, a hard-mode run, or the end of the
/// process, which only the menu asks for. From a run: the menu, or the
/// screen that ends a run of its kind. From such a screen: a run of the same
/// kind again, or the menu. The settings screen is never left. A mode that
/// answers `Stay` or `Quit` stays as its handler left it.
pub proof fn lemma_edges(mode: ModeView, event: Event, after: ModeView, settings: Settings)
    requires
        after.follows(mode.handled(event).0, mode.handled(event).1, settings),
    ensures
        mode.handled(event).1 is Quit ==> mode is Menu,
        mode is Menu ==> after is Menu || after is Play || after is ProMode,
        mode is Menu && after is Menu ==> mode.handled(event).1 is Stay || mode.handled(event).1 is Quit,
        mode is Play ==> after is Play || after is Menu || after is GameOver,
        mode is ProMode ==> after is ProMode || after is Menu || after is GameOverPro,
        mode is GameOver ==> after == mode || after is Play || after is Menu,
        mode is GameOverPro ==> after == mode || after is ProMode || after is Menu,
        mode is Settings ==> after is Settings,
        mode.handled(event).1 is Stay || mode.handled(event).1 is Quit ==> after == mode.handled(event).0,
{
}

/// A key that means nothing to the active mode changes nothing: the mode
/// stays as it is, and so does the machine.
pub proof fn lemma_unrecognized_key(mode: ModeView, key: Key)
    requires
        mode.wf(),
        !mode.recognizes(key),
    ensures
        mode.handled(Event::Key(key)) == (mode, TransitionView::Stay),
{
}

/// The machine: the active mode, and the settings that every run is
/// played with.
#[derive(Debug)]
pub struct StateMachine {
    current_state: GameMode,
    settings: Settings,
}

impl StateMachine {
    /// The active mode.
    pub closed spec fn spec_current_state(&self) -> GameMode {
        self.current_state
    }

    /// The settings that every run is played with.
    pub closed spec fn spec_settings(&self) -> Settings {
        self.settings
    }

    /// The active mode, as contracts speak of it.
    pub open spec fn mode(&self) -> ModeView {
        self.spec_current_state()@
    }

    /// What holds of the machine between two events: the field is wide
    /// enough to spawn on, and a run is well formed, not over, and played
    /// with the machine's settings.
    pub open spec fn wf(&self) -> bool {
        &&& self.spec_settings().has_spawn_room()
        &&& self.spec_current_state().wf()
        &&& self.mode().plays_with(self.spec_settings())
    }

    /// A machine in the mode `initial_state`.
    pub fn new(initial_state: GameMode, settings: Settings) -> (machine: StateMachine)
        ensures
            machine.spec_current_state() == initial_state,
            machine.spec_settings() == settings,
            machine.wf() <==> settings.has_spawn_room() && initial_state.wf()
                && initial_state@.plays_with(settings),
    {
        StateMachine { current_state: initial_state, settings }
    }

    /// The active mode.
    pub fn current_state(&self) -> (mode: &GameMode)
        ensures
            *mode == self.spec_current_state(),
    {
        &self.current_state
    }

    /// The settings that every run is played with.
    #[verifier::when_used_as_spec(spec_settings)]
    pub fn settings(&self) -> (settings: Settings)
        ensures
            settings == self.spec_settings(),
    {
        self.settings
    }

    /// Whether the counters of a run can all be raised once more, which is
    /// all that the handling of an event can ask.
    pub fn has_headroom(&self) -> (room: bool)
        ensures
            room == self.mode().has_headroom(),
    {
        self.current_state.has_headroom()
    }

    /// Replaces the active mode.
    fn switch_state(&mut self, new_state: GameMode)
        ensures
            final(self).spec_current_state() == new_state,
            final(self).spec_settings() == old(self).spec_settings(),
    {
        self.current_state = new_state;
    }

    /// Applies a transition. `Stay` and `Quit` leave the active mode
    /// exactly as it is. Every other transition replaces it by the mode it
    /// names, made anew: the menu, a run at its start, or the screen that
    /// ends a run with the score and the text that the transition carries.
    pub fn apply_transition(&mut self, transition: &Transition)
        requires
            old(self).spec_settings().has_spawn_room(),
        ensures
            final(self).mode().follows(old(self).mode(), transition@, old(self).spec_settings()),
            final(self).spec_settings() == old(self).spec_settings(),
            transition@ is Stay || transition@ is Quit ==> final(self).spec_current_state() == old(
                self,
            ).spec_current_state(),
            !(transition@ is Stay || transition@ is Quit) ==> final(self).wf(),
    {
        match transition {
            Transition::Stay => {},
            Transition::Menu => {
                self.switch_state(GameMode::Menu(MenuState::new()));
            },
            Transition::Game => {
                self.switch_state(GameMode::Play(MainState::new(self.settings)));
            },
            Transition::ProMode => {
                self.switch_state(GameMode::ProMode(ProMode::new(self.settings)));
            },
            Transition::GameOver { score } => {
                self.switch_state(GameMode::GameOver(GameOverState::new(*score)));
            },
            Transition::GameOverPro { score, info } => {
                let text = match info {
                    Some(text) => Some(text.clone()),
                    None => None,
                };
                self.switch_state(GameMode::GameOverPro(GameOverProState::new(*score, text)));
            },
            Transition::Quit => {},
        }
    }

    /// One tick with the spell that is drawn given: the active mode handles
    /// the tick, and the transition it answers with is applied and returned.
    /// `delta` is the time since the last tick, in nanoseconds; if a run
    /// is due to spawn, a spell of kind `spell_type` is drawn at the top of
    /// the pixel column `column`. A run that is entered draws its own spells.
    pub fn tick(&mut self, delta: u64, spell_type: SpellType, column: u32) -> (transition: Transition)
        requires
            old(self).wf(),
            old(self).mode().can_tick(delta),
        ensures
            final(self).steps(
                *old(self),
                Event::Tick {
                    delta,
                    fresh: Spell::spec_of_kind(
                        spell_type,
                        Position::spec_at_column(column),
                        old(self).mode().spawn_speed(),
                    ),
                },
                transition@,
            ),
            final(self).wf(),
    {
        let ghost event = Event::Tick {
            delta,
            fresh: Spell::spec_of_kind(
                spell_type,
                Position::spec_at_column(column),
                self.mode().spawn_speed(),
            ),
        };
        let transition = self.current_state.tick(delta, spell_type, column);
        self.apply_transition(&transition);
        proof {
            lemma_step_keeps_wf(old(self).mode(), event, self.mode(), self.settings);
        }
        transition
    }

    /// One tick: the active mode handles it, and the transition it answers
    /// with is applied and returned. `delta` is the time since the last
    /// tick, in nanoseconds. A run draws a spell at random if a spawn is due.
    pub fn update(&mut self, delta: u64) -> (transition: Transition)
        requires
            old(self).wf(),
            old(self).mode().can_tick(delta),
        ensures
            exists|fresh: Spell|
                old(self).mode().admits(fresh) && #[trigger] final(self).steps(
                    *old(self),
                    Event::Tick { delta, fresh },
                    transition@,
                ),
            final(self).wf(),
    {
        let transition = self.current_state.update(delta);
        let ghost handled = self.mode();
        self.apply_transition(&transition);
        proof {
            let fresh = choose|fresh: Spell|
                old(self).mode().admits(fresh) && (handled, transition@) == #[trigger] old(
                    self,
                ).mode().handled(Event::Tick { delta, fresh });
            let event = Event::Tick { delta, fresh };
            lemma_step_keeps_wf(old(self).mode(), event, self.mode(), self.settings);
            assert(self.steps(*old(self), event, transition@));
        }
        transition
    }

    /// One key press: the active mode handles it, and the transition it
    /// answers with is applied and returned.
    pub fn key_down_event(&mut self, key: Key) -> (transition: Transition)
        requires
            old(self).wf(),
            old(self).mode().can_key(key),
        ensures
            final(self).steps(*old(self), Event::Key(key), transition@),
            final(self).wf(),
    {
        let transition = self.current_state.key_down_event(key);
        self.apply_transition(&transition);
        proof {
            lemma_step_keeps_wf(old(self).mode(), Event::Key(key), self.mode(), self.settings);
        }
        transition
    }

    /// The release of a mouse button: the active mode handles it, and the
    /// transition it answers with is applied and returned.
    pub fn mouse_button_up_event(&mut self, button: MouseButton, hits: ButtonHits) -> (transition:
        Transition)
        requires
            old(self).wf(),
        ensures
            final(self).steps(*old(self), Event::Click { button, hits }, transition@),
            final(self).wf(),
    {
        let transition = self.current_state.mouse_button_up_event(button, hits);
        self.apply_transition(&transition);
        transition
    }

    /// `self` is the machine `before` after one event: `transition` is what
    /// the mode that was active answered, the active mode is the one that
    /// follows, and the settings are the same.
    pub open spec fn steps(&self, before: StateMachine, event: Event, transition: TransitionView) -> bool {
        &&& transition == before.mode().handled(event).1
        &&& self.mode().follows(before.mode().handled(event).0, transition, before.spec_settings())
        &&& self.spec_settings() == before.spec_settings()
    }
}

} // verus!
