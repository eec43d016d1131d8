//! Hard mode: one spell is on the field at a time, all spells fall at the
//! mode's speed, and a commit must come after exactly the number of key
//! presses that the mode asked for.

use vstd::prelude::*;
use vstd::string::*;
use crate::combo::{canonical, lemma_canonical_is_sorted_permutation, ComboKey};
use crate::distance::{min_keystrokes, min_presses};
use crate::input_buffer::{slide, CastPhase, InputBuffer, MatchOutcome, CAPACITY};
use crate::orbs::{all_symbols, parse_symbols, symbols_of, OrbType, Symbol};
use crate::scheduler::{
    any_crossing, can_fall, fail_line, fall, fallen, spawn_due, spec_fail_line, spec_spawn_due,
    MAX_SPEED, SECOND,
};
use crate::settings::{Key, Settings};
use crate::spells::{lemma_combo_table, Position, Spell, SpellType};
use crate::state_machine::{ButtonHits, MouseButton, Transition, TransitionView};

verus! {

/// A spawn is due when more than this time has passed since the last one.
pub const PRO_INTERVAL: u64 = 2 * SECOND;

/// By how much each spawn raises the speed, in tenths of a pixel per tick.
pub const PRO_SPEED_STEP: u64 = 3;

/// The speed a run starts with, in tenths of a pixel per tick.
pub const PRO_START_SPEED: u64 = 3;

/// The key presses asked for before the first commit: three symbols and
/// the commit itself.
pub const FIRST_REQUIRED: usize = 4;

/// The decimal digit of a number below ten.
pub open spec fn digit(d: nat) -> char {
    if d == 0 {
        '0'
    } else if d == 1 {
        '1'
    } else if d == 2 {
        '2'
    } else if d == 3 {
        '3'
    } else if d == 4 {
        '4'
    } else if d == 5 {
        '5'
    } else if d == 6 {
        '6'
    } else if d == 7 {
        '7'
    } else if d == 8 {
        '8'
    } else {
        '9'
    }
}

/// A number written in decimal, without sign or leading zeros.
pub open spec fn decimal(n: nat) -> Seq<char>
    decreases n,
{
    if n < 10 {
        seq![digit(n)]
    } else {
        decimal(n / 10).push(digit(n % 10))
    }
}

/// What is said of a commit that came after the wrong number of key presses.
pub open spec fn fault_text(pressed: usize, required: usize) -> Seq<char> {
    "pressed: "@ + decimal(pressed as nat) + "; Required: "@ + decimal(required as nat)
}

/// `ToString::to_string` of std on a `usize`: the number written in
/// decimal, without sign or leading zeros.
#[verifier::external_body]
fn to_decimal(n: usize) -> (text: String)
    ensures
        text@ == decimal(n as nat),
{
    n.to_string()
}

/// What is said of a commit that came after the wrong number of key presses.
pub fn fault_message(pressed: usize, required: usize) -> (text: String)
    ensures
        text@ == fault_text(pressed, required),
{
    let mut text = String::from_str("pressed: ");
    text.append(to_decimal(pressed).as_str());
    text.append("; Required: ");
    text.append(to_decimal(required).as_str());
    text
}

/// The state of a hard-mode run.
pub struct ProView {
    pub game_over: bool,
    /// The spells on the field.
    pub objects: Seq<Spell>,
    /// The spell that enters the field when the one on it is cleared.
    pub next_spell: Spell,
    /// The symbols in the input buffer, oldest first.
    pub buffer: Seq<Symbol>,
    /// Key presses counted since the last accepted commit.
    pub keypress_count: usize,
    pub phase: CastPhase,
    pub score: usize,
    /// The speed at which the spells fall.
    pub speed: u64,
    /// Time since the last spawn.
    pub since_spawn: u64,
    /// The key presses asked for before the next commit, the commit key
    /// press included.
    pub required_key_presses: usize,
    pub settings: Settings,
}

impl ProView {
    /// The state a run starts in, with `first` on the field and `next` to follow.
    pub open spec fn initial(settings: Settings, first: Spell, next: Spell) -> ProView {
        ProView {
            game_over: false,
            objects: seq![first],
            next_spell: next,
            buffer: Seq::empty(),
            keypress_count: 0,
            phase: CastPhase::FirstCast,
            score: 0,
            speed: PRO_START_SPEED,
            since_spawn: 0,
            required_key_presses: FIRST_REQUIRED,
            settings,
        }
    }

    /// The run is at its start: its two spells were just drawn, the first
    /// to fall at the starting speed.
    pub open spec fn starts(self, settings: Settings) -> bool {
        &&& self == ProView::initial(settings, self.objects[0], self.next_spell)
        &&& self.objects[0].is_fresh(PRO_START_SPEED, settings)
        &&& self.next_spell.is_fresh(0, settings)
    }

    /// What holds of every state of a run: a spell is on the field; the
    /// buffer holds at most three symbols; the key presses asked for
    /// include the commit, and so are at least one; the mode is no faster
    /// than allowed; while the run is not over, every spell is on the field.
    pub open spec fn wf(self) -> bool {
        &&& self.buffer.len() <= CAPACITY
        &&& self.keypress_count < usize::MAX
        &&& self.required_key_presses >= 1
        &&& self.speed <= MAX_SPEED
        &&& self.since_spawn <= PRO_INTERVAL
        &&& self.settings.has_spawn_room()
        &&& self.objects.len() >= 1
        &&& self.next_spell.wf()
        &&& self.next_spell.position.y == 0
        &&& forall|i: int|
            0 <= i < self.objects.len() ==> {
                &&& (#[trigger] self.objects[i]).wf()
                &&& self.game_over || self.objects[i].position.y <= spec_fail_line(&self.settings)
            }
    }

    /// The speed can be raised once more.
    pub open spec fn can_spawn(self) -> bool {
        self.speed + PRO_SPEED_STEP <= MAX_SPEED
    }

    /// The score can be raised once more.
    pub open spec fn can_score(self) -> bool {
        self.score < usize::MAX
    }

    /// One more key press can be counted, with room left for the commit
    /// key press that the text of a refused commit adds to the count.
    pub open spec fn can_count(self) -> bool {
        self.keypress_count + 1 < usize::MAX
    }

    /// Whether a spawn is due on a tick that adds `delta` to the time.
    pub open spec fn spawn_due(self, delta: u64) -> bool {
        spec_spawn_due(self.since_spawn, delta, PRO_INTERVAL, self.objects.len())
    }

    /// A tick that adds `delta` to the time stays within the range of the
    /// machine's integers: if a spawn is due, the speed can be raised.
    pub open spec fn can_tick(self, delta: u64) -> bool {
        self.spawn_due(delta) ==> self.can_spawn()
    }

    /// A press of `key` stays within the range of the machine's integers:
    /// if the key is bound to invoke, the score can be raised, and if it is
    /// bound to an orb, one more key press can be counted.
    pub open spec fn can_key(self, key: Key) -> bool {
        match self.settings.orb_for(key) {
            Some(OrbType::Invoke) => self.can_score(),
            Some(_) => self.can_count(),
            None => true,
        }
    }

    /// The speed after the next spawn.
    pub open spec fn next_speed(self) -> u64 {
        (self.speed + PRO_SPEED_STEP) as u64
    }

    /// The first half of a tick. Where a spawn is due, the count of time
    /// starts again, the speed goes up and `fresh` becomes the spell that
    /// enters the field next; else `delta` is added to the time.
    pub open spec fn scheduled(self, delta: u64, fresh: Spell) -> ProView {
        if self.spawn_due(delta) {
            ProView { since_spawn: 0, speed: self.next_speed(), next_spell: fresh, ..self }
        } else {
            ProView { since_spawn: (self.since_spawn + delta) as u64, ..self }
        }
    }

    /// The second half of a tick. A run that is over stays as it is; else
    /// the spells fall at the mode's speed, and the run is over if one of
    /// them crosses the bottom of the field.
    pub open spec fn dropped(self) -> (ProView, TransitionView) {
        let line = spec_fail_line(&self.settings);
        let shared = Some(self.speed);
        if self.game_over {
            (self, TransitionView::GameOverPro { score: self.score, info: None })
        } else if any_crossing(self.objects, shared, line) {
            (
                ProView { objects: fallen(self.objects, shared, line), game_over: true, ..self },
                TransitionView::GameOverPro { score: self.score, info: None },
            )
        } else {
            (ProView { objects: fallen(self.objects, shared, line), ..self }, TransitionView::Stay)
        }
    }

    /// One tick: `delta` is the time since the last tick, `fresh` the spell
    /// that becomes the next one if a spawn is due.
    pub open spec fn ticked(self, delta: u64, fresh: Spell) -> (ProView, TransitionView) {
        self.scheduled(delta, fresh).dropped()
    }

    /// The commit is refused for its count of key presses: it is not the
    /// first of the run, and the presses counted, with the commit key press,
    /// are not the required ones.
    pub open spec fn miscounted(self) -> bool {
        self.phase == CastPhase::Counted && self.keypress_count + 1 != self.required_key_presses
    }

    /// A press of the key bound to invoke. A commit with the wrong count of
    /// key presses ends the run and says both counts. An accepted commit
    /// that is the combo of the spell on the field clears it and scores: the
    /// next spell enters the field, and the key presses asked for are the
    /// keystroke distance from the buffer to the new spell's combo, and one
    /// for the commit. An accepted commit of another combo ends the run.
    pub open spec fn invoked(self) -> (ProView, TransitionView) {
        if self.miscounted() {
            (
                self,
                TransitionView::GameOverPro {
                    score: self.score,
                    info: Some(
                        fault_text((self.keypress_count + 1) as usize, self.required_key_presses),
                    ),
                },
            )
        } else {
            let accepted = ProView { phase: CastPhase::Counted, keypress_count: 0, ..self };
            if canonical(self.buffer) == self.objects[0].cast@ {
                let objects = self.objects.remove(0).push(self.next_spell);
                (
                    ProView {
                        score: (self.score + 1) as usize,
                        objects,
                        required_key_presses: (min_presses(self.buffer, objects[0].cast@) + 1) as usize,
                        ..accepted
                    },
                    TransitionView::Stay,
                )
            } else {
                (
                    ProView { game_over: true, ..accepted },
                    TransitionView::GameOverPro { score: self.score, info: None },
                )
            }
        }
    }

    /// One key press. Escape leaves for the menu. A key bound to an orb
    /// types its symbol and is counted. The key bound to invoke commits the
    /// buffer. Other keys do nothing, and a run that is over only says so.
    pub open spec fn keyed(self, key: Key) -> (ProView, TransitionView) {
        if self.game_over {
            (self, TransitionView::GameOverPro { score: self.score, info: None })
        } else if key == Key::Escape {
            (self, TransitionView::Menu)
        } else {
            match self.settings.orb_for(key) {
                None => (self, TransitionView::Stay),
                Some(orb) => match orb.symbol() {
                    Some(symbol) => (
                        ProView {
                            buffer: slide(self.buffer, symbol),
                            keypress_count: (self.keypress_count + 1) as usize,
                            ..self
                        },
                        TransitionView::Stay,
                    ),
                    None => self.invoked(),
                },
            }
        }
    }
}

/// A hard-mode run.
#[derive(Debug)]
pub struct ProMode {
    game_over: bool,
    objects: Vec<Spell>,
    input_buffer: InputBuffer,
    score: usize,
    speed: u64,
    last_spell_time: u64,
    settings: Settings,
    required_key_presses: usize,
    next_spell: Spell,
}

impl View for ProMode {
    type V = ProView;

    closed spec fn view(&self) -> ProView {
        ProView {
            game_over: self.game_over,
            objects: self.objects@,
            next_spell: self.next_spell,
            buffer: self.input_buffer@,
            keypress_count: self.input_buffer.spec_keypress_count(),
            phase: self.input_buffer.spec_phase(),
            score: self.score,
            speed: self.speed,
            since_spawn: self.last_spell_time,
            required_key_presses: self.required_key_presses,
            settings: self.settings,
        }
    }
}

impl ProMode {
    /// The run is in a state that the functions below keep.
    pub open spec fn wf(&self) -> bool {
        self@.wf()
    }

    /// A run at its start, with the two spells given: a spell of kind
    /// `first_type` on the field at the top of the pixel column
    /// `first_column`, and a spell of kind `next_type` to follow at the top
    /// of the pixel column `next_column`.
    pub fn start(
        settings: Settings,
        first_type: SpellType,
        first_column: u32,
        next_type: SpellType,
        next_column: u32,
    ) -> (state: ProMode)
        requires
            settings.has_spawn_room(),
        ensures
            state@ == ProView::initial(
                settings,
                Spell::spec_of_kind(first_type, Position::spec_at_column(first_column), PRO_START_SPEED),
                Spell::spec_of_kind(next_type, Position::spec_at_column(next_column), 0),
            ),
            state.wf(),
    {
        let next = Spell::of_kind(next_type, Position::at_column(next_column), 0);
        let first = Spell::of_kind(first_type, Position::at_column(first_column), PRO_START_SPEED);
        ProMode::begin(settings, first, next)
    }

    /// A run at its start, with both spells drawn at random.
    pub fn new(settings: Settings) -> (state: ProMode)
        requires
            settings.has_spawn_room(),
        ensures
            state@.starts(settings),
            state.wf(),
    {
        let next = Spell::new(0, &settings);
        let first = Spell::new(PRO_START_SPEED, &settings);
        ProMode::begin(settings, first, next)
    }

    fn begin(settings: Settings, first: Spell, next: Spell) -> (state: ProMode)
        requires
            settings.has_spawn_room(),
            first.wf(),
            first.position.y == 0,
            next.wf(),
            next.position.y == 0,
        ensures
            state@ == ProView::initial(settings, first, next),
            state.wf(),
    {
        let mut objects: Vec<Spell> = Vec::new();
        objects.push(first);
        let state = ProMode {
            game_over: false,
            objects,
            input_buffer: InputBuffer::new(),
            score: 0,
            speed: PRO_START_SPEED,
            last_spell_time: 0,
            settings,
            required_key_presses: FIRST_REQUIRED,
            next_spell: next,
        };
        assert(state@.objects =~= seq![first]);
        state
    }

    /// Whether the run is over.
    pub fn game_over(&self) -> (over: bool)
        ensures
            over == self@.game_over,
    {
        self.game_over
    }

    /// The spells on the field.
    pub fn objects(&self) -> (objects: &Vec<Spell>)
        ensures
            objects@ == self@.objects,
    {
        &self.objects
    }

    /// The spell that enters the field when the one on it is cleared.
    pub fn next_spell(&self) -> (next: Spell)
        ensures
            next == self@.next_spell,
    {
        self.next_spell
    }

    /// The input buffer.
    pub fn input_buffer(&self) -> (buffer: &InputBuffer)
        ensures
            buffer@ == self@.buffer,
            buffer.spec_keypress_count() == self@.keypress_count,
            buffer.spec_phase() == self@.phase,
    {
        &self.input_buffer
    }

    /// The number of spells cleared.
    pub fn score(&self) -> (score: usize)
        ensures
            score == self@.score,
    {
        self.score
    }

    /// The speed at which the spells fall.
    pub fn speed(&self) -> (speed: u64)
        ensures
            speed == self@.speed,
    {
        self.speed
    }

    /// Time since the last spawn.
    pub fn last_spell_time(&self) -> (time: u64)
        ensures
            time == self@.since_spawn,
    {
        self.last_spell_time
    }

    /// The key presses asked for before the next commit, the commit key
    /// press included.
    pub fn required_key_presses(&self) -> (required: usize)
        ensures
            required == self@.required_key_presses,
    {
        self.required_key_presses
    }

    /// Whether the speed, the score and the count of key presses can all be
    /// raised once more, which is all that `update`, `tick` and
    /// `key_down_event` can ask.
    pub fn has_headroom(&self) -> (room: bool)
        ensures
            room == (self@.can_spawn() && self@.can_score() && self@.can_count()),
    {
        self.speed <= MAX_SPEED - PRO_SPEED_STEP && self.score < usize::MAX
            && self.input_buffer.keypress_count() < usize::MAX - 1
    }

    /// Whether a spawn is due on a tick that adds `delta` to the time.
    pub fn spawn_due(&self, delta: u64) -> (due: bool)
        requires
            self.wf(),
        ensures
            due == self@.spawn_due(delta),
    {
        spawn_due(self.last_spell_time, delta, PRO_INTERVAL, self.objects.len())
    }

    /// The first half of a tick, where `fresh` is to be `Some` if a spawn
    /// is due.
    fn schedule(&mut self, delta: u64, fresh: Option<Spell>)
        requires
            old(self).wf(),
            old(self)@.can_tick(delta),
            old(self)@.spawn_due(delta) ==> fresh is Some,
            fresh matches Some(spell) ==> spell.wf() && spell.position.y == 0,
        ensures
            fresh matches Some(spell) ==> final(self)@ == old(self)@.scheduled(delta, spell),
            !old(self)@.spawn_due(delta) ==> forall|spell: Spell|
                final(self)@ == #[trigger] old(self)@.scheduled(delta, spell),
            final(self).wf(),
    {
        if spawn_due(self.last_spell_time, delta, PRO_INTERVAL, self.objects.len()) {
            self.last_spell_time = 0;
            self.speed = self.speed + PRO_SPEED_STEP;
            self.next_spell = fresh.unwrap();
        } else {
            self.last_spell_time = self.last_spell_time + delta;
        }
    }

    /// The second half of a tick.
    fn drop_spells(&mut self) -> (transition: Transition)
        requires
            old(self).wf(),
        ensures
            (final(self)@, transition@) == old(self)@.dropped(),
            final(self).wf(),
    {
        if self.game_over {
            return Transition::GameOverPro { score: self.score, info: None };
        }
        let line = fail_line(&self.settings);
        proof {
            assert(can_fall(self.objects@, Some(self.speed)));
            crate::scheduler::lemma_first_crossing(self.objects@, Some(self.speed), line, 0);
        }
        if fall(&mut self.objects, Some(self.speed), line) {
            self.game_over = true;
            return Transition::GameOverPro { score: self.score, info: None };
        }
        Transition::Stay
    }

    /// One tick with the spell that is drawn given: `delta` is the time
    /// since the last tick, in nanoseconds; if a spawn is due, a spell of
    /// kind `spell_type` at the top of the pixel column `column` becomes the
    /// spell that enters the field next.
    pub fn tick(&mut self, delta: u64, spell_type: SpellType, column: u32) -> (transition: Transition)
        requires
            old(self).wf(),
            old(self)@.can_tick(delta),
        ensures
            (final(self)@, transition@) == old(self)@.ticked(
                delta,
                Spell::spec_of_kind(
                    spell_type,
                    Position::spec_at_column(column),
                    old(self)@.next_speed(),
                ),
            ),
            final(self)@.objects.len() >= 1,
            final(self).wf(),
    {
        let ghost before = self@;
        let ghost given = Spell::spec_of_kind(
            spell_type,
            Position::spec_at_column(column),
            before.next_speed(),
        );
        let fresh = if self.spawn_due(delta) {
            Some(Spell::of_kind(spell_type, Position::at_column(column), self.speed + PRO_SPEED_STEP))
        } else {
            None
        };
        self.schedule(delta, fresh);
        assert(self@ == before.scheduled(delta, given));
        self.drop_spells()
    }

    /// One tick: `delta` is the time since the last tick, in nanoseconds.
    /// If a spawn is due, a spell drawn at random becomes the spell that
    /// enters the field next.
    pub fn update(&mut self, delta: u64) -> (transition: Transition)
        requires
            old(self).wf(),
            old(self)@.can_tick(delta),
        ensures
            exists|fresh: Spell|
                fresh.is_fresh(old(self)@.next_speed(), old(self)@.settings) && (
                final(self)@,
                transition@,
            ) == #[trigger] old(self)@.ticked(delta, fresh),
            final(self)@.objects.len() >= 1,
            final(self).wf(),
    {
        let ghost before = self@;
        if self.spawn_due(delta) {
            let fresh = Spell::new(self.speed + PRO_SPEED_STEP, &self.settings);
            self.schedule(delta, Some(fresh));
            let transition = self.drop_spells();
            assert((self@, transition@) == before.ticked(delta, fresh));
            transition
        } else {
            self.schedule(delta, None);
            let transition = self.drop_spells();
            proof {
                let fresh = Spell::spec_of_kind(
                    SpellType::Alacrity,
                    Position::spec_at_column(crate::settings::SPAWN_MARGIN),
                    before.next_speed(),
                );
                assert(fresh.is_fresh(before.next_speed(), before.settings));
                assert(self@ == before.scheduled(delta, fresh).dropped().0);
                assert((self@, transition@) == before.ticked(delta, fresh));
            }
            transition
        }
    }

    /// The least number of key presses that turn the buffer content `left`
    /// into some ordering of the combo `right`, both given by their letters.
    /// A combo with a letter that names no symbol cannot be typed, and the
    /// answer is 0.
    pub fn buffer_transition_steps(left: &Vec<char>, right: &Vec<char>) -> (steps: usize)
        requires
            left@.len() == CAPACITY,
            all_symbols(left@),
        ensures
            steps == if all_symbols(right@) {
                min_presses(symbols_of(left@), canonical(symbols_of(right@)))
            } else {
                0
            },
    {
        let start = parse_symbols(left).unwrap();
        match parse_symbols(right) {
            Some(target) => {
                let window = [start[0], start[1], start[2]];
                assert(window@ =~= symbols_of(left@));
                min_keystrokes(window, ComboKey::of(target.as_slice()))
            },
            None => 0,
        }
    }

    /// Handles one key press.
    pub fn key_down_event(&mut self, key: Key) -> (transition: Transition)
        requires
            old(self).wf(),
            old(self)@.can_key(key),
        ensures
            (final(self)@, transition@) == old(self)@.keyed(key),
            final(self).wf(),
    {
        if self.game_over {
            return Transition::GameOverPro { score: self.score, info: None };
        }
        if key == Key::Escape {
            return Transition::Menu;
        }
        let orb = match self.settings.orb_for(key) {
            Some(orb) => orb,
            None => {
                return Transition::Stay;
            },
        };
        // The buffer does not count the commit key press, which the required number includes.
        let found = match self.input_buffer.update_buffer_pro_mode(
            orb,
            self.required_key_presses - 1,
        ) {
            Some(found) => found,
            None => {
                return Transition::Stay;
            },
        };
        let cast = match found {
            MatchOutcome::WrongCount { actual, required } => {
                return Transition::GameOverPro {
                    score: self.score,
                    info: Some(fault_message(actual + 1, required + 1)),
                };
            },
            MatchOutcome::Exact(cast) => cast,
            MatchOutcome::FirstCastException(cast) => cast,
        };
        proof {
            ComboKey::lemma_equal_iff_same_view(cast, self.objects@[0].cast);
        }
        if cast == self.objects[0].cast {
            self.score = self.score + 1;
            self.objects.remove(0);
            self.objects.push(self.next_spell);
            proof {
                lemma_combo_table(old(self)@.objects[0].spell_type);
                lemma_canonical_is_sorted_permutation(self.input_buffer@);
            }
            let window = self.input_buffer.window().unwrap();
            self.required_key_presses = min_keystrokes(window, self.objects[0].cast) + 1;
            Transition::Stay
        } else {
            self.game_over = true;
            Transition::GameOverPro { score: self.score, info: None }
        }
    }

    /// Handles the release of a mouse button, which does nothing here.
    pub fn mouse_button_up_event(&mut self, button: MouseButton, hits: ButtonHits) -> (transition:
        Transition)
        ensures
            *final(self) == *old(self),
            transition@ == TransitionView::Stay,
    {
        Transition::Stay
    }
}

/// A tick keeps the state of a run well formed. No tick lowers the speed,
/// a tick with a spawn raises it, and a spell is on the field after every
/// tick. The run is over after the tick exactly if the tick says so.
pub proof fn lemma_pro_tick(state: ProView, delta: u64, fresh: Spell)
    requires
        state.wf(),
        state.can_tick(delta),
        fresh.enters_at(state.next_speed()),
    ensures
        state.ticked(delta, fresh).0.wf(),
        state.ticked(delta, fresh).0.settings == state.settings,
        state.ticked(delta, fresh).0.speed >= state.speed,
        state.spawn_due(delta) ==> state.ticked(delta, fresh).0.speed > state.speed,
        state.ticked(delta, fresh).0.objects.len() >= 1,
        state.ticked(delta, fresh).0.game_over <==> !(state.ticked(delta, fresh).1 is Stay),
        state.ticked(delta, fresh).1 is Stay || state.ticked(delta, fresh).1 is GameOverPro,
{
    let mid = state.scheduled(delta, fresh);
    let line = spec_fail_line(&state.settings);
    assert(mid.wf());
    crate::scheduler::lemma_first_crossing(mid.objects, Some(mid.speed), line, 0);
}

/// A tick takes no spell off the field: a run that has a spell on the
/// field, as every run has from its start, has one after every tick.
pub proof fn lemma_pro_tick_leaves_a_spell(state: ProView, delta: u64, fresh: Spell)
    requires
        state.objects.len() >= 1,
    ensures
        state.ticked(delta, fresh).0.objects.len() == state.objects.len(),
{
}

/// A key press keeps the speed, the settings and a spell on the field. A
/// run that was not over is over after the key press only if the key press
/// says so, and a key press says nothing but to stay, to leave for the menu,
/// or that the run is over.
pub proof fn lemma_pro_key(state: ProView, key: Key)
    requires
        state.wf(),
        !state.game_over,
    ensures
        state.keyed(key).0.speed == state.speed,
        state.keyed(key).0.settings == state.settings,
        state.keyed(key).0.objects.len() >= 1,
        state.keyed(key).0.game_over ==> state.keyed(key).1 is GameOverPro,
        state.keyed(key).1 is Stay || state.keyed(key).1 is Menu || state.keyed(key).1 is GameOverPro,
        state.keyed(key).1 matches TransitionView::GameOverPro { score, .. } ==> score == state.score,
{
}

} // verus!
