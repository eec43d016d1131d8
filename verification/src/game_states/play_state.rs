//! Normal mode: spells fall at the speed they were spawned with, and any
//! spell on the field can be cleared by its combo.

use vstd::prelude::*;
use crate::combo::{canonical, ComboKey};
use crate::input_buffer::{slide, InputBuffer, CAPACITY};
use crate::orbs::{OrbType, Symbol};
use crate::scheduler::{
    any_crossing, can_fall, fail_line, fall, fallen, spawn_due, spec_fail_line, spec_spawn_due,
    MAX_SPEED, SECOND,
};
use crate::settings::{Key, Settings};
use crate::spells::{Position, Spell, SpellType};
use crate::state_machine::{ButtonHits, MouseButton, Transition, TransitionView};

verus! {

/// A spawn is due when more than this time has passed since the last one.
pub const PLAY_INTERVAL: u64 = SECOND;

/// By how much each spawn raises the speed, in tenths of a pixel per tick.
pub const PLAY_SPEED_STEP: u64 = 5;

/// Index of the first spell, from `from` on, that the combo `cast` clears;
/// the number of spells where it clears none.
pub open spec fn first_match(objects: Seq<Spell>, cast: Seq<Symbol>, from: int) -> int
    decreases objects.len() - from,
{
    if from < 0 || from >= objects.len() {
        objects.len() as int
    } else if objects[from].cast@ == cast {
        from
    } else {
        first_match(objects, cast, from + 1)
    }
}

/// The state of a normal-mode run.
pub struct PlayView {
    pub game_over: bool,
    /// The spells on the field, in the order they were spawned.
    pub objects: Seq<Spell>,
    /// The symbols in the input buffer, oldest first.
    pub buffer: Seq<Symbol>,
    pub score: usize,
    /// The speed that the next spawn starts from.
    pub speed: u64,
    /// Time since the last spawn.
    pub since_spawn: u64,
    pub settings: Settings,
}

impl PlayView {
    /// The state a run starts in: an empty field, an empty buffer.
    pub open spec fn initial(settings: Settings) -> PlayView {
        PlayView {
            game_over: false,
            objects: Seq::empty(),
            buffer: Seq::empty(),
            score: 0,
            speed: 0,
            since_spawn: 0,
            settings,
        }
    }

    /// What holds of every state of a run: the buffer holds at most three
    /// symbols; no spell is faster than the mode allows; while the run is
    /// not over, every spell is on the field.
    pub open spec fn wf(self) -> bool {
        &&& self.buffer.len() <= CAPACITY
        &&& self.speed <= MAX_SPEED
        &&& self.since_spawn <= PLAY_INTERVAL
        &&& self.settings.has_spawn_room()
        &&& forall|i: int|
            0 <= i < self.objects.len() ==> {
                &&& (#[trigger] self.objects[i]).wf()
                &&& self.objects[i].speed <= MAX_SPEED
                &&& self.game_over || self.objects[i].position.y <= spec_fail_line(&self.settings)
            }
    }

    /// The speed can be raised once more.
    pub open spec fn can_spawn(self) -> bool {
        self.speed + PLAY_SPEED_STEP <= MAX_SPEED
    }

    /// The score can be raised once more.
    pub open spec fn can_score(self) -> bool {
        self.score < usize::MAX
    }

    /// Whether a spawn is due on a tick that adds `delta` to the time.
    pub open spec fn spawn_due(self, delta: u64) -> bool {
        spec_spawn_due(self.since_spawn, delta, PLAY_INTERVAL, self.objects.len())
    }

    /// A tick that adds `delta` to the time stays within the range of the
    /// machine's integers: if a spawn is due, the speed can be raised.
    pub open spec fn can_tick(self, delta: u64) -> bool {
        self.spawn_due(delta) ==> self.can_spawn()
    }

    /// A press of `key` stays within the range of the machine's integers:
    /// if the key is bound to invoke, the score can be raised.
    pub open spec fn can_key(self, key: Key) -> bool {
        self.settings.orb_for(key) == Some(OrbType::Invoke) ==> self.can_score()
    }

    /// The speed of the next spell to be spawned.
    pub open spec fn next_speed(self) -> u64 {
        (self.speed + PLAY_SPEED_STEP) as u64
    }

    /// The first half of a tick. Where a spawn is due, the count of time
    /// starts again, the speed goes up and `fresh` enters the field; else
    /// `delta` is added to the time.
    pub open spec fn scheduled(self, delta: u64, fresh: Spell) -> PlayView {
        if self.spawn_due(delta) {
            PlayView {
                since_spawn: 0,
                speed: self.next_speed(),
                objects: self.objects.push(fresh),
                ..self
            }
        } else {
            PlayView { since_spawn: (self.since_spawn + delta) as u64, ..self }
        }
    }

    /// The second half of a tick. A run that is over stays as it is; else
    /// the spells fall, and the run is over if one of them crosses the
    /// bottom of the field.
    pub open spec fn dropped(self) -> (PlayView, TransitionView) {
        let line = spec_fail_line(&self.settings);
        if self.game_over {
            (self, TransitionView::GameOver { score: self.score })
        } else if any_crossing(self.objects, None, line) {
            (
                PlayView { objects: fallen(self.objects, None, line), game_over: true, ..self },
                TransitionView::GameOver { score: self.score },
            )
        } else {
            (PlayView { objects: fallen(self.objects, None, line), ..self }, TransitionView::Stay)
        }
    }

    /// One tick: `delta` is the time since the last tick, `fresh` the spell
    /// that enters the field if a spawn is due.
    pub open spec fn ticked(self, delta: u64, fresh: Spell) -> (PlayView, TransitionView) {
        self.scheduled(delta, fresh).dropped()
    }

    /// One key press. Escape leaves for the menu. A key bound to an orb
    /// types its symbol. The key bound to invoke commits the buffer: the
    /// first spell on the field that asks for the combo is cleared and
    /// scores; where no spell asks for it the run is over. Other keys do
    /// nothing, and a run that is over only says so.
    pub open spec fn keyed(self, key: Key) -> (PlayView, TransitionView) {
        if self.game_over {
            (self, TransitionView::GameOver { score: self.score })
        } else if key == Key::Escape {
            (self, TransitionView::Menu)
        } else {
            match self.settings.orb_for(key) {
                None => (self, TransitionView::Stay),
                Some(orb) => match orb.symbol() {
                    Some(symbol) => (
                        PlayView { buffer: slide(self.buffer, symbol), ..self },
                        TransitionView::Stay,
                    ),
                    None => {
                        let hit = first_match(self.objects, canonical(self.buffer), 0);
                        if hit < self.objects.len() {
                            (
                                PlayView {
                                    score: (self.score + 1) as usize,
                                    objects: self.objects.remove(hit),
                                    ..self
                                },
                                TransitionView::Stay,
                            )
                        } else {
                            (
                                PlayView { game_over: true, ..self },
                                TransitionView::GameOver { score: self.score },
                            )
                        }
                    },
                },
            }
        }
    }
}


/// A normal-mode run.
#[derive(Debug)]
pub struct MainState {
    game_over: bool,
    objects: Vec<Spell>,
    input_buffer: InputBuffer,
    score: usize,
    speed: u64,
    last_spell_time: u64,
    settings: Settings,
}

impl View for MainState {
    type V = PlayView;

    closed spec fn view(&self) -> PlayView {
        PlayView {
            game_over: self.game_over,
            objects: self.objects@,
            buffer: self.input_buffer@,
            score: self.score,
            speed: self.speed,
            since_spawn: self.last_spell_time,
            settings: self.settings,
        }
    }
}

impl MainState {
    /// The run is in a state that the functions below keep: its view is
    /// well formed, and so is its input buffer.
    pub closed spec fn wf(&self) -> bool {
        &&& self@.wf()
        &&& self.input_buffer.wf()
    }

    /// A well-formed run has a well-formed view.
    pub proof fn lemma_wf(&self)
        requires
            self.wf(),
        ensures
            self@.wf(),
    {
    }

    /// A run at its start: an empty field, an empty buffer, no score.
    pub fn new(settings: Settings) -> (state: MainState)
        requires
            settings.has_spawn_room(),
        ensures
            state@ == PlayView::initial(settings),
            state.wf(),
    {
        let state = MainState {
            game_over: false,
            objects: Vec::new(),
            input_buffer: InputBuffer::new(),
            score: 0,
            speed: 0,
            last_spell_time: 0,
            settings,
        };
        assert(state@.objects =~= Seq::<Spell>::empty());
        state
    }

    /// Whether the run is over.
    pub fn game_over(&self) -> (over: bool)
        ensures
            over == self@.game_over,
    {
        self.game_over
    }

    /// The spells on the field, in the order they were spawned.
    pub fn objects(&self) -> (objects: &Vec<Spell>)
        ensures
            objects@ == self@.objects,
    {
        &self.objects
    }

    /// The input buffer.
    pub fn input_buffer(&self) -> (buffer: &InputBuffer)
        ensures
            buffer@ == self@.buffer,
    {
        &self.input_buffer
    }

    /// The number of spells cleared.
    pub fn score(&self) -> (score: usize)
        ensures
            score == self@.score,
    {
        self.score
    }

    /// The speed that the next spawn starts from.
    pub fn speed(&self) -> (speed: u64)
        ensures
            speed == self@.speed,
    {
        self.speed
    }

    /// Time since the last spawn.
    pub fn last_spell_time(&self) -> (time: u64)
        ensures
            time == self@.since_spawn,
    {
        self.last_spell_time
    }

    /// Whether the speed and the score can both be raised once more, which
    /// is all that `update`, `tick` and `key_down_event` can ask.
    pub fn has_headroom(&self) -> (room: bool)
        ensures
            room == (self@.can_spawn() && self@.can_score()),
    {
        self.speed <= MAX_SPEED - PLAY_SPEED_STEP && self.score < usize::MAX
    }

    /// Whether a spawn is due on a tick that adds `delta` to the time.
    pub fn spawn_due(&self, delta: u64) -> (due: bool)
        requires
            self.wf(),
        ensures
            due == self@.spawn_due(delta),
    {
        spawn_due(self.last_spell_time, delta, PLAY_INTERVAL, self.objects.len())
    }

    /// The first half of a tick, where `fresh` is to be `Some` if a spawn
    /// is due.
    fn schedule(&mut self, delta: u64, fresh: Option<Spell>)
        requires
            old(self).wf(),
            old(self)@.can_tick(delta),
            old(self)@.spawn_due(delta) ==> fresh is Some,
            fresh matches Some(spell) ==> spell.wf() && spell.speed == old(self)@.next_speed()
                && spell.position.y == 0,
        ensures
            fresh matches Some(spell) ==> final(self)@ == old(self)@.scheduled(delta, spell),
            !old(self)@.spawn_due(delta) ==> forall|spell: Spell|
                final(self)@ == #[trigger] old(self)@.scheduled(delta, spell),
            final(self).wf(),
    {
        if spawn_due(self.last_spell_time, delta, PLAY_INTERVAL, self.objects.len()) {
            self.last_spell_time = 0;
            self.speed = self.speed + PLAY_SPEED_STEP;
            self.objects.push(fresh.unwrap());
        } else {
            self.last_spell_time = self.last_spell_time + delta;
        }
    }

    /// The second half of a tick.
    fn drop_spells(&mut self) -> (transition: Transition)
        requires
            old(self).wf(),
        ensures
            (final(self)@, transition@) == old(self)@.dropped(),
            final(self).wf(),
    {
        if self.game_over {
            return Transition::GameOver { score: self.score };
        }
        let line = fail_line(&self.settings);
        proof {
            assert(can_fall(self.objects@, None));
            crate::scheduler::lemma_first_crossing(self.objects@, None, line, 0);
        }
        if fall(&mut self.objects, None, line) {
            self.game_over = true;
            return Transition::GameOver { score: self.score };
        }
        Transition::Stay
    }

    /// One tick with the spell that enters the field given: `delta` is the
    /// time since the last tick, in nanoseconds; if a spawn is due, a spell
    /// of kind `spell_type` enters at the top of the pixel column `column`.
    pub fn tick(&mut self, delta: u64, spell_type: SpellType, column: u32) -> (transition: Transition)
        requires
            old(self).wf(),
            old(self)@.can_tick(delta),
        ensures
            (final(self)@, transition@) == old(self)@.ticked(
                delta,
                Spell::spec_of_kind(
                    spell_type,
                    Position::spec_at_column(column),
                    old(self)@.next_speed(),
                ),
            ),
            final(self)@.objects.len() >= 1,
            final(self).wf(),
    {
        let ghost before = self@;
        let ghost given = Spell::spec_of_kind(
            spell_type,
            Position::spec_at_column(column),
            before.next_speed(),
        );
        let fresh = if self.spawn_due(delta) {
            Some(Spell::of_kind(spell_type, Position::at_column(column), self.speed + PLAY_SPEED_STEP))
        } else {
            None
        };
        self.schedule(delta, fresh);
        assert(self@ == before.scheduled(delta, given));
        self.drop_spells()
    }

    /// One tick: `delta` is the time since the last tick, in nanoseconds.
    /// If a spawn is due, a spell drawn at random enters the field.
    pub fn update(&mut self, delta: u64) -> (transition: Transition)
        requires
            old(self).wf(),
            old(self)@.can_tick(delta),
        ensures
            exists|fresh: Spell|
                fresh.is_fresh(old(self)@.next_speed(), old(self)@.settings) && (
                final(self)@,
                transition@,
            ) == #[trigger] old(self)@.ticked(delta, fresh),
            final(self)@.objects.len() >= 1,
            final(self).wf(),
    {
        let ghost before = self@;
        if self.spawn_due(delta) {
            let fresh = Spell::new(self.speed + PLAY_SPEED_STEP, &self.settings);
            self.schedule(delta, Some(fresh));
            let transition = self.drop_spells();
            assert((self@, transition@) == before.ticked(delta, fresh));
            transition
        } else {
            self.schedule(delta, None);
            let transition = self.drop_spells();
            proof {
                let fresh = Spell::spec_of_kind(
                    SpellType::Alacrity,
                    Position::spec_at_column(crate::settings::SPAWN_MARGIN),
                    before.next_speed(),
                );
                assert(fresh.is_fresh(before.next_speed(), before.settings));
                assert(self@ == before.scheduled(delta, fresh).dropped().0);
                assert((self@, transition@) == before.ticked(delta, fresh));
            }
            transition
        }
    }

    /// Types one symbol into the input buffer.
    pub fn update_buffer(&mut self, input: Symbol)
        requires
            old(self).wf(),
        ensures
            final(self)@ == (PlayView { buffer: slide(old(self)@.buffer, input), ..old(self)@ }),
            final(self).wf(),
    {
        self.input_buffer.push(input);
    }

    /// Handles one key press.
    #[verifier::loop_isolation(false)]
    pub fn key_down_event(&mut self, key: Key) -> (transition: Transition)
        requires
            old(self).wf(),
            old(self)@.can_key(key),
        ensures
            (final(self)@, transition@) == old(self)@.keyed(key),
            final(self).wf(),
    {
        if self.game_over {
            return Transition::GameOver { score: self.score };
        }
        if key == Key::Escape {
            return Transition::Menu;
        }
        let orb = match self.settings.orb_for(key) {
            Some(orb) => orb,
            None => {
                return Transition::Stay;
            },
        };
        let cast = match self.input_buffer.update_buffer(orb) {
            Some(cast) => cast,
            None => {
                return Transition::Stay;
            },
        };
        let ghost before = self@;
        let mut index: usize = 0;
        while index < self.objects.len()
            invariant
                0 <= index <= self.objects.len(),
                self@ == before,
                self.wf(),
                first_match(before.objects, cast@, 0) == first_match(before.objects, cast@, index as int),
            decreases self.objects.len() - index,
        {
            proof {
                ComboKey::lemma_equal_iff_same_view(cast, self.objects@[index as int].cast);
            }
            if cast == self.objects[index].cast {
                self.score = self.score + 1;
                self.objects.remove(index);
                return Transition::Stay;
            }
            index = index + 1;
        }
        self.game_over = true;
        Transition::GameOver { score: self.score }
    }

    /// Handles the release of a mouse button, which does nothing here.
    pub fn mouse_button_up_event(&mut self, button: MouseButton, hits: ButtonHits) -> (transition:
        Transition)
        ensures
            *final(self) == *old(self),
            transition@ == TransitionView::Stay,
    {
        Transition::Stay
    }
}

/// A tick keeps the state of a run well formed. No tick lowers the speed,
/// a tick with a spawn raises it, and after every tick a spell is on the
/// field.
pub proof fn lemma_tick(state: PlayView, delta: u64, fresh: Spell)
    requires
        state.wf(),
        state.can_tick(delta),
        fresh.enters_at(state.next_speed()),
    ensures
        state.ticked(delta, fresh).0.wf(),
        state.ticked(delta, fresh).0.settings == state.settings,
        state.ticked(delta, fresh).0.speed >= state.speed,
        state.spawn_due(delta) ==> state.ticked(delta, fresh).0.speed > state.speed,
        state.ticked(delta, fresh).0.objects.len() >= 1,
        state.ticked(delta, fresh).0.game_over <==> !(state.ticked(delta, fresh).1 is Stay),
        state.ticked(delta, fresh).1 is Stay || state.ticked(delta, fresh).1 is GameOver,
{
    let mid = state.scheduled(delta, fresh);
    let line = spec_fail_line(&state.settings);
    assert(mid.wf());
    crate::scheduler::lemma_first_crossing(mid.objects, None, line, 0);
}

/// After every tick a spell is on the field, whatever the state before
/// it: a tick on an empty field spawns one at once.
pub proof fn lemma_tick_leaves_a_spell(state: PlayView, delta: u64, fresh: Spell)
    ensures
        state.ticked(delta, fresh).0.objects.len() >= 1,
{
}

/// A key press keeps the state of a run well formed.
pub proof fn lemma_key(state: PlayView, key: Key)
    requires
        state.wf(),
        state.can_key(key),
    ensures
        state.keyed(key).0.wf(),
        state.keyed(key).0.speed == state.speed,
        state.keyed(key).0.settings == state.settings,
        state.keyed(key).0.game_over <==> state.keyed(key).1 is GameOver,
        state.keyed(key).1 is Stay || state.keyed(key).1 is Menu || state.keyed(key).1 is GameOver,
        state.keyed(key).1 matches TransitionView::GameOver { score } ==> score == state.score,
{
    lemma_first_match(state.objects, canonical(state.buffer), 0);
}

/// The first match lies at or after `from`, at no spell before it, and at
/// a spell that asks for the combo.
pub proof fn lemma_first_match(objects: Seq<Spell>, cast: Seq<Symbol>, from: int)
    requires
        0 <= from <= objects.len(),
    ensures
        from <= first_match(objects, cast, from) <= objects.len(),
        forall|i: int|
            from <= i < first_match(objects, cast, from) ==> (#[trigger] objects[i]).cast@ != cast,
        first_match(objects, cast, from) < objects.len() ==> objects[first_match(
            objects,
            cast,
            from,
        )].cast@ == cast,
    decreases objects.len() - from,
{
    if from < objects.len() && objects[from].cast@ != cast {
        lemma_first_match(objects, cast, from + 1);
    }
}

} // verus!
