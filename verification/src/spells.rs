//! The falling spells: their kinds, the combo each kind asks for, and how a
//! new spell is drawn.

use vstd::prelude::*;
use rand::rngs::ThreadRng;
use rand::seq::SliceRandom;
use rand::Rng;
use crate::combo::{arrange, ComboKey};
use crate::orbs::Symbol;
use crate::settings::{Settings, SPAWN_MARGIN};

verus! {

/// Positions and speeds are kept in tenths of a pixel.
pub const UNITS_PER_PIXEL: u64 = 10;

/// `rand::rngs::ThreadRng`, the random number generator of the current
/// thread. Nothing is known of what it holds.
#[verifier::external_type_specification]
#[verifier::external_body]
pub struct ExThreadRng(ThreadRng);

/// `rand::thread_rng` hands out the generator of the current thread.
/// Nothing is claimed of the generator.
pub assume_specification[ rand::thread_rng ]() -> ThreadRng;

/// `rand::Rng::gen_range` on the half-open range `low..high` of `u32`: the
/// number drawn is at least `low` and below `high`. Which number it is is
/// left open. The call panics on an empty range, which is left out.
#[verifier::external_body]
fn gen_range(rng: &mut ThreadRng, low: u32, high: u32) -> (drawn: u32)
    requires
        low < high,
    ensures
        low <= drawn < high,
{
    rng.gen_range(low..high)
}

/// `rand::seq::SliceRandom::choose` on a slice of spell kinds: an element
/// of the slice is returned, and nothing exactly where the slice is empty.
/// Which element it is is left open.
#[verifier::external_body]
fn choose_kind(rng: &mut ThreadRng, kinds: &[SpellType]) -> (chosen: Option<SpellType>)
    ensures
        chosen is None <==> kinds@.len() == 0,
        chosen matches Some(kind) ==> kinds@.contains(kind),
{
    kinds.choose(rng).copied()
}

/// Where a spell is on the field, in tenths of a pixel from the left and
/// from the top.
#[derive(Clone, Copy, Debug, PartialEq, Eq, Structural)]
pub struct Position {
    pub x: u64,
    pub y: u64,
}

impl Position {
    /// The position is at the top of the field, on a whole pixel between
    /// the margins.
    pub open spec fn is_spawn_point(&self, settings: Settings) -> bool {
        &&& self.y == 0
        &&& self.x % UNITS_PER_PIXEL == 0
        &&& SPAWN_MARGIN * UNITS_PER_PIXEL <= self.x < (settings.window_width - SPAWN_MARGIN)
            * UNITS_PER_PIXEL
    }

    /// The top of the field at the pixel column `column`.
    pub open spec fn spec_at_column(column: u32) -> Position {
        Position { x: (column * UNITS_PER_PIXEL) as u64, y: 0 }
    }

    /// The top of the field at the pixel column `column`.
    pub fn at_column(column: u32) -> (position: Position)
        ensures
            position == Position::spec_at_column(column),
    {
        Position { x: column as u64 * UNITS_PER_PIXEL, y: 0 }
    }

    /// A random position at the top of the field, between the margins.
    pub fn new(settings: &Settings) -> (position: Position)
        requires
            settings.has_spawn_room(),
        ensures
            position.is_spawn_point(*settings),
    {
        let mut rng = rand::thread_rng();
        let column = gen_range(&mut rng, SPAWN_MARGIN, settings.window_width - SPAWN_MARGIN);
        Position::at_column(column)
    }
}

/// The kinds of spell.
#[derive(Clone, Copy, Debug, PartialEq, Eq, Hash, Structural)]
pub enum SpellType {
    Alacrity,
    ChaosMeteor,
    ColdSnap,
    DeafeningBlast,
    Emp,
    ForgeSpririt,
    GhostWalk,
    IceWall,
    SunStrike,
    Tornado,
}

/// The combo that clears a spell of the given kind, in canonical form.
pub open spec fn required_cast(spell_type: SpellType) -> Seq<Symbol> {
    match spell_type {
        SpellType::Alacrity => seq![Symbol::E, Symbol::W, Symbol::W],
        SpellType::ChaosMeteor => seq![Symbol::E, Symbol::E, Symbol::W],
        SpellType::ColdSnap => seq![Symbol::Q, Symbol::Q, Symbol::Q],
        SpellType::DeafeningBlast => seq![Symbol::E, Symbol::Q, Symbol::W],
        SpellType::Emp => seq![Symbol::W, Symbol::W, Symbol::W],
        SpellType::ForgeSpririt => seq![Symbol::E, Symbol::E, Symbol::Q],
        SpellType::GhostWalk => seq![Symbol::Q, Symbol::Q, Symbol::W],
        SpellType::IceWall => seq![Symbol::E, Symbol::Q, Symbol::Q],
        SpellType::SunStrike => seq![Symbol::E, Symbol::E, Symbol::E],
        SpellType::Tornado => seq![Symbol::Q, Symbol::W, Symbol::W],
    }
}

/// The key of the combo that clears a spell of the given kind.
pub open spec fn spec_combo_for(spell_type: SpellType) -> ComboKey {
    match spell_type {
        SpellType::Alacrity => ComboKey { exort: 1, quas: 0, wex: 2 },
        SpellType::ChaosMeteor => ComboKey { exort: 2, quas: 0, wex: 1 },
        SpellType::ColdSnap => ComboKey { exort: 0, quas: 3, wex: 0 },
        SpellType::DeafeningBlast => ComboKey { exort: 1, quas: 1, wex: 1 },
        SpellType::Emp => ComboKey { exort: 0, quas: 0, wex: 3 },
        SpellType::ForgeSpririt => ComboKey { exort: 2, quas: 1, wex: 0 },
        SpellType::GhostWalk => ComboKey { exort: 0, quas: 2, wex: 1 },
        SpellType::IceWall => ComboKey { exort: 1, quas: 2, wex: 0 },
        SpellType::SunStrike => ComboKey { exort: 3, quas: 0, wex: 0 },
        SpellType::Tornado => ComboKey { exort: 0, quas: 1, wex: 2 },
    }
}

/// The key of each kind stands for the combo of that kind, which holds
/// three symbols.
pub proof fn lemma_combo_table(spell_type: SpellType)
    ensures
        spec_combo_for(spell_type)@ == required_cast(spell_type),
        spec_combo_for(spell_type).is_full(),
{
    let key = spec_combo_for(spell_type);
    assert(arrange(key.exort as nat, key.quas as nat, key.wex as nat) =~= required_cast(spell_type));
}

/// The key of the combo that clears a spell of the given kind.
#[verifier::when_used_as_spec(spec_combo_for)]
pub fn combo_for(spell_type: SpellType) -> (key: ComboKey)
    ensures
        key == spec_combo_for(spell_type),
        key@ == required_cast(spell_type),
        key.is_full(),
{
    proof {
        lemma_combo_table(spell_type);
    }
    match spell_type {
        SpellType::Alacrity => ComboKey { exort: 1, quas: 0, wex: 2 },
        SpellType::ChaosMeteor => ComboKey { exort: 2, quas: 0, wex: 1 },
        SpellType::ColdSnap => ComboKey { exort: 0, quas: 3, wex: 0 },
        SpellType::DeafeningBlast => ComboKey { exort: 1, quas: 1, wex: 1 },
        SpellType::Emp => ComboKey { exort: 0, quas: 0, wex: 3 },
        SpellType::ForgeSpririt => ComboKey { exort: 2, quas: 1, wex: 0 },
        SpellType::GhostWalk => ComboKey { exort: 0, quas: 2, wex: 1 },
        SpellType::IceWall => ComboKey { exort: 1, quas: 2, wex: 0 },
        SpellType::SunStrike => ComboKey { exort: 3, quas: 0, wex: 0 },
        SpellType::Tornado => ComboKey { exort: 0, quas: 1, wex: 2 },
    }
}

/// A spell on the field.
#[derive(Clone, Copy, Debug, PartialEq, Eq, Structural)]
pub struct Spell {
    pub spell_type: SpellType,
    /// The combo that clears the spell.
    pub cast: ComboKey,
    pub position: Position,
    /// How far the spell falls in one tick, in tenths of a pixel.
    pub speed: u64,
}

impl Spell {
    /// The spell asks for the combo of its kind.
    pub open spec fn wf(&self) -> bool {
        self.cast == spec_combo_for(self.spell_type)
    }

    /// The spell of the given kind at the given place.
    pub open spec fn spec_of_kind(spell_type: SpellType, position: Position, speed: u64) -> Spell {
        Spell { spell_type, cast: spec_combo_for(spell_type), position, speed }
    }

    /// The spell can enter the field: it asks for the combo of its kind,
    /// falls at `speed` and stands at the top of the field.
    pub open spec fn enters_at(&self, speed: u64) -> bool {
        &&& self.wf()
        &&& self.speed == speed
        &&& self.position.y == 0
    }

    /// The spell was just drawn: it can enter the field at `speed`, and
    /// stands between the margins.
    pub open spec fn is_fresh(&self, speed: u64, settings: Settings) -> bool {
        &&& self.enters_at(speed)
        &&& self.position.is_spawn_point(settings)
    }

    /// The spell of the given kind at the given place.
    pub fn of_kind(spell_type: SpellType, position: Position, speed: u64) -> (spell: Spell)
        ensures
            spell == Spell::spec_of_kind(spell_type, position, speed),
            spell.wf(),
            position.y == 0 ==> spell.enters_at(speed),
    {
        Spell { spell_type, cast: combo_for(spell_type), position, speed }
    }

    /// A new spell: one of the ten kinds, drawn at random, at a random
    /// position at the top of the field, falling at `speed`.
    pub fn new(speed: u64, settings: &Settings) -> (spell: Spell)
        requires
            settings.has_spawn_room(),
        ensures
            spell.is_fresh(speed, *settings),
    {
        let position = Position::new(settings);
        let spells = [
            SpellType::Alacrity,
            SpellType::ChaosMeteor,
            SpellType::ColdSnap,
            SpellType::DeafeningBlast,
            SpellType::Emp,
            SpellType::ForgeSpririt,
            SpellType::GhostWalk,
            SpellType::IceWall,
            SpellType::SunStrike,
            SpellType::Tornado,
        ];
        let mut rng = rand::thread_rng();
        let spell_type = choose_kind(&mut rng, spells.as_slice()).unwrap();
        Spell::of_kind(spell_type, position, speed)
    }
}

} // verus!
