//! Spawn timing and the fall of the spells.
//!
//! A mode counts the time since its last spawn. A spawn is due when that
//! time, with the time of the current tick, exceeds the mode's interval, or
//! when no spell is on the field. On every tick the spells fall, in the order
//! they were spawned, until one crosses the bottom of the field.

use vstd::prelude::*;
use crate::settings::Settings;
use crate::spells::{Position, Spell, UNITS_PER_PIXEL};


verus! {

/// A second, in the unit that time is counted in: nanoseconds.
pub const SECOND: u64 = 1_000_000_000;

/// No mode may be faster than this, in tenths of a pixel per tick: a spell
/// on the field can then always fall once more without its position leaving
/// the range of the machine's integers.
pub const MAX_SPEED: u64 = 0x7fff_ffff_ffff_ffff;

/// The bottom of the field, in tenths of a pixel from the top.
pub open spec fn spec_fail_line(settings: &Settings) -> u64 {
    (settings.window_height * UNITS_PER_PIXEL) as u64
}

/// The bottom of the field, in tenths of a pixel from the top.
#[verifier::when_used_as_spec(spec_fail_line)]
pub fn fail_line(settings: &Settings) -> (line: u64)
    ensures
        line == spec_fail_line(settings),
        line <= MAX_SPEED,
{
    settings.window_height as u64 * UNITS_PER_PIXEL
}

/// Whether a spawn is due: the time since the last spawn, with the time of
/// this tick, exceeds `interval`, or no spell is on the field.
pub open spec fn spec_spawn_due(since_spawn: u64, delta: u64, interval: u64, live: nat) -> bool {
    since_spawn + delta > interval || live == 0
}

/// Whether a spawn is due, with `live` the number of spells on the field.
pub fn spawn_due(since_spawn: u64, delta: u64, interval: u64, live: usize) -> (due: bool)
    requires
        since_spawn <= interval,
    ensures
        due == spec_spawn_due(since_spawn, delta, interval, live as nat),
{
    delta > interval - since_spawn || live == 0
}

/// How far a spell falls in one tick: by the shared speed where the mode
/// has one, else by its own.
pub open spec fn step_of(spell: Spell, shared: Option<u64>) -> u64 {
    match shared {
        Some(speed) => speed,
        None => spell.speed,
    }
}

/// The spell after it fell once.
pub open spec fn moved(spell: Spell, shared: Option<u64>) -> Spell {
    Spell {
        position: Position {
            x: spell.position.x,
            y: (spell.position.y + step_of(spell, shared)) as u64,
        },
        ..spell
    }
}

/// The spell is below the bottom of the field after it fell once.
pub open spec fn crosses(spell: Spell, shared: Option<u64>, line: u64) -> bool {
    spell.position.y + step_of(spell, shared) > line
}

/// Index of the first spell, from `from` on, that crosses the bottom of the
/// field when it falls; the number of spells where none does.
pub open spec fn first_crossing(objects: Seq<Spell>, shared: Option<u64>, line: u64, from: int) -> int
    decreases objects.len() - from,
{
    if from < 0 || from >= objects.len() {
        objects.len() as int
    } else if crosses(objects[from], shared, line) {
        from
    } else {
        first_crossing(objects, shared, line, from + 1)
    }
}

/// Some spell crosses the bottom of the field when the spells fall.
pub open spec fn any_crossing(objects: Seq<Spell>, shared: Option<u64>, line: u64) -> bool {
    first_crossing(objects, shared, line, 0) < objects.len()
}

/// The spells after one tick: they fall in order, and the fall stops with
/// the first spell that crosses the bottom of the field. That spell has
/// fallen; the spells after it have not.
pub open spec fn fallen(objects: Seq<Spell>, shared: Option<u64>, line: u64) -> Seq<Spell> {
    let stop = first_crossing(objects, shared, line, 0);
    Seq::new(
        objects.len(),
        |i: int|
            if i <= stop {
                moved(objects[i], shared)
            } else {
                objects[i]
            },
    )
}

/// Every spell can fall once more within the range of the machine's integers.
pub open spec fn can_fall(objects: Seq<Spell>, shared: Option<u64>) -> bool {
    forall|i: int|
        0 <= i < objects.len() ==> (#[trigger] objects[i]).position.y + step_of(objects[i], shared)
            <= u64::MAX
}

/// The first crossing lies at or after `from`, at no spell before it, and
/// at a spell that crosses.
pub proof fn lemma_first_crossing(objects: Seq<Spell>, shared: Option<u64>, line: u64, from: int)
    requires
        0 <= from <= objects.len(),
    ensures
        from <= first_crossing(objects, shared, line, from) <= objects.len(),
        forall|i: int|
            from <= i < first_crossing(objects, shared, line, from) ==> !crosses(
                #[trigger] objects[i],
                shared,
                line,
            ),
        first_crossing(objects, shared, line, from) < objects.len() ==> crosses(
            objects[first_crossing(objects, shared, line, from)],
            shared,
            line,
        ),
    decreases objects.len() - from,
{
    if from < objects.len() && !crosses(objects[from], shared, line) {
        lemma_first_crossing(objects, shared, line, from + 1);
    }
}

/// Lets the spells fall for one tick, and says whether one of them crossed
/// the bottom of the field.
pub fn fall(objects: &mut Vec<Spell>, shared: Option<u64>, line: u64) -> (crossed: bool)
    requires
        can_fall(old(objects)@, shared),
    ensures
        final(objects)@ == fallen(old(objects)@, shared, line),
        crossed == any_crossing(old(objects)@, shared, line),
{
    let ghost before = objects@;
    let mut i: usize = 0;
    while i < objects.len()
        invariant
            0 <= i <= objects.len(),
            objects.len() == before.len(),
            before == old(objects)@,
            can_fall(before, shared),
            first_crossing(before, shared, line, 0) == first_crossing(before, shared, line, i as int),
            forall|j: int| 0 <= j < i ==> objects@[j] == moved(#[trigger] before[j], shared),
            forall|j: int| i <= j < before.len() ==> objects@[j] == #[trigger] before[j],
        decreases objects.len() - i,
    {
        let spell = objects[i];
        let step = match shared {
            Some(speed) => speed,
            None => spell.speed,
        };
        assert(before[i as int] == spell);
        let y = spell.position.y + step;
        objects.set(
            i,
            Spell {
                spell_type: spell.spell_type,
                cast: spell.cast,
                position: Position { x: spell.position.x, y },
                speed: spell.speed,
            },
        );
        if y > line {
            proof {
                assert(crosses(before[i as int], shared, line));
                assert(first_crossing(before, shared, line, i as int) == i);
                assert(objects@ =~= fallen(before, shared, line));
            }
            return true;
        }
        proof {
            assert(!crosses(before[i as int], shared, line));
        }
        i = i + 1;
    }
    proof {
        assert(first_crossing(before, shared, line, i as int) == before.len());
        assert(objects@ =~= fallen(before, shared, line));
    }
    false
}

} // verus!
