//! The rolling buffer of the last symbols typed.
//!
//! The buffer is a sliding window of at most three symbols. Committing it
//! gives the canonical form of its content and leaves the content in place.
//! In hard mode the buffer also counts key presses between commits; the very
//! first commit of a run is accepted whatever the count.

use vstd::prelude::*;
use crate::combo::{canonical, ComboKey};
use crate::orbs::{OrbType, Symbol};

verus! {

/// How many symbols the buffer holds at most.
pub const CAPACITY: usize = 3;

/// The window after one more symbol is typed: the symbol is appended, and
/// where the window was full its oldest symbol leaves first.
pub open spec fn slide(window: Seq<Symbol>, sym: Symbol) -> Seq<Symbol> {
    if window.len() < CAPACITY {
        window.push(sym)
    } else {
        window.subrange(1, window.len() as int).push(sym)
    }
}

/// A window of at most three symbols never grows beyond three: while there
/// is room the new symbol is added to the others, and on a full window
/// exactly the oldest symbol leaves and the other two keep their order.
pub proof fn lemma_slide(window: Seq<Symbol>, sym: Symbol)
    requires
        window.len() <= CAPACITY,
    ensures
        slide(window, sym).len() <= CAPACITY,
        slide(window, sym).last() == sym,
        window.len() < CAPACITY ==> slide(window, sym) == window.push(sym),
        window.len() == CAPACITY ==> slide(window, sym) == seq![window[1], window[2], sym],
{
    if window.len() == CAPACITY {
        assert(slide(window, sym) =~= seq![window[1], window[2], sym]);
    }
}

/// Where a hard-mode run stands with respect to its first commit.
#[derive(Clone, Copy, Debug, PartialEq, Eq, Structural)]
pub enum CastPhase {
    /// No commit was made yet: the next one is accepted whatever the count.
    FirstCast,
    /// A commit was made: from now on the count of key presses is checked.
    Counted,
}

/// What a checked commit found.
#[derive(Clone, Copy, Debug, PartialEq, Eq, Structural)]
pub enum MatchOutcome {
    /// The count of key presses was the required one.
    Exact(ComboKey),
    /// The count of key presses was not the required one.
    WrongCount { actual: usize, required: usize },
    /// The first commit of the run, accepted without a look at the count.
    FirstCastException(ComboKey),
}

/// The last symbols typed, oldest first, with the hard-mode bookkeeping.
#[derive(Debug)]
pub struct InputBuffer {
    buffer: Vec<Symbol>,
    keypress_count: usize,
    phase: CastPhase,
}

impl View for InputBuffer {
    type V = Seq<Symbol>;

    /// The symbols in the buffer, oldest first.
    closed spec fn view(&self) -> Seq<Symbol> {
        self.buffer@
    }
}

impl InputBuffer {
    /// Key presses counted since the last accepted commit.
    pub closed spec fn spec_keypress_count(&self) -> usize {
        self.keypress_count
    }

    /// Where the run stands with respect to its first commit.
    pub closed spec fn spec_phase(&self) -> CastPhase {
        self.phase
    }

    /// The buffer holds at most three symbols.
    pub open spec fn wf(&self) -> bool {
        self@.len() <= CAPACITY
    }

    /// `outcome` is what a checked commit answers on a buffer with content
    /// `window`, `counted` key presses since the last accepted commit and
    /// phase `phase`, when `required` key presses are asked for. The commit
    /// key press itself is not counted.
    pub open spec fn is_verdict(
        outcome: MatchOutcome,
        window: Seq<Symbol>,
        counted: usize,
        phase: CastPhase,
        required: usize,
    ) -> bool {
        match outcome {
            MatchOutcome::FirstCastException(key) => {
                &&& phase == CastPhase::FirstCast
                &&& key@ == canonical(window)
            },
            MatchOutcome::WrongCount { actual, required: asked } => {
                &&& phase == CastPhase::Counted
                &&& actual == counted
                &&& asked == required
                &&& actual != asked
            },
            MatchOutcome::Exact(key) => {
                &&& phase == CastPhase::Counted
                &&& counted == required
                &&& key@ == canonical(window)
            },
        }
    }

    /// An empty buffer at the start of a run.
    pub fn new() -> (buffer: InputBuffer)
        ensures
            buffer@ == Seq::<Symbol>::empty(),
            buffer.spec_keypress_count() == 0,
            buffer.spec_phase() == CastPhase::FirstCast,
            buffer.wf(),
    {
        InputBuffer { buffer: Vec::with_capacity(CAPACITY), keypress_count: 0, phase: CastPhase::FirstCast }
    }

    /// How many symbols the buffer holds.
    pub fn len(&self) -> (n: usize)
        ensures
            n == self@.len(),
    {
        self.buffer.len()
    }

    /// The symbols in the buffer, oldest first.
    pub fn symbols(&self) -> (symbols: Vec<Symbol>)
        ensures
            symbols@ == self@,
    {
        let mut symbols: Vec<Symbol> = Vec::new();
        let mut i: usize = 0;
        while i < self.buffer.len()
            invariant
                i <= self.buffer.len(),
                symbols@ == self.buffer@.take(i as int),
            decreases self.buffer.len() - i,
        {
            symbols.push(self.buffer[i]);
            i = i + 1;
            assert(symbols@ =~= self.buffer@.take(i as int));
        }
        assert(self.buffer@.take(i as int) =~= self.buffer@);
        symbols
    }

    /// The content of a full buffer, oldest symbol first; `None` while fewer
    /// than three symbols were typed.
    pub fn window(&self) -> (window: Option<[Symbol; 3]>)
        ensures
            window is Some <==> self@.len() == CAPACITY,
            window matches Some(w) ==> w@ == self@,
    {
        if self.buffer.len() == 3 {
            let w = [self.buffer[0], self.buffer[1], self.buffer[2]];
            assert(w@ =~= self.buffer@);
            Some(w)
        } else {
            None
        }
    }

    /// Key presses counted since the last accepted commit.
    #[verifier::when_used_as_spec(spec_keypress_count)]
    pub fn keypress_count(&self) -> (n: usize)
        ensures
            n == self.spec_keypress_count(),
    {
        self.keypress_count
    }

    /// Where the run stands with respect to its first commit.
    #[verifier::when_used_as_spec(spec_phase)]
    pub fn phase(&self) -> (phase: CastPhase)
        ensures
            phase == self.spec_phase(),
    {
        self.phase
    }

    /// Types one symbol: it is appended, and where the buffer was full its
    /// oldest symbol leaves first. The order of the symbols is kept.
    pub fn push(&mut self, symbol: Symbol)
        requires
            old(self).wf(),
        ensures
            final(self)@ == slide(old(self)@, symbol),
            final(self).spec_keypress_count() == old(self).spec_keypress_count(),
            final(self).spec_phase() == old(self).spec_phase(),
            final(self).wf(),
            old(self)@.len() == CAPACITY ==> final(self)@ == seq![old(self)@[1], old(self)@[2], symbol],
    {
        if self.buffer.len() == CAPACITY {
            self.buffer.remove(0);
        }
        self.buffer.push(symbol);
        proof {
            if old(self)@.len() == CAPACITY {
                assert(self.buffer@ =~= old(self)@.subrange(1, 3).push(symbol));
                assert(self.buffer@ =~= seq![old(self)@[1], old(self)@[2], symbol]);
            }
        }
    }

    /// The canonical form of the buffer's content. The buffer is left as it
    /// is: later symbols keep sliding in.
    pub fn commit(&self) -> (key: ComboKey)
        ensures
            key@ == canonical(self@),
    {
        ComboKey::of(self.buffer.as_slice())
    }

    /// Types one symbol as `push` does, and counts the key press.
    pub fn push_counted(&mut self, symbol: Symbol)
        requires
            old(self).wf(),
            old(self).spec_keypress_count() < usize::MAX,
        ensures
            final(self)@ == slide(old(self)@, symbol),
            final(self).spec_keypress_count() == old(self).spec_keypress_count() + 1,
            final(self).spec_phase() == old(self).spec_phase(),
            final(self).wf(),
    {
        self.push(symbol);
        self.keypress_count = self.keypress_count + 1;
    }

    /// Commits the buffer under the hard-mode rule, with `required_presses`
    /// the number of counted key presses that the caller asks for.
    ///
    /// The first commit of a run is accepted whatever the count, and ends
    /// the first-cast phase. Afterwards a commit is accepted only if the
    /// presses counted since the last accepted commit are `required_presses`.
    /// An accepted commit resets the count; a refused one changes nothing.
    /// The content of the buffer stays.
    pub fn commit_checked(&mut self, required_presses: usize) -> (outcome: MatchOutcome)
        requires
            old(self).wf(),
        ensures
            InputBuffer::is_verdict(
                outcome,
                old(self)@,
                old(self).spec_keypress_count(),
                old(self).spec_phase(),
                required_presses,
            ),
            final(self)@ == old(self)@,
            final(self).spec_phase() == if outcome is WrongCount {
                old(self).spec_phase()
            } else {
                CastPhase::Counted
            },
            final(self).spec_keypress_count() == if outcome is WrongCount {
                old(self).spec_keypress_count()
            } else {
                0
            },
            final(self).wf(),
    {
        let key = self.commit();
        match self.phase {
            CastPhase::FirstCast => {
                self.phase = CastPhase::Counted;
                self.keypress_count = 0;
                MatchOutcome::FirstCastException(key)
            },
            CastPhase::Counted => {
                let actual = self.keypress_count;
                if actual != required_presses {
                    MatchOutcome::WrongCount { actual, required: required_presses }
                } else {
                    self.keypress_count = 0;
                    MatchOutcome::Exact(key)
                }
            },
        }
    }

    /// Handles one bound key in normal mode: an orb is typed into the
    /// buffer and nothing is returned; `Invoke` commits the buffer and
    /// returns its canonical form.
    pub fn update_buffer(&mut self, orb: OrbType) -> (cast: Option<ComboKey>)
        requires
            old(self).wf(),
        ensures
            final(self).wf(),
            final(self).spec_keypress_count() == old(self).spec_keypress_count(),
            final(self).spec_phase() == old(self).spec_phase(),
            match orb.symbol() {
                Some(symbol) => cast is None && final(self)@ == slide(old(self)@, symbol),
                None => final(self)@ == old(self)@ && cast is Some && cast->0@ == canonical(
                    old(self)@,
                ),
            },
    {
        match orb.symbol() {
            Some(symbol) => {
                self.push(symbol);
                None
            },
            None => Some(self.commit()),
        }
    }

    /// Handles one bound key in hard mode: an orb is typed into the buffer
    /// and counted, and nothing is returned; `Invoke` makes a checked commit
    /// and returns what it found.
    pub fn update_buffer_pro_mode(&mut self, orb: OrbType, required_presses: usize) -> (found: Option<
        MatchOutcome,
    >)
        requires
            old(self).wf(),
            orb.symbol() is Some ==> old(self).spec_keypress_count() < usize::MAX,
        ensures
            final(self).wf(),
            match orb.symbol() {
                Some(symbol) => {
                    &&& found is None
                    &&& final(self)@ == slide(old(self)@, symbol)
                    &&& final(self).spec_keypress_count() == old(self).spec_keypress_count() + 1
                    &&& final(self).spec_phase() == old(self).spec_phase()
                },
                None => {
                    &&& found is Some
                    &&& InputBuffer::is_verdict(
                        found->0,
                        old(self)@,
                        old(self).spec_keypress_count(),
                        old(self).spec_phase(),
                        required_presses,
                    )
                    &&& final(self)@ == old(self)@
                    &&& final(self).spec_phase() == if found->0 is WrongCount {
                        old(self).spec_phase()
                    } else {
                        CastPhase::Counted
                    }
                    &&& final(self).spec_keypress_count() == if found->0 is WrongCount {
                        old(self).spec_keypress_count()
                    } else {
                        0
                    }
                },
            },
    {
        match orb.symbol() {
            Some(symbol) => {
                self.push_counted(symbol);
                None
            },
            None => Some(self.commit_checked(required_presses)),
        }
    }
}

} // verus!
