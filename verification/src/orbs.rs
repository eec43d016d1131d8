//! The three combo symbols and the orbs that the player's keys are bound to.

use vstd::prelude::*;

verus! {

/// One of the three symbols a combo is made of.
#[derive(Clone, Copy, Debug, PartialEq, Eq, Hash, Structural)]
pub enum Symbol {
    Q,
    W,
    E,
}

impl Symbol {
    /// Position of the symbol in the order used to canonicalize a buffer:
    /// alphabetical, `E < Q < W`.
    pub open spec fn rank(self) -> int {
        match self {
            Symbol::E => 0,
            Symbol::Q => 1,
            Symbol::W => 2,
        }
    }

    /// The letter that stands for the symbol.
    pub open spec fn letter(self) -> char {
        match self {
            Symbol::Q => 'Q',
            Symbol::W => 'W',
            Symbol::E => 'E',
        }
    }

    /// The symbol a letter stands for, if any.
    pub open spec fn of_letter(c: char) -> Option<Symbol> {
        if c == 'Q' {
            Some(Symbol::Q)
        } else if c == 'W' {
            Some(Symbol::W)
        } else if c == 'E' {
            Some(Symbol::E)
        } else {
            None
        }
    }

    /// The letter that stands for the symbol.
    pub fn to_char(self) -> (c: char)
        ensures
            c == self.letter(),
            Symbol::of_letter(c) == Some(self),
    {
        match self {
            Symbol::Q => 'Q',
            Symbol::W => 'W',
            Symbol::E => 'E',
        }
    }

    /// Reads a symbol from its letter. Only the upper-case letters `Q`, `W`
    /// and `E` name a symbol.
    pub fn from_char(c: char) -> (s: Option<Symbol>)
        ensures
            s == Symbol::of_letter(c),
            s matches Some(sym) ==> sym.letter() == c,
    {
        if c == 'Q' {
            Some(Symbol::Q)
        } else if c == 'W' {
            Some(Symbol::W)
        } else if c == 'E' {
            Some(Symbol::E)
        } else {
            None
        }
    }
}

/// Every letter of `letters` names a symbol.
pub open spec fn all_symbols(letters: Seq<char>) -> bool {
    forall|i: int| 0 <= i < letters.len() ==> Symbol::of_letter(#[trigger] letters[i]) is Some
}

/// The symbols that `letters` name, one for each letter.
pub open spec fn symbols_of(letters: Seq<char>) -> Seq<Symbol> {
    Seq::new(letters.len(), |i: int| Symbol::of_letter(letters[i])->0)
}

/// Reads a sequence of symbols from their letters; `None` where a letter
/// names no symbol.
pub fn parse_symbols(letters: &Vec<char>) -> (symbols: Option<Vec<Symbol>>)
    ensures
        symbols is Some <==> all_symbols(letters@),
        symbols matches Some(read) ==> read@ == symbols_of(letters@),
{
    let mut read: Vec<Symbol> = Vec::new();
    let mut i: usize = 0;
    while i < letters.len()
        invariant
            0 <= i <= letters.len(),
            all_symbols(letters@.take(i as int)),
            read@ == symbols_of(letters@.take(i as int)),
        decreases letters.len() - i,
    {
        match Symbol::from_char(letters[i]) {
            Some(symbol) => {
                read.push(symbol);
            },
            None => {
                return None;
            },
        }
        i = i + 1;
        proof {
            assert(read@ =~= symbols_of(letters@.take(i as int)));
        }
    }
    proof {
        assert(letters@.take(i as int) =~= letters@);
    }
    Some(read)
}

/// What a bound key does: three orbs that each add a symbol to the buffer,
/// and the invoke action that commits the buffer.
#[derive(Clone, Copy, Debug, PartialEq, Eq, Hash, Structural)]
pub enum OrbType {
    Quas,
    Wex,
    Exort,
    Invoke,
}

impl OrbType {
    /// The symbol an orb adds to the buffer; `Invoke` adds none.
    pub open spec fn spec_symbol(self) -> Option<Symbol> {
        match self {
            OrbType::Quas => Some(Symbol::Q),
            OrbType::Wex => Some(Symbol::W),
            OrbType::Exort => Some(Symbol::E),
            OrbType::Invoke => None,
        }
    }

    /// The symbol an orb adds to the buffer; `Invoke` adds none.
    #[verifier::when_used_as_spec(spec_symbol)]
    pub fn symbol(self) -> (s: Option<Symbol>)
        ensures
            s == self.spec_symbol(),
    {
        match self {
            OrbType::Quas => Some(Symbol::Q),
            OrbType::Wex => Some(Symbol::W),
            OrbType::Exort => Some(Symbol::E),
            OrbType::Invoke => None,
        }
    }
}

} // verus!
