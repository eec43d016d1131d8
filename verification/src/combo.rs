//! Canonical form of a symbol sequence and the key that combos are compared by.
//!
//! Two sequences are the same combo when they hold the same symbols, in any
//! order. The canonical form of a sequence is its sorted arrangement, so two
//! sequences are the same combo exactly when their canonical forms are equal.

use vstd::prelude::*;
use crate::orbs::Symbol;

verus! {

/// How often `sym` occurs in `s`.
pub open spec fn count(s: Seq<Symbol>, sym: Symbol) -> nat
    decreases s.len(),
{
    if s.len() == 0 {
        0
    } else {
        count(s.drop_last(), sym) + if s.last() == sym { 1nat } else { 0nat }
    }
}

/// The sequence made of `n` copies of `sym`.
pub open spec fn run_of(sym: Symbol, n: nat) -> Seq<Symbol> {
    Seq::new(n, |i: int| sym)
}

/// The sorted sequence that holds `e` times `E`, `q` times `Q` and `w` times `W`.
pub open spec fn arrange(e: nat, q: nat, w: nat) -> Seq<Symbol> {
    run_of(Symbol::E, e) + run_of(Symbol::Q, q) + run_of(Symbol::W, w)
}

/// The canonical form of `s`: the same symbols, sorted.
pub open spec fn canonical(s: Seq<Symbol>) -> Seq<Symbol> {
    arrange(count(s, Symbol::E), count(s, Symbol::Q), count(s, Symbol::W))
}

/// `s` is in ascending order of rank.
pub open spec fn is_sorted(s: Seq<Symbol>) -> bool {
    forall|i: int, j: int| 0 <= i <= j < s.len() ==> s[i].rank() <= s[j].rank()
}

/// `a` and `b` hold the same symbols, each as often as the other.
pub open spec fn same_symbols(a: Seq<Symbol>, b: Seq<Symbol>) -> bool {
    &&& count(a, Symbol::E) == count(b, Symbol::E)
    &&& count(a, Symbol::Q) == count(b, Symbol::Q)
    &&& count(a, Symbol::W) == count(b, Symbol::W)
}

/// Appending one symbol raises its count by one and leaves the others.
pub proof fn lemma_count_push(s: Seq<Symbol>, x: Symbol, sym: Symbol)
    ensures
        count(s.push(x), sym) == count(s, sym) + if x == sym { 1nat } else { 0nat },
{
    assert(s.push(x).drop_last() =~= s);
}

/// Counts add up over concatenation.
pub proof fn lemma_count_concat(a: Seq<Symbol>, b: Seq<Symbol>, sym: Symbol)
    ensures
        count(a + b, sym) == count(a, sym) + count(b, sym),
    decreases b.len(),
{
    if b.len() == 0 {
        assert(a + b =~= a);
    } else {
        assert((a + b).drop_last() =~= a + b.drop_last());
        lemma_count_concat(a, b.drop_last(), sym);
    }
}

/// A run of one symbol holds that symbol `n` times and no other.
pub proof fn lemma_count_run(x: Symbol, n: nat, sym: Symbol)
    ensures
        count(run_of(x, n), sym) == if x == sym { n } else { 0 },
    decreases n,
{
    if n > 0 {
        assert(run_of(x, n).drop_last() =~= run_of(x, (n - 1) as nat));
        lemma_count_run(x, (n - 1) as nat, sym);
    }
}

/// The three counts of a sequence add up to its length.
pub proof fn lemma_count_total(s: Seq<Symbol>)
    ensures
        count(s, Symbol::E) + count(s, Symbol::Q) + count(s, Symbol::W) == s.len(),
    decreases s.len(),
{
    if s.len() > 0 {
        lemma_count_total(s.drop_last());
    }
}

/// A sorted arrangement holds exactly the counts it was built from.
pub proof fn lemma_count_arrange(e: nat, q: nat, w: nat)
    ensures
        count(arrange(e, q, w), Symbol::E) == e,
        count(arrange(e, q, w), Symbol::Q) == q,
        count(arrange(e, q, w), Symbol::W) == w,
        arrange(e, q, w).len() == e + q + w,
        is_sorted(arrange(e, q, w)),
{
    let re = run_of(Symbol::E, e);
    let rq = run_of(Symbol::Q, q);
    let rw = run_of(Symbol::W, w);
    lemma_count_concat(re + rq, rw, Symbol::E);
    lemma_count_concat(re + rq, rw, Symbol::Q);
    lemma_count_concat(re + rq, rw, Symbol::W);
    lemma_count_concat(re, rq, Symbol::E);
    lemma_count_concat(re, rq, Symbol::Q);
    lemma_count_concat(re, rq, Symbol::W);
    lemma_count_run(Symbol::E, e, Symbol::E);
    lemma_count_run(Symbol::E, e, Symbol::Q);
    lemma_count_run(Symbol::E, e, Symbol::W);
    lemma_count_run(Symbol::Q, q, Symbol::E);
    lemma_count_run(Symbol::Q, q, Symbol::Q);
    lemma_count_run(Symbol::Q, q, Symbol::W);
    lemma_count_run(Symbol::W, w, Symbol::E);
    lemma_count_run(Symbol::W, w, Symbol::Q);
    lemma_count_run(Symbol::W, w, Symbol::W);
}

/// Two arrangements are equal only if they were built from the same counts.
pub proof fn lemma_arrange_injective(e1: nat, q1: nat, w1: nat, e2: nat, q2: nat, w2: nat)
    requires
        arrange(e1, q1, w1) == arrange(e2, q2, w2),
    ensures
        e1 == e2,
        q1 == q2,
        w1 == w2,
{
    lemma_count_arrange(e1, q1, w1);
    lemma_count_arrange(e2, q2, w2);
}

/// The canonical form of a sequence is sorted, as long as the sequence, and
/// holds the same symbols.
pub proof fn lemma_canonical_is_sorted_permutation(s: Seq<Symbol>)
    ensures
        is_sorted(canonical(s)),
        canonical(s).len() == s.len(),
        same_symbols(canonical(s), s),
{
    lemma_count_arrange(count(s, Symbol::E), count(s, Symbol::Q), count(s, Symbol::W));
    lemma_count_total(s);
}

/// Canonicalization is idempotent: the canonical form of a canonical form is
/// that form itself.
pub proof fn lemma_canonical_idempotent(s: Seq<Symbol>)
    ensures
        canonical(canonical(s)) == canonical(s),
{
    lemma_canonical_is_sorted_permutation(s);
}

/// Two sequences have the same canonical form exactly when they hold the
/// same symbols, whatever their order.
pub proof fn lemma_canonical_equal_iff_same_symbols(a: Seq<Symbol>, b: Seq<Symbol>)
    ensures
        canonical(a) == canonical(b) <==> same_symbols(a, b),
{
    lemma_canonical_is_sorted_permutation(a);
    lemma_canonical_is_sorted_permutation(b);
}

/// A sorted sequence is its own canonical form.
pub proof fn lemma_sorted_is_canonical(s: Seq<Symbol>)
    requires
        is_sorted(s),
    ensures
        canonical(s) == s,
    decreases s.len(),
{
    let c = canonical(s);
    lemma_canonical_is_sorted_permutation(s);
    if s.len() > 0 {
        let t = s.drop_last();
        let x = s.last();
        assert(is_sorted(t)) by {
            assert forall|i: int, j: int| 0 <= i <= j < t.len() implies t[i].rank() <= t[j].rank() by {
                assert(t[i] == s[i] && t[j] == s[j]);
            }
        }
        lemma_sorted_is_canonical(t);
        lemma_canonical_is_sorted_permutation(t);
        assert forall|i: int| 0 <= i < t.len() implies t[i].rank() <= x.rank() by {
            assert(t[i] == s[i] && x == s[s.len() - 1]);
        }
        lemma_strictly_below(t, x);
        assert(c =~= canonical(t).push(x)) by {
            lemma_arrange_push(count(t, Symbol::E), count(t, Symbol::Q), count(t, Symbol::W), x);
        }
        assert(t.push(x) =~= s);
    } else {
        assert(c =~= s);
    }
}

/// In a sorted sequence whose last symbol is `x`, no symbol of higher rank
/// than `x` occurs before it.
proof fn lemma_strictly_below(t: Seq<Symbol>, x: Symbol)
    requires
        forall|i: int| 0 <= i < t.len() ==> t[i].rank() <= x.rank(),
    ensures
        forall|sym: Symbol| sym.rank() > x.rank() ==> count(t, sym) == 0,
    decreases t.len(),
{
    if t.len() > 0 {
        let front = t.drop_last();
        assert forall|i: int| 0 <= i < front.len() implies front[i].rank() <= x.rank() by {
            assert(front[i] == t[i]);
        }
        lemma_strictly_below(front, x);
        assert(t.last() == t[t.len() - 1]);
        assert forall|sym: Symbol| sym.rank() > x.rank() implies count(t, sym) == 0 by {
            assert(count(front, sym) == 0);
            assert(t.last() != sym);
        }
    }
}

/// Appending `x` to an arrangement that holds no symbol above `x` gives the
/// arrangement with one more `x`.
proof fn lemma_arrange_push(e: nat, q: nat, w: nat, x: Symbol)
    requires
        x == Symbol::E ==> q == 0 && w == 0,
        x == Symbol::Q ==> w == 0,
    ensures
        arrange(e, q, w).push(x) =~= arrange(
            e + if x == Symbol::E { 1nat } else { 0nat },
            q + if x == Symbol::Q { 1nat } else { 0nat },
            w + if x == Symbol::W { 1nat } else { 0nat },
        ),
{
}

/// The key that combos are compared by: the canonical form of a symbol
/// sequence, kept as the number of times each symbol occurs.
#[derive(Clone, Copy, Debug, PartialEq, Eq, Hash, Structural)]
pub struct ComboKey {
    pub exort: usize,
    pub quas: usize,
    pub wex: usize,
}

impl View for ComboKey {
    type V = Seq<Symbol>;

    /// The sorted sequence of the key's symbols.
    open spec fn view(&self) -> Seq<Symbol> {
        arrange(self.exort as nat, self.quas as nat, self.wex as nat)
    }
}

impl ComboKey {
    /// The key holds three symbols, as every spell's combo does.
    pub open spec fn spec_is_full(&self) -> bool {
        self.exort + self.quas + self.wex == 3
    }

    /// The key of a symbol sequence: its canonical form.
    pub fn of(symbols: &[Symbol]) -> (key: ComboKey)
        ensures
            key@ == canonical(symbols@),
            key@.len() == symbols.len(),
    {
        let mut key = ComboKey { exort: 0, quas: 0, wex: 0 };
        let mut i: usize = 0;
        while i < symbols.len()
            invariant
                0 <= i <= symbols.len(),
                key.exort == count(symbols@.take(i as int), Symbol::E),
                key.quas == count(symbols@.take(i as int), Symbol::Q),
                key.wex == count(symbols@.take(i as int), Symbol::W),
            decreases symbols.len() - i,
        {
            proof {
                let before = symbols@.take(i as int);
                assert(symbols@.take(i + 1) =~= before.push(symbols@[i as int]));
                lemma_count_push(before, symbols@[i as int], Symbol::E);
                lemma_count_push(before, symbols@[i as int], Symbol::Q);
                lemma_count_push(before, symbols@[i as int], Symbol::W);
                lemma_count_total(symbols@.take(i + 1));
            }
            match symbols[i] {
                Symbol::E => {
                    key.exort = key.exort + 1;
                },
                Symbol::Q => {
                    key.quas = key.quas + 1;
                },
                Symbol::W => {
                    key.wex = key.wex + 1;
                },
            }
            i = i + 1;
        }
        proof {
            assert(symbols@.take(i as int) =~= symbols@);
            lemma_canonical_is_sorted_permutation(symbols@);
        }
        key
    }

    /// Whether the key holds three symbols.
    #[verifier::when_used_as_spec(spec_is_full)]
    pub fn is_full(&self) -> (full: bool)
        ensures
            full == self.spec_is_full(),
            full <==> self@.len() == 3,
    {
        proof {
            lemma_count_arrange(self.exort as nat, self.quas as nat, self.wex as nat);
        }
        self.exort <= 3 && self.quas <= 3 && self.wex <= 3 && self.exort + self.quas + self.wex == 3
    }

    /// The key's symbols in sorted order.
    pub fn symbols(&self) -> (sorted: Vec<Symbol>)
        ensures
            sorted@ == self@,
    {
        let mut sorted: Vec<Symbol> = Vec::new();
        let mut i: usize = 0;
        while i < self.exort
            invariant
                i <= self.exort,
                sorted@ == run_of(Symbol::E, i as nat),
            decreases self.exort - i,
        {
            sorted.push(Symbol::E);
            i = i + 1;
            assert(sorted@ =~= run_of(Symbol::E, i as nat));
        }
        let mut j: usize = 0;
        while j < self.quas
            invariant
                j <= self.quas,
                sorted@ == run_of(Symbol::E, self.exort as nat) + run_of(Symbol::Q, j as nat),
            decreases self.quas - j,
        {
            sorted.push(Symbol::Q);
            j = j + 1;
            assert(sorted@ =~= run_of(Symbol::E, self.exort as nat) + run_of(Symbol::Q, j as nat));
        }
        let mut k: usize = 0;
        while k < self.wex
            invariant
                k <= self.wex,
                sorted@ == run_of(Symbol::E, self.exort as nat) + run_of(Symbol::Q, self.quas as nat)
                    + run_of(Symbol::W, k as nat),
            decreases self.wex - k,
        {
            sorted.push(Symbol::W);
            k = k + 1;
            assert(sorted@ =~= run_of(Symbol::E, self.exort as nat) + run_of(
                Symbol::Q,
                self.quas as nat,
            ) + run_of(Symbol::W, k as nat));
        }
        sorted
    }

    /// Two keys are equal exactly when they stand for the same sequence.
    pub proof fn lemma_equal_iff_same_view(a: ComboKey, b: ComboKey)
        ensures
            a == b <==> a@ == b@,
    {
        if a@ == b@ {
            lemma_arrange_injective(
                a.exort as nat,
                a.quas as nat,
                a.wex as nat,
                b.exort as nat,
                b.quas as nat,
                b.wex as nat,
            );
        }
    }

    /// A key is its own canonical form.
    pub proof fn lemma_view_is_canonical(self)
        ensures
            canonical(self@) == self@,
            is_sorted(self@),
    {
        lemma_count_arrange(self.exort as nat, self.quas as nat, self.wex as nat);
    }
}

} // verus!
