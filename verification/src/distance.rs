//! Keystroke distance: the least number of key presses that turn a full
//! buffer into some ordering of a target combo.
//!
//! A state is the ordered content of a full buffer. One key press moves a
//! state to the state that the buffer's sliding window gives: the oldest
//! symbol leaves and the pressed symbol enters at the end. The distance is
//! found by a breadth-first search over the 27 states.

use vstd::prelude::*;
use std::collections::VecDeque;
use crate::combo::{
    arrange, canonical, count, lemma_canonical_equal_iff_same_symbols,
    lemma_canonical_is_sorted_permutation, lemma_count_arrange, lemma_count_concat,
    lemma_count_total, ComboKey,
};
use crate::input_buffer::slide;
use crate::orbs::Symbol;

verus! {

/// The number of states: ordered triples over three symbols.
pub const STATES: usize = 27;

/// A state is a full window: three symbols in the order they were typed.
pub open spec fn is_state(s: Seq<Symbol>) -> bool {
    s.len() == 3
}

/// The window after the symbols of `moves` are typed one after the other.
pub open spec fn play(window: Seq<Symbol>, moves: Seq<Symbol>) -> Seq<Symbol>
    decreases moves.len(),
{
    if moves.len() == 0 {
        window
    } else {
        slide(play(window, moves.drop_last()), moves.last())
    }
}

/// Typing `moves` into `start` leaves a window that holds the symbols of `target`.
pub open spec fn reaches(start: Seq<Symbol>, moves: Seq<Symbol>, target: Seq<Symbol>) -> bool {
    canonical(play(start, moves)) == target
}

/// `n` is the length of a shortest sequence of key presses that takes
/// `start` to a window holding the symbols of `target`.
pub open spec fn is_least_moves(start: Seq<Symbol>, target: Seq<Symbol>, n: nat) -> bool {
    &&& exists|moves: Seq<Symbol>| moves.len() == n && #[trigger] reaches(start, moves, target)
    &&& forall|moves: Seq<Symbol>| #[trigger] reaches(start, moves, target) ==> n <= moves.len()
}

/// Some sequence of exactly `k` key presses takes `start` to a window
/// holding the symbols of `target`.
pub open spec fn reaches_in(start: Seq<Symbol>, target: Seq<Symbol>, k: nat) -> bool {
    exists|moves: Seq<Symbol>| moves.len() == k && #[trigger] reaches(start, moves, target)
}

/// The keystroke distance from `start` to `target`: the least number of
/// key presses, at most three, after which the window can hold the symbols
/// of `target`; 0 where no number of presses does.
pub open spec fn min_presses(start: Seq<Symbol>, target: Seq<Symbol>) -> nat {
    if reaches_in(start, target, 0) {
        0
    } else if reaches_in(start, target, 1) {
        1
    } else if reaches_in(start, target, 2) {
        2
    } else if reaches_in(start, target, 3) {
        3
    } else {
        0
    }
}

/// A least number of key presses that is at most three is the keystroke
/// distance.
pub proof fn lemma_least_moves_is_distance(start: Seq<Symbol>, target: Seq<Symbol>, n: nat)
    requires
        is_least_moves(start, target, n),
        n <= 3,
    ensures
        min_presses(start, target) == n,
{
    assert(reaches_in(start, target, n));
    assert forall|k: nat| k < n implies !reaches_in(start, target, k) by {
        if reaches_in(start, target, k) {
            let moves = choose|moves: Seq<Symbol>|
                moves.len() == k && #[trigger] reaches(start, moves, target);
            assert(n <= moves.len());
        }
    }
}

/// A target that does not hold three symbols is reached from no full
/// window, however the keys are pressed.
pub proof fn lemma_short_target_unreachable(start: Seq<Symbol>, target: Seq<Symbol>)
    requires
        is_state(start),
        target.len() != 3,
    ensures
        forall|moves: Seq<Symbol>| !#[trigger] reaches(start, moves, target),
        min_presses(start, target) == 0,
{
    assert forall|moves: Seq<Symbol>| !#[trigger] reaches(start, moves, target) by {
        lemma_play_bound(start, moves);
        lemma_canonical_is_sorted_permutation(play(start, moves));
    }
}

/// Index of a symbol in the order the search tries the moves.
spec fn digit(sym: Symbol) -> int {
    match sym {
        Symbol::Q => 0,
        Symbol::W => 1,
        Symbol::E => 2,
    }
}

/// Number of a state, in `0..27`, by which it is marked as visited.
spec fn code(s: Seq<Symbol>) -> int {
    9 * digit(s[0]) + 3 * digit(s[1]) + digit(s[2])
}

/// Least number of key presses that take `start` to the state `s`. After
/// `k` presses the first `3 - k` symbols of the window are the last
/// `3 - k` symbols of `start`, and the rest is free.
spec fn dist(start: Seq<Symbol>, s: Seq<Symbol>) -> int {
    if s[0] == start[0] && s[1] == start[1] && s[2] == start[2] {
        0
    } else if s[0] == start[1] && s[1] == start[2] {
        1
    } else if s[0] == start[2] {
        2
    } else {
        3
    }
}

/// A state one key press before `s` on a shortest way from `start`, where
/// `s` lies `k + 1` presses away.
spec fn before(start: Seq<Symbol>, s: Seq<Symbol>, k: int) -> Seq<Symbol> {
    seq![start[k], s[0], s[1]]
}

/// How many entries of `marks` are set.
spec fn marked(marks: Seq<bool>) -> nat
    decreases marks.len(),
{
    if marks.len() == 0 {
        0
    } else {
        marked(marks.drop_last()) + if marks.last() { 1nat } else { 0nat }
    }
}

proof fn lemma_marked_bound(marks: Seq<bool>)
    ensures
        marked(marks) <= marks.len(),
    decreases marks.len(),
{
    if marks.len() > 0 {
        lemma_marked_bound(marks.drop_last());
    }
}

proof fn lemma_marked_set(marks: Seq<bool>, i: int)
    requires
        0 <= i < marks.len(),
        !marks[i],
    ensures
        marked(marks.update(i, true)) == marked(marks) + 1,
    decreases marks.len(),
{
    let after = marks.update(i, true);
    if i == marks.len() - 1 {
        assert(after.drop_last() =~= marks.drop_last());
    } else {
        assert(after.drop_last() =~= marks.drop_last().update(i, true));
        lemma_marked_set(marks.drop_last(), i);
    }
}

proof fn lemma_code_injective(s: Seq<Symbol>, t: Seq<Symbol>)
    requires
        is_state(s),
        is_state(t),
        code(s) == code(t),
    ensures
        s == t,
{
    assert(s =~= t);
}

proof fn lemma_slide_state(s: Seq<Symbol>, x: Symbol)
    requires
        is_state(s),
    ensures
        slide(s, x) == seq![s[1], s[2], x],
        is_state(slide(s, x)),
{
    assert(slide(s, x) =~= seq![s[1], s[2], x]);
}

proof fn lemma_dist_step(start: Seq<Symbol>, s: Seq<Symbol>, x: Symbol)
    requires
        is_state(start),
        is_state(s),
    ensures
        0 <= dist(start, s) <= 3,
        dist(start, slide(s, x)) <= dist(start, s) + 1,
{
    lemma_slide_state(s, x);
}

proof fn lemma_before(start: Seq<Symbol>, s: Seq<Symbol>, k: int)
    requires
        is_state(start),
        is_state(s),
        0 <= k,
        dist(start, s) == k + 1,
    ensures
        is_state(before(start, s, k)),
        dist(start, before(start, s, k)) == k,
        slide(before(start, s, k), s[2]) == s,
{
    let p = before(start, s, k);
    lemma_slide_state(p, s[2]);
    assert(slide(p, s[2]) =~= s);
}

proof fn lemma_play_push(window: Seq<Symbol>, moves: Seq<Symbol>, x: Symbol)
    ensures
        play(window, moves.push(x)) == slide(play(window, moves), x),
{
    assert(moves.push(x).drop_last() =~= moves);
}

/// However the keys are pressed, a full window stays full, and a state
/// cannot be reached with fewer presses than its distance.
proof fn lemma_play_bound(start: Seq<Symbol>, moves: Seq<Symbol>)
    requires
        is_state(start),
    ensures
        is_state(play(start, moves)),
        dist(start, play(start, moves)) <= moves.len(),
    decreases moves.len(),
{
    if moves.len() > 0 {
        lemma_play_bound(start, moves.drop_last());
        lemma_dist_step(start, play(start, moves.drop_last()), moves.last());
    }
}

/// Every state is reached with exactly as many presses as its distance.
proof fn lemma_play_witness(start: Seq<Symbol>, s: Seq<Symbol>) -> (moves: Seq<Symbol>)
    requires
        is_state(start),
        is_state(s),
    ensures
        moves.len() == dist(start, s),
        play(start, moves) == s,
{
    let d = dist(start, s);
    let m0 = Seq::<Symbol>::empty();
    if d == 0 {
        assert(start =~= s);
        m0
    } else if d == 1 {
        lemma_play_push(start, m0, s[2]);
        lemma_slide_state(start, s[2]);
        assert(seq![start[1], start[2], s[2]] =~= s);
        m0.push(s[2])
    } else if d == 2 {
        let m1 = m0.push(s[1]);
        lemma_play_push(start, m0, s[1]);
        lemma_slide_state(start, s[1]);
        lemma_play_push(start, m1, s[2]);
        lemma_slide_state(play(start, m1), s[2]);
        assert(seq![start[2], s[1], s[2]] =~= s);
        m1.push(s[2])
    } else {
        let m1 = m0.push(s[0]);
        let m2 = m1.push(s[1]);
        lemma_play_push(start, m0, s[0]);
        lemma_slide_state(start, s[0]);
        lemma_play_push(start, m1, s[1]);
        lemma_slide_state(play(start, m1), s[1]);
        lemma_play_push(start, m2, s[2]);
        lemma_slide_state(play(start, m2), s[2]);
        assert(seq![s[0], s[1], s[2]] =~= s);
        m2.push(s[2])
    }
}

proof fn lemma_marked_none(marks: Seq<bool>)
    requires
        forall|i: int| 0 <= i < marks.len() ==> !marks[i],
    ensures
        marked(marks) == 0,
    decreases marks.len(),
{
    if marks.len() > 0 {
        assert forall|i: int| 0 <= i < marks.drop_last().len() implies !marks.drop_last()[i] by {
            assert(marks.drop_last()[i] == marks[i]);
        }
        lemma_marked_none(marks.drop_last());
    }
}

/// The bookkeeping of the search is consistent: `hist` lists every state
/// that was ever put on the queue, in that order and with its distance;
/// `pos` gives each marked state its place in `hist`, and `-1` to the others.
spec fn consistent(
    start: Seq<Symbol>,
    hist: Seq<([Symbol; 3], usize)>,
    pos: Seq<int>,
    marks: Seq<bool>,
) -> bool {
    &&& marks.len() == STATES
    &&& pos.len() == STATES
    &&& hist.len() >= 1
    &&& hist[0].0@ == start
    &&& marked(marks) == hist.len()
    &&& forall|i: int|
        0 <= i < hist.len() ==> {
            &&& (#[trigger] hist[i]).1 == dist(start, hist[i].0@)
            &&& pos[code(hist[i].0@)] == i
        }
    &&& forall|c: int|
        0 <= c < STATES ==> {
            &&& marks[c] <==> #[trigger] pos[c] >= 0
            &&& pos[c] < hist.len()
            &&& pos[c] >= 0 ==> code(hist[pos[c]].0@) == c
        }
    &&& forall|i: int, j: int|
        0 <= i <= j < hist.len() ==> (#[trigger] hist[i]).1 <= (#[trigger] hist[j]).1
}

/// The state was taken off the queue: it is no goal, and each of its
/// three successors is marked.
spec fn expanded(target: Seq<Symbol>, marks: Seq<bool>, s: Seq<Symbol>) -> bool {
    &&& canonical(s) != target
    &&& marks[code(slide(s, Symbol::Q))]
    &&& marks[code(slide(s, Symbol::W))]
    &&& marks[code(slide(s, Symbol::E))]
}

/// The first `head` states of `hist` were taken off the queue.
spec fn all_expanded(
    target: Seq<Symbol>,
    hist: Seq<([Symbol; 3], usize)>,
    marks: Seq<bool>,
    head: int,
) -> bool {
    forall|i: int| 0 <= i < head ==> expanded(target, marks, (#[trigger] hist[i]).0@)
}

/// Every state within `d` key presses of `start` is marked.
spec fn marked_within(start: Seq<Symbol>, marks: Seq<bool>, d: int) -> bool {
    forall|s: Seq<Symbol>| is_state(s) && #[trigger] dist(start, s) <= d ==> marks[code(s)]
}

/// A marked state is the one that `pos` places in `hist`.
proof fn lemma_place(
    start: Seq<Symbol>,
    hist: Seq<([Symbol; 3], usize)>,
    pos: Seq<int>,
    marks: Seq<bool>,
    s: Seq<Symbol>,
) -> (i: int)
    requires
        consistent(start, hist, pos, marks),
        is_state(start),
        is_state(s),
        marks[code(s)],
    ensures
        0 <= i < hist.len(),
        hist[i].0@ == s,
        hist[i].1 == dist(start, s),
{
    let c = code(s);
    assert(0 <= c < STATES);
    let i = pos[c];
    assert(i >= 0);
    lemma_code_injective(hist[i].0@, s);
    i
}

/// Once every state up to distance `d` is marked and every state before
/// `head` in `hist` was taken off the queue, a state at distance `d + 1` is
/// marked too if the states at `head` and after lie farther than `d`.
proof fn lemma_next_level(
    start: Seq<Symbol>,
    target: Seq<Symbol>,
    hist: Seq<([Symbol; 3], usize)>,
    pos: Seq<int>,
    marks: Seq<bool>,
    head: int,
    d: int,
)
    requires
        is_state(start),
        consistent(start, hist, pos, marks),
        0 <= head <= hist.len(),
        all_expanded(target, hist, marks, head),
        0 <= d,
        marked_within(start, marks, d),
        forall|i: int| head <= i < hist.len() ==> (#[trigger] hist[i]).1 > d,
    ensures
        marked_within(start, marks, d + 1),
{
    assert forall|s: Seq<Symbol>| is_state(s) && #[trigger] dist(start, s) <= d + 1 implies marks[code(
        s,
    )] by {
        if dist(start, s) == d + 1 {
            let p = before(start, s, d);
            lemma_before(start, s, d);
            assert(dist(start, p) <= d);
            let i = lemma_place(start, hist, pos, marks, p);
            assert(hist[i].1 == d);
            assert(i < head);
            assert(expanded(target, marks, hist[i].0@));
            let x = s[2];
            assert(x == Symbol::Q || x == Symbol::W || x == Symbol::E);
        }
    }
}

/// The state at `head` is a goal, and every state before it was taken off
/// the queue: its distance is the least number of key presses.
proof fn lemma_found(
    start: Seq<Symbol>,
    target: Seq<Symbol>,
    hist: Seq<([Symbol; 3], usize)>,
    pos: Seq<int>,
    marks: Seq<bool>,
    head: int,
)
    requires
        is_state(start),
        consistent(start, hist, pos, marks),
        0 <= head < hist.len(),
        all_expanded(target, hist, marks, head),
        marked_within(start, marks, hist[head].1 as int),
        canonical(hist[head].0@) == target,
    ensures
        is_least_moves(start, target, hist[head].1 as nat),
        hist[head].1 <= 3,
{
    let goal = hist[head].0@;
    let n = hist[head].1;
    lemma_dist_step(start, goal, Symbol::Q);
    let way = lemma_play_witness(start, goal);
    assert(way.len() == n && reaches(start, way, target));
    assert forall|moves: Seq<Symbol>| #[trigger] reaches(start, moves, target) implies n
        <= moves.len() by {
        let s = play(start, moves);
        lemma_play_bound(start, moves);
        if moves.len() < n {
            let i = lemma_place(start, hist, pos, marks, s);
            assert(hist[i].1 < hist[head].1);
            assert(i < head);
            assert(expanded(target, marks, hist[i].0@));
        }
    }
}

/// Every state was taken off the queue without a goal among them: no
/// sequence of key presses reaches the target, which therefore does not
/// hold three symbols.
proof fn lemma_exhausted(
    start: Seq<Symbol>,
    target: ComboKey,
    hist: Seq<([Symbol; 3], usize)>,
    pos: Seq<int>,
    marks: Seq<bool>,
)
    requires
        is_state(start),
        consistent(start, hist, pos, marks),
        all_expanded(target@, hist, marks, hist.len() as int),
    ensures
        !target.is_full(),
{
    let head = hist.len() as int;
    assert(marked_within(start, marks, 0)) by {
        assert forall|s: Seq<Symbol>| is_state(s) && #[trigger] dist(start, s) <= 0 implies marks[code(
            s,
        )] by {
            assert(s =~= start);
            assert(hist[0].0@ == start);
            assert(pos[code(hist[0].0@)] == 0);
        }
    }
    lemma_next_level(start, target@, hist, pos, marks, head, 0);
    lemma_next_level(start, target@, hist, pos, marks, head, 1);
    lemma_next_level(start, target@, hist, pos, marks, head, 2);
    if target.is_full() {
        let s = target@;
        target.lemma_view_is_canonical();
        lemma_count_arrange(target.exort as nat, target.quas as nat, target.wex as nat);
        assert(is_state(s));
        assert(dist(start, s) <= 3);
        let i = lemma_place(start, hist, pos, marks, s);
        assert(expanded(target@, marks, hist[i].0@));
    }
}

/// A state that is seen for the first time, one key press after a state at
/// distance `d`, is marked and put at the end of the queue: the bookkeeping
/// stays consistent, and what was known of the states taken off the queue
/// and of the states within `d` key presses still holds.
proof fn lemma_enqueue(
    start: Seq<Symbol>,
    target: Seq<Symbol>,
    hist: Seq<([Symbol; 3], usize)>,
    pos: Seq<int>,
    marks: Seq<bool>,
    done: int,
    entry: ([Symbol; 3], usize),
    d: int,
)
    requires
        consistent(start, hist, pos, marks),
        0 <= done <= hist.len(),
        all_expanded(target, hist, marks, done),
        marked_within(start, marks, d),
        hist[hist.len() - 1].1 <= d + 1,
        entry.1 == d + 1,
        dist(start, entry.0@) <= d + 1,
        !marks[code(entry.0@)],
    ensures
        consistent(
            start,
            hist.push(entry),
            pos.update(code(entry.0@), hist.len() as int),
            marks.update(code(entry.0@), true),
        ),
        all_expanded(target, hist.push(entry), marks.update(code(entry.0@), true), done),
        marked_within(start, marks.update(code(entry.0@), true), d),
        hist.len() < STATES,
{
    let c = code(entry.0@);
    let new_hist = hist.push(entry);
    let new_pos = pos.update(c, hist.len() as int);
    let new_marks = marks.update(c, true);
    lemma_marked_set(marks, c);
    lemma_marked_bound(new_marks);
    assert forall|i: int| 0 <= i < new_hist.len() implies {
        &&& (#[trigger] new_hist[i]).1 == dist(start, new_hist[i].0@)
        &&& new_pos[code(new_hist[i].0@)] == i
    } by {
        if i < hist.len() {
            assert(new_hist[i] == hist[i]);
            assert(pos[code(hist[i].0@)] == i);
        }
    }
    assert forall|cc: int| 0 <= cc < STATES implies {
        &&& new_marks[cc] <==> #[trigger] new_pos[cc] >= 0
        &&& new_pos[cc] < new_hist.len()
        &&& new_pos[cc] >= 0 ==> code(new_hist[new_pos[cc]].0@) == cc
    } by {
        if cc != c {
            assert(new_pos[cc] == pos[cc]);
            if pos[cc] >= 0 {
                assert(new_hist[pos[cc]] == hist[pos[cc]]);
            }
        }
    }
    assert forall|i: int, j: int| 0 <= i <= j < new_hist.len() implies (#[trigger] new_hist[i]).1 <= (
    #[trigger] new_hist[j]).1 by {
        if j < hist.len() {
            assert(new_hist[i] == hist[i] && new_hist[j] == hist[j]);
        } else if i < hist.len() {
            assert(new_hist[i] == hist[i]);
            assert(hist[i].1 <= hist[hist.len() - 1].1);
        }
    }
    assert forall|i: int| 0 <= i < done implies expanded(target, new_marks, (#[trigger] new_hist[i]).0@) by {
        assert(new_hist[i] == hist[i]);
        assert(expanded(target, marks, hist[i].0@));
    }
    assert forall|s: Seq<Symbol>| is_state(s) && #[trigger] dist(start, s) <= d implies new_marks[code(
        s,
    )] by {
        assert(marks[code(s)]);
    }
}

/// The keystroke distance is at most three, whatever the window and the
/// target.
pub proof fn lemma_distance_at_most_three(start: Seq<Symbol>, target: Seq<Symbol>)
    ensures
        min_presses(start, target) <= 3,
{
}

/// The keystroke distance from a full window to a combo of three symbols
/// is zero exactly when the window already holds the combo.
pub proof fn lemma_distance_zero(start: Seq<Symbol>, target: Seq<Symbol>)
    requires
        is_state(start),
        is_state(target),
        canonical(target) == target,
    ensures
        min_presses(start, target) == 0 <==> canonical(start) == target,
{
    let none = Seq::<Symbol>::empty();
    assert(play(start, none) == start);
    if canonical(start) == target {
        assert(none.len() == 0 && reaches(start, none, target));
    } else {
        assert forall|moves: Seq<Symbol>| moves.len() == 0 implies !#[trigger] reaches(
            start,
            moves,
            target,
        ) by {
            assert(play(start, moves) == start);
        }
        let way = lemma_play_witness(start, target);
        assert(reaches(start, way, target));
        lemma_dist_step(start, target, Symbol::Q);
    }
}

/// `target` holds every symbol at least as often as `part` does: `part` can
/// be kept in a window that is to hold the symbols of `target`.
pub open spec fn covers(target: Seq<Symbol>, part: Seq<Symbol>) -> bool {
    &&& count(part, Symbol::E) <= count(target, Symbol::E)
    &&& count(part, Symbol::Q) <= count(target, Symbol::Q)
    &&& count(part, Symbol::W) <= count(target, Symbol::W)
}

/// After `k` key presses, at most three, a full window holds its last
/// `3 - k` symbols and then the symbols pressed.
pub proof fn lemma_play_keeps_suffix(start: Seq<Symbol>, moves: Seq<Symbol>)
    requires
        is_state(start),
        moves.len() <= 3,
    ensures
        play(start, moves) == start.subrange(moves.len() as int, 3) + moves,
    decreases moves.len(),
{
    if moves.len() == 0 {
        assert(play(start, moves) =~= start.subrange(0, 3) + moves);
    } else {
        let front = moves.drop_last();
        lemma_play_keeps_suffix(start, front);
        let mid = start.subrange(front.len() as int, 3) + front;
        assert(slide(mid, moves.last()) =~= start.subrange(moves.len() as int, 3) + moves);
    }
}

/// A combo of three symbols can be reached with exactly `k` key presses, at
/// most three, exactly when the target covers the `3 - k` symbols that the
/// window keeps.
pub proof fn lemma_reaches_iff_covers(start: Seq<Symbol>, target: Seq<Symbol>, k: nat)
    requires
        is_state(start),
        is_state(target),
        canonical(target) == target,
        k <= 3,
    ensures
        reaches_in(start, target, k) <==> covers(target, start.subrange(k as int, 3)),
{
    let kept = start.subrange(k as int, 3);
    if reaches_in(start, target, k) {
        let moves = choose|moves: Seq<Symbol>|
            moves.len() == k && #[trigger] reaches(start, moves, target);
        lemma_play_keeps_suffix(start, moves);
        lemma_canonical_is_sorted_permutation(play(start, moves));
        lemma_count_concat(kept, moves, Symbol::E);
        lemma_count_concat(kept, moves, Symbol::Q);
        lemma_count_concat(kept, moves, Symbol::W);
    }
    if covers(target, kept) {
        let e = (count(target, Symbol::E) - count(kept, Symbol::E)) as nat;
        let q = (count(target, Symbol::Q) - count(kept, Symbol::Q)) as nat;
        let w = (count(target, Symbol::W) - count(kept, Symbol::W)) as nat;
        let moves = arrange(e, q, w);
        lemma_count_arrange(e, q, w);
        lemma_count_total(target);
        lemma_count_total(kept);
        assert(moves.len() == k);
        lemma_play_keeps_suffix(start, moves);
        lemma_count_concat(kept, moves, Symbol::E);
        lemma_count_concat(kept, moves, Symbol::Q);
        lemma_count_concat(kept, moves, Symbol::W);
        lemma_canonical_equal_iff_same_symbols(play(start, moves), target);
        assert(reaches(start, moves, target));
    }
}

/// The keystroke distance in closed form: a window is as many key presses
/// from a combo of three symbols as it must drop of its oldest symbols for
/// the combo to cover the rest.
pub proof fn lemma_distance_closed_form(start: Seq<Symbol>, target: Seq<Symbol>)
    requires
        is_state(start),
        is_state(target),
        canonical(target) == target,
    ensures
        min_presses(start, target) == if covers(target, start) {
            0nat
        } else if covers(target, start.subrange(1, 3)) {
            1
        } else if covers(target, start.subrange(2, 3)) {
            2
        } else {
            3
        },
{
    lemma_reaches_iff_covers(start, target, 0);
    lemma_reaches_iff_covers(start, target, 1);
    lemma_reaches_iff_covers(start, target, 2);
    lemma_reaches_iff_covers(start, target, 3);
    assert(start.subrange(0, 3) =~= start);
    assert(start.subrange(3, 3) =~= Seq::<Symbol>::empty());
}

fn state_code(s: &[Symbol; 3]) -> (c: usize)
    ensures
        c == code(s@),
        c < STATES,
{
    let a: usize = match s[0] {
        Symbol::Q => 0,
        Symbol::W => 1,
        Symbol::E => 2,
    };
    let b: usize = match s[1] {
        Symbol::Q => 0,
        Symbol::W => 1,
        Symbol::E => 2,
    };
    let c: usize = match s[2] {
        Symbol::Q => 0,
        Symbol::W => 1,
        Symbol::E => 2,
    };
    9 * a + 3 * b + c
}

/// The least number of key presses that turn the full buffer `start` into
/// some ordering of the combo `target`.
///
/// The search is breadth-first: it starts from `start`, tries the three
/// symbols on each state it takes off the queue, marks each state when it is
/// first seen, and stops at the first state whose canonical form is `target`.
/// Every combo of three symbols is found within three presses. A key that
/// does not hold three symbols matches no full buffer, and the answer is 0.
pub fn min_keystrokes(start: [Symbol; 3], target: ComboKey) -> (n: usize)
    ensures
        n == min_presses(start@, target@),
        n <= 3,
        target.is_full() ==> is_least_moves(start@, target@, n as nat),
        target.is_full() ==> (n == 0 <==> canonical(start@) == target@),
        !target.is_full() ==> n == 0,
{
    let symbols = [Symbol::Q, Symbol::W, Symbol::E];
    let mut queue: VecDeque<([Symbol; 3], usize)> = VecDeque::new();
    let mut visited: Vec<bool> = vec![false; STATES];
    let first = state_code(&start);
    proof {
        lemma_marked_none(visited@);
        lemma_marked_set(visited@, first as int);
    }
    visited.set(first, true);
    queue.push_back((start, 0));
    let ghost mut hist: Seq<([Symbol; 3], usize)> = seq![(start, 0usize)];
    let ghost mut pos: Seq<int> = Seq::new(STATES as nat, |c: int| if c == first { 0int } else { -1 });
    let ghost mut head: int = 0;
    proof {
        assert(queue@ =~= hist.subrange(0, 1));
        assert(marked_within(start@, visited@, 0)) by {
            assert forall|s: Seq<Symbol>| is_state(s) && #[trigger] dist(start@, s) <= 0 implies visited@[code(
                s,
            )] by {
                assert(s =~= start@);
            }
        }
    }
    loop
        invariant
            symbols@ == seq![Symbol::Q, Symbol::W, Symbol::E],
            consistent(start@, hist, pos, visited@),
            0 <= head <= hist.len(),
            queue@ == hist.subrange(head, hist.len() as int),
            all_expanded(target@, hist, visited@, head),
            head < hist.len() ==> marked_within(start@, visited@, hist[head].1 as int),
            head < hist.len() ==> hist[hist.len() - 1].1 <= hist[head].1 + 1,
        decreases 2 * STATES - hist.len() - head,
    {
        proof {
            lemma_marked_bound(visited@);
        }
        let (current, steps) = match queue.pop_front() {
            Some(entry) => entry,
            None => {
                proof {
                    assert(head == hist.len());
                    lemma_exhausted(start@, target, hist, pos, visited@);
                    lemma_count_arrange(target.exort as nat, target.quas as nat, target.wex as nat);
                    lemma_short_target_unreachable(start@, target@);
                }
                return 0;
            },
        };
        proof {
            lemma_dist_step(start@, current@, Symbol::Q);
        }
        let key = ComboKey::of(current.as_slice());
        if key == target {
            proof {
                lemma_found(start@, target@, hist, pos, visited@, head);
                lemma_least_moves_is_distance(start@, target@, steps as nat);
                lemma_count_arrange(target.exort as nat, target.quas as nat, target.wex as nat);
                if canonical(start@) == target@ {
                    assert(reaches(start@, Seq::<Symbol>::empty(), target@));
                }
            }
            return steps;
        }
        let ghost len_before = hist.len();
        let ghost head_before = head;
        proof {
            ComboKey::lemma_equal_iff_same_view(key, target);
            head = head + 1;
        }
        let mut k: usize = 0;
        while k < 3
            invariant
                symbols@ == seq![Symbol::Q, Symbol::W, Symbol::E],
                0 <= k <= 3,
                steps <= 3,
                consistent(start@, hist, pos, visited@),
                1 <= head <= hist.len(),
                hist[head - 1] == (current, steps),
                queue@ == hist.subrange(head, hist.len() as int),
                all_expanded(target@, hist, visited@, head - 1),
                canonical(current@) != target@,
                k >= 1 ==> visited@[code(slide(current@, Symbol::Q))],
                k >= 2 ==> visited@[code(slide(current@, Symbol::W))],
                k >= 3 ==> visited@[code(slide(current@, Symbol::E))],
                marked_within(start@, visited@, steps as int),
                hist[hist.len() - 1].1 <= steps + 1,
                hist.len() >= len_before,
                head == head_before + 1,
            decreases 3 - k,
        {
            let sym = symbols[k];
            let next = [current[1], current[2], sym];
            let c = state_code(&next);
            proof {
                lemma_slide_state(current@, sym);
                lemma_dist_step(start@, current@, sym);
                assert(next@ =~= slide(current@, sym));
            }
            if !visited[c] {
                proof {
                    lemma_enqueue(
                        start@,
                        target@,
                        hist,
                        pos,
                        visited@,
                        head - 1,
                        (next, (steps + 1) as usize),
                        steps as int,
                    );
                }
                visited.set(c, true);
                queue.push_back((next, steps + 1));
                proof {
                    pos = pos.update(c as int, hist.len() as int);
                    hist = hist.push((next, (steps + 1) as usize));
                    assert(queue@ =~= hist.subrange(head, hist.len() as int));
                }
            }
            k = k + 1;
        }
        proof {
            lemma_marked_bound(visited@);
            assert(all_expanded(target@, hist, visited@, head)) by {
                assert forall|i: int| 0 <= i < head implies expanded(
                    target@,
                    visited@,
                    (#[trigger] hist[i]).0@,
                ) by {
                    if i == head - 1 {
                        assert(hist[i].0@ == current@);
                    }
                }
            }
            if head < hist.len() {
                if hist[head].1 > steps {
                    assert forall|i: int| head <= i < hist.len() implies (#[trigger] hist[i]).1
                        > steps by {
                        assert(hist[head].1 <= hist[i].1);
                    }
                    lemma_next_level(start@, target@, hist, pos, visited@, head, steps as int);
                }
            }
        }
    }
}

} // verus!
