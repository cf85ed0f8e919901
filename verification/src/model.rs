//! The mathematical model that all strategies are specified against.
//!
//! The value of a position is the best of the values of its movements, and
//! never below the worst score. The movement to play is the first one of
//! maximal value: a later movement replaces an earlier one only where it is
//! strictly better.

use vstd::prelude::*;
use crate::game::{GameTree, Movement};

verus! {

/// The largest of the worst score and of the first `n` entries of `t`.
pub open spec fn scan_best(t: Seq<int>, n: nat) -> int
    decreases n,
{
    if n == 0 {
        -127
    } else {
        let before: int = scan_best(t, (n - 1) as nat);
        if t[n - 1] > before {
            t[n - 1]
        } else {
            before
        }
    }
}

/// The first index that holds the largest entry of `t` among the indices
/// from `from` up to, but not including, `to`; none where the range is empty.
pub open spec fn first_peak(t: Seq<int>, from: int, to: int) -> Option<int>
    decreases to - from,
{
    if to <= from {
        None
    } else {
        match first_peak(t, from, to - 1) {
            Some(i) => if t[to - 1] > t[i] {
                Some(to - 1)
            } else {
                Some(i)
            },
            None => Some(to - 1),
        }
    }
}

/// The entry at the first peak of the range, or the worst score where the
/// range is empty.
pub open spec fn peak_value(t: Seq<int>, from: int, to: int) -> int {
    match first_peak(t, from, to) {
        Some(i) => t[i],
        None => -127,
    }
}

/// The value of the `i`-th movement of `s` for the player to move, searched
/// `depth` plies deep: at depth one the static value of the successor, deeper
/// the negated value of the successor one ply less deep.
pub open spec fn move_value(s: GameTree, depth: nat, i: int) -> int
    decreases depth, 0nat,
{
    if depth <= 1 {
        s.successor(i).score() as int
    } else {
        -position_value(s.successor(i), (depth - 1) as nat)
    }
}

/// The values of all movements of `s`, in enumeration order.
pub open spec fn move_values(s: GameTree, depth: nat) -> Seq<int>
    decreases depth, 1nat,
{
    Seq::new(s.width(), |i: int| move_value(s, depth, i))
}

/// The negamax value of `s` at `depth`: the maximum of the worst score and
/// of the values of its movements. At depth zero nothing is searched.
pub open spec fn position_value(s: GameTree, depth: nat) -> int
    decreases depth, 2nat,
{
    if depth == 0 {
        -127
    } else {
        scan_best(move_values(s, depth), s.width())
    }
}

/// The movement that negamax chooses in `s` at `depth`: the first movement
/// of maximal value. There is one unless the position is terminal or the
/// depth is zero.
pub open spec fn best_move(s: GameTree, depth: nat) -> Option<Movement> {
    if depth == 0 {
        None
    } else {
        s.movement_at(first_peak(move_values(s, depth), 0, s.width() as int))
    }
}

/// The depth that iterative deepening searches after `depth`, or none where
/// that would reach `ceiling`.
pub open spec fn next_depth(depth: u8, ceiling: u8) -> Option<u8> {
    if depth + 1 < ceiling {
        Some((depth + 1) as u8)
    } else {
        None
    }
}

/// The answers of the searches at depths one to `n`, shallowest first.
pub open spec fn deepening_answers(s: GameTree, n: nat) -> Seq<Option<Movement>> {
    Seq::new(n, |k: int| best_move(s, (k + 1) as nat))
}

/// What a windowed search may report in place of the exact value: at or below
/// `alpha` an upper bound of it, at or above `beta` a lower bound of it, and
/// strictly between the two the value itself.
pub open spec fn within_window(r: int, exact: int, alpha: int, beta: int) -> bool {
    &&& (r <= alpha ==> exact <= r)
    &&& (r >= beta ==> exact >= r)
    &&& (alpha < r < beta ==> exact == r)
}

/// The best value never gets worse as the scan goes on.
pub proof fn lemma_scan_grows(t: Seq<int>, n: nat, m: nat)
    requires
        n <= m,
    ensures
        scan_best(t, n) <= scan_best(t, m),
    decreases m,
{
    if n < m {
        lemma_scan_grows(t, n, (m - 1) as nat);
    }
}

/// A scan stays below any bound that holds of the worst score and of its
/// entries.
pub proof fn lemma_scan_upper(t: Seq<int>, n: nat, top: int)
    requires
        n <= t.len(),
        -127 <= top,
        forall|j: int| 0 <= j < n ==> t[j] <= top,
    ensures
        scan_best(t, n) <= top,
    decreases n,
{
    if n > 0 {
        lemma_scan_upper(t, (n - 1) as nat, top);
    }
}

/// The first peak of a non-empty range lies in the range, no entry of the
/// range exceeds it, and every entry of the range before it is strictly
/// smaller.
pub proof fn lemma_first_peak(t: Seq<int>, from: int, to: int)
    requires
        0 <= from < to <= t.len(),
    ensures
        match first_peak(t, from, to) {
            Some(i) => from <= i < to && (forall|j: int| from <= j < to ==> t[j] <= t[i]) && (
            forall|j: int| from <= j < i ==> t[j] < t[i]),
            None => false,
        },
    decreases to - from,
{
    if from < to - 1 {
        lemma_first_peak(t, from, to - 1);
    } else {
        assert(first_peak(t, from, to - 1) is None);
    }
}

/// The best value of a scan is the entry at the first peak, or the worst
/// score where that is larger.
pub proof fn lemma_peak_is_best(t: Seq<int>, n: nat)
    requires
        n <= t.len(),
    ensures
        scan_best(t, n) == if peak_value(t, 0, n as int) > -127 {
            peak_value(t, 0, n as int)
        } else {
            -127
        },
    decreases n,
{
    if n > 0 {
        lemma_peak_is_best(t, (n - 1) as nat);
    }
}

/// Merging the first peak of a range into the first peak of everything
/// before it, with the earlier one kept on ties, gives the first peak of
/// both together.
pub proof fn lemma_merge_peaks(t: Seq<int>, from: int, to: int)
    requires
        0 < from < to <= t.len(),
    ensures
        first_peak(t, 0, to) == if peak_value(t, from, to) > peak_value(t, 0, from) {
            first_peak(t, from, to)
        } else {
            first_peak(t, 0, from)
        },
        first_peak(t, 0, from) is Some,
        first_peak(t, from, to) is Some,
    decreases to - from,
{
    lemma_first_peak(t, 0, from);
    lemma_first_peak(t, from, to);
    if from < to - 1 {
        lemma_merge_peaks(t, from, to - 1);
    }
}

/// Once the first peak holds a value that no entry exceeds, it stays the
/// first peak however far the range is extended.
pub proof fn lemma_peak_stops(t: Seq<int>, n: int, m: int, top: int)
    requires
        0 < n <= m <= t.len(),
        forall|j: int| 0 <= j < m ==> t[j] <= top,
        peak_value(t, 0, n) >= top,
    ensures
        first_peak(t, 0, m) == first_peak(t, 0, n),
    decreases m - n,
{
    lemma_first_peak(t, 0, n);
    if n < m {
        lemma_peak_stops(t, n, m - 1, top);
    }
}

/// Every negamax value lies between the worst score and its negation.
pub proof fn lemma_value_bounds(s: GameTree, depth: nat)
    ensures
        -127 <= position_value(s, depth) <= 127,
    decreases depth,
{
    if depth > 0 {
        let t = move_values(s, depth);
        assert forall|j: int| 0 <= j < s.width() implies t[j] <= 127 by {
            if depth > 1 {
                lemma_value_bounds(s.successor(j), (depth - 1) as nat);
            }
        }
        lemma_scan_upper(t, s.width(), 127);
        lemma_scan_grows(t, 0, s.width());
    }
}

/// The value of a movement lies in the range of scores; from depth two on it
/// is never below the worst score.
pub proof fn lemma_move_value_bounds(s: GameTree, depth: nat, i: int)
    ensures
        -128 <= move_value(s, depth, i) <= 127,
        depth >= 2 ==> -127 <= move_value(s, depth, i),
{
    if depth > 1 {
        lemma_value_bounds(s.successor(i), (depth - 1) as nat);
    }
}

/// On a terminal position the value is the worst score and no movement is
/// chosen, at every depth.
pub proof fn terminal_position(s: GameTree, depth: nat)
    requires
        s.width() == 0,
    ensures
        position_value(s, depth) == -127,
        best_move(s, depth) is None,
{
}

/// A position that has a legal movement always has a chosen one, at every
/// depth from one on, whatever the movements are worth.
pub proof fn nonterminal_position_has_a_move(s: GameTree, depth: nat)
    requires
        s.width() > 0,
        depth >= 1,
    ensures
        best_move(s, depth) is Some,
{
    lemma_first_peak(move_values(s, depth), 0, s.width() as int);
}

/// Iterative deepening never falls back to "no movement": on a position that
/// has a legal movement, every answer from depth one on is a movement.
pub proof fn deepening_never_loses_the_move(s: GameTree, n: nat)
    requires
        s.width() > 0,
    ensures
        forall|k: int| 0 <= k < n ==> (#[trigger] deepening_answers(s, n)[k]) is Some,
{
    assert forall|k: int| 0 <= k < n implies (#[trigger] deepening_answers(s, n)[k]) is Some by {
        nonterminal_position_has_a_move(s, (k + 1) as nat);
    }
}

/// Whether playing `m` in `s` leads to the value of `s`: the movement is
/// legal, and the movement at the first index that lists it is worth what
/// the position is worth.
pub open spec fn leads_to_value(s: GameTree, depth: nat, m: Movement) -> bool {
    exists|i: int|
        #[trigger] s.first_index_of(m, i) && move_value(s, depth, i) == position_value(s, depth)
}

/// The chosen movement and the position's value agree: on a position with a
/// legal movement the chosen movement is the first of maximal value, and
/// that value is the position's value.
pub proof fn chosen_move_attains_value(s: GameTree, depth: nat)
    requires
        depth >= 1,
        s.width() > 0,
        s.valid(),
    ensures
        match first_peak(move_values(s, depth), 0, s.width() as int) {
            Some(i) => 0 <= i < s.width() && best_move(s, depth) == Some(s.movement(i))
                && move_value(s, depth, i) == position_value(s, depth) && (forall|j: int|
                0 <= j < s.width() ==> move_value(s, depth, j) <= position_value(s, depth)) && (
            forall|j: int| 0 <= j < i ==> move_value(s, depth, j) < position_value(s, depth)),
            None => false,
        },
{
    let t = move_values(s, depth);
    lemma_first_peak(t, 0, s.width() as int);
    lemma_peak_is_best(t, s.width());
    let i = first_peak(t, 0, s.width() as int).unwrap();
    lemma_move_value_bounds(s, depth, i);
    assert(t[i] == move_value(s, depth, i));
    assert(s.successor(i).score() > i8::MIN);
    assert forall|j: int| 0 <= j < s.width() implies move_value(s, depth, j) <= position_value(
        s,
        depth,
    ) by {
        assert(t[j] == move_value(s, depth, j));
    }
    assert forall|j: int| 0 <= j < i implies move_value(s, depth, j) < position_value(
        s,
        depth,
    ) by {
        assert(t[j] == move_value(s, depth, j));
    }
}

/// Playing the chosen movement leads to the position's value, at every
/// depth from one on: the chosen movement is listed once, and the movement
/// at that index is worth what the position is worth.
pub proof fn chosen_move_leads_to_value(s: GameTree, depth: nat)
    requires
        depth >= 1,
        s.valid(),
    ensures
        best_move(s, depth) matches Some(m) ==> leads_to_value(s, depth, m),
        best_move(s, depth) is None <==> s.width() == 0,
{
    if s.width() > 0 {
        chosen_move_attains_value(s, depth);
        let i = first_peak(move_values(s, depth), 0, s.width() as int).unwrap();
        assert(s.first_index_of(s.movement(i), i));
    }
}

} // verus!
