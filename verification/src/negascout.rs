//! Principal variation search.

use vstd::prelude::*;
use crate::game::{GameTree, Movement, WORST};
use crate::greedy::Greedy;
use crate::slot::MoveSlot;
use crate::model::{
    best_move, chosen_move_leads_to_value, deepening_answers, first_peak, leads_to_value,
    lemma_move_value_bounds, lemma_peak_stops, lemma_scan_grows, lemma_value_bounds, move_values,
    next_depth, nonterminal_position_has_a_move, peak_value, position_value, scan_best,
    within_window,
};

verus! {

/// The lower end of the root's window: the worst score, so that every
/// movement lies inside the window.
pub const LOWER_BOUND: i8 = -127;

/// The upper end of the root's window: the largest value that a movement
/// can have. A movement that reaches it cannot be improved on, and the root
/// stops there.
pub const UPPER_BOUND: i8 = 127;

/// The depth that iterative deepening stops short of.
pub const MAX_DEPTH: u8 = 10;

/// Where a principal variation scan of a position's movements stands: the
/// best value seen, the lower end of the window as raised so far, the upper
/// end of the minimal window for the next movement, and whether the window
/// has closed, which ends the scan.
pub struct ScoutScan {
    pub best: int,
    pub raised: int,
    pub narrow: int,
    pub cut: bool,
}

/// The value that the scan attaches to the `i`-th movement of `s`, given
/// where the scan stands before it: the negated result of a search inside
/// the minimal window, or, where that lands strictly inside the whole window
/// and the minimal window was not the whole one, of a second search inside
/// the whole window.
pub open spec fn scout_trial(
    s: GameTree,
    depth: nat,
    beta: int,
    before: ScoutScan,
    i: int,
) -> int
    decreases depth, 0nat, 0nat,
{
    if depth < 2 {
        -127
    } else {
        let first: int = -scout_value(
            s.successor(i),
            (depth - 1) as nat,
            -before.narrow,
            -before.raised,
        );
        if before.raised < first && first < beta && before.narrow != beta {
            -scout_value(s.successor(i), (depth - 1) as nat, -beta, -before.raised)
        } else {
            first
        }
    }
}

/// The principal variation scan of `s` after its first `n` movements, two
/// plies or deeper. The first movement is searched inside the whole window,
/// every later one is tried inside the minimal window above the raised lower
/// end; a value above the best one replaces it and raises the lower end of
/// the window where it exceeds it; the scan ends once the lower end has
/// reached `beta`.
pub open spec fn scout_scan(s: GameTree, depth: nat, alpha: int, beta: int, n: nat) -> ScoutScan
    decreases depth, 1nat, n,
{
    if n == 0 {
        ScoutScan { best: -127, raised: alpha, narrow: beta, cut: false }
    } else {
        let before: ScoutScan = scout_scan(s, depth, alpha, beta, (n - 1) as nat);
        if before.cut || depth < 2 {
            before
        } else {
            let value: int = scout_trial(s, depth, beta, before, n - 1);
            let best: int = if value > before.best { value } else { before.best };
            let raised: int = if value > before.best && value > before.raised {
                value
            } else {
                before.raised
            };
            ScoutScan { best, raised, narrow: raised + 1, cut: raised >= beta }
        }
    }
}

/// What principal variation search returns for `s` at `depth` inside the
/// window from `alpha` to `beta`: the worst score at depth zero, the greedy
/// value at depth one, and deeper the raised lower end of the window where
/// the scan was cut short, else the best value seen.
pub open spec fn scout_value(s: GameTree, depth: nat, alpha: int, beta: int) -> int
    decreases depth, 2nat, 0nat,
{
    if depth <= 1 {
        position_value(s, depth)
    } else {
        let scan: ScoutScan = scout_scan(s, depth, alpha, beta, s.width());
        if scan.cut {
            scan.raised
        } else {
            scan.best
        }
    }
}

/// A scan that was cut short stays as it is.
pub proof fn lemma_scout_scan_stops(s: GameTree, depth: nat, alpha: int, beta: int, n: nat, m: nat)
    requires
        n <= m,
        scout_scan(s, depth, alpha, beta, n).cut,
    ensures
        scout_scan(s, depth, alpha, beta, m) == scout_scan(s, depth, alpha, beta, n),
    decreases m,
{
    if n < m {
        lemma_scout_scan_stops(s, depth, alpha, beta, n, (m - 1) as nat);
    }
}

/// How a principal variation scan relates to the plain scan of the same
/// movements: the lower end of the window is the larger of `alpha` and the
/// best value; as long as the window is open the best value is the plain
/// best value once it exceeds `alpha` and an upper bound of it before; and a
/// cut proves that the position is worth at least the raised lower end.
pub proof fn lemma_scout_scan(s: GameTree, depth: nat, alpha: int, beta: int, n: nat)
    requires
        depth >= 2,
        -127 <= alpha < beta <= 127,
        n <= s.width(),
    ensures
        ({
            let scan = scout_scan(s, depth, alpha, beta, n);
            let plain = scan_best(move_values(s, depth), n);
            &&& -127 <= scan.best <= 127
            &&& scan.raised == if scan.best > alpha { scan.best } else { alpha }
            &&& scan.cut == (scan.raised >= beta)
            &&& !scan.cut ==> scan.raised < scan.narrow <= beta
            &&& !scan.cut && scan.best <= alpha ==> plain <= scan.best
            &&& !scan.cut && scan.best > alpha ==> plain == scan.best
            &&& scan.cut ==> plain >= scan.raised
        }),
    decreases depth, n,
{
    if n > 0 {
        let t = move_values(s, depth);
        let before = scout_scan(s, depth, alpha, beta, (n - 1) as nat);
        lemma_scout_scan(s, depth, alpha, beta, (n - 1) as nat);
        lemma_scan_grows(t, (n - 1) as nat, n);
        if !before.cut {
            let child = s.successor(n - 1);
            let below = (depth - 1) as nat;
            scouting_preserves_value(child, below, -before.narrow, -before.raised);
            scouting_preserves_value(child, below, -beta, -before.raised);
            assert(t[n - 1] == -position_value(child, below));
            assert(within_window(
                scout_trial(s, depth, beta, before, n - 1),
                t[n - 1],
                before.raised,
                beta,
            ));
        }
    }
}

/// Scouting preserves the value: what principal variation search returns is
/// the negamax value where that value lies strictly inside the window, an
/// upper bound of it at or below `alpha`, and a lower bound of it at or
/// above `beta`. With the full window it is the negamax value itself.
pub proof fn scouting_preserves_value(s: GameTree, depth: nat, alpha: int, beta: int)
    requires
        -127 <= alpha < beta <= 127,
    ensures
        within_window(scout_value(s, depth, alpha, beta), position_value(s, depth), alpha, beta),
        -127 <= scout_value(s, depth, alpha, beta) <= 127,
        alpha == -127 && beta == 127 ==> scout_value(s, depth, alpha, beta) == position_value(
            s,
            depth,
        ),
    decreases depth, s.width() + 1,
{
    lemma_value_bounds(s, depth);
    if depth >= 2 {
        lemma_scout_scan(s, depth, alpha, beta, s.width());
    }
}

/// At depth one the search is the greedy one: the greedy value, whatever the
/// window.
pub proof fn depth_one_is_greedy(s: GameTree, alpha: int, beta: int)
    ensures
        scout_value(s, 1, alpha, beta) == position_value(s, 1),
{
}

/// On a terminal position the result is the worst score, at every depth and
/// whatever the window.
pub proof fn terminal_position_is_worst(s: GameTree, depth: nat, alpha: int, beta: int)
    requires
        s.width() == 0,
    ensures
        scout_value(s, depth, alpha, beta) == -127,
{
}

/// Principal variation search with a given recursion depth.
pub struct NegaScout(pub u8);

impl NegaScout {
    /// Searches `state` inside the window from `alpha` to `beta`. Every
    /// movement after the first is tried with a minimal window and searched
    /// again with the whole window only where that trial lands inside it.
    /// The result is the negamax value where that value lies strictly inside
    /// the window, and a bound on it otherwise. With the full window the
    /// result is the negamax value itself. On a terminal position, and at
    /// depth zero and one, the window plays no part; elsewhere its bounds
    /// are negated, so neither may be the one score that has no negation.
    pub fn evaluate(&mut self, state: &GameTree, alpha: i8, beta: i8) -> (r: i8)
        requires
            old(self).0 >= 2 && state.width() > 0 ==> alpha >= WORST && beta >= WORST,
        ensures
            state.width() == 0 ==> r == WORST,
            r as int == scout_value(*state, old(self).0 as nat, alpha as int, beta as int),
            r >= WORST,
            final(self).0 == old(self).0,
            alpha < beta ==> within_window(
                r as int,
                position_value(*state, old(self).0 as nat),
                alpha as int,
                beta as int,
            ),
            alpha == WORST && beta == i8::MAX ==> r as int == position_value(
                *state,
                old(self).0 as nat,
            ),
        decreases old(self).0,
    {
        proof {
            lemma_value_bounds(*state, self.0 as nat);
            if WORST <= alpha < beta {
                scouting_preserves_value(*state, self.0 as nat, alpha as int, beta as int);
            }
        }
        if self.0 == 0 {
            return WORST;
        }
        if self.0 == 1 {
            return Greedy().evaluate(state);
        }
        if state.branches.len() == 0 {
            return WORST;
        }
        let ghost depth = self.0 as nat;
        let mut deeper = NegaScout(self.0 - 1);
        let mut raised: i8 = alpha;
        let mut beta_prim: i8 = beta;
        let mut best_value: i8 = WORST;
        let mut i: usize = 0;
        while i < state.branches.len()
            invariant
                i <= state.width(),
                depth >= 2,
                old(self).0 == depth,
                deeper.0 == depth - 1,
                best_value >= WORST,
                raised >= WORST,
                alpha >= WORST,
                beta >= WORST,
                beta_prim >= WORST,
                scout_scan(*state, depth, alpha as int, beta as int, i as nat) == (ScoutScan {
                    best: best_value as int,
                    raised: raised as int,
                    narrow: beta_prim as int,
                    cut: false,
                }),
            decreases state.width() - i,
        {
            let next = &state.branches[i].next;
            let mut value: i8 = -deeper.evaluate(next, -beta_prim, -raised);
            if raised < value && value < beta && beta_prim != beta {
                value = -deeper.evaluate(next, -beta, -raised);
            }
            assert(value as int == scout_trial(
                *state,
                depth,
                beta as int,
                scout_scan(*state, depth, alpha as int, beta as int, i as nat),
                i as int,
            ));
            if value > best_value {
                best_value = value;
                if value > raised {
                    raised = value;
                }
            }
            if raised >= beta {
                proof {
                    lemma_scout_scan_stops(
                        *state,
                        depth,
                        alpha as int,
                        beta as int,
                        (i + 1) as nat,
                        state.width(),
                    );
                    if alpha < beta {
                        scouting_preserves_value(*state, depth, alpha as int, beta as int);
                    }
                }
                return raised;
            }
            beta_prim = raised + 1;
            i += 1;
        }
        best_value
    }

    /// The movement that negamax chooses at the configured depth, the first
    /// of maximal value; none only on a terminal position or at depth zero.
    /// The root's window spans every score; the first movement is searched
    /// inside it, every later one is tried with a minimal window first, and
    /// the root stops at a movement of the largest possible value.
    pub fn compute_next_move(&mut self, state: &GameTree) -> (r: Option<Movement>)
        ensures
            r == best_move(*state, old(self).0 as nat),
            old(self).0 >= 1 ==> (r is None <==> state.width() == 0),
            r matches Some(m) ==> leads_to_value(*state, old(self).0 as nat, m),
            final(self).0 == old(self).0,
    {
        if self.0 == 0 {
            return None;
        }
        if self.0 == 1 {
            return Greedy().compute_next_move(state);
        }
        let ghost depth = self.0 as nat;
        let ghost t = move_values(*state, depth);
        let mut deeper = NegaScout(self.0 - 1);
        let mut best_move: Option<Movement> = None;
        let mut best_value: i8 = LOWER_BOUND;
        let beta: i8 = UPPER_BOUND;
        let mut beta_prim: i8 = beta;
        let mut i: usize = 0;
        proof {
            assert forall|j: int| 0 <= j < state.width() implies t[j] <= 127 by {
                lemma_move_value_bounds(*state, depth, j);
            }
        }
        while i < state.branches.len()
            invariant
                i <= state.width(),
                depth >= 2,
                deeper.0 == depth - 1,
                t == move_values(*state, depth),
                forall|j: int| 0 <= j < state.width() ==> t[j] <= 127,
                old(self).0 == depth,
                self.0 == depth,
                beta == 127,
                -127 <= best_value < 127,
                best_value < beta_prim <= 127,
                i == 0 ==> beta_prim == 127,
                best_value as int == peak_value(t, 0, i as int),
                (i == 0) == (first_peak(t, 0, i as int) is None),
                best_move == state.movement_at(first_peak(t, 0, i as int)),
            decreases state.width() - i,
        {
            proof {
                lemma_move_value_bounds(*state, depth, i as int);
            }
            let next = &state.branches[i].next;
            let mut value: i8 = -deeper.evaluate(next, -beta_prim, -best_value);
            if best_value < value && beta_prim != beta {
                value = -deeper.evaluate(next, -beta, -best_value);
            }
            assert(within_window(value as int, t[i as int], best_value as int, 127));
            if i == 0 || value > best_value {
                best_value = value;
                best_move = Some(state.branches[i].movement);
            }
            if best_value >= beta {
                proof {
                    lemma_peak_stops(t, i + 1, state.width() as int, 127);
                    use_type_invariant(state);
                    chosen_move_leads_to_value(*state, depth);
                }
                return best_move;
            }
            beta_prim = best_value + 1;
            i += 1;
        }
        proof {
            use_type_invariant(state);
            chosen_move_leads_to_value(*state, self.0 as nat);
        }
        best_move
    }
}

/// One step of iterative deepening with principal variation search: the answer to publish for
/// `depth`, and the depth to search next, or none once the deepest search is
/// done. Whoever runs the steps publishes each answer before taking the next.
pub fn negascout_anytime_step(state: &GameTree, depth: u8) -> (r: (Option<Movement>, Option<u8>))
    ensures
        r.0 == best_move(*state, depth as nat),
        r.1 == next_depth(depth, MAX_DEPTH),
{
    let answer = NegaScout(depth).compute_next_move(state);
    let next: Option<u8> = if depth < MAX_DEPTH - 1 {
        Some(depth + 1)
    } else {
        None
    };
    (answer, next)
}

/// Iterative deepening with principal variation search: searches `state` at
/// every depth from one up to, but not including, `MAX_DEPTH`, and publishes
/// each answer as soon as its depth is complete. The slot ends up holding the
/// answer of the deepest search, which is a movement unless the position is
/// terminal.
pub fn negascout_anytime(state: &GameTree, movement: &mut MoveSlot)
    ensures
        final(movement).published() == old(movement).published() + deepening_answers(*state, 9),
        final(movement).current() == best_move(*state, 9),
        state.width() > 0 ==> final(movement).current() is Some,
{
    let mut depth: u8 = 1;
    while depth < MAX_DEPTH
        invariant
            1 <= depth <= 10,
            movement.published() == old(movement).published() + deepening_answers(
                *state,
                (depth - 1) as nat,
            ),
            depth > 1 ==> movement.current() == best_move(*state, (depth - 1) as nat),
        decreases 10 - depth,
    {
        let step = negascout_anytime_step(state, depth);
        movement.store(step.0);
        depth += 1;
    }
    proof {
        if state.width() > 0 {
            nonterminal_position_has_a_move(*state, 9);
        }
    }
}

} // verus!
