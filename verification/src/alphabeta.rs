//! Negamax with alpha-beta pruning.

use vstd::prelude::*;
use crate::game::{GameTree, Movement, WORST};
use crate::greedy::Greedy;
use crate::slot::MoveSlot;
use crate::model::{
    best_move, chosen_move_leads_to_value, deepening_answers, first_peak, leads_to_value,
    lemma_move_value_bounds, lemma_scan_grows, lemma_value_bounds, move_values, next_depth,
    nonterminal_position_has_a_move, peak_value, position_value, scan_best, within_window,
};

verus! {

/// Where a pruned scan of a position's movements stands: the best value
/// seen, the lower end of the window as raised so far, and whether the
/// window has closed, which ends the scan.
pub struct PrunedScan {
    pub best: int,
    pub raised: int,
    pub cut: bool,
}

/// The pruned scan of `s` after its first `n` movements, two plies or
/// deeper. Each movement is searched one ply less deep inside the negated
/// window; a value above the best one replaces it and raises the lower end
/// of the window where it exceeds it; the scan ends once the lower end has
/// reached `beta`.
pub open spec fn pruned_scan(s: GameTree, depth: nat, alpha: int, beta: int, n: nat) -> PrunedScan
    decreases depth, n,
{
    if n == 0 {
        PrunedScan { best: -127, raised: alpha, cut: false }
    } else {
        let before: PrunedScan = pruned_scan(s, depth, alpha, beta, (n - 1) as nat);
        if before.cut || depth < 2 {
            before
        } else {
            let value: int = -pruned_value(
                s.successor(n - 1),
                (depth - 1) as nat,
                -beta,
                -before.raised,
            );
            let best: int = if value > before.best { value } else { before.best };
            let raised: int = if value > before.best && value > before.raised {
                value
            } else {
                before.raised
            };
            PrunedScan { best, raised, cut: raised >= beta }
        }
    }
}

/// What alpha-beta pruning returns for `s` at `depth` inside the window
/// from `alpha` to `beta`: the worst score at depth zero, the greedy value
/// at depth one, and deeper the raised lower end of the window where the
/// scan was cut short, else the best value seen.
pub open spec fn pruned_value(s: GameTree, depth: nat, alpha: int, beta: int) -> int
    decreases depth, s.width() + 1,
{
    if depth <= 1 {
        position_value(s, depth)
    } else {
        let scan: PrunedScan = pruned_scan(s, depth, alpha, beta, s.width());
        if scan.cut {
            scan.raised
        } else {
            scan.best
        }
    }
}

/// A scan that was cut short stays as it is.
pub proof fn lemma_pruned_scan_stops(
    s: GameTree,
    depth: nat,
    alpha: int,
    beta: int,
    n: nat,
    m: nat,
)
    requires
        n <= m,
        pruned_scan(s, depth, alpha, beta, n).cut,
    ensures
        pruned_scan(s, depth, alpha, beta, m) == pruned_scan(s, depth, alpha, beta, n),
    decreases m,
{
    if n < m {
        lemma_pruned_scan_stops(s, depth, alpha, beta, n, (m - 1) as nat);
    }
}

/// How a pruned scan relates to the plain scan of the same movements: the
/// lower end of the window is the larger of `alpha` and the best value; as
/// long as the window is open the best value is the plain best value once
/// it exceeds `alpha` and an upper bound of it before; and a cut proves
/// that the position is worth at least the raised lower end.
pub proof fn lemma_pruned_scan(s: GameTree, depth: nat, alpha: int, beta: int, n: nat)
    requires
        depth >= 2,
        -127 <= alpha < beta <= 127,
        n <= s.width(),
    ensures
        ({
            let scan = pruned_scan(s, depth, alpha, beta, n);
            let plain = scan_best(move_values(s, depth), n);
            &&& -127 <= scan.best <= 127
            &&& scan.raised == if scan.best > alpha { scan.best } else { alpha }
            &&& scan.cut == (scan.raised >= beta)
            &&& !scan.cut && scan.best <= alpha ==> plain <= scan.best
            &&& !scan.cut && scan.best > alpha ==> plain == scan.best
            &&& scan.cut ==> plain >= scan.raised
        }),
    decreases depth, n,
{
    if n > 0 {
        let t = move_values(s, depth);
        let before = pruned_scan(s, depth, alpha, beta, (n - 1) as nat);
        lemma_pruned_scan(s, depth, alpha, beta, (n - 1) as nat);
        lemma_scan_grows(t, (n - 1) as nat, n);
        if !before.cut {
            pruning_preserves_value(
                s.successor(n - 1),
                (depth - 1) as nat,
                -beta,
                -before.raised,
            );
            assert(t[n - 1] == -position_value(s.successor(n - 1), (depth - 1) as nat));
        }
    }
}

/// Pruning preserves the value: what alpha-beta pruning returns is the
/// negamax value where that value lies strictly inside the window, an upper
/// bound of it at or below `alpha`, and a lower bound of it at or above
/// `beta`. With the full window it is the negamax value itself.
pub proof fn pruning_preserves_value(s: GameTree, depth: nat, alpha: int, beta: int)
    requires
        -127 <= alpha < beta <= 127,
    ensures
        within_window(pruned_value(s, depth, alpha, beta), position_value(s, depth), alpha, beta),
        -127 <= pruned_value(s, depth, alpha, beta) <= 127,
        alpha == -127 && beta == 127 ==> pruned_value(s, depth, alpha, beta) == position_value(
            s,
            depth,
        ),
    decreases depth, s.width() + 1,
{
    lemma_value_bounds(s, depth);
    if depth >= 2 {
        lemma_pruned_scan(s, depth, alpha, beta, s.width());
    }
}

/// At depth one there is nothing to prune: the result is the greedy value,
/// whatever the window.
pub proof fn depth_one_is_greedy(s: GameTree, alpha: int, beta: int)
    ensures
        pruned_value(s, 1, alpha, beta) == position_value(s, 1),
{
}

/// On a terminal position the result is the worst score, at every depth and
/// whatever the window.
pub proof fn terminal_position_is_worst(s: GameTree, depth: nat, alpha: int, beta: int)
    requires
        s.width() == 0,
    ensures
        pruned_value(s, depth, alpha, beta) == -127,
{
}

/// Alpha-beta pruning with a given maximum number of recursions.
pub struct AlphaBeta(pub u8);

impl AlphaBeta {
    /// Searches `state` inside the window from `alpha` to `beta`. Pruning
    /// skips only movements that cannot change the outcome: the result is
    /// the negamax value where that value lies strictly inside the window,
    /// and a bound on it otherwise. With the full window the result is the
    /// negamax value itself. On a terminal position, and at depth zero and
    /// one, the window plays no part; elsewhere its bounds are negated, so
    /// neither may be the one score that has no negation.
    pub fn evaluate(&mut self, state: &GameTree, alpha: i8, beta: i8) -> (r: i8)
        requires
            old(self).0 >= 2 && state.width() > 0 ==> alpha >= WORST && beta >= WORST,
        ensures
            state.width() == 0 ==> r == WORST,
            r as int == pruned_value(*state, old(self).0 as nat, alpha as int, beta as int),
            r >= WORST,
            final(self).0 == old(self).0,
            alpha < beta ==> within_window(
                r as int,
                position_value(*state, old(self).0 as nat),
                alpha as int,
                beta as int,
            ),
            alpha == WORST && beta == i8::MAX ==> r as int == position_value(
                *state,
                old(self).0 as nat,
            ),
        decreases old(self).0,
    {
        proof {
            lemma_value_bounds(*state, self.0 as nat);
            if WORST <= alpha < beta {
                pruning_preserves_value(*state, self.0 as nat, alpha as int, beta as int);
            }
        }
        if self.0 == 0 {
            return WORST;
        }
        if self.0 == 1 {
            return Greedy().evaluate(state);
        }
        if state.branches.len() == 0 {
            return WORST;
        }
        let ghost depth = self.0 as nat;
        let mut deeper = AlphaBeta(self.0 - 1);
        let mut raised: i8 = alpha;
        let mut best_value: i8 = WORST;
        let mut i: usize = 0;
        while i < state.branches.len()
            invariant
                i <= state.width(),
                depth >= 2,
                old(self).0 == depth,
                deeper.0 == depth - 1,
                best_value >= WORST,
                raised >= WORST,
                alpha >= WORST,
                beta >= WORST,
                pruned_scan(*state, depth, alpha as int, beta as int, i as nat) == (PrunedScan {
                    best: best_value as int,
                    raised: raised as int,
                    cut: false,
                }),
            decreases state.width() - i,
        {
            let value: i8 = -deeper.evaluate(&state.branches[i].next, -beta, -raised);
            if value > best_value {
                best_value = value;
                if value > raised {
                    raised = value;
                }
            }
            if raised >= beta {
                proof {
                    lemma_pruned_scan_stops(
                        *state,
                        depth,
                        alpha as int,
                        beta as int,
                        (i + 1) as nat,
                        state.width(),
                    );
                    if alpha < beta {
                        pruning_preserves_value(*state, depth, alpha as int, beta as int);
                    }
                }
                return raised;
            }
            i += 1;
        }
        best_value
    }

    /// The movement that negamax chooses at the configured depth, the first
    /// of maximal value, found with pruning below the root; none only on a
    /// terminal position or at depth zero.
    pub fn compute_next_move(&mut self, state: &GameTree) -> (r: Option<Movement>)
        ensures
            r == best_move(*state, old(self).0 as nat),
            old(self).0 >= 1 ==> (r is None <==> state.width() == 0),
            r matches Some(m) ==> leads_to_value(*state, old(self).0 as nat, m),
            final(self).0 == old(self).0,
    {
        if self.0 == 0 {
            return None;
        }
        if self.0 == 1 {
            return Greedy().compute_next_move(state);
        }
        let ghost depth = self.0 as nat;
        let ghost t = move_values(*state, depth);
        let mut deeper = AlphaBeta(self.0 - 1);
        let mut best_move: Option<Movement> = None;
        let mut best_value: i8 = WORST;
        let mut i: usize = 0;
        while i < state.branches.len()
            invariant
                i <= state.width(),
                depth >= 2,
                deeper.0 == depth - 1,
                t == move_values(*state, depth),
                best_value as int == peak_value(t, 0, i as int),
                best_value >= WORST,
                (i == 0) == (first_peak(t, 0, i as int) is None),
                best_move == state.movement_at(first_peak(t, 0, i as int)),
            decreases state.width() - i,
        {
            proof {
                lemma_move_value_bounds(*state, depth, i as int);
            }
            let value: i8 = -deeper.evaluate(&state.branches[i].next, -i8::MAX, -best_value);
            if i == 0 || value > best_value {
                best_value = value;
                best_move = Some(state.branches[i].movement);
            }
            i += 1;
        }
        proof {
            use_type_invariant(state);
            chosen_move_leads_to_value(*state, self.0 as nat);
        }
        best_move
    }
}

/// One step of iterative deepening with alpha-beta pruning: the answer to publish for
/// `depth`, and the depth to search next, or none once the deepest search is
/// done. Whoever runs the steps publishes each answer before taking the next.
pub fn alpha_beta_anytime_step(state: &GameTree, depth: u8) -> (r: (Option<Movement>, Option<u8>))
    ensures
        r.0 == best_move(*state, depth as nat),
        r.1 == next_depth(depth, 100),
{
    let answer = AlphaBeta(depth).compute_next_move(state);
    let next: Option<u8> = if depth < 100 - 1 {
        Some(depth + 1)
    } else {
        None
    };
    (answer, next)
}

/// Iterative deepening with alpha-beta pruning.
/// Searches `state` at every depth from one to ninety-nine and publishes each
/// answer as soon as its depth is complete. The slot ends up holding the
/// answer of the deepest search, which is a movement unless the position is
/// terminal.
pub fn alpha_beta_anytime(state: &GameTree, movement: &mut MoveSlot)
    ensures
        final(movement).published() == old(movement).published() + deepening_answers(
            *state,
            99,
        ),
        final(movement).current() == best_move(*state, 99),
        state.width() > 0 ==> final(movement).current() is Some,
{
    let mut depth: u8 = 1;
    while depth < 100
        invariant
            1 <= depth <= 100,
            movement.published() == old(movement).published() + deepening_answers(
                *state,
                (depth - 1) as nat,
            ),
            depth > 1 ==> movement.current() == best_move(*state, (depth - 1) as nat),
        decreases 100 - depth,
    {
        let step = alpha_beta_anytime_step(state, depth);
        movement.store(step.0);
        depth += 1;
    }
    proof {
        if state.width() > 0 {
            nonterminal_position_has_a_move(*state, 99);
        }
    }
}

} // verus!
