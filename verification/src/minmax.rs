//! Negamax without pruning.

use vstd::prelude::*;
use crate::game::{GameTree, Movement, WORST};
use crate::greedy::Greedy;
use crate::slot::MoveSlot;
use crate::model::{
    best_move, chosen_move_leads_to_value, deepening_answers, first_peak, leads_to_value,
    move_values, next_depth, nonterminal_position_has_a_move, peak_value, position_value, scan_best,
};

verus! {

/// Negamax with a given recursion depth.
pub struct MinMax(pub u8);

impl MinMax {
    /// The negamax value of `state` at the configured depth.
    pub fn evaluate(&mut self, state: &GameTree) -> (r: i8)
        ensures
            r as int == position_value(*state, old(self).0 as nat),
            r >= WORST,
            final(self).0 == old(self).0,
        decreases old(self).0,
    {
        if self.0 == 0 {
            return WORST;
        }
        if self.0 == 1 {
            return Greedy().evaluate(state);
        }
        let ghost depth = self.0 as nat;
        let ghost t = move_values(*state, depth);
        let mut deeper = MinMax(self.0 - 1);
        let mut best_value: i8 = WORST;
        let mut i: usize = 0;
        while i < state.branches.len()
            invariant
                i <= state.width(),
                depth >= 2,
                old(self).0 == depth,
                deeper.0 == depth - 1,
                t == move_values(*state, depth),
                best_value as int == scan_best(t, i as nat),
                best_value >= WORST,
            decreases state.width() - i,
        {
            let value: i8 = -deeper.evaluate(&state.branches[i].next);
            if value > best_value {
                best_value = value;
            }
            i += 1;
        }
        best_value
    }

    /// The movement that negamax chooses at the configured depth: the first
    /// one of maximal value; none only on a terminal position or at depth
    /// zero.
    pub fn compute_next_move(&mut self, state: &GameTree) -> (r: Option<Movement>)
        ensures
            r == best_move(*state, old(self).0 as nat),
            old(self).0 >= 1 ==> (r is None <==> state.width() == 0),
            r matches Some(m) ==> leads_to_value(*state, old(self).0 as nat, m),
            final(self).0 == old(self).0,
    {
        if self.0 == 0 {
            return None;
        }
        if self.0 == 1 {
            return Greedy().compute_next_move(state);
        }
        let ghost depth = self.0 as nat;
        let ghost t = move_values(*state, depth);
        let mut deeper = MinMax(self.0 - 1);
        let mut best_move: Option<Movement> = None;
        let mut best_value: i8 = WORST;
        let mut i: usize = 0;
        while i < state.branches.len()
            invariant
                i <= state.width(),
                depth >= 2,
                deeper.0 == depth - 1,
                t == move_values(*state, depth),
                best_value as int == peak_value(t, 0, i as int),
                (i == 0) == (first_peak(t, 0, i as int) is None),
                best_move == state.movement_at(first_peak(t, 0, i as int)),
            decreases state.width() - i,
        {
            let value: i8 = -deeper.evaluate(&state.branches[i].next);
            if i == 0 || value > best_value {
                best_value = value;
                best_move = Some(state.branches[i].movement);
            }
            i += 1;
        }
        proof {
            use_type_invariant(state);
            chosen_move_leads_to_value(*state, self.0 as nat);
        }
        best_move
    }
}

/// One step of iterative deepening with negamax: the answer to publish for
/// `depth`, and the depth to search next, or none once the deepest search is
/// done. Whoever runs the steps publishes each answer before taking the next.
pub fn min_max_anytime_step(state: &GameTree, depth: u8) -> (r: (Option<Movement>, Option<u8>))
    ensures
        r.0 == best_move(*state, depth as nat),
        r.1 == next_depth(depth, 100),
{
    let answer = MinMax(depth).compute_next_move(state);
    let next: Option<u8> = if depth < 100 - 1 {
        Some(depth + 1)
    } else {
        None
    };
    (answer, next)
}

/// Iterative deepening with negamax.
/// Searches `state` at every depth from one to ninety-nine and publishes each
/// answer as soon as its depth is complete. The slot ends up holding the
/// answer of the deepest search, which is a movement unless the position is
/// terminal.
pub fn min_max_anytime(state: &GameTree, movement: &mut MoveSlot)
    ensures
        final(movement).published() == old(movement).published() + deepening_answers(
            *state,
            99,
        ),
        final(movement).current() == best_move(*state, 99),
        state.width() > 0 ==> final(movement).current() is Some,
{
    let mut depth: u8 = 1;
    while depth < 100
        invariant
            1 <= depth <= 100,
            movement.published() == old(movement).published() + deepening_answers(
                *state,
                (depth - 1) as nat,
            ),
            depth > 1 ==> movement.current() == best_move(*state, (depth - 1) as nat),
        decreases 100 - depth,
    {
        let step = min_max_anytime_step(state, depth);
        movement.store(step.0);
        depth += 1;
    }
    proof {
        if state.width() > 0 {
            nonterminal_position_has_a_move(*state, 99);
        }
    }
}

} // verus!
