//! One-ply lookahead.

use vstd::prelude::*;
use crate::game::{GameTree, Movement, WORST};
use crate::model::{
    best_move, chosen_move_leads_to_value, first_peak, leads_to_value, move_values, peak_value,
    position_value, scan_best,
};

verus! {

/// Amongst all legal movements, picks the one that leads to the position
/// with the best static value.
pub struct Greedy();

impl Greedy {
    /// The best static value that one movement can reach, and never less
    /// than the worst score, which is also the value of a terminal position.
    pub fn evaluate(&mut self, state: &GameTree) -> (r: i8)
        ensures
            r as int == position_value(*state, 1),
            r >= WORST,
    {
        let ghost t = move_values(*state, 1);
        let mut best_value: i8 = WORST;
        let mut i: usize = 0;
        while i < state.branches.len()
            invariant
                i <= state.width(),
                t == move_values(*state, 1),
                best_value as int == scan_best(t, i as nat),
                best_value >= WORST,
            decreases state.width() - i,
        {
            let value: i8 = state.branches[i].next.value;
            if value > best_value {
                best_value = value;
            }
            i += 1;
        }
        best_value
    }

    /// The first movement that reaches the best static value among the
    /// successors; none only on a terminal position.
    pub fn compute_next_move(&mut self, state: &GameTree) -> (r: Option<Movement>)
        ensures
            r == best_move(*state, 1),
            r is None <==> state.width() == 0,
            r matches Some(m) ==> leads_to_value(*state, 1, m),
    {
        let ghost t = move_values(*state, 1);
        let mut best_value: i8 = WORST;
        let mut best_move: Option<Movement> = None;
        let mut i: usize = 0;
        while i < state.branches.len()
            invariant
                i <= state.width(),
                t == move_values(*state, 1),
                best_value as int == peak_value(t, 0, i as int),
                (i == 0) == (first_peak(t, 0, i as int) is None),
                best_move == state.movement_at(first_peak(t, 0, i as int)),
            decreases state.width() - i,
        {
            let value: i8 = state.branches[i].next.value;
            if i == 0 || value > best_value {
                best_value = value;
                best_move = Some(state.branches[i].movement);
            }
            i += 1;
        }
        proof {
            use_type_invariant(state);
            chosen_move_leads_to_value(*state, 1);
        }
        best_move
    }
}

} // verus!
