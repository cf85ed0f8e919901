//! The contract that every search strategy meets.

use vstd::prelude::*;
use crate::alphabeta::AlphaBeta;
use crate::game::{GameTree, Movement};
use crate::greedy::Greedy;
use crate::minmax::MinMax;
use crate::model::{best_move, leads_to_value};
use crate::negascout::NegaScout;
use crate::parallelminmax::ParallelMinMax;

verus! {

/// A strategy answers one question: which movement to play in a position,
/// if any. The answer is a function of the strategy's configuration and of
/// the position alone, and asking leaves the configuration as it was. From
/// depth one on there is an answer unless the position is terminal, and
/// playing it leads to the value of the position at that depth.
pub trait Strategy: Sized {
    /// The movement that the strategy chooses in `s`.
    spec fn choice(self, s: GameTree) -> Option<Movement>;

    /// The configured depth of the search.
    spec fn depth(self) -> nat;

    /// Chooses the movement to play in `state`, or none where the strategy
    /// finds nothing to play.
    fn compute_next_move(&mut self, state: &GameTree) -> (r: Option<Movement>)
        ensures
            r == old(self).choice(*state),
            old(self).depth() >= 1 ==> (r is None <==> state.width() == 0),
            r matches Some(m) ==> leads_to_value(*state, old(self).depth(), m),
            final(self).depth() == old(self).depth(),
    ;
}

impl Strategy for Greedy {
    open spec fn choice(self, s: GameTree) -> Option<Movement> {
        best_move(s, 1)
    }

    open spec fn depth(self) -> nat {
        1
    }

    fn compute_next_move(&mut self, state: &GameTree) -> (r: Option<Movement>) {
        Greedy::compute_next_move(self, state)
    }
}

impl Strategy for MinMax {
    open spec fn choice(self, s: GameTree) -> Option<Movement> {
        best_move(s, self.0 as nat)
    }

    open spec fn depth(self) -> nat {
        self.0 as nat
    }

    fn compute_next_move(&mut self, state: &GameTree) -> (r: Option<Movement>) {
        MinMax::compute_next_move(self, state)
    }
}

impl Strategy for AlphaBeta {
    open spec fn choice(self, s: GameTree) -> Option<Movement> {
        best_move(s, self.0 as nat)
    }

    open spec fn depth(self) -> nat {
        self.0 as nat
    }

    fn compute_next_move(&mut self, state: &GameTree) -> (r: Option<Movement>) {
        AlphaBeta::compute_next_move(self, state)
    }
}

impl Strategy for NegaScout {
    open spec fn choice(self, s: GameTree) -> Option<Movement> {
        best_move(s, self.0 as nat)
    }

    open spec fn depth(self) -> nat {
        self.0 as nat
    }

    fn compute_next_move(&mut self, state: &GameTree) -> (r: Option<Movement>) {
        NegaScout::compute_next_move(self, state)
    }
}

impl Strategy for ParallelMinMax {
    open spec fn choice(self, s: GameTree) -> Option<Movement> {
        best_move(s, self.0 as nat)
    }

    open spec fn depth(self) -> nat {
        self.0 as nat
    }

    fn compute_next_move(&mut self, state: &GameTree) -> (r: Option<Movement>) {
        ParallelMinMax::compute_next_move(self, state)
    }
}

/// At depth one every strategy chooses what the greedy strategy chooses.
pub proof fn depth_one_chooses_greedily(s: GameTree)
    ensures
        MinMax(1).choice(s) == Greedy().choice(s),
        AlphaBeta(1).choice(s) == Greedy().choice(s),
        NegaScout(1).choice(s) == Greedy().choice(s),
        ParallelMinMax(1).choice(s) == Greedy().choice(s),
{
}

/// At every depth, alpha-beta pruning, principal variation search and the
/// chunked search choose what negamax chooses.
pub proof fn same_choice_as_negamax(s: GameTree, depth: u8)
    ensures
        AlphaBeta(depth).choice(s) == MinMax(depth).choice(s),
        NegaScout(depth).choice(s) == MinMax(depth).choice(s),
        ParallelMinMax(depth).choice(s) == MinMax(depth).choice(s),
{
}

} // verus!
