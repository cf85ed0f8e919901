//! Negamax over chunks of the root's movements.
//!
//! The root's movements are cut into chunks of as many movements as there
//! are processing units. Each chunk is searched on its own, sharing nothing
//! with the others, and the per-chunk results are merged from left to right,
//! so that the answer is that of plain negamax whatever the chunk size.

use vstd::prelude::*;
use itertools::Itertools;
use crate::game::{GameTree, Movement, WORST};
use crate::greedy::Greedy;
use crate::slot::MoveSlot;
use crate::minmax::MinMax;
use crate::model::{
    best_move, chosen_move_leads_to_value, deepening_answers, first_peak, leads_to_value,
    lemma_merge_peaks, move_values, next_depth, nonterminal_position_has_a_move, peak_value,
    position_value,
};

verus! {

/// Whether `c` lists consecutive indices below `count`.
pub open spec fn is_run(c: Seq<usize>, count: int) -> bool {
    forall|j: int| 0 <= j < c.len() ==> #[trigger] c[j] == c[0] + j && c[j] < count
}

/// The index after the last one of a run.
pub open spec fn run_end(c: Seq<usize>) -> int {
    c[0] + c.len()
}

/// Whether `r` cuts the indices below `count` into consecutive runs, none
/// of them empty.
pub open spec fn cuts_into_runs(r: Seq<Vec<usize>>, count: int) -> bool {
    &&& count == 0 <==> r.len() == 0
    &&& r.len() > 0 ==> r[0]@[0] == 0 && run_end(r[r.len() - 1]@) == count
    &&& forall|k: int| 0 <= k < r.len() ==> (#[trigger] r[k])@.len() >= 1 && is_run(r[k]@, count)
    &&& forall|k: int| 0 <= k < r.len() - 1 ==> r[k + 1]@[0] == run_end((#[trigger] r[k])@)
}

/// Whether `r` cuts the indices below `count` into consecutive runs of
/// `size` indices each, the last one possibly shorter, none empty.
pub open spec fn cuts_into_chunks(r: Seq<Vec<usize>>, count: int, size: int) -> bool {
    &&& cuts_into_runs(r, count)
    &&& forall|k: int| 0 <= k < r.len() ==> (#[trigger] r[k])@.len() <= size
    &&& forall|k: int| 0 <= k < r.len() - 1 ==> (#[trigger] r[k])@.len() == size
}

/// The movement that the search of one chunk chooses: the first movement of
/// maximal value among those that the chunk lists.
pub open spec fn chunk_choice(s: GameTree, depth: nat, c: Seq<usize>) -> Option<Movement> {
    s.movement_at(first_peak(move_values(s, depth), c[0] as int, run_end(c)))
}

/// The value of that movement.
pub open spec fn chunk_value(s: GameTree, depth: nat, c: Seq<usize>) -> int {
    peak_value(move_values(s, depth), c[0] as int, run_end(c))
}

/// Whether `results` holds, chunk by chunk, what the search of each chunk
/// chooses and the value of that choice.
pub open spec fn results_of_chunks(
    s: GameTree,
    depth: nat,
    chunks: Seq<Vec<usize>>,
    results: Seq<(Option<Movement>, i8)>,
) -> bool {
    &&& results.len() == chunks.len()
    &&& forall|k: int|
        0 <= k < chunks.len() ==> (#[trigger] results[k]).0 == chunk_choice(s, depth, chunks[k]@)
            && results[k].1 as int == chunk_value(s, depth, chunks[k]@)
}

/// Calls `num_cpus::get`: the number of processing units available to this
/// process, which that crate documents to be at least one. The number
/// depends on the machine, so nothing else is claimed of it.
#[verifier::external_body]
fn available_units() -> (r: usize)
    ensures
        r >= 1,
{
    num_cpus::get()
}

/// Calls `Itertools::chunks` on the indices below `count`: consecutive
/// chunks of `size` indices in increasing order, the last one shorter where
/// the indices run out, and no chunk at all where there is no index. The
/// outside function panics on a size of zero, which is excluded here.
#[verifier::external_body]
fn index_chunks(count: usize, size: usize) -> (r: Vec<Vec<usize>>)
    requires
        size >= 1,
    ensures
        cuts_into_chunks(r@, count as int, size as int),
{
    let chunks = (0..count).chunks(size);
    let mut out: Vec<Vec<usize>> = Vec::new();
    for chunk in &chunks {
        out.push(chunk.collect());
    }
    out
}

/// The chunks of the root's movements, by index: consecutive chunks of
/// `size` movements each, the last one shorter where the movements run out.
pub fn root_chunks(state: &GameTree, size: usize) -> (r: Vec<Vec<usize>>)
    requires
        size >= 1,
    ensures
        cuts_into_chunks(r@, state.width() as int, size as int),
{
    index_chunks(state.branches.len(), size)
}

/// Merges the results of the chunks from left to right, the earlier chunk
/// winning ties: the movement that negamax chooses at `depth`.
pub fn merge_chunks(
    state: &GameTree,
    depth: u8,
    chunks: &Vec<Vec<usize>>,
    results: &Vec<(Option<Movement>, i8)>,
) -> (r: Option<Movement>)
    requires
        depth >= 1,
        cuts_into_runs(chunks@, state.width() as int),
        results_of_chunks(*state, depth as nat, chunks@, results@),
    ensures
        r == best_move(*state, depth as nat),
{
    let ghost t = move_values(*state, depth as nat);
    let ghost mut done: int = 0;
    let mut best_move: Option<Movement> = None;
    let mut best_value: i8 = WORST;
    let mut k: usize = 0;
    while k < chunks.len()
        invariant
            k <= chunks@.len(),
            depth >= 1,
            t == move_values(*state, depth as nat),
            cuts_into_runs(chunks@, state.width() as int),
            results_of_chunks(*state, depth as nat, chunks@, results@),
            0 <= done <= state.width(),
            k < chunks@.len() ==> done == chunks@[k as int]@[0],
            k == chunks@.len() ==> done == state.width(),
            (k == 0) == (done == 0),
            best_value as int == peak_value(t, 0, done),
            best_move == state.movement_at(first_peak(t, 0, done)),
        decreases chunks@.len() - k,
    {
        let ghost chunk = chunks@[k as int]@;
        let ghost end = run_end(chunk);
        let (chunk_move, chunk_value) = results[k];
        proof {
            assert(chunk[chunk.len() - 1] < state.width());
            if done > 0 {
                lemma_merge_peaks(t, done, end);
            }
        }
        if k == 0 || chunk_value > best_value {
            best_value = chunk_value;
            best_move = chunk_move;
        }
        proof {
            done = end;
        }
        k += 1;
    }
    best_move
}

/// Negamax with a given recursion depth, searched chunk by chunk at the root.
pub struct ParallelMinMax(pub u8);

impl ParallelMinMax {
    /// The negamax value of `state` at the configured depth.
    pub fn evaluate(&mut self, state: &GameTree) -> (r: i8)
        ensures
            r as int == position_value(*state, old(self).0 as nat),
            r >= WORST,
            final(self).0 == old(self).0,
    {
        let mut serial = MinMax(self.0);
        serial.evaluate(state)
    }

    /// Searches one chunk of the root's movements, two plies or deeper: the
    /// first movement of maximal value among those of the chunk, together
    /// with that value. The search owns its depth and shares nothing with
    /// other chunks.
    pub fn best_of_chunk(&self, state: &GameTree, chunk: &Vec<usize>) -> (r: (Option<Movement>, i8))
        requires
            self.0 >= 2,
            chunk@.len() >= 1,
            is_run(chunk@, state.width() as int),
        ensures
            r.0 == chunk_choice(*state, self.0 as nat, chunk@),
            r.1 as int == chunk_value(*state, self.0 as nat, chunk@),
            r.0 is Some,
            r.1 >= WORST,
    {
        let ghost depth = self.0 as nat;
        let ghost t = move_values(*state, depth);
        let ghost from = chunk@[0] as int;
        let mut deeper = MinMax(self.0 - 1);
        let mut best_move: Option<Movement> = None;
        let mut best_value: i8 = WORST;
        let mut j: usize = 0;
        while j < chunk.len()
            invariant
                j <= chunk@.len(),
                depth >= 2,
                deeper.0 == depth - 1,
                t == move_values(*state, depth),
                from == chunk@[0],
                is_run(chunk@, state.width() as int),
                best_value as int == peak_value(t, from, from + j),
                best_value >= WORST,
                (j == 0) == (first_peak(t, from, from + j) is None),
                (j == 0) == (best_move is None),
                best_move == state.movement_at(first_peak(t, from, from + j)),
            decreases chunk@.len() - j,
        {
            let i: usize = chunk[j];
            let value: i8 = -deeper.evaluate(&state.branches[i].next);
            if j == 0 || value > best_value {
                best_value = value;
                best_move = Some(state.branches[i].movement);
            }
            j += 1;
        }
        (best_move, best_value)
    }

    /// The movement that negamax chooses at the configured depth, found by
    /// searching chunks of `size` movements each and merging their results
    /// from left to right, the earlier chunk winning ties.
    pub fn compute_with_chunks(&mut self, state: &GameTree, size: usize) -> (r: Option<Movement>)
        requires
            size >= 1,
        ensures
            r == best_move(*state, old(self).0 as nat),
            old(self).0 >= 1 ==> (r is None <==> state.width() == 0),
            r matches Some(m) ==> leads_to_value(*state, old(self).0 as nat, m),
            final(self).0 == old(self).0,
    {
        if self.0 == 0 {
            return None;
        }
        if self.0 == 1 {
            return Greedy().compute_next_move(state);
        }
        let chunks = root_chunks(state, size);
        let mut results: Vec<(Option<Movement>, i8)> = Vec::new();
        let mut k: usize = 0;
        while k < chunks.len()
            invariant
                k <= chunks@.len(),
                self.0 >= 2,
                self.0 == old(self).0,
                cuts_into_chunks(chunks@, state.width() as int, size as int),
                results@.len() == k,
                forall|j: int|
                    0 <= j < k ==> (#[trigger] results@[j]).0 == chunk_choice(
                        *state,
                        self.0 as nat,
                        chunks@[j]@,
                    ) && results@[j].1 as int == chunk_value(*state, self.0 as nat, chunks@[j]@),
            decreases chunks@.len() - k,
        {
            let result = self.best_of_chunk(state, &chunks[k]);
            results.push(result);
            k += 1;
        }
        let chosen = merge_chunks(state, self.0, &chunks, &results);
        proof {
            use_type_invariant(state);
            chosen_move_leads_to_value(*state, self.0 as nat);
        }
        chosen
    }

    /// The movement that negamax chooses at the configured depth, searched
    /// in chunks of as many movements as there are processing units.
    pub fn compute_next_move(&mut self, state: &GameTree) -> (r: Option<Movement>)
        ensures
            r == best_move(*state, old(self).0 as nat),
            old(self).0 >= 1 ==> (r is None <==> state.width() == 0),
            r matches Some(m) ==> leads_to_value(*state, old(self).0 as nat, m),
            final(self).0 == old(self).0,
    {
        let units = available_units();
        self.compute_with_chunks(state, units)
    }
}

/// One step of iterative deepening with chunked negamax: the answer to publish for
/// `depth`, and the depth to search next, or none once the deepest search is
/// done. Whoever runs the steps publishes each answer before taking the next.
pub fn min_max_anytime_step(state: &GameTree, depth: u8) -> (r: (Option<Movement>, Option<u8>))
    ensures
        r.0 == best_move(*state, depth as nat),
        r.1 == next_depth(depth, 100),
{
    let answer = ParallelMinMax(depth).compute_next_move(state);
    let next: Option<u8> = if depth < 100 - 1 {
        Some(depth + 1)
    } else {
        None
    };
    (answer, next)
}

/// Iterative deepening with chunked negamax.
/// Searches `state` at every depth from one to ninety-nine and publishes each
/// answer as soon as its depth is complete. The slot ends up holding the
/// answer of the deepest search, which is a movement unless the position is
/// terminal.
pub fn min_max_anytime(state: &GameTree, movement: &mut MoveSlot)
    ensures
        final(movement).published() == old(movement).published() + deepening_answers(
            *state,
            99,
        ),
        final(movement).current() == best_move(*state, 99),
        state.width() > 0 ==> final(movement).current() is Some,
{
    let mut depth: u8 = 1;
    while depth < 100
        invariant
            1 <= depth <= 100,
            movement.published() == old(movement).published() + deepening_answers(
                *state,
                (depth - 1) as nat,
            ),
            depth > 1 ==> movement.current() == best_move(*state, (depth - 1) as nat),
        decreases 100 - depth,
    {
        let step = min_max_anytime_step(state, depth);
        movement.store(step.0);
        depth += 1;
    }
    proof {
        if state.width() > 0 {
            nonterminal_position_has_a_move(*state, 99);
        }
    }
}

} // verus!
