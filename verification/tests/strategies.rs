use blobwar_strategy::alphabeta::{alpha_beta_anytime, alpha_beta_anytime_step, AlphaBeta};
use blobwar_strategy::game::{GameTree, Movement, WORST};
use blobwar_strategy::greedy::Greedy;
use blobwar_strategy::minmax::{min_max_anytime, min_max_anytime_step, MinMax};
use blobwar_strategy::negascout::{negascout_anytime, negascout_anytime_step, NegaScout};
use blobwar_strategy::parallelminmax::{merge_chunks, root_chunks, ParallelMinMax};
use blobwar_strategy::slot::MoveSlot;
use blobwar_strategy::strategy::Strategy;

fn leaf(value: i8) -> GameTree {
    GameTree::leaf(value).unwrap()
}

fn fan(value: i8, leaves: &[i8]) -> GameTree {
    let mut tree = leaf(value);
    let mut id: u32 = 1;
    for v in leaves {
        tree = tree.with_branch(Movement(id), leaf(*v)).unwrap();
        id += 1;
    }
    tree
}

fn join(value: i8, children: Vec<GameTree>) -> GameTree {
    let mut tree = leaf(value);
    let mut id: u32 = 1;
    for child in children {
        tree = tree.with_branch(Movement(id), child).unwrap();
        id += 1;
    }
    tree
}

fn next(seed: &mut u64) -> u64 {
    *seed = seed.wrapping_mul(6364136223846793005).wrapping_add(1442695040888963407);
    *seed >> 33
}

fn grow(seed: &mut u64, height: u32, spread: u64) -> GameTree {
    let value: i8 = ((next(seed) % (2 * spread + 1)) as i64 - spread as i64) as i8;
    if height == 0 {
        return leaf(value);
    }
    let width: u64 = next(seed) % 4;
    let mut children: Vec<GameTree> = Vec::new();
    for _ in 0..width {
        children.push(grow(seed, height - 1, spread));
    }
    join(value, children)
}

fn two_plies() -> GameTree {
    join(0, vec![fan(0, &[3, -4]), fan(0, &[1, 2]), fan(0, &[2, -1])])
}

#[test]
fn greedy_selects_the_movement_that_yields_five() {
    let state = fan(0, &[-2, 5, 1]);
    assert_eq!(Greedy().compute_next_move(&state), Some(Movement(2)));
    assert_eq!(Greedy().evaluate(&state), 5);
}

#[test]
fn three_strategies_report_the_same_value_at_depth_two() {
    let state = fan(0, &[-2, 5, 1]);
    let expected: i8 = MinMax(2).evaluate(&state);
    assert_eq!(expected, 127);
    assert_eq!(AlphaBeta(2).evaluate(&state, WORST, i8::MAX), expected);
    assert_eq!(NegaScout(2).evaluate(&state, WORST, i8::MAX), expected);
    assert_eq!(ParallelMinMax(2).evaluate(&state), expected);
}

#[test]
fn greedy_keeps_the_first_movement_on_ties() {
    let state = fan(0, &[4, 7, 7, 1]);
    assert_eq!(Greedy().compute_next_move(&state), Some(Movement(2)));
}

#[test]
fn terminal_position_has_no_movement_and_the_worst_score() {
    let state = leaf(9);
    assert!(state.is_terminal());
    assert_eq!(Greedy().evaluate(&state), WORST);
    assert_eq!(Greedy().compute_next_move(&state), None);
    for depth in 1u8..5 {
        assert_eq!(MinMax(depth).evaluate(&state), -127);
        assert_eq!(MinMax(depth).compute_next_move(&state), None);
        assert_eq!(AlphaBeta(depth).evaluate(&state, -127, 127), -127);
        assert_eq!(AlphaBeta(depth).compute_next_move(&state), None);
        assert_eq!(NegaScout(depth).evaluate(&state, -127, 127), -127);
        assert_eq!(NegaScout(depth).compute_next_move(&state), None);
        assert_eq!(ParallelMinMax(depth).evaluate(&state), -127);
        assert_eq!(ParallelMinMax(depth).compute_next_move(&state), None);
    }
}

#[test]
fn depth_zero_searches_nothing() {
    let state = two_plies();
    assert_eq!(MinMax(0).evaluate(&state), -127);
    assert_eq!(MinMax(0).compute_next_move(&state), None);
    assert_eq!(AlphaBeta(0).evaluate(&state, -127, 127), -127);
    assert_eq!(AlphaBeta(0).compute_next_move(&state), None);
    assert_eq!(NegaScout(0).evaluate(&state, -127, 127), -127);
    assert_eq!(NegaScout(0).compute_next_move(&state), None);
    assert_eq!(ParallelMinMax(0).compute_next_move(&state), None);
}

#[test]
fn minmax_negates_the_opponent_s_best_reply() {
    let state = two_plies();
    assert_eq!(MinMax(2).evaluate(&state), -2);
    assert_eq!(MinMax(2).compute_next_move(&state), Some(Movement(2)));
    assert_eq!(MinMax(1).evaluate(&state), 0);
    assert_eq!(MinMax(1).compute_next_move(&state), Some(Movement(1)));
}

#[test]
fn strategy_keeps_its_depth() {
    let state = two_plies();
    let mut strategy = MinMax(3);
    strategy.evaluate(&state);
    strategy.compute_next_move(&state);
    assert_eq!(strategy.0, 3);
    let mut pruning = AlphaBeta(3);
    pruning.evaluate(&state, -127, 127);
    pruning.compute_next_move(&state);
    assert_eq!(pruning.0, 3);
    let mut scout = NegaScout(3);
    scout.evaluate(&state, -127, 127);
    scout.compute_next_move(&state);
    assert_eq!(scout.0, 3);
}

#[test]
fn depth_one_is_greedy_for_every_strategy() {
    let mut seed: u64 = 7;
    for _ in 0..50 {
        let state = grow(&mut seed, 3, 20);
        let expected = Greedy().compute_next_move(&state);
        assert_eq!(MinMax(1).compute_next_move(&state), expected);
        assert_eq!(AlphaBeta(1).compute_next_move(&state), expected);
        assert_eq!(NegaScout(1).compute_next_move(&state), expected);
        assert_eq!(ParallelMinMax(1).compute_next_move(&state), expected);
        assert_eq!(MinMax(1).evaluate(&state), Greedy().evaluate(&state));
    }
}

#[test]
fn pruning_preserves_the_value() {
    let mut seed: u64 = 11;
    for _ in 0..200 {
        let state = grow(&mut seed, 5, 30);
        for depth in 2u8..7 {
            let expected: i8 = MinMax(depth).evaluate(&state);
            assert_eq!(AlphaBeta(depth).evaluate(&state, -127, 127), expected);
            assert_eq!(NegaScout(depth).evaluate(&state, -127, 127), expected);
            assert_eq!(ParallelMinMax(depth).evaluate(&state), expected);
        }
    }
}

#[test]
fn pruning_preserves_the_chosen_movement() {
    let mut seed: u64 = 13;
    for _ in 0..200 {
        let state = grow(&mut seed, 5, 30);
        for depth in 2u8..7 {
            let expected = MinMax(depth).compute_next_move(&state);
            assert_eq!(AlphaBeta(depth).compute_next_move(&state), expected);
            assert_eq!(NegaScout(depth).compute_next_move(&state), expected);
            assert_eq!(expected.is_some(), !state.is_terminal());
        }
    }
}

#[test]
fn window_result_bounds_the_value() {
    let mut seed: u64 = 17;
    for _ in 0..100 {
        let state = grow(&mut seed, 4, 30);
        for depth in 2u8..5 {
            let exact: i8 = MinMax(depth).evaluate(&state);
            for (alpha, beta) in [(-5i8, 5i8), (0, 1), (-30, -10), (3, 40)] {
                for r in [
                    AlphaBeta(depth).evaluate(&state, alpha, beta),
                    NegaScout(depth).evaluate(&state, alpha, beta),
                ] {
                    if r <= alpha {
                        assert!(exact <= r);
                    } else if r >= beta {
                        assert!(exact >= r);
                    } else {
                        assert_eq!(exact, r);
                    }
                }
            }
        }
    }
}

#[test]
fn alphabeta_cuts_off_at_beta() {
    let state = two_plies();
    assert_eq!(AlphaBeta(2).evaluate(&state, -127, -3), -3);
    assert_eq!(AlphaBeta(2).evaluate(&state, -1, 5), -2);
    assert_eq!(NegaScout(2).evaluate(&state, -127, -3), -3);
}

#[test]
fn value_of_the_chosen_movement_is_the_value_of_the_position() {
    let mut seed: u64 = 19;
    for _ in 0..100 {
        let state = grow(&mut seed, 4, 30);
        for depth in 2u8..5 {
            let value: i8 = MinMax(depth).evaluate(&state);
            match MinMax(depth).compute_next_move(&state) {
                Some(chosen) => {
                    let next = state.play(&chosen).unwrap();
                    assert_eq!(-MinMax(depth - 1).evaluate(next), value);
                }
                None => assert_eq!(value, -127),
            }
        }
    }
}

#[test]
fn chunked_search_agrees_with_minmax_for_every_chunk_size() {
    let mut seed: u64 = 29;
    for _ in 0..100 {
        let state = grow(&mut seed, 4, 30);
        for depth in 2u8..5 {
            let expected = MinMax(depth).compute_next_move(&state);
            for size in [1usize, 2, 3, 4, 100] {
                assert_eq!(ParallelMinMax(depth).compute_with_chunks(&state, size), expected);
            }
            assert_eq!(ParallelMinMax(depth).compute_next_move(&state), expected);
        }
    }
}

#[test]
fn chunked_search_finds_the_best_movement_in_a_later_chunk() {
    let state = join(
        0,
        vec![fan(0, &[5]), fan(0, &[4]), fan(0, &[1]), fan(0, &[2]), fan(0, &[-6]), fan(0, &[-6])],
    );
    assert_eq!(ParallelMinMax(2).compute_with_chunks(&state, 2), Some(Movement(5)));
    assert_eq!(ParallelMinMax(2).compute_with_chunks(&state, 4), Some(Movement(5)));
    assert_eq!(ParallelMinMax(2).compute_next_move(&state), Some(Movement(5)));
}

#[test]
fn best_of_chunk_reports_movement_and_value() {
    let state = join(0, vec![fan(0, &[5]), fan(0, &[4]), fan(0, &[1]), fan(0, &[2])]);
    assert_eq!(ParallelMinMax(2).best_of_chunk(&state, &vec![0, 1]), (Some(Movement(2)), -4));
    assert_eq!(ParallelMinMax(2).best_of_chunk(&state, &vec![2, 3]), (Some(Movement(3)), -1));
    assert_eq!(ParallelMinMax(2).best_of_chunk(&state, &vec![1]), (Some(Movement(2)), -4));
}

#[test]
fn slot_holds_the_latest_answer() {
    let mut slot = MoveSlot::connect();
    assert_eq!(slot.load(), None);
    slot.store(Some(Movement(4)));
    assert_eq!(slot.load(), Some(Movement(4)));
    slot.store(Some(Movement(6)));
    assert_eq!(slot.load(), Some(Movement(6)));
    slot.store(None);
    assert_eq!(slot.load(), None);
}

#[test]
fn anytime_drivers_leave_the_deepest_answer() {
    let mut seed: u64 = 31;
    for _ in 0..20 {
        let state = grow(&mut seed, 3, 30);
        let mut slot = MoveSlot::connect();
        min_max_anytime(&state, &mut slot);
        assert_eq!(slot.load(), MinMax(99).compute_next_move(&state));
        let mut slot = MoveSlot::connect();
        alpha_beta_anytime(&state, &mut slot);
        assert_eq!(slot.load(), MinMax(99).compute_next_move(&state));
        let mut slot = MoveSlot::connect();
        blobwar_strategy::parallelminmax::min_max_anytime(&state, &mut slot);
        assert_eq!(slot.load(), MinMax(99).compute_next_move(&state));
        let mut slot = MoveSlot::connect();
        negascout_anytime(&state, &mut slot);
        assert_eq!(slot.load(), MinMax(9).compute_next_move(&state));
        assert_eq!(slot.load().is_some(), !state.is_terminal());
    }
}

#[test]
fn anytime_driver_ends_on_the_movement_that_leaves_no_reply() {
    let state = join(0, vec![fan(0, &[3]), leaf(-5)]);
    assert_eq!(AlphaBeta(1).compute_next_move(&state), Some(Movement(1)));
    let mut slot = MoveSlot::connect();
    alpha_beta_anytime(&state, &mut slot);
    assert_eq!(slot.load(), Some(Movement(2)));
    let mut slot = MoveSlot::connect();
    min_max_anytime(&state, &mut slot);
    assert_eq!(slot.load(), Some(Movement(2)));
}

#[test]
fn position_lists_its_movements_and_plays_them() {
    let state = fan(3, &[1, 2, 4]);
    assert_eq!(state.value(), 3);
    assert_eq!(state.movements(), vec![Movement(1), Movement(2), Movement(3)]);
    assert_eq!(state.play(&Movement(2)).unwrap().value(), 2);
    assert_eq!(state.play(&Movement(3)).unwrap().value(), 4);
    assert!(state.play(&Movement(9)).is_none());
    assert_eq!(state.movements().len(), 3);
    assert!(leaf(0).movements().is_empty());
}

#[test]
fn strategies_answer_through_the_common_interface() {
    fn ask<S: Strategy>(mut strategy: S, state: &GameTree) -> Option<Movement> {
        Strategy::compute_next_move(&mut strategy, state)
    }
    let state = two_plies();
    assert_eq!(ask(Greedy(), &state), Some(Movement(1)));
    assert_eq!(ask(MinMax(2), &state), Some(Movement(2)));
    assert_eq!(ask(AlphaBeta(2), &state), Some(Movement(2)));
    assert_eq!(ask(NegaScout(2), &state), Some(Movement(2)));
    assert_eq!(ask(ParallelMinMax(2), &state), Some(Movement(2)));
}

#[test]
fn negascout_root_chooses_the_best_movement_beyond_ten() {
    let state = join(0, vec![fan(0, &[-12]), fan(0, &[-20])]);
    assert_eq!(MinMax(2).evaluate(&state), 20);
    assert_eq!(NegaScout(2).evaluate(&state, -i8::MAX, i8::MAX), 20);
    assert_eq!(MinMax(2).compute_next_move(&state), Some(Movement(2)));
    assert_eq!(NegaScout(2).compute_next_move(&state), Some(Movement(2)));
    let three = join(0, vec![fan(0, &[-3]), fan(0, &[-12]), fan(0, &[-20])]);
    assert_eq!(NegaScout(2).compute_next_move(&three), Some(Movement(3)));
}

#[test]
fn negascout_root_moves_when_the_only_movement_is_worth_minus_fifteen() {
    let state = join(0, vec![fan(0, &[15])]);
    assert_eq!(MinMax(2).evaluate(&state), -15);
    assert_eq!(NegaScout(2).evaluate(&state, -i8::MAX, i8::MAX), -15);
    assert_eq!(NegaScout(2).compute_next_move(&state), Some(Movement(1)));
    let two = join(0, vec![fan(0, &[10]), fan(0, &[15])]);
    assert_eq!(NegaScout(2).compute_next_move(&two), Some(Movement(1)));
    let mut slot = MoveSlot::connect();
    negascout_anytime(&state, &mut slot);
    assert!(slot.load().is_some());
}

#[test]
fn negascout_root_stops_at_the_first_movement_of_the_largest_value() {
    let state = join(0, vec![fan(0, &[4]), leaf(0), leaf(1), fan(0, &[-9])]);
    assert_eq!(MinMax(2).compute_next_move(&state), Some(Movement(2)));
    assert_eq!(NegaScout(2).compute_next_move(&state), Some(Movement(2)));
}

#[test]
fn lost_position_still_yields_its_only_movement() {
    let state = join(0, vec![join(1, vec![leaf(2)])]);
    for depth in 1u8..6 {
        assert_eq!(MinMax(depth).compute_next_move(&state), Some(Movement(1)));
        assert_eq!(AlphaBeta(depth).compute_next_move(&state), Some(Movement(1)));
        assert_eq!(NegaScout(depth).compute_next_move(&state), Some(Movement(1)));
        assert_eq!(ParallelMinMax(depth).compute_next_move(&state), Some(Movement(1)));
    }
    assert_eq!(MinMax(3).evaluate(&state), -127);
    let chosen = MinMax(3).compute_next_move(&state).unwrap();
    assert_eq!(-MinMax(2).evaluate(state.play(&chosen).unwrap()), MinMax(3).evaluate(&state));
}

#[test]
fn anytime_drivers_never_fall_back_to_no_movement() {
    let state = join(0, vec![join(1, vec![leaf(2)])]);
    let mut slot = MoveSlot::connect();
    min_max_anytime(&state, &mut slot);
    assert_eq!(slot.load(), Some(Movement(1)));
    let mut slot = MoveSlot::connect();
    alpha_beta_anytime(&state, &mut slot);
    assert_eq!(slot.load(), Some(Movement(1)));
    let mut slot = MoveSlot::connect();
    negascout_anytime(&state, &mut slot);
    assert_eq!(slot.load(), Some(Movement(1)));
    let mut slot = MoveSlot::connect();
    blobwar_strategy::parallelminmax::min_max_anytime(&state, &mut slot);
    assert_eq!(slot.load(), Some(Movement(1)));
    let terminal = leaf(0);
    let mut slot = MoveSlot::connect();
    min_max_anytime(&terminal, &mut slot);
    assert_eq!(slot.load(), None);
}

#[test]
fn windowed_search_of_a_terminal_position_ignores_the_window() {
    let state = leaf(7);
    for depth in 0u8..4 {
        assert_eq!(AlphaBeta(depth).evaluate(&state, i8::MIN, i8::MIN), -127);
        assert_eq!(NegaScout(depth).evaluate(&state, i8::MIN, i8::MIN), -127);
        assert_eq!(AlphaBeta(depth).evaluate(&state, 5, 3), -127);
        assert_eq!(NegaScout(depth).evaluate(&state, 127, i8::MIN), -127);
    }
}

#[test]
fn root_is_cut_into_chunks_and_merged() {
    let state = join(
        0,
        vec![fan(0, &[5]), fan(0, &[4]), fan(0, &[1]), fan(0, &[2]), fan(0, &[-6])],
    );
    let chunks = root_chunks(&state, 2);
    assert_eq!(chunks, vec![vec![0, 1], vec![2, 3], vec![4]]);
    assert_eq!(root_chunks(&state, 5), vec![vec![0, 1, 2, 3, 4]]);
    assert_eq!(root_chunks(&leaf(0), 3), Vec::<Vec<usize>>::new());
    let results: Vec<(Option<Movement>, i8)> =
        chunks.iter().map(|c| ParallelMinMax(2).best_of_chunk(&state, c)).collect();
    assert_eq!(
        results,
        vec![(Some(Movement(2)), -4), (Some(Movement(3)), -1), (Some(Movement(5)), 6)]
    );
    assert_eq!(merge_chunks(&state, 2, &chunks, &results), Some(Movement(5)));
    assert_eq!(MinMax(2).compute_next_move(&state), Some(Movement(5)));
}

#[test]
fn merge_keeps_the_earlier_chunk_on_ties() {
    let state = join(0, vec![fan(0, &[3]), fan(0, &[3]), fan(0, &[3])]);
    let chunks = root_chunks(&state, 1);
    let results: Vec<(Option<Movement>, i8)> =
        chunks.iter().map(|c| ParallelMinMax(2).best_of_chunk(&state, c)).collect();
    assert_eq!(merge_chunks(&state, 2, &chunks, &results), Some(Movement(1)));
}

#[test]
fn greedy_moves_when_nothing_beats_the_worst_score() {
    let state = fan(0, &[-127, -127]);
    assert_eq!(Greedy().compute_next_move(&state), Some(Movement(1)));
    assert_eq!(Greedy().evaluate(&state), -127);
    assert_eq!(state.play(&Movement(1)).unwrap().value(), Greedy().evaluate(&state));
}

#[test]
fn leaf_refuses_the_score_without_negation() {
    assert!(GameTree::leaf(i8::MIN).is_none());
    assert_eq!(GameTree::leaf(-127).unwrap().value(), -127);
    assert_eq!(GameTree::leaf(127).unwrap().value(), 127);
}

#[test]
fn with_branch_refuses_a_movement_listed_twice() {
    let state = leaf(0).with_branch(Movement(7), leaf(1)).unwrap();
    assert!(state.with_branch(Movement(7), leaf(2)).is_none());
    let state = leaf(0).with_branch(Movement(7), leaf(1)).unwrap();
    let wider = state.with_branch(Movement(8), leaf(2)).unwrap();
    assert_eq!(wider.movements(), vec![Movement(7), Movement(8)]);
    assert_eq!(wider.play(&Movement(8)).unwrap().value(), 2);
    wider.validity();
}

#[test]
fn tree_builder_keeps_order() {
    let state = fan(3, &[1, 2]);
    assert_eq!(state.value(), 3);
    assert_eq!(state.movements(), vec![Movement(1), Movement(2)]);
    assert_eq!(state.play(&Movement(1)).unwrap().value(), 1);
    assert_eq!(state.play(&Movement(2)).unwrap().value(), 2);
    assert!(!state.is_terminal());
}

#[test]
fn playing_the_chosen_movement_leads_to_the_value() {
    let mut seed: u64 = 37;
    for _ in 0..100 {
        let state = grow(&mut seed, 4, 127);
        match Greedy().compute_next_move(&state) {
            Some(m) => assert_eq!(state.play(&m).unwrap().value(), Greedy().evaluate(&state)),
            None => assert_eq!(Greedy().evaluate(&state), i8::MIN + 1),
        }
        for depth in 2u8..5 {
            let value: i8 = MinMax(depth).evaluate(&state);
            if let Some(m) = AlphaBeta(depth).compute_next_move(&state) {
                let next = state.play(&m).unwrap();
                assert_eq!(-AlphaBeta(depth - 1).evaluate(next, -i8::MAX, i8::MAX), value);
            }
            if let Some(m) = NegaScout(depth).compute_next_move(&state) {
                let next = state.play(&m).unwrap();
                assert_eq!(-NegaScout(depth - 1).evaluate(next, -i8::MAX, i8::MAX), value);
            }
            if let Some(m) = ParallelMinMax(depth).compute_next_move(&state) {
                let next = state.play(&m).unwrap();
                assert_eq!(-MinMax(depth - 1).evaluate(next), value);
            }
        }
    }
}

#[test]
fn anytime_step_gives_the_answer_and_the_next_depth() {
    let state = two_plies();
    assert_eq!(min_max_anytime_step(&state, 1), (Some(Movement(1)), Some(2)));
    assert_eq!(min_max_anytime_step(&state, 2), (Some(Movement(2)), Some(3)));
    assert_eq!(min_max_anytime_step(&state, 98).1, Some(99));
    assert_eq!(min_max_anytime_step(&state, 99).1, None);
    assert_eq!(alpha_beta_anytime_step(&state, 2), (Some(Movement(2)), Some(3)));
    assert_eq!(alpha_beta_anytime_step(&state, 99).1, None);
    assert_eq!(negascout_anytime_step(&state, 2), (Some(Movement(2)), Some(3)));
    assert_eq!(negascout_anytime_step(&state, 8).1, Some(9));
    assert_eq!(negascout_anytime_step(&state, 9).1, None);
    assert_eq!(
        blobwar_strategy::parallelminmax::min_max_anytime_step(&state, 2),
        (Some(Movement(2)), Some(3))
    );
    assert_eq!(min_max_anytime_step(&state, 255).1, None);
}

#[test]
fn running_the_steps_publishes_what_the_driver_publishes() {
    let state = join(0, vec![fan(0, &[3]), leaf(-5)]);
    let mut by_steps = MoveSlot::connect();
    let mut depth: Option<u8> = Some(1);
    let mut count: u32 = 0;
    while let Some(d) = depth {
        let (answer, next) = alpha_beta_anytime_step(&state, d);
        assert!(answer.is_some());
        by_steps.store(answer);
        depth = next;
        count += 1;
    }
    assert_eq!(count, 99);
    let mut by_driver = MoveSlot::connect();
    alpha_beta_anytime(&state, &mut by_driver);
    assert_eq!(by_steps.load(), by_driver.load());
}
