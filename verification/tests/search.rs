use std::cell::Cell;
use steal_pool::search::{round, search, sweep};
use steal_pool::StealOutcome;

fn answer_of(code: u32) -> StealOutcome<u32> {
    match code {
        0 => StealOutcome::Empty,
        1 => StealOutcome::Retry,
        task => StealOutcome::Success(task),
    }
}

fn sweep_over(script: &[u32]) -> (StealOutcome<u32>, usize) {
    let asked = Cell::new(0usize);
    let peer = |j: usize| {
        assert_eq!(j, asked.get());
        asked.set(asked.get() + 1);
        answer_of(script[j])
    };
    let out = sweep(&peer, script.len());
    (out, asked.get())
}

fn round_over(first: u32, script: &[u32]) -> (StealOutcome<u32>, usize, usize) {
    let batches = Cell::new(0usize);
    let asked = Cell::new(0usize);
    let global = || {
        batches.set(batches.get() + 1);
        answer_of(first)
    };
    let peer = |j: usize| {
        asked.set(asked.get() + 1);
        answer_of(script[j])
    };
    let out = round(&global, &peer, script.len());
    (out, batches.get(), asked.get())
}

fn search_over(own: Option<u32>, firsts: &[u32], script: &[u32], patience: usize) -> (StealOutcome<u32>, usize) {
    let (out, rounds, _) = search_counting(own, firsts, script, patience);
    (out, rounds)
}

fn search_counting(
    own: Option<u32>,
    firsts: &[u32],
    script: &[u32],
    patience: usize,
) -> (StealOutcome<u32>, usize, usize) {
    let rounds = Cell::new(0usize);
    let asked = Cell::new(0usize);
    let local = || own;
    let global = || {
        let made = rounds.get();
        rounds.set(made + 1);
        answer_of(firsts[made.min(firsts.len() - 1)])
    };
    let peer = |j: usize| {
        asked.set(asked.get() + 1);
        answer_of(script[j])
    };
    let out = search(&local, &global, &peer, script.len(), patience);
    (out, rounds.get(), asked.get())
}

#[test]
fn sweep_over_no_peers_is_empty() {
    assert_eq!(sweep_over(&[]), (StealOutcome::Empty, 0));
}

#[test]
fn sweep_over_empty_peers_asks_them_all() {
    assert_eq!(sweep_over(&[0, 0, 0]), (StealOutcome::Empty, 3));
}

#[test]
fn sweep_remembers_a_lost_race() {
    assert_eq!(sweep_over(&[0, 1, 0]), (StealOutcome::Retry, 3));
    assert_eq!(sweep_over(&[1]), (StealOutcome::Retry, 1));
    assert_eq!(sweep_over(&[0, 0, 1]), (StealOutcome::Retry, 3));
}

#[test]
fn sweep_stops_at_the_first_task() {
    assert_eq!(sweep_over(&[1, 41, 0]), (StealOutcome::Success(41), 2));
    assert_eq!(sweep_over(&[40, 41, 42]), (StealOutcome::Success(40), 1));
    assert_eq!(sweep_over(&[0, 0, 42]), (StealOutcome::Success(42), 3));
}

#[test]
fn sweep_prefers_a_task_to_an_earlier_lost_race() {
    assert_eq!(sweep_over(&[1, 1, 43, 1]), (StealOutcome::Success(43), 3));
}

#[test]
fn round_with_a_global_task_asks_no_peer() {
    assert_eq!(round_over(50, &[51, 52]), (StealOutcome::Success(50), 1, 0));
}

#[test]
fn round_sweeps_the_peers_when_the_global_queue_is_empty() {
    assert_eq!(round_over(0, &[0, 51, 52]), (StealOutcome::Success(51), 1, 2));
    assert_eq!(round_over(0, &[0, 0]), (StealOutcome::Empty, 1, 2));
    assert_eq!(round_over(0, &[0, 1]), (StealOutcome::Retry, 1, 2));
}

#[test]
fn round_asks_no_peer_when_the_global_queue_is_contended() {
    assert_eq!(round_over(1, &[0, 51]), (StealOutcome::Retry, 1, 0));
    assert_eq!(round_over(1, &[51]), (StealOutcome::Retry, 1, 0));
    assert_eq!(round_over(1, &[0, 0]), (StealOutcome::Retry, 1, 0));
    assert_eq!(round_over(1, &[]), (StealOutcome::Retry, 1, 0));
}

#[test]
fn search_returns_a_local_task_at_once() {
    assert_eq!(search_over(Some(60), &[61], &[62], 5), (StealOutcome::Success(60), 0));
    assert_eq!(search_over(Some(60), &[61], &[62], 0), (StealOutcome::Success(60), 0));
}

#[test]
fn search_asks_no_other_source_after_a_local_task() {
    assert_eq!(search_counting(Some(60), &[61], &[62, 63], 5), (StealOutcome::Success(60), 0, 0));
}

#[test]
fn search_asks_no_peer_after_a_global_task() {
    assert_eq!(search_counting(None, &[61], &[62, 63], 5), (StealOutcome::Success(61), 1, 0));
}

#[test]
fn search_asks_each_source_once_without_contention() {
    assert_eq!(search_counting(None, &[0], &[0, 0, 0], 5), (StealOutcome::Empty, 1, 3));
    assert_eq!(search_counting(None, &[0], &[0, 62, 63], 5), (StealOutcome::Success(62), 1, 2));
}

#[test]
fn search_repeats_from_the_global_queue_after_a_lost_race_there() {
    assert_eq!(search_counting(None, &[1, 61], &[62], 5), (StealOutcome::Success(61), 2, 0));
    assert_eq!(search_counting(None, &[1, 0], &[62], 5), (StealOutcome::Success(62), 2, 1));
}

#[test]
fn search_steals_from_the_first_loaded_peer() {
    for patience in 1..4usize {
        assert_eq!(search_counting(None, &[0], &[0, 0, 70, 71], patience), (StealOutcome::Success(70), 1, 3));
    }
}

#[test]
fn search_without_rounds_leaves_the_question_open() {
    assert_eq!(search_over(None, &[61], &[62], 0), (StealOutcome::Retry, 0));
    assert_eq!(search_over(None, &[0], &[0], 0), (StealOutcome::Retry, 0));
}

#[test]
fn search_settles_in_one_round_without_contention() {
    assert_eq!(search_over(None, &[61], &[62], 5), (StealOutcome::Success(61), 1));
    assert_eq!(search_over(None, &[0], &[0, 62], 5), (StealOutcome::Success(62), 1));
    assert_eq!(search_over(None, &[0], &[0, 0], 5), (StealOutcome::Empty, 1));
    assert_eq!(search_over(None, &[0], &[], 1), (StealOutcome::Empty, 1));
}

#[test]
fn search_repeats_a_contended_round() {
    assert_eq!(search_over(None, &[1, 1, 0], &[0, 0], 5), (StealOutcome::Empty, 3));
    assert_eq!(search_over(None, &[1, 1, 63], &[0, 0], 5), (StealOutcome::Success(63), 3));
    assert_eq!(search_over(None, &[1, 1, 0], &[0, 0], 3), (StealOutcome::Empty, 3));
}

#[test]
fn search_gives_up_when_patience_runs_out() {
    assert_eq!(search_over(None, &[1, 1, 0], &[0, 0], 2), (StealOutcome::Retry, 2));
    assert_eq!(search_over(None, &[1], &[0, 0], 7), (StealOutcome::Retry, 7));
    assert_eq!(search_over(None, &[0], &[0, 1], 4), (StealOutcome::Retry, 4));
}

#[test]
fn search_never_takes_contention_for_an_empty_pool() {
    for patience in 0..6usize {
        let (out, _) = search_over(None, &[1], &[0, 0, 0], patience);
        assert_eq!(out, StealOutcome::Retry);
    }
}
