use tg_drift::executor::{exit_result, PlanResult};
use tg_drift::scheduler::Action::{AwaitOne as W, Finish as F, Start as S};
use tg_drift::scheduler::{Action, Scheduler};

/// The record that unit `index` brings when it completes.
fn record(index: usize) -> PlanResult {
    exit_result(
        &format!("unit-{}", index),
        true,
        format!("Plan: {} to add", index),
        String::new(),
    )
    .unwrap()
}

/// What a driver saw of one batch run.
struct Run {
    actions: Vec<Action>,
    started: Vec<usize>,
    peak: usize,
    results: Vec<PlanResult>,
}

/// Runs a batch to its end. Whenever a completion is awaited, `pick` chooses
/// which of the units in flight completes, by its position among them; the
/// units in `lost` complete without a record.
fn drive(total: usize, ceiling: usize, pick: fn(usize, usize) -> usize, lost: &[usize]) -> Run {
    let mut scheduler = Scheduler::new(total, ceiling);
    let mut in_flight: Vec<usize> = Vec::new();
    let mut run = Run { actions: Vec::new(), started: Vec::new(), peak: 0, results: Vec::new() };
    let mut step: usize = 0;
    loop {
        let action = scheduler.next_action();
        run.actions.push(action);
        match action {
            Action::Start => {
                let index = scheduler.start_next();
                run.started.push(index);
                in_flight.push(index);
            }
            Action::AwaitOne => {
                assert!(!in_flight.is_empty(), "a completion is awaited while nothing is in flight");
                let unit = in_flight.remove(pick(in_flight.len(), step) % in_flight.len());
                if lost.contains(&unit) {
                    scheduler.complete(None);
                } else {
                    scheduler.complete(Some(record(unit)));
                }
            }
            Action::Finish => break,
        }
        assert_eq!(scheduler.in_flight(), in_flight.len());
        run.peak = run.peak.max(in_flight.len());
        step += 1;
    }
    assert!(in_flight.is_empty(), "the batch finished while units were in flight");
    run.results = scheduler.into_results();
    run
}

fn oldest(_in_flight: usize, _step: usize) -> usize {
    0
}

fn newest(in_flight: usize, _step: usize) -> usize {
    in_flight - 1
}

fn scattered(in_flight: usize, step: usize) -> usize {
    (step * 7 + 3) % in_flight
}

fn paths(results: &[PlanResult]) -> Vec<String> {
    results.iter().map(|result| result.path.clone()).collect()
}

fn sorted(mut results: Vec<PlanResult>) -> Vec<PlanResult> {
    results.sort_by_key(|result| result.path.clone());
    results
}

#[test]
fn every_unit_brings_one_result() {
    let picks: Vec<fn(usize, usize) -> usize> = vec![oldest, newest, scattered];
    for ceiling in 1..=7usize {
        for total in 0..=9usize {
            for pick in &picks {
                let run = drive(total, ceiling, *pick, &[]);
                assert_eq!(run.results.len(), total, "ceiling {} total {}", ceiling, total);
                let expected: Vec<PlanResult> = (0..total).map(record).collect();
                assert_eq!(sorted(run.results), sorted(expected));
            }
        }
    }
}

#[test]
fn units_are_started_in_order() {
    let run = drive(6, 2, scattered, &[]);
    assert_eq!(run.started, vec![0, 1, 2, 3, 4, 5]);
    let run = drive(3, 10, newest, &[]);
    assert_eq!(run.started, vec![0, 1, 2]);
}

#[test]
fn actions_fill_to_the_ceiling_then_alternate_then_drain() {
    assert_eq!(drive(5, 3, oldest, &[]).actions, vec![S, S, S, W, S, W, S, W, W, W, F]);
    assert_eq!(drive(3, 1, oldest, &[]).actions, vec![S, W, S, W, S, W, F]);
    assert_eq!(drive(2, 2, oldest, &[]).actions, vec![S, S, W, W, F]);
    assert_eq!(drive(1, 1, oldest, &[]).actions, vec![S, W, F]);
    assert_eq!(drive(0, 3, oldest, &[]).actions, vec![F]);
}

#[test]
fn no_more_units_are_in_flight_than_the_ceiling() {
    for ceiling in 1..=6usize {
        for total in 0..=12usize {
            let run = drive(total, ceiling, scattered, &[]);
            assert_eq!(run.peak, ceiling.min(total), "ceiling {} total {}", ceiling, total);
        }
    }
}

#[test]
fn ceiling_of_zero_works_as_a_ceiling_of_one() {
    for total in 0..=5usize {
        let zero = drive(total, 0, oldest, &[]);
        let one = drive(total, 1, oldest, &[]);
        assert_eq!(zero.actions, one.actions);
        assert_eq!(zero.results, one.results);
        assert_eq!(zero.peak, total.min(1));
    }
}

#[test]
fn ceiling_beyond_the_count_works_as_the_count() {
    for total in 0..=6usize {
        let exact = drive(total, total, scattered, &[]);
        for ceiling in [total + 1, total + 2, 2 * total + 7, usize::MAX] {
            let beyond = drive(total, ceiling, scattered, &[]);
            assert_eq!(beyond.actions, exact.actions, "total {} ceiling {}", total, ceiling);
            assert_eq!(beyond.started, exact.started);
            assert_eq!(beyond.results, exact.results);
            assert_eq!(beyond.peak, exact.peak);
        }
    }
    assert_eq!(drive(4, 9, oldest, &[]).actions, vec![S, S, S, S, W, W, W, W, F]);
    assert_eq!(drive(4, 4, oldest, &[]).actions, vec![S, S, S, S, W, W, W, W, F]);
}

#[test]
fn results_come_in_completion_order() {
    let run = drive(4, 2, newest, &[]);
    assert_eq!(paths(&run.results), vec!["unit-1", "unit-2", "unit-3", "unit-0"]);
    let run = drive(4, 2, oldest, &[]);
    assert_eq!(paths(&run.results), vec!["unit-0", "unit-1", "unit-2", "unit-3"]);
    let run = drive(4, 8, newest, &[]);
    assert_eq!(paths(&run.results), vec!["unit-3", "unit-2", "unit-1", "unit-0"]);
}

#[test]
fn completion_without_a_record_leaves_no_result() {
    let run = drive(5, 2, oldest, &[1, 3]);
    assert_eq!(paths(&run.results), vec!["unit-0", "unit-2", "unit-4"]);
    assert_eq!(run.actions.len(), 11);
    let run = drive(3, 3, newest, &[0, 1, 2]);
    assert!(run.results.is_empty());
}

#[test]
fn two_runs_gather_the_same_results_up_to_order() {
    for ceiling in 1..=4usize {
        let first = drive(7, ceiling, oldest, &[]);
        let second = drive(7, ceiling, scattered, &[]);
        assert_eq!(sorted(first.results), sorted(second.results));
    }
    let first = drive(7, 3, newest, &[]);
    let second = drive(7, 3, scattered, &[]);
    assert_ne!(paths(&first.results), paths(&second.results));
    assert_eq!(sorted(first.results), sorted(second.results));
}

#[test]
fn fresh_scheduler_of_an_empty_batch_is_finished() {
    let scheduler = Scheduler::new(0, 4);
    assert_eq!(scheduler.next_action(), Action::Finish);
    assert_eq!(scheduler.in_flight(), 0);
    assert_eq!(scheduler.into_results(), Vec::new());
}

#[test]
fn scheduler_steps_one_by_one() {
    let mut scheduler = Scheduler::new(2, 1);
    assert_eq!(scheduler.next_action(), Action::Start);
    assert_eq!(scheduler.start_next(), 0);
    assert_eq!(scheduler.in_flight(), 1);
    assert_eq!(scheduler.next_action(), Action::AwaitOne);
    scheduler.complete(Some(record(0)));
    assert_eq!(scheduler.in_flight(), 0);
    assert_eq!(scheduler.next_action(), Action::Start);
    assert_eq!(scheduler.start_next(), 1);
    assert_eq!(scheduler.next_action(), Action::AwaitOne);
    scheduler.complete(None);
    assert_eq!(scheduler.next_action(), Action::Finish);
    assert_eq!(scheduler.into_results(), vec![record(0)]);
}
