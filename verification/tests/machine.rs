use iron::machine::{start, step};
use iron::{Phase, State};

#[test]
fn a_chain_starts_with_its_first_before() {
    assert_eq!(start(1, 0), State::Running(Phase::Before, 0));
    assert_eq!(start(3, 2), State::Running(Phase::Before, 0));
}

#[test]
fn a_chain_without_befores_starts_with_its_handler() {
    assert_eq!(start(0, 0), State::Handling);
    assert_eq!(start(0, 5), State::Handling);
}

#[test]
fn a_before_that_ends_well_is_followed_by_the_next() {
    assert_eq!(step(3, 1, State::Running(Phase::Before, 0), true), State::Running(Phase::Before, 1));
    assert_eq!(step(3, 1, State::Running(Phase::Before, 1), true), State::Running(Phase::Before, 2));
    assert_eq!(step(3, 1, State::Running(Phase::Before, 2), true), State::Handling);
    assert_eq!(step(1, 0, State::Running(Phase::Before, 0), true), State::Handling);
}

#[test]
fn a_before_that_fails_is_followed_by_a_catch() {
    assert_eq!(step(3, 1, State::Running(Phase::Before, 0), false), State::Recovering(Phase::Before, 1));
    assert_eq!(step(3, 1, State::Running(Phase::Before, 1), false), State::Recovering(Phase::Before, 2));
    assert_eq!(step(3, 1, State::Recovering(Phase::Before, 1), false), State::Recovering(Phase::Before, 2));
}

#[test]
fn a_catch_that_recovers_resumes_the_ordinary_calls() {
    assert_eq!(step(4, 1, State::Recovering(Phase::Before, 2), true), State::Running(Phase::Before, 3));
    assert_eq!(step(3, 1, State::Recovering(Phase::Before, 2), true), State::Handling);
    assert_eq!(step(0, 3, State::Recovering(Phase::After, 0), true), State::Running(Phase::After, 1));
    assert_eq!(step(0, 1, State::Recovering(Phase::After, 0), true), State::Done(true));
}

#[test]
fn a_failure_behind_the_last_before_passes_over_the_handler() {
    assert_eq!(step(3, 2, State::Running(Phase::Before, 2), false), State::Recovering(Phase::After, 0));
    assert_eq!(step(3, 2, State::Recovering(Phase::Before, 2), false), State::Recovering(Phase::After, 0));
    assert_eq!(step(3, 0, State::Running(Phase::Before, 2), false), State::Done(false));
    assert_eq!(step(1, 0, State::Recovering(Phase::Before, 0), false), State::Done(false));
}

#[test]
fn the_handler_is_followed_by_the_first_after() {
    assert_eq!(step(2, 2, State::Handling, true), State::Running(Phase::After, 0));
    assert_eq!(step(2, 2, State::Handling, false), State::Recovering(Phase::After, 0));
    assert_eq!(step(2, 0, State::Handling, true), State::Done(true));
    assert_eq!(step(0, 0, State::Handling, false), State::Done(false));
}

#[test]
fn the_afters_follow_each_other() {
    assert_eq!(step(0, 3, State::Running(Phase::After, 0), true), State::Running(Phase::After, 1));
    assert_eq!(step(0, 3, State::Running(Phase::After, 0), false), State::Recovering(Phase::After, 1));
    assert_eq!(step(0, 3, State::Recovering(Phase::After, 1), false), State::Recovering(Phase::After, 2));
    assert_eq!(step(0, 3, State::Running(Phase::After, 2), true), State::Done(true));
    assert_eq!(step(0, 3, State::Running(Phase::After, 2), false), State::Done(false));
    assert_eq!(step(0, 3, State::Recovering(Phase::After, 2), false), State::Done(false));
}

#[test]
fn done_stays_done() {
    assert_eq!(step(2, 2, State::Done(true), false), State::Done(true));
    assert_eq!(step(2, 2, State::Done(false), true), State::Done(false));
    assert!(State::Done(true).is_done());
    assert!(!State::Handling.is_done());
    assert!(!State::Running(Phase::After, 0).is_done());
}

#[test]
fn a_walk_visits_every_stage_once() {
    let (nb, na) = (3, 2);
    let mut state = start(nb, na);
    let mut seen = Vec::new();
    while !state.is_done() {
        seen.push(state);
        state = step(nb, na, state, true);
    }
    assert_eq!(
        seen,
        vec![
            State::Running(Phase::Before, 0),
            State::Running(Phase::Before, 1),
            State::Running(Phase::Before, 2),
            State::Handling,
            State::Running(Phase::After, 0),
            State::Running(Phase::After, 1),
        ]
    );
    assert_eq!(state, State::Done(true));
}
