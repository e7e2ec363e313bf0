use double_pendulum::integrator::{advance, semi_implicit_step};

#[test]
fn advance_with_zero_substeps_leaves_state() {
    let mut state: u64 = 41;
    advance(&mut state, 0, &|s: &u64| s + 1);
    assert_eq!(state, 41);
}

#[test]
fn advance_applies_sub_step_once_per_substep() {
    let mut state: u64 = 0;
    advance(&mut state, 1000, &|s: &u64| s + 1);
    assert_eq!(state, 1000);
}

#[test]
fn advance_feeds_each_result_into_the_next_sub_step() {
    let mut state: u64 = 1;
    advance(&mut state, 5, &|s: &u64| 2 * s + 1);
    assert_eq!(state, 63);
}

#[test]
fn advance_single_substep_is_one_application() {
    let mut state: (i32, i32) = (3, -4);
    advance(&mut state, 1, &|s: &(i32, i32)| (s.1, s.0));
    assert_eq!(state, (-4, 3));
}

#[test]
fn advance_keeps_history_in_state() {
    let mut state: Vec<u8> = vec![];
    advance(&mut state, 3, &|s: &Vec<u8>| {
        let mut next = s.clone();
        next.push(s.len() as u8);
        next
    });
    assert_eq!(state, vec![0, 1, 2]);
}

#[test]
fn advance_twice_equals_advance_of_the_sum() {
    let step = |s: &u64| (s * 31 + 7) % 1009;
    let mut split: u64 = 5;
    advance(&mut split, 4, &step);
    advance(&mut split, 6, &step);
    let mut whole: u64 = 5;
    advance(&mut whole, 10, &step);
    assert_eq!(split, whole);
}

fn pull(state: &(i64, i64)) -> i64 {
    -state.0
}

fn kick(state: &(i64, i64), acceleration: &i64) -> (i64, i64) {
    (state.0, state.1 + acceleration)
}

fn drift(state: &(i64, i64)) -> (i64, i64) {
    (state.0 + state.1, state.1)
}

#[test]
fn semi_implicit_step_moves_with_the_updated_velocity() {
    let next = semi_implicit_step(&(10, 0), &pull, &kick, &drift);
    assert_eq!(next, (0, -10));
}

#[test]
fn semi_implicit_step_takes_accelerations_from_the_current_state() {
    let next = semi_implicit_step(&(3, 4), &pull, &kick, &drift);
    assert_eq!(next, (4, 1));
}

#[test]
fn semi_implicit_steps_chain_under_advance() {
    let mut state: (i64, i64) = (8, 0);
    advance(&mut state, 3, &|s: &(i64, i64)| semi_implicit_step(s, &pull, &kick, &drift));
    assert_eq!(state, (-8, 0));
}
