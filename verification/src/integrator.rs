//! The integrator: the semi-implicit Euler scheme of one sub-step and the
//! sub-stepping loop.
//!
//! One frame interval is divided into equal sub-steps. The arithmetic of a
//! sub-step (the accelerations, the velocity update and the angle update)
//! is supplied by the caller; this module fixes in which order the three
//! are applied and how often a sub-step is taken.

use vstd::prelude::*;

verus! {

/// `next` is one semi-implicit Euler sub-step after `state`: the
/// accelerations are taken from `state` itself, `kick` updates the
/// velocities of `state` with them, and `drift` updates the angles of the
/// state that already carries the updated velocities.
pub open spec fn semi_implicit<S, A, Acc: Fn(&S) -> A, Kick: Fn(&S, &A) -> S, Drift: Fn(&S) -> S>(
    state: S,
    next: S,
    accelerate: Acc,
    kick: Kick,
    drift: Drift,
) -> bool {
    exists|acceleration: A, kicked: S|
        {
            &&& call_ensures(accelerate, (&state,), acceleration)
            &&& #[trigger] call_ensures(kick, (&state, &acceleration), kicked)
            &&& call_ensures(drift, (&kicked,), next)
        }
}

/// Takes one semi-implicit Euler sub-step from `state`: accelerations
/// first, then velocities, then angles from the updated velocities.
pub fn semi_implicit_step<S, A, Acc: Fn(&S) -> A, Kick: Fn(&S, &A) -> S, Drift: Fn(&S) -> S>(
    state: &S,
    accelerate: &Acc,
    kick: &Kick,
    drift: &Drift,
) -> (next: S)
    requires
        call_requires(*accelerate, (state,)),
        forall|acceleration: A|
            call_ensures(*accelerate, (state,), acceleration) ==> call_requires(
                *kick,
                (state, &acceleration),
            ),
        forall|acceleration: A, kicked: S|
            call_ensures(*accelerate, (state,), acceleration) && call_ensures(
                *kick,
                (state, &acceleration),
                kicked,
            ) ==> call_requires(*drift, (&kicked,)),
    ensures
        semi_implicit(*state, next, *accelerate, *kick, *drift),
{
    let acceleration = accelerate(state);
    let kicked = kick(state, &acceleration);
    drift(&kicked)
}

/// A sub-step is repeatable: when the accelerations, the velocity update
/// and the angle update each have a single result, so has the sub-step.
pub proof fn lemma_semi_implicit_single_valued<
    S,
    A,
    Acc: Fn(&S) -> A,
    Kick: Fn(&S, &A) -> S,
    Drift: Fn(&S) -> S,
>(state: S, first: S, second: S, accelerate: Acc, kick: Kick, drift: Drift)
    requires
        deterministic(accelerate),
        forall|s: S, a: A, x: S, y: S|
            call_ensures(kick, (&s, &a), x) && call_ensures(kick, (&s, &a), y) ==> x == y,
        deterministic(drift),
        semi_implicit(state, first, accelerate, kick, drift),
        semi_implicit(state, second, accelerate, kick, drift),
    ensures
        first == second,
{
}

/// Every state of `run` after the first is a result of `sub_step` applied
/// to the state before it.
pub open spec fn is_run<S, F: Fn(&S) -> S>(sub_step: F, run: Seq<S>) -> bool {
    forall|k: int| 1 <= k < run.len() ==> call_ensures(sub_step, (&run[k - 1],), #[trigger] run[k])
}

/// `end` can result from applying `sub_step` exactly `steps` times in a row,
/// starting at `start`.
pub open spec fn reaches<S, F: Fn(&S) -> S>(sub_step: F, start: S, steps: nat, end: S) -> bool {
    exists|run: Seq<S>|
        {
            &&& #[trigger] is_run(sub_step, run)
            &&& run.len() == steps + 1
            &&& run[0] == start
            &&& run[steps as int] == end
        }
}

/// `map` has exactly one result for every state.
pub open spec fn deterministic<S, T, F: Fn(&S) -> T>(map: F) -> bool {
    forall|state: S, a: T, b: T|
        call_ensures(map, (&state,), a) && call_ensures(map, (&state,), b) ==> a == b
}

/// Zero applications leave the state where it started.
pub proof fn lemma_reaches_none<S, F: Fn(&S) -> S>(sub_step: F, start: S, end: S)
    ensures
        reaches(sub_step, start, 0, end) <==> end == start,
{
    if end == start {
        assert(is_run(sub_step, seq![start]));
    }
}

/// One further application of `sub_step` extends a run by one step.
pub proof fn lemma_reaches_one_more<S, F: Fn(&S) -> S>(
    sub_step: F,
    start: S,
    steps: nat,
    mid: S,
    end: S,
)
    requires
        reaches(sub_step, start, steps, mid),
        call_ensures(sub_step, (&mid,), end),
    ensures
        reaches(sub_step, start, steps + 1, end),
{
    let run = choose|run: Seq<S>|
        {
            &&& #[trigger] is_run(sub_step, run)
            &&& run.len() == steps + 1
            &&& run[0] == start
            &&& run[steps as int] == mid
        };
    assert(is_run(sub_step, run.push(end)));
}

/// Two runs of a deterministic sub-step that start from the same state
/// agree at every step.
proof fn lemma_runs_agree<S, F: Fn(&S) -> S>(sub_step: F, a: Seq<S>, b: Seq<S>, k: int)
    requires
        deterministic(sub_step),
        is_run(sub_step, a),
        is_run(sub_step, b),
        0 <= k < a.len(),
        k < b.len(),
        a[0] == b[0],
    ensures
        a[k] == b[k],
    decreases k,
{
    if k > 0 {
        lemma_runs_agree(sub_step, a, b, k - 1);
    }
}

/// Integration is repeatable: with a sub-step that has a single result for
/// every state, the same start and the same number of sub-steps admit only
/// one final state.
pub proof fn lemma_advance_deterministic<S, F: Fn(&S) -> S>(
    sub_step: F,
    start: S,
    steps: nat,
    first: S,
    second: S,
)
    requires
        deterministic(sub_step),
        reaches(sub_step, start, steps, first),
        reaches(sub_step, start, steps, second),
    ensures
        first == second,
{
    let a = choose|run: Seq<S>|
        {
            &&& #[trigger] is_run(sub_step, run)
            &&& run.len() == steps + 1
            &&& run[0] == start
            &&& run[steps as int] == first
        };
    let b = choose|run: Seq<S>|
        {
            &&& #[trigger] is_run(sub_step, run)
            &&& run.len() == steps + 1
            &&& run[0] == start
            &&& run[steps as int] == second
        };
    lemma_runs_agree(sub_step, a, b, steps as int);
}

/// Advances `state` by `substeps` consecutive applications of `sub_step`.
pub fn advance<S, F: Fn(&S) -> S>(state: &mut S, substeps: u32, sub_step: &F)
    requires
        forall|s: S| call_requires(*sub_step, (&s,)),
    ensures
        reaches(*sub_step, *old(state), substeps as nat, *final(state)),
{
    proof {
        lemma_reaches_none(*sub_step, *old(state), *state);
    }
    let mut done: u32 = 0;
    while done < substeps
        invariant
            done <= substeps,
            forall|s: S| call_requires(*sub_step, (&s,)),
            reaches(*sub_step, *old(state), done as nat, *state),
        decreases substeps - done,
    {
        let ghost before = *state;
        let next = sub_step(&*state);
        *state = next;
        proof {
            lemma_reaches_one_more(*sub_step, *old(state), done as nat, before, *state);
        }
        done += 1;
    }
}

} // verus!
