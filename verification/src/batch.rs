//! A batch of independent pendulum instances and the frame-level operations
//! over them.

use crate::integrator::{advance, deterministic, lemma_advance_deterministic, reaches};
use crate::trace::{pushed, TraceBuffer};
use vstd::prelude::*;

verus! {

/// One simulated pendulum: its physical state and the trail of its tip.
pub struct Pendulum<S, P> {
    pub state: S,
    pub trace: TraceBuffer<P>,
}

impl<S, P> Pendulum<S, P> {
    /// `after` is this pendulum one frame later: the state went through
    /// `substeps` applications of `sub_step`, and on a sampled frame the tip
    /// of the new state was pushed onto the trail.
    pub open spec fn steps_to<F: Fn(&S) -> S, G: Fn(&S) -> P>(
        self,
        after: Self,
        substeps: u32,
        sampled: bool,
        sub_step: F,
        tip: G,
    ) -> bool {
        &&& reaches(sub_step, self.state, substeps as nat, after.state)
        &&& after.trace.wf()
        &&& after.trace.spec_capacity() == self.trace.spec_capacity()
        &&& if sampled {
            exists|point: P| #[trigger]
                call_ensures(tip, (&after.state,), point) && after.trace@ == pushed(
                    self.trace@,
                    point,
                    self.trace.spec_capacity() as nat,
                )
        } else {
            after.trace@ == self.trace@
        }
    }

    /// The state of `after` is the state of this pendulum, and its trail
    /// is the trail of this pendulum with the tip of that state pushed
    /// onto it.
    pub open spec fn fed_to<G: Fn(&S) -> P>(self, after: Self, tip: G) -> bool {
        &&& after.state == self.state
        &&& after.trace.wf()
        &&& after.trace.spec_capacity() == self.trace.spec_capacity()
        &&& exists|point: P| #[trigger]
            call_ensures(tip, (&self.state,), point) && after.trace@ == pushed(
                self.trace@,
                point,
                self.trace.spec_capacity() as nat,
            )
    }
}

/// Owns the pendulum instances of one run, the run state and the sampling
/// stride of the trails. Its view lists the instances in index order.
pub struct BatchSimulator<S, P> {
    instances: Vec<Pendulum<S, P>>,
    running: bool,
    stride: u64,
    trace_capacity: usize,
}

impl<S, P> View for BatchSimulator<S, P> {
    type V = Seq<Pendulum<S, P>>;

    closed spec fn view(&self) -> Seq<Pendulum<S, P>> {
        self.instances@
    }
}

impl<S, P> BatchSimulator<S, P> {
    /// Whether the batch advances on `step`.
    pub closed spec fn running(&self) -> bool {
        self.running
    }

    /// Every `stride`-th frame feeds the trails.
    pub closed spec fn stride(&self) -> u64 {
        self.stride
    }

    /// Capacity shared by every trail.
    pub closed spec fn trace_capacity(&self) -> usize {
        self.trace_capacity
    }

    /// The stride is positive and every trail is well formed with the
    /// shared capacity.
    pub closed spec fn wf(&self) -> bool {
        &&& self.stride >= 1
        &&& forall|i: int|
            0 <= i < self.instances@.len() ==> {
                &&& (#[trigger] self.instances@[i]).trace.wf()
                &&& self.instances@[i].trace.spec_capacity() == self.trace_capacity
            }
    }

    /// Whether the trails are fed on frame number `frame`.
    pub open spec fn samples(&self, frame: u64) -> bool {
        frame % self.stride() == 0
    }

    /// Same run state, stride, trail capacity and number of instances.
    pub open spec fn same_setup(&self, other: &Self) -> bool {
        &&& self.running() == other.running()
        &&& self.stride() == other.stride()
        &&& self.trace_capacity() == other.trace_capacity()
        &&& self@.len() == other@.len()
    }

    /// `after` is this batch one frame later. A paused batch stays as it
    /// is; a running batch steps every instance on its own.
    pub open spec fn steps_to<F: Fn(&S) -> S, G: Fn(&S) -> P>(
        &self,
        after: &Self,
        frame: u64,
        substeps: u32,
        sub_step: F,
        tip: G,
    ) -> bool {
        if self.running() {
            &&& after.same_setup(self)
            &&& forall|i: int|
                0 <= i < self@.len() ==> self@[i].steps_to(
                    #[trigger] after@[i],
                    substeps,
                    self.samples(frame),
                    sub_step,
                    tip,
                )
        } else {
            after == self
        }
    }

    /// `after` is this batch after the physics of one frame. A paused
    /// batch stays as it is; in a running batch every state goes through
    /// `substeps` applications of `sub_step` and no trail changes.
    pub open spec fn advances_to<F: Fn(&S) -> S>(
        &self,
        after: &Self,
        substeps: u32,
        sub_step: F,
    ) -> bool {
        if self.running() {
            &&& after.same_setup(self)
            &&& forall|i: int|
                0 <= i < self@.len() ==> {
                    &&& reaches(
                        sub_step,
                        self@[i].state,
                        substeps as nat,
                        (#[trigger] after@[i]).state,
                    )
                    &&& after@[i].trace == self@[i].trace
                }
        } else {
            after == self
        }
    }

    /// `after` is this batch after the trails were fed on frame number
    /// `frame`. Only a running batch on a sampled frame changes: every
    /// trail receives the tip of its own instance; no state changes.
    pub open spec fn samples_to<G: Fn(&S) -> P>(&self, after: &Self, frame: u64, tip: G) -> bool {
        if self.running() && self.samples(frame) {
            &&& after.same_setup(self)
            &&& forall|i: int|
                0 <= i < self@.len() ==> self@[i].fed_to(#[trigger] after@[i], tip)
        } else {
            after == self
        }
    }

    /// Every instance starts from one shared draw: there is a single `base`
    /// given by `generate` such that instance `i` holds a state that
    /// `offset` gives for `base` and `i`. Every trail is empty.
    pub open spec fn seeded_by<G: Fn() -> S, F: Fn(&S, usize) -> S>(
        &self,
        generate: G,
        offset: F,
    ) -> bool {
        exists|base: S|
            {
                &&& #[trigger] call_ensures(generate, (), base)
                &&& forall|i: int|
                    0 <= i < self@.len() ==> {
                        &&& call_ensures(offset, (&base, i as usize), (#[trigger] self@[i]).state)
                        &&& self@[i].trace@ == Seq::<P>::empty()
                    }
            }
    }

    /// `after` is this batch right after a reset: the setup is kept and
    /// every instance is seeded afresh.
    pub open spec fn resets_to<G: Fn() -> S, F: Fn(&S, usize) -> S>(
        &self,
        after: &Self,
        generate: G,
        offset: F,
    ) -> bool {
        after.same_setup(self) && after.seeded_by(generate, offset)
    }

    /// Every well-formed batch keeps each trail within the shared capacity.
    pub proof fn lemma_traces_bounded(&self, i: int)
        requires
            self.wf(),
            0 <= i < self@.len(),
        ensures
            self@[i].trace.wf(),
            self@[i].trace@.len() <= self.trace_capacity(),
            self@[i].trace.spec_capacity() == self.trace_capacity(),
            self.stride() >= 1,
    {
        self@[i].trace.lemma_bounded();
    }

    /// A running batch of `count` instances. The shared parameters are
    /// drawn once with `generate`; instance `i` starts from what `offset`
    /// makes of them for index `i`, with an empty trail of capacity
    /// `trace_capacity`.
    pub fn new<G: Fn() -> S, F: Fn(&S, usize) -> S>(
        count: usize,
        generate: &G,
        offset: &F,
        trace_capacity: usize,
        stride: u64,
    ) -> (batch: Self)
        requires
            stride >= 1,
            call_requires(*generate, ()),
            forall|base: S, i: usize|
                call_ensures(*generate, (), base) && i < count ==> call_requires(
                    *offset,
                    (&base, i),
                ),
        ensures
            batch.wf(),
            batch.running(),
            batch.stride() == stride,
            batch.trace_capacity() == trace_capacity,
            batch@.len() == count,
            batch.seeded_by(*generate, *offset),
    {
        let base = generate();
        let mut instances: Vec<Pendulum<S, P>> = Vec::new();
        let mut index: usize = 0;
        while index < count
            invariant
                index <= count,
                instances@.len() == index,
                call_ensures(*generate, (), base),
                forall|i: usize| i < count ==> call_requires(*offset, (&base, i)),
                forall|i: int|
                    0 <= i < index ==> {
                        &&& call_ensures(
                            *offset,
                            (&base, i as usize),
                            (#[trigger] instances@[i]).state,
                        )
                        &&& instances@[i].trace@ == Seq::<P>::empty()
                        &&& instances@[i].trace.wf()
                        &&& instances@[i].trace.spec_capacity() == trace_capacity
                    },
            decreases count - index,
        {
            let state = offset(&base, index);
            instances.push(Pendulum { state, trace: TraceBuffer::new(trace_capacity) });
            index += 1;
        }
        BatchSimulator { instances, running: true, stride, trace_capacity }
    }

    /// Number of instances in the batch.
    pub fn len(&self) -> (len: usize)
        ensures
            len == self@.len(),
    {
        self.instances.len()
    }

    /// Whether the batch is running rather than paused.
    pub fn is_running(&self) -> (running: bool)
        ensures
            running == self.running(),
    {
        self.running
    }

    /// Switches between running and paused; nothing else changes.
    pub fn toggle(&mut self)
        ensures
            final(self).running() == !old(self).running(),
            final(self)@ == old(self)@,
            final(self).stride() == old(self).stride(),
            final(self).trace_capacity() == old(self).trace_capacity(),
            old(self).wf() ==> final(self).wf(),
    {
        self.running = !self.running;
    }

    /// Whether the trails are fed on frame number `frame`.
    pub fn is_sample_frame(&self, frame: u64) -> (sampled: bool)
        requires
            self.wf(),
        ensures
            sampled == self.samples(frame),
    {
        frame % self.stride == 0
    }

    /// The instance at `index`.
    pub fn instance(&self, index: usize) -> (instance: &Pendulum<S, P>)
        requires
            index < self@.len(),
        ensures
            *instance == self@[index as int],
    {
        &self.instances[index]
    }

    /// A handle for editing the state of the instance at `index` in place;
    /// whatever is written through it is what the next step starts from.
    pub fn state_mut(&mut self, index: usize) -> (state: &mut S)
        requires
            old(self).wf(),
            index < old(self)@.len(),
        ensures
            *state == old(self)@[index as int].state,
            final(self).wf(),
            final(self).same_setup(old(self)),
            final(self)@ == old(self)@.update(
                index as int,
                (Pendulum { state: *final(state), trace: old(self)@[index as int].trace }),
            ),
    {
        &mut self.instances[index].state
    }

    /// The states of the first and the last instance, the two reference
    /// instances whose divergence measures chaos.
    pub fn reference_pair(&self) -> (pair: (&S, &S))
        requires
            self@.len() >= 2,
        ensures
            *pair.0 == self@[0].state,
            *pair.1 == self@[self@.len() - 1].state,
    {
        let last: usize = self.instances.len() - 1;
        (&self.instances[0].state, &self.instances[last].state)
    }

    /// The physics of one frame: while running, every state goes through
    /// `substeps` sub-steps. Trails are left alone. While paused, nothing
    /// happens.
    pub fn advance_all<F: Fn(&S) -> S>(&mut self, substeps: u32, sub_step: &F)
        requires
            old(self).wf(),
            forall|s: S| call_requires(*sub_step, (&s,)),
        ensures
            final(self).wf(),
            old(self).advances_to(final(self), substeps, *sub_step),
    {
        if !self.running {
            return;
        }
        let count: usize = self.instances.len();
        let mut index: usize = 0;
        while index < count
            invariant
                index <= count,
                count == self.instances@.len(),
                count == old(self).instances@.len(),
                self.running == old(self).running,
                self.stride == old(self).stride,
                self.trace_capacity == old(self).trace_capacity,
                old(self).wf(),
                forall|s: S| call_requires(*sub_step, (&s,)),
                forall|i: int|
                    0 <= i < index ==> reaches(
                        *sub_step,
                        old(self).instances@[i].state,
                        substeps as nat,
                        (#[trigger] self.instances@[i]).state,
                    ),
                forall|i: int|
                    0 <= i < count ==> (#[trigger] self.instances@[i]).trace == old(
                        self,
                    ).instances@[i].trace,
                forall|i: int|
                    index <= i < count ==> #[trigger] self.instances@[i] == old(self).instances@[i],
            decreases count - index,
        {
            advance(&mut self.instances[index].state, substeps, sub_step);
            index += 1;
        }
    }

    /// Feeds the trails on frame number `frame`: while running and on a
    /// sampled frame, every trail receives the tip of its instance. States
    /// are left alone. Otherwise nothing happens.
    pub fn sample_traces<G: Fn(&S) -> P>(&mut self, frame: u64, tip: &G)
        requires
            old(self).wf(),
            forall|s: S| call_requires(*tip, (&s,)),
        ensures
            final(self).wf(),
            old(self).samples_to(final(self), frame, *tip),
    {
        if !self.running || frame % self.stride != 0 {
            return;
        }
        let count: usize = self.instances.len();
        let mut index: usize = 0;
        while index < count
            invariant
                index <= count,
                count == self.instances@.len(),
                count == old(self).instances@.len(),
                self.running == old(self).running,
                self.stride == old(self).stride,
                self.trace_capacity == old(self).trace_capacity,
                old(self).wf(),
                forall|s: S| call_requires(*tip, (&s,)),
                forall|i: int|
                    0 <= i < index ==> old(self).instances@[i].fed_to(
                        #[trigger] self.instances@[i],
                        *tip,
                    ),
                forall|i: int|
                    index <= i < count ==> #[trigger] self.instances@[i] == old(self).instances@[i],
            decreases count - index,
        {
            let point = tip(&self.instances[index].state);
            let ghost fed = point;
            self.instances[index].trace.push(point);
            assert(call_ensures(*tip, (&old(self).instances@[index as int].state,), fed));
            assert(old(self).instances@[index as int].fed_to(self.instances@[index as int], *tip));
            index += 1;
        }
    }

    /// Advances the batch by one frame: while running, every instance goes
    /// through `substeps` sub-steps and, on a sampled frame, records the
    /// tip it has arrived at. While paused, nothing happens.
    pub fn step<F: Fn(&S) -> S, G: Fn(&S) -> P>(
        &mut self,
        frame: u64,
        substeps: u32,
        sub_step: &F,
        tip: &G,
    )
        requires
            old(self).wf(),
            forall|s: S| call_requires(*sub_step, (&s,)),
            forall|s: S| call_requires(*tip, (&s,)),
        ensures
            final(self).wf(),
            old(self).steps_to(final(self), frame, substeps, *sub_step, *tip),
    {
        self.advance_all(substeps, sub_step);
        let ghost between = *self;
        self.sample_traces(frame, tip);
        proof {
            lemma_phases_make_step(old(self), &between, &*self, frame, substeps, *sub_step, *tip);
        }
    }

    /// Draws new shared parameters once with `generate`, starts instance
    /// `i` from what `offset` makes of them for index `i`, and empties
    /// every trail. The run state is kept.
    pub fn reset<G: Fn() -> S, F: Fn(&S, usize) -> S>(&mut self, generate: &G, offset: &F)
        requires
            old(self).wf(),
            call_requires(*generate, ()),
            forall|base: S, i: usize|
                call_ensures(*generate, (), base) && i < old(self)@.len() ==> call_requires(
                    *offset,
                    (&base, i),
                ),
        ensures
            final(self).wf(),
            old(self).resets_to(final(self), *generate, *offset),
    {
        let base = generate();
        let count: usize = self.instances.len();
        let mut index: usize = 0;
        while index < count
            invariant
                index <= count,
                count == self.instances@.len(),
                count == old(self).instances@.len(),
                self.running == old(self).running,
                self.stride == old(self).stride,
                self.trace_capacity == old(self).trace_capacity,
                self.wf(),
                call_ensures(*generate, (), base),
                forall|i: usize| i < count ==> call_requires(*offset, (&base, i)),
                forall|i: int|
                    0 <= i < index ==> {
                        &&& call_ensures(
                            *offset,
                            (&base, i as usize),
                            (#[trigger] self.instances@[i]).state,
                        )
                        &&& self.instances@[i].trace@ == Seq::<P>::empty()
                    },
            decreases count - index,
        {
            let state = offset(&base, index);
            self.instances[index].state = state;
            self.instances[index].trace.clear();
            index += 1;
        }
    }

    /// Empties every trail; states, run state and setup are kept.
    pub fn clear_traces(&mut self)
        requires
            old(self).wf(),
        ensures
            final(self).wf(),
            final(self).same_setup(old(self)),
            forall|i: int|
                0 <= i < old(self)@.len() ==> {
                    &&& (#[trigger] final(self)@[i]).state == old(self)@[i].state
                    &&& final(self)@[i].trace@ == Seq::<P>::empty()
                },
    {
        let count: usize = self.instances.len();
        let mut index: usize = 0;
        while index < count
            invariant
                index <= count,
                count == self.instances@.len(),
                count == old(self).instances@.len(),
                self.running == old(self).running,
                self.stride == old(self).stride,
                self.trace_capacity == old(self).trace_capacity,
                self.wf(),
                forall|i: int|
                    0 <= i < count ==> (#[trigger] self.instances@[i]).state == old(
                        self,
                    ).instances@[i].state,
                forall|i: int|
                    0 <= i < index ==> (#[trigger] self.instances@[i]).trace@ == Seq::<P>::empty(),
            decreases count - index,
        {
            self.instances[index].trace.clear();
            index += 1;
        }
    }
}

/// Physics first, trails second: advancing every state and then feeding
/// the trails is one step of the batch.
pub proof fn lemma_phases_make_step<S, P, F: Fn(&S) -> S, G: Fn(&S) -> P>(
    before: &BatchSimulator<S, P>,
    between: &BatchSimulator<S, P>,
    after: &BatchSimulator<S, P>,
    frame: u64,
    substeps: u32,
    sub_step: F,
    tip: G,
)
    requires
        before.wf(),
        before.advances_to(between, substeps, sub_step),
        between.samples_to(after, frame, tip),
    ensures
        before.steps_to(after, frame, substeps, sub_step, tip),
{
    if before.running() {
        assert forall|i: int| 0 <= i < before@.len() implies before@[i].steps_to(
            #[trigger] after@[i],
            substeps,
            before.samples(frame),
            sub_step,
            tip,
        ) by {
            before.lemma_traces_bounded(i);
            let mid = between@[i];
            let end = after@[i];
            assert(mid.trace == before@[i].trace);
            if before.samples(frame) {
                assert(end.state == mid.state);
            } else {
                assert(end == mid);
            }
        }
    }
}

/// Instances are independent. With a sub-step and a tip that each have a
/// single result, instance `i` of a running batch ends a frame exactly as
/// it would when advanced alone: in the state `alone` that the integrator
/// gives from its own starting state, and with a trail that depends on its
/// own trail and on `alone` only.
pub proof fn lemma_step_independent<S, P, F: Fn(&S) -> S, G: Fn(&S) -> P>(
    before: &BatchSimulator<S, P>,
    after: &BatchSimulator<S, P>,
    frame: u64,
    substeps: u32,
    sub_step: F,
    tip: G,
    i: int,
    alone: S,
    alone_tip: P,
)
    requires
        deterministic(sub_step),
        deterministic(tip),
        before.running(),
        before.steps_to(after, frame, substeps, sub_step, tip),
        0 <= i < before@.len(),
        reaches(sub_step, before@[i].state, substeps as nat, alone),
        call_ensures(tip, (&alone,), alone_tip),
    ensures
        after@[i].state == alone,
        after@[i].trace@ == if before.samples(frame) {
            pushed(before@[i].trace@, alone_tip, before@[i].trace.spec_capacity() as nat)
        } else {
            before@[i].trace@
        },
{
    let ended = after@[i];
    assert(before@[i].steps_to(ended, substeps, before.samples(frame), sub_step, tip));
    lemma_advance_deterministic(sub_step, before@[i].state, substeps as nat, ended.state, alone);
}

/// Reset restores the canonical state: whatever holds of every state that
/// `offset` can make of a draw of `generate` holds of every instance after
/// a reset, and every trail is empty.
pub proof fn lemma_reset_canonical<S, P, G: Fn() -> S, F: Fn(&S, usize) -> S>(
    before: &BatchSimulator<S, P>,
    after: &BatchSimulator<S, P>,
    generate: G,
    offset: F,
    canonical: spec_fn(S) -> bool,
    i: int,
)
    requires
        before.resets_to(after, generate, offset),
        forall|base: S, k: usize, state: S|
            call_ensures(generate, (), base) && call_ensures(offset, (&base, k), state)
                ==> canonical(state),
        0 <= i < after@.len(),
    ensures
        canonical(after@[i].state),
        after@[i].trace@.len() == 0,
        after@.len() == before@.len(),
        after.running() == before.running(),
{
    let base = choose|base: S|
        {
            &&& #[trigger] call_ensures(generate, (), base)
            &&& forall|i: int|
                0 <= i < after@.len() ==> {
                    &&& call_ensures(offset, (&base, i as usize), (#[trigger] after@[i]).state)
                    &&& after@[i].trace@ == Seq::<P>::empty()
                }
        };
    let ended = after@[i];
    assert(call_ensures(offset, (&base, i as usize), ended.state));
}

} // verus!
