//! The simulation as the host drives it: a batch of pendulums, the energy
//! histories of its first instance, and the phases of one frame.

use crate::batch::{lemma_phases_make_step, BatchSimulator};
use crate::chaos::divergence;
use crate::energy::EnergyTracker;
use crate::trace::pushed;
use vstd::prelude::*;

verus! {

/// What one frame reports to the host.
pub struct Diagnostics<E, D> {
    /// Kinetic and potential energy of the first instance; `None` for an
    /// empty batch.
    pub energy: Option<(E, E)>,
    /// Divergence of the last instance from the first; `None` for fewer
    /// than two instances.
    pub divergence: Option<D>,
}

/// A batch of pendulums together with the energy histories of its first
/// instance.
pub struct Model<S, P, E> {
    pub batch: BatchSimulator<S, P>,
    pub energy: EnergyTracker<E>,
}

impl<S, P, E> Model<S, P, E> {
    /// Both parts are well formed.
    pub open spec fn wf(&self) -> bool {
        self.batch.wf() && self.energy.wf()
    }

    /// `report` and the histories of `after` are what a frame measures on
    /// the states of `after`: the energy of the first instance, appended to
    /// the histories on a sampled frame, and the divergence of the two
    /// reference instances.
    pub open spec fn measures<H: Fn(&S) -> (E, E), D, K: Fn(&S, &S) -> D>(
        &self,
        after: &Self,
        frame: u64,
        energy_of: H,
        divergence_of: K,
        report: Diagnostics<E, D>,
    ) -> bool {
        let states = after.batch@;
        let capacity = self.energy.spec_capacity();
        &&& after.energy.spec_capacity() == capacity
        &&& match report.energy {
            Some(energy) => {
                &&& states.len() >= 1
                &&& call_ensures(energy_of, (&states[0].state,), energy)
                &&& if self.batch.samples(frame) {
                    &&& after.energy.kinetic() == pushed(
                        self.energy.kinetic(),
                        energy.0,
                        capacity as nat,
                    )
                    &&& after.energy.potential() == pushed(
                        self.energy.potential(),
                        energy.1,
                        capacity as nat,
                    )
                } else {
                    &&& after.energy.kinetic() == self.energy.kinetic()
                    &&& after.energy.potential() == self.energy.potential()
                }
            },
            None => {
                &&& states.len() == 0
                &&& after.energy.kinetic() == self.energy.kinetic()
                &&& after.energy.potential() == self.energy.potential()
            },
        }
        &&& match report.divergence {
            Some(divergence) => {
                &&& states.len() >= 2
                &&& call_ensures(
                    divergence_of,
                    (&states[0].state, &states[states.len() - 1].state),
                    divergence,
                )
            },
            None => states.len() < 2,
        }
    }

    /// A running simulation of `count` instances, seeded from one draw of
    /// `generate`, with empty trails and empty energy histories.
    pub fn new<G: Fn() -> S, F: Fn(&S, usize) -> S>(
        count: usize,
        generate: &G,
        offset: &F,
        trace_capacity: usize,
        stride: u64,
        energy_capacity: usize,
    ) -> (model: Self)
        requires
            stride >= 1,
            call_requires(*generate, ()),
            forall|base: S, i: usize|
                call_ensures(*generate, (), base) && i < count ==> call_requires(
                    *offset,
                    (&base, i),
                ),
        ensures
            model.wf(),
            model.batch.running(),
            model.batch.stride() == stride,
            model.batch.trace_capacity() == trace_capacity,
            model.batch@.len() == count,
            model.batch.seeded_by(*generate, *offset),
            model.energy.kinetic() == Seq::<E>::empty(),
            model.energy.potential() == Seq::<E>::empty(),
            model.energy.spec_capacity() == energy_capacity,
    {
        Model {
            batch: BatchSimulator::new(count, generate, offset, trace_capacity, stride),
            energy: EnergyTracker::new(energy_capacity),
        }
    }

    /// Starts every pendulum afresh from one new draw of `generate` and
    /// empties every trail. The energy histories and the run state are
    /// kept.
    pub fn reset<G: Fn() -> S, F: Fn(&S, usize) -> S>(&mut self, generate: &G, offset: &F)
        requires
            old(self).wf(),
            call_requires(*generate, ()),
            forall|base: S, i: usize|
                call_ensures(*generate, (), base) && i < old(self).batch@.len() ==> call_requires(
                    *offset,
                    (&base, i),
                ),
        ensures
            final(self).wf(),
            final(self).energy == old(self).energy,
            old(self).batch.resets_to(&final(self).batch, *generate, *offset),
    {
        self.batch.reset(generate, offset);
    }

    /// First phase of a frame: the physics. A running batch takes every
    /// state through `substeps` sub-steps; a paused batch stays as it is.
    pub fn update_physics<F: Fn(&S) -> S>(&mut self, substeps: u32, sub_step: &F)
        requires
            old(self).wf(),
            forall|s: S| call_requires(*sub_step, (&s,)),
        ensures
            final(self).wf(),
            final(self).energy == old(self).energy,
            old(self).batch.advances_to(&final(self).batch, substeps, *sub_step),
    {
        self.batch.advance_all(substeps, sub_step);
    }

    /// Second phase of a frame: the trails. On a sampled frame a running
    /// batch records the tip of every pendulum.
    pub fn upate_trace<G: Fn(&S) -> P>(&mut self, frame: u64, tip: &G)
        requires
            old(self).wf(),
            forall|s: S| call_requires(*tip, (&s,)),
        ensures
            final(self).wf(),
            final(self).energy == old(self).energy,
            old(self).batch.samples_to(&final(self).batch, frame, *tip),
    {
        self.batch.sample_traces(frame, tip);
    }

    /// Third phase of a frame: what the host displays. Measures the energy
    /// of the first instance and the divergence of the reference instances
    /// on the states as they are, paused or not; on a sampled frame the
    /// energy joins the histories. The batch is only read.
    pub fn update_gui<H, D, K>(
        &mut self,
        frame: u64,
        energy_of: &H,
        divergence_of: &K,
    ) -> (report: Diagnostics<E, D>) where
        E: Copy,
        H: Fn(&S) -> (E, E),
        K: Fn(&S, &S) -> D,

        requires
            old(self).wf(),
            forall|s: S| call_requires(*energy_of, (&s,)),
            forall|first: S, last: S| call_requires(*divergence_of, (&first, &last)),
        ensures
            final(self).wf(),
            final(self).batch == old(self).batch,
            old(self).measures(final(self), frame, *energy_of, *divergence_of, report),
    {
        let sampled: bool = self.batch.is_sample_frame(frame);
        let count: usize = self.batch.len();
        let energy = if count == 0 {
            None
        } else if sampled {
            Some(self.energy.record(&self.batch.instance(0).state, energy_of))
        } else {
            Some(energy_of(&self.batch.instance(0).state))
        };
        let distance = if count >= 2 {
            Some(divergence(&self.batch, divergence_of))
        } else {
            None
        };
        Diagnostics { energy, divergence: distance }
    }

    /// Runs one frame: physics, then trails, then the diagnostics, which
    /// are therefore read off the updated states.
    pub fn frame<F, G, H, D, K>(
        &mut self,
        frame: u64,
        substeps: u32,
        sub_step: &F,
        tip: &G,
        energy_of: &H,
        divergence_of: &K,
    ) -> (report: Diagnostics<E, D>) where
        E: Copy,
        F: Fn(&S) -> S,
        G: Fn(&S) -> P,
        H: Fn(&S) -> (E, E),
        K: Fn(&S, &S) -> D,

        requires
            old(self).wf(),
            forall|s: S| call_requires(*sub_step, (&s,)),
            forall|s: S| call_requires(*tip, (&s,)),
            forall|s: S| call_requires(*energy_of, (&s,)),
            forall|first: S, last: S| call_requires(*divergence_of, (&first, &last)),
        ensures
            final(self).wf(),
            old(self).batch.steps_to(&final(self).batch, frame, substeps, *sub_step, *tip),
            old(self).measures(final(self), frame, *energy_of, *divergence_of, report),
    {
        self.update_physics(substeps, sub_step);
        let ghost between = self.batch;
        self.upate_trace(frame, tip);
        proof {
            lemma_phases_make_step(
                &old(self).batch,
                &between,
                &self.batch,
                frame,
                substeps,
                *sub_step,
                *tip,
            );
        }
        self.update_gui(frame, energy_of, divergence_of)
    }
}

} // verus!
