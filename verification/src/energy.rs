//! Bounded, index-aligned histories of kinetic and potential energy.

use crate::trace::{lemma_pushed_all_is_recent, pushed, pushed_all, TraceBuffer};
use vstd::prelude::*;

verus! {

/// Index alignment survives any number of records. Two histories that start
/// with equal lengths and receive equally many entries end with equal
/// lengths, and entry `i` of each is the entry at one and the same place
/// of everything that was recorded.
pub proof fn lemma_records_stay_aligned<E>(
    kinetic: Seq<E>,
    potential: Seq<E>,
    more_kinetic: Seq<E>,
    more_potential: Seq<E>,
    capacity: nat,
    i: int,
)
    requires
        kinetic.len() == potential.len(),
        kinetic.len() <= capacity,
        more_kinetic.len() == more_potential.len(),
        0 <= i < pushed_all(kinetic, more_kinetic, capacity).len(),
    ensures
        pushed_all(kinetic, more_kinetic, capacity).len() == pushed_all(
            potential,
            more_potential,
            capacity,
        ).len(),
        ({
            let all_kinetic = kinetic + more_kinetic;
            let all_potential = potential + more_potential;
            let place = all_kinetic.len() - pushed_all(kinetic, more_kinetic, capacity).len() + i;
            &&& 0 <= place < all_kinetic.len()
            &&& all_kinetic.len() == all_potential.len()
            &&& pushed_all(kinetic, more_kinetic, capacity)[i] == all_kinetic[place]
            &&& pushed_all(potential, more_potential, capacity)[i] == all_potential[place]
        }),
{
    lemma_pushed_all_is_recent(kinetic, more_kinetic, capacity);
    lemma_pushed_all_is_recent(potential, more_potential, capacity);
}

/// Two histories of equal length: entry `i` of the kinetic history and
/// entry `i` of the potential history were recorded on the same frame.
/// Total energy is never stored; it is the sum of the two entries.
pub struct EnergyTracker<E> {
    kinetic: TraceBuffer<E>,
    potential: TraceBuffer<E>,
}

impl<E> EnergyTracker<E> {
    /// The retained kinetic energies, oldest first.
    pub closed spec fn kinetic(&self) -> Seq<E> {
        self.kinetic@
    }

    /// The retained potential energies, oldest first.
    pub closed spec fn potential(&self) -> Seq<E> {
        self.potential@
    }

    /// The number of frames each history may hold.
    pub closed spec fn spec_capacity(&self) -> usize {
        self.kinetic.spec_capacity()
    }

    /// Both histories are well formed, share one capacity and have the
    /// same length.
    pub closed spec fn wf(&self) -> bool {
        &&& self.kinetic.wf()
        &&& self.potential.wf()
        &&& self.kinetic.spec_capacity() == self.potential.spec_capacity()
        &&& self.kinetic@.len() == self.potential@.len()
    }

    /// The histories of a well-formed tracker are aligned and bounded.
    pub proof fn lemma_aligned(&self)
        requires
            self.wf(),
        ensures
            self.kinetic().len() == self.potential().len(),
            self.kinetic().len() <= self.spec_capacity(),
    {
        self.kinetic.lemma_bounded();
    }

    /// An empty tracker whose histories hold at most `capacity` frames.
    pub fn new(capacity: usize) -> (tracker: Self)
        ensures
            tracker.wf(),
            tracker.kinetic() == Seq::<E>::empty(),
            tracker.potential() == Seq::<E>::empty(),
            tracker.spec_capacity() == capacity,
    {
        EnergyTracker { kinetic: TraceBuffer::new(capacity), potential: TraceBuffer::new(capacity) }
    }

    /// The capacity the tracker was created with.
    #[verifier::when_used_as_spec(spec_capacity)]
    pub fn capacity(&self) -> (capacity: usize)
        ensures
            capacity == self.spec_capacity(),
    {
        self.kinetic.capacity()
    }

    /// Number of recorded frames that are retained.
    pub fn len(&self) -> (len: usize)
        requires
            self.wf(),
        ensures
            len == self.kinetic().len(),
            len == self.potential().len(),
            len <= self.spec_capacity(),
    {
        self.kinetic.len()
    }

    /// Measures `state` with `energy_of`, which yields the kinetic and the
    /// potential energy, appends the pair to the histories and returns it.
    pub fn record<S, F>(&mut self, state: &S, energy_of: &F) -> (energy: (E, E)) where
        E: Copy,
        F: Fn(&S) -> (E, E),

        requires
            old(self).wf(),
            call_requires(*energy_of, (state,)),
        ensures
            final(self).wf(),
            final(self).spec_capacity() == old(self).spec_capacity(),
            call_ensures(*energy_of, (state,), energy),
            final(self).kinetic() == pushed(
                old(self).kinetic(),
                energy.0,
                old(self).spec_capacity() as nat,
            ),
            final(self).potential() == pushed(
                old(self).potential(),
                energy.1,
                old(self).spec_capacity() as nat,
            ),
    {
        let energy = energy_of(state);
        self.kinetic.push(energy.0);
        self.potential.push(energy.1);
        energy
    }

    /// The kinetic and potential energy recorded `index` frames after the
    /// oldest retained frame, or `None` past the end.
    pub fn sample(&self, index: usize) -> (energy: Option<(&E, &E)>)
        requires
            self.wf(),
        ensures
            index < self.kinetic().len() ==> energy == Some(
                (&self.kinetic()[index as int], &self.potential()[index as int]),
            ),
            index >= self.kinetic().len() ==> energy is None,
    {
        match (self.kinetic.get(index), self.potential.get(index)) {
            (Some(kinetic), Some(potential)) => Some((kinetic, potential)),
            _ => None,
        }
    }

    /// The total energy of the frame recorded `index` frames after the
    /// oldest retained frame, or `None` past the end. The total is not
    /// stored: `combine` derives it from the kinetic and the potential entry
    /// of that one frame.
    pub fn total<T, F: Fn(&E, &E) -> T>(&self, index: usize, combine: &F) -> (total: Option<T>)
        requires
            self.wf(),
            forall|kinetic: E, potential: E| call_requires(*combine, (&kinetic, &potential)),
        ensures
            match total {
                Some(sum) => index < self.kinetic().len() && call_ensures(
                    *combine,
                    (&self.kinetic()[index as int], &self.potential()[index as int]),
                    sum,
                ),
                None => index >= self.kinetic().len(),
            },
    {
        match self.sample(index) {
            Some(pair) => Some(combine(pair.0, pair.1)),
            None => None,
        }
    }

    /// The most recently recorded pair, or `None` before the first record.
    pub fn latest(&self) -> (energy: Option<(&E, &E)>)
        requires
            self.wf(),
        ensures
            self.kinetic().len() > 0 ==> energy == Some(
                (&self.kinetic().last(), &self.potential().last()),
            ),
            self.kinetic().len() == 0 ==> energy is None,
    {
        match (self.kinetic.latest(), self.potential.latest()) {
            (Some(kinetic), Some(potential)) => Some((kinetic, potential)),
            _ => None,
        }
    }

    /// Forgets every recorded frame; the capacity stays.
    pub fn clear(&mut self)
        requires
            old(self).wf(),
        ensures
            final(self).wf(),
            final(self).kinetic() == Seq::<E>::empty(),
            final(self).potential() == Seq::<E>::empty(),
            final(self).spec_capacity() == old(self).spec_capacity(),
    {
        self.kinetic.clear();
        self.potential.clear();
    }
}

} // verus!
