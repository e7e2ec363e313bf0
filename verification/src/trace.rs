//! Bounded first-in, first-out history of recent tip positions.

use std::collections::VecDeque;
use vstd::prelude::*;

verus! {

/// The newest `capacity` entries of `history`, oldest first.
pub open spec fn recent<T>(history: Seq<T>, capacity: nat) -> Seq<T> {
    if history.len() <= capacity {
        history
    } else {
        history.subrange(history.len() - capacity, history.len() as int)
    }
}

/// What a bounded history holds after `point` is pushed onto `history`.
pub open spec fn pushed<T>(history: Seq<T>, point: T, capacity: nat) -> Seq<T> {
    recent(history.push(point), capacity)
}

/// What a bounded history holds after every entry of `points` is pushed
/// onto `history`, first entry first.
pub open spec fn pushed_all<T>(history: Seq<T>, points: Seq<T>, capacity: nat) -> Seq<T>
    decreases points.len(),
{
    if points.len() == 0 {
        history
    } else {
        pushed(pushed_all(history, points.drop_last(), capacity), points.last(), capacity)
    }
}

/// Keeping the newest entries after each push is the same as keeping the
/// newest entries once at the end.
pub proof fn lemma_recent_of_pushed<T>(history: Seq<T>, point: T, capacity: nat)
    ensures
        pushed(recent(history, capacity), point, capacity) == recent(
            history.push(point),
            capacity,
        ),
{
    assert(pushed(recent(history, capacity), point, capacity) =~= recent(
        history.push(point),
        capacity,
    ));
}

/// However many points are pushed, a bounded history never holds more than
/// `capacity` entries, and it holds exactly the newest `capacity` entries
/// of everything it was given, in push order.
pub proof fn lemma_pushed_all_is_recent<T>(history: Seq<T>, points: Seq<T>, capacity: nat)
    requires
        history.len() <= capacity,
    ensures
        pushed_all(history, points, capacity) == recent(history + points, capacity),
        pushed_all(history, points, capacity).len() <= capacity,
    decreases points.len(),
{
    if points.len() == 0 {
        assert(history + points =~= history);
    } else {
        let earlier = points.drop_last();
        lemma_pushed_all_is_recent(history, earlier, capacity);
        lemma_recent_of_pushed(history + earlier, points.last(), capacity);
        assert((history + earlier).push(points.last()) =~= history + points);
    }
}

/// A history that keeps at most `capacity` entries and evicts the oldest
/// entry first. Its view lists the retained entries oldest to newest.
pub struct TraceBuffer<T> {
    points: VecDeque<T>,
    capacity: usize,
}

impl<T> View for TraceBuffer<T> {
    type V = Seq<T>;

    closed spec fn view(&self) -> Seq<T> {
        self.points@
    }
}

impl<T> TraceBuffer<T> {
    /// The buffer holds no more entries than its capacity.
    pub closed spec fn wf(&self) -> bool {
        self.points@.len() <= self.capacity
    }

    /// The fixed number of entries the buffer may hold.
    pub closed spec fn spec_capacity(&self) -> usize {
        self.capacity
    }

    /// A well-formed buffer is never longer than its capacity.
    pub proof fn lemma_bounded(&self)
        requires
            self.wf(),
        ensures
            self@.len() <= self.spec_capacity(),
    {
    }

    /// An empty buffer that will hold at most `capacity` entries.
    pub fn new(capacity: usize) -> (buffer: Self)
        ensures
            buffer.wf(),
            buffer@ == Seq::<T>::empty(),
            buffer.spec_capacity() == capacity,
    {
        TraceBuffer { points: VecDeque::new(), capacity }
    }

    /// The capacity the buffer was created with.
    #[verifier::when_used_as_spec(spec_capacity)]
    pub fn capacity(&self) -> (capacity: usize)
        ensures
            capacity == self.spec_capacity(),
    {
        self.capacity
    }

    /// Number of retained entries; never more than the capacity.
    pub fn len(&self) -> (len: usize)
        requires
            self.wf(),
        ensures
            len == self@.len(),
            len <= self.spec_capacity(),
    {
        self.points.len()
    }

    /// Whether nothing has been retained.
    pub fn is_empty(&self) -> (empty: bool)
        requires
            self.wf(),
        ensures
            empty == (self@.len() == 0),
    {
        self.points.len() == 0
    }

    /// The entry at `index`, counted from the oldest, or `None` past the end.
    pub fn get(&self, index: usize) -> (point: Option<&T>)
        requires
            self.wf(),
        ensures
            index < self@.len() ==> point == Some(&self@[index as int]),
            index >= self@.len() ==> point is None,
    {
        if index < self.points.len() {
            Some(&self.points[index])
        } else {
            None
        }
    }

    /// The newest entry, or `None` while the buffer is empty.
    pub fn latest(&self) -> (point: Option<&T>)
        requires
            self.wf(),
        ensures
            self@.len() > 0 ==> point == Some(&self@.last()),
            self@.len() == 0 ==> point is None,
    {
        let len: usize = self.points.len();
        if len > 0 {
            Some(&self.points[len - 1])
        } else {
            None
        }
    }

    /// The retained entries, oldest first.
    pub fn to_vec(&self) -> (points: Vec<T>) where T: Copy
        requires
            self.wf(),
        ensures
            points@ == self@,
    {
        let mut points: Vec<T> = Vec::new();
        let len: usize = self.points.len();
        let mut index: usize = 0;
        while index < len
            invariant
                len == self.points@.len(),
                index <= len,
                points@ == self.points@.subrange(0, index as int),
            decreases len - index,
        {
            points.push(self.points[index]);
            index += 1;
        }
        points
    }

    /// Appends `point` as the newest entry, then evicts the oldest entry if
    /// the buffer has grown past its capacity.
    pub fn push(&mut self, point: T)
        requires
            old(self).wf(),
        ensures
            final(self).wf(),
            final(self)@ == pushed(old(self)@, point, old(self).spec_capacity() as nat),
            final(self).spec_capacity() == old(self).spec_capacity(),
    {
        if self.capacity == 0 {
            return;
        }
        if self.points.len() == self.capacity {
            self.points.pop_front();
        }
        self.points.push_back(point);
    }

    /// Drops every entry; the capacity stays.
    pub fn clear(&mut self)
        ensures
            final(self).wf(),
            final(self)@ == Seq::<T>::empty(),
            final(self).spec_capacity() == old(self).spec_capacity(),
    {
        self.points.clear();
    }
}

} // verus!
