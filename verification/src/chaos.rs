//! The chaos metric: how far two instances that started almost alike have
//! drifted apart.

use crate::batch::BatchSimulator;
use vstd::prelude::*;

verus! {

/// Measures the last instance of `batch` against the first with `measure`.
/// The batch is only read. The metric is defined for batches of at least
/// two instances.
pub fn divergence<S, P, D, K: Fn(&S, &S) -> D>(
    batch: &BatchSimulator<S, P>,
    measure: &K,
) -> (distance: D)
    requires
        batch@.len() >= 2,
        call_requires(*measure, (&batch@[0].state, &batch@[batch@.len() - 1].state)),
    ensures
        call_ensures(*measure, (&batch@[0].state, &batch@[batch@.len() - 1].state), distance),
{
    let pair = batch.reference_pair();
    measure(pair.0, pair.1)
}

} // verus!
