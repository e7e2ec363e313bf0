use double_pendulum::energy::EnergyTracker;

fn split(state: &(i64, i64)) -> (i64, i64) {
    (state.0 * state.0, 10 * state.1)
}

#[test]
fn energy_tracker_starts_empty() {
    let tracker: EnergyTracker<i64> = EnergyTracker::new(8);
    assert_eq!(tracker.len(), 0);
    assert_eq!(tracker.capacity(), 8);
    assert_eq!(tracker.latest(), None);
    assert_eq!(tracker.sample(0), None);
}

#[test]
fn energy_record_returns_what_it_appends() {
    let mut tracker: EnergyTracker<i64> = EnergyTracker::new(4);
    let energy = tracker.record(&(3, 2), &split);
    assert_eq!(energy, (9, 20));
    assert_eq!(tracker.len(), 1);
    assert_eq!(tracker.latest(), Some((&9, &20)));
    assert_eq!(tracker.sample(0), Some((&9, &20)));
}

#[test]
fn energy_histories_stay_index_aligned() {
    let mut tracker: EnergyTracker<i64> = EnergyTracker::new(3);
    for frame in 0..10i64 {
        tracker.record(&(frame, -frame), &split);
        assert!(tracker.len() <= 3);
        for index in 0..tracker.len() {
            let (kinetic, potential) = tracker.sample(index).unwrap();
            let recorded = *potential / -10;
            assert_eq!(*kinetic, recorded * recorded);
        }
    }
    assert_eq!(tracker.len(), 3);
    assert_eq!(tracker.sample(0), Some((&49, &-70)));
    assert_eq!(tracker.sample(1), Some((&64, &-80)));
    assert_eq!(tracker.sample(2), Some((&81, &-90)));
    assert_eq!(tracker.sample(3), None);
    assert_eq!(tracker.latest(), Some((&81, &-90)));
}

#[test]
fn energy_total_is_derived_from_both_histories() {
    let mut tracker: EnergyTracker<i64> = EnergyTracker::new(2);
    let add = |kinetic: &i64, potential: &i64| kinetic + potential;
    assert_eq!(tracker.total(0, &add), None);
    tracker.record(&(1, 1), &split);
    tracker.record(&(2, 3), &split);
    tracker.record(&(4, 5), &split);
    assert_eq!(tracker.total(0, &add), Some(34));
    assert_eq!(tracker.total(1, &add), Some(66));
    assert_eq!(tracker.total(2, &add), None);
}

#[test]
fn energy_tracker_of_capacity_zero_still_measures() {
    let mut tracker: EnergyTracker<i64> = EnergyTracker::new(0);
    assert_eq!(tracker.record(&(5, 1), &split), (25, 10));
    assert_eq!(tracker.len(), 0);
    assert_eq!(tracker.latest(), None);
}

#[test]
fn energy_clear_forgets_history_and_keeps_capacity() {
    let mut tracker: EnergyTracker<i64> = EnergyTracker::new(2);
    tracker.record(&(1, 1), &split);
    tracker.record(&(2, 2), &split);
    tracker.clear();
    assert_eq!(tracker.len(), 0);
    assert_eq!(tracker.capacity(), 2);
    assert_eq!(tracker.latest(), None);
    tracker.record(&(3, 3), &split);
    assert_eq!(tracker.sample(0), Some((&9, &30)));
}
