use double_pendulum::trace::TraceBuffer;

#[test]
fn trace_starts_empty() {
    let trace: TraceBuffer<(i32, i32)> = TraceBuffer::new(4);
    assert_eq!(trace.len(), 0);
    assert!(trace.is_empty());
    assert_eq!(trace.capacity(), 4);
    assert_eq!(trace.latest(), None);
    assert_eq!(trace.get(0), None);
    assert_eq!(trace.to_vec(), Vec::<(i32, i32)>::new());
}

#[test]
fn trace_push_below_capacity_keeps_push_order() {
    let mut trace: TraceBuffer<u32> = TraceBuffer::new(5);
    trace.push(10);
    trace.push(20);
    trace.push(30);
    assert_eq!(trace.len(), 3);
    assert!(!trace.is_empty());
    assert_eq!(trace.to_vec(), vec![10, 20, 30]);
}

#[test]
fn trace_push_at_capacity_keeps_everything() {
    let mut trace: TraceBuffer<u32> = TraceBuffer::new(3);
    trace.push(1);
    trace.push(2);
    trace.push(3);
    assert_eq!(trace.len(), 3);
    assert_eq!(trace.to_vec(), vec![1, 2, 3]);
}

#[test]
fn trace_push_past_capacity_evicts_oldest_first() {
    let mut trace: TraceBuffer<u32> = TraceBuffer::new(3);
    trace.push(1);
    trace.push(2);
    trace.push(3);
    trace.push(4);
    assert_eq!(trace.to_vec(), vec![2, 3, 4]);
    trace.push(5);
    assert_eq!(trace.to_vec(), vec![3, 4, 5]);
    assert_eq!(trace.len(), 3);
}

#[test]
fn trace_never_exceeds_capacity_and_holds_most_recent() {
    let capacity: usize = 4;
    let mut trace: TraceBuffer<usize> = TraceBuffer::new(capacity);
    let mut pushed: Vec<usize> = Vec::new();
    for point in 0..25 {
        trace.push(point * 7);
        pushed.push(point * 7);
        assert!(trace.len() <= capacity);
        let keep = pushed.len().min(capacity);
        assert_eq!(trace.to_vec(), pushed[pushed.len() - keep..].to_vec());
    }
    assert_eq!(trace.to_vec(), vec![147, 154, 161, 168]);
}

#[test]
fn trace_of_capacity_zero_stays_empty() {
    let mut trace: TraceBuffer<u8> = TraceBuffer::new(0);
    trace.push(1);
    trace.push(2);
    assert_eq!(trace.len(), 0);
    assert!(trace.is_empty());
    assert_eq!(trace.latest(), None);
}

#[test]
fn trace_of_capacity_one_keeps_newest_only() {
    let mut trace: TraceBuffer<char> = TraceBuffer::new(1);
    trace.push('a');
    assert_eq!(trace.to_vec(), vec!['a']);
    trace.push('b');
    assert_eq!(trace.to_vec(), vec!['b']);
    trace.push('c');
    assert_eq!(trace.to_vec(), vec!['c']);
}

#[test]
fn trace_get_counts_from_oldest() {
    let mut trace: TraceBuffer<u32> = TraceBuffer::new(3);
    for point in [5, 6, 7, 8] {
        trace.push(point);
    }
    assert_eq!(trace.get(0), Some(&6));
    assert_eq!(trace.get(1), Some(&7));
    assert_eq!(trace.get(2), Some(&8));
    assert_eq!(trace.get(3), None);
    assert_eq!(trace.get(usize::MAX), None);
}

#[test]
fn trace_latest_is_last_pushed() {
    let mut trace: TraceBuffer<u32> = TraceBuffer::new(2);
    trace.push(9);
    assert_eq!(trace.latest(), Some(&9));
    trace.push(11);
    trace.push(13);
    assert_eq!(trace.latest(), Some(&13));
}

#[test]
fn trace_clear_empties_and_keeps_capacity() {
    let mut trace: TraceBuffer<u32> = TraceBuffer::new(2);
    trace.push(1);
    trace.push(2);
    trace.clear();
    assert_eq!(trace.len(), 0);
    assert_eq!(trace.capacity(), 2);
    trace.push(3);
    trace.push(4);
    trace.push(5);
    assert_eq!(trace.to_vec(), vec![4, 5]);
}

#[test]
fn trace_holds_points_as_pairs() {
    let mut trace: TraceBuffer<(f64, f64)> = TraceBuffer::new(2);
    trace.push((0.5, -1.0));
    trace.push((1.5, -2.0));
    trace.push((2.5, -3.0));
    assert_eq!(trace.to_vec(), vec![(1.5, -2.0), (2.5, -3.0)]);
}
