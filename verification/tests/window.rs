use rstop::fifo::{MAX_CAPACITY, MAX_COUNTER_CAPACITY};
use rstop::window::{CounterWindow, Window, WindowError};

fn window(capacity: usize) -> Window {
    match Window::with_capacity(capacity) {
        Ok(w) => w,
        Err(e) => panic!("capacity {} was rejected: {:?}", capacity, e),
    }
}

fn counters(capacity: usize) -> CounterWindow {
    match CounterWindow::with_capacity(capacity) {
        Ok(w) => w,
        Err(e) => panic!("capacity {} was rejected: {:?}", capacity, e),
    }
}

#[test]
fn zero_capacity_is_rejected() {
    assert!(matches!(Window::with_capacity(0), Err(WindowError::ZeroCapacity)));
    assert!(matches!(CounterWindow::with_capacity(0), Err(WindowError::ZeroCapacity)));
}

#[test]
fn oversized_capacity_is_rejected() {
    assert!(matches!(
        Window::with_capacity(MAX_CAPACITY + 1),
        Err(WindowError::CapacityTooLarge)
    ));
    assert!(matches!(Window::with_capacity(usize::MAX), Err(WindowError::CapacityTooLarge)));
    assert!(matches!(
        CounterWindow::with_capacity(MAX_COUNTER_CAPACITY + 1),
        Err(WindowError::CapacityTooLarge)
    ));
    assert!(matches!(
        CounterWindow::with_capacity(usize::MAX),
        Err(WindowError::CapacityTooLarge)
    ));
}

#[test]
fn capacity_limits_follow_the_largest_buffer() {
    assert_eq!(MAX_CAPACITY, usize::MAX / 64);
    assert_eq!(MAX_COUNTER_CAPACITY, usize::MAX / 32);
    assert!(MAX_CAPACITY as u128 * 32 <= isize::MAX as u128);
    assert!(MAX_COUNTER_CAPACITY as u128 * 16 <= isize::MAX as u128);
}

#[test]
fn fresh_window_is_empty() {
    let w = window(20);
    assert_eq!(w.capacity(), 20);
    assert_eq!(w.len(), 0);
    assert!(w.snapshot().is_empty());
    let c = counters(7);
    assert_eq!(c.capacity(), 7);
    assert_eq!(c.len(), 0);
    assert!(c.snapshot().is_empty());
}

#[test]
fn first_push_seeds_zero_sample() {
    let mut w = window(5);
    w.push_growing(4000);
    assert_eq!(w.snapshot(), &vec![(0u64, 0i128), (1u64, 4000i128)]);
    assert_eq!(w.len(), 2);
}

#[test]
fn first_push_through_push_seeds_zero_sample() {
    let mut w = window(5);
    w.push(-5000);
    assert_eq!(w.snapshot(), &vec![(0u64, 0i128), (1u64, -5000i128)]);
}

#[test]
fn first_push_into_single_slot_keeps_seed_only() {
    let mut w = window(1);
    w.push(9);
    assert_eq!(w.snapshot(), &vec![(0u64, 0i128)]);
    w.push(11);
    assert_eq!(w.snapshot(), &vec![(0u64, 11i128)]);
    w.push(12);
    assert_eq!(w.snapshot(), &vec![(0u64, 12i128)]);
}

#[test]
fn growing_appends_at_next_position() {
    let mut w = window(4);
    w.push_growing(10);
    w.push_growing(20);
    assert_eq!(w.snapshot(), &vec![(0u64, 0i128), (1, 10), (2, 20)]);
    w.push_growing(30);
    assert_eq!(w.snapshot(), &vec![(0u64, 0i128), (1, 10), (2, 20), (3, 30)]);
    assert_eq!(w.len(), w.capacity());
}

#[test]
fn full_push_evicts_oldest_and_renumbers() {
    let mut w = window(3);
    w.push(10);
    w.push(20);
    assert_eq!(w.snapshot(), &vec![(0u64, 0i128), (1, 10), (2, 20)]);
    w.push_full(30);
    assert_eq!(w.snapshot(), &vec![(0u64, 10i128), (1, 20), (2, 30)]);
    w.push_full(40);
    assert_eq!(w.snapshot(), &vec![(0u64, 20i128), (1, 30), (2, 40)]);
}

#[test]
fn positions_stay_contiguous_over_many_pushes() {
    let mut w = window(6);
    for n in 0..40i128 {
        w.push(n * 7 - 100);
        let samples = w.snapshot();
        for (i, s) in samples.iter().enumerate() {
            assert_eq!(s.0, i as u64);
        }
    }
    let values: Vec<i128> = w.snapshot().iter().map(|s| s.1).collect();
    assert_eq!(values, vec![138, 145, 152, 159, 166, 173]);
}

#[test]
fn length_after_pushes() {
    for capacity in 1..8usize {
        let mut w = window(capacity);
        assert_eq!(w.len(), 0);
        for n in 1..20usize {
            w.push(n as i128);
            assert_eq!(w.len(), std::cmp::min(n + 1, capacity));
            assert!(w.len() <= capacity);
            if n >= capacity {
                assert_eq!(w.len(), std::cmp::min(n, capacity));
            }
        }
    }
}

#[test]
fn snapshot_does_not_change_window() {
    let mut w = window(3);
    w.push(1);
    let first = w.snapshot().clone();
    let second = w.snapshot().clone();
    assert_eq!(first, second);
    assert_eq!(w.len(), 2);
}

#[test]
fn counter_window_appends_then_evicts() {
    let mut c = counters(3);
    c.push(5);
    assert_eq!(c.snapshot(), &vec![5u128]);
    c.push(6);
    c.push(7);
    assert_eq!(c.snapshot(), &vec![5u128, 6, 7]);
    assert_eq!(c.len(), 3);
    c.push(u128::MAX);
    assert_eq!(c.snapshot(), &vec![6u128, 7, u128::MAX]);
    assert_eq!(c.len(), 3);
    assert_eq!(c.capacity(), 3);
}

#[test]
fn counter_window_of_one_keeps_latest() {
    let mut c = counters(1);
    c.push(1);
    c.push(2);
    assert_eq!(c.snapshot(), &vec![2u128]);
}

#[test]
fn large_capacity_is_accepted() {
    let w = window(2_000_000);
    assert_eq!(w.capacity(), 2_000_000);
    assert_eq!(w.len(), 0);
    let c = counters(2_000_000);
    assert_eq!(c.capacity(), 2_000_000);
    assert_eq!(c.len(), 0);
}
