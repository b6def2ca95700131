//! Tests for the convergence tracker and the compaction helpers.

use spicier::convergence::{compact_active, expand_active, ConvergenceStatus, ConvergenceTracker};

#[test]
fn test_tracker_basic() {
    let tracker = ConvergenceTracker::new(100);

    assert_eq!(tracker.batch_size(), 100);
    assert_eq!(tracker.active_count(), 100);
    assert_eq!(tracker.converged_count(), 0);
    assert!(!tracker.all_finished());
}

#[test]
fn test_mark_converged() {
    let mut tracker = ConvergenceTracker::new(10);

    assert!(tracker.mark_converged(0));
    assert!(tracker.mark_converged(5));
    assert!(tracker.mark_converged(9));

    assert_eq!(tracker.active_count(), 7);
    assert_eq!(tracker.converged_count(), 3);
    assert_eq!(tracker.status(0), ConvergenceStatus::Converged);
    assert_eq!(tracker.status(1), ConvergenceStatus::Active);

    // Can't mark already converged point
    assert!(!tracker.mark_converged(0));
}

#[test]
fn test_mark_failed() {
    let mut tracker = ConvergenceTracker::new(10);

    tracker.mark_failed(3);
    tracker.mark_singular(7);

    assert_eq!(tracker.active_count(), 8);
    assert_eq!(tracker.failed_count(), 2);
    assert_eq!(tracker.status(3), ConvergenceStatus::Failed);
    assert_eq!(tracker.status(7), ConvergenceStatus::Singular);
}

#[test]
fn test_iteration_limit() {
    let mut tracker = ConvergenceTracker::with_max_iterations(5, 3);

    for _ in 0..3 {
        tracker.increment_all_active();
    }

    // All points should have exceeded limit and be marked failed
    assert!(tracker.all_finished());
    assert_eq!(tracker.failed_count(), 5);
}

#[test]
fn test_active_indices() {
    let mut tracker = ConvergenceTracker::new(5);

    tracker.mark_converged(1);
    tracker.mark_converged(3);

    let active = tracker.active_indices();
    assert_eq!(active, vec![0, 2, 4]);
}

#[test]
fn test_active_mask() {
    let mut tracker = ConvergenceTracker::new(5);

    tracker.mark_converged(1);
    tracker.mark_failed(3);

    let mask = tracker.active_mask();
    assert_eq!(mask, vec![true, false, true, false, true]);

    let mask_u32 = tracker.active_mask_u32();
    assert_eq!(mask_u32, vec![1, 0, 1, 0, 1]);
}

#[test]
fn test_compact_active() {
    let data = vec![
        1.0, 2.0, // Point 0
        3.0, 4.0, // Point 1
        5.0, 6.0, // Point 2
        7.0, 8.0, // Point 3
    ];

    let active_indices = vec![0, 2]; // Points 0 and 2 are active
    let compacted = compact_active(&data, 2, &active_indices);

    assert_eq!(compacted, vec![1.0, 2.0, 5.0, 6.0]);
}

#[test]
fn test_expand_active() {
    let compacted = vec![1.0, 2.0, 5.0, 6.0]; // Two active points
    let active_indices = vec![0, 2];
    let batch_size = 4;

    let expanded = expand_active(&compacted, 2, &active_indices, batch_size, 0.0);

    assert_eq!(
        expanded,
        vec![
            1.0, 2.0, // Point 0 (active)
            0.0, 0.0, // Point 1 (inactive, default)
            5.0, 6.0, // Point 2 (active)
            0.0, 0.0, // Point 3 (inactive, default)
        ]
    );
}

#[test]
fn test_compact_expand_roundtrip() {
    // Expanding a compaction restores every active block and leaves the
    // default value everywhere else.
    let data = vec![10.0, 11.0, 12.0, 20.0, 21.0, 22.0, 30.0, 31.0, 32.0];
    let active_indices = vec![1, 2];

    let compacted = compact_active(&data, 3, &active_indices);
    assert_eq!(compacted, vec![20.0, 21.0, 22.0, 30.0, 31.0, 32.0]);

    let expanded = expand_active(&compacted, 3, &active_indices, 3, -1.0);
    assert_eq!(
        expanded,
        vec![-1.0, -1.0, -1.0, 20.0, 21.0, 22.0, 30.0, 31.0, 32.0]
    );
}

#[test]
fn test_status_predicates() {
    assert!(ConvergenceStatus::Active.is_active());
    assert!(!ConvergenceStatus::Active.is_finished());
    assert!(!ConvergenceStatus::Active.is_converged());
    assert!(ConvergenceStatus::Converged.is_converged());
    assert!(ConvergenceStatus::Converged.is_finished());
    assert!(ConvergenceStatus::Failed.is_finished());
    assert!(ConvergenceStatus::Singular.is_finished());
}

#[test]
fn test_counts_partition_batch() {
    // active + converged + failed (incl. singular) always accounts for the
    // whole batch.
    let mut tracker = ConvergenceTracker::new(8);
    tracker.mark_converged(0);
    tracker.mark_converged(4);
    tracker.mark_failed(1);
    tracker.mark_singular(2);

    assert_eq!(
        tracker.active_count() + tracker.converged_count() + tracker.failed_count(),
        tracker.batch_size()
    );
    assert_eq!(tracker.active_count(), 4);
    assert_eq!(tracker.converged_count(), 2);
    assert_eq!(tracker.failed_count(), 2);
}

#[test]
fn test_converged_and_failed_indices() {
    let mut tracker = ConvergenceTracker::new(6);
    tracker.mark_converged(5);
    tracker.mark_converged(1);
    tracker.mark_failed(2);
    tracker.mark_singular(4);

    assert_eq!(tracker.converged_indices(), vec![1, 5]);
    assert_eq!(tracker.failed_indices(), vec![2, 4]);
    assert_eq!(tracker.active_indices(), vec![0, 3]);
}

#[test]
fn test_increment_iteration_marks_failed_at_limit() {
    let mut tracker = ConvergenceTracker::with_max_iterations(2, 2);

    assert_eq!(tracker.increment_iteration(0), 1);
    assert_eq!(tracker.status(0), ConvergenceStatus::Active);
    assert_eq!(tracker.increment_iteration(0), 2);
    assert_eq!(tracker.status(0), ConvergenceStatus::Failed);
    assert_eq!(tracker.iterations(0), 2);
    assert_eq!(tracker.iterations(1), 0);
    assert_eq!(tracker.active_count(), 1);
}

#[test]
fn test_mark_converged_where() {
    let mut tracker = ConvergenceTracker::new(4);
    tracker.mark_failed(2);

    let verdicts = vec![true, false, true, true];
    let newly = tracker.mark_converged_where(&verdicts);

    // Point 2 had already failed, so only points 0 and 3 are newly converged.
    assert_eq!(newly, 2);
    assert_eq!(tracker.status(0), ConvergenceStatus::Converged);
    assert_eq!(tracker.status(1), ConvergenceStatus::Active);
    assert_eq!(tracker.status(2), ConvergenceStatus::Failed);
    assert_eq!(tracker.status(3), ConvergenceStatus::Converged);
    assert_eq!(tracker.active_count(), 1);
}
