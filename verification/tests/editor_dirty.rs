use gui_nvim::editor::DirtyTracker;

#[test]
fn dirty_test_new() {
    let tracker = DirtyTracker::new(100);
    assert_eq!(tracker.row_count(), 100);
    assert!(tracker.is_full_dirty());
    assert!(tracker.has_dirty());
}

#[test]
fn test_mark_row() {
    let mut tracker = DirtyTracker::new(10);
    tracker.clear();
    assert!(!tracker.has_dirty());

    tracker.mark_row(5);
    assert!(tracker.is_row_dirty(5));
    assert!(!tracker.is_row_dirty(4));
    assert!(tracker.has_dirty());
}

#[test]
fn test_mark_rows() {
    let mut tracker = DirtyTracker::new(100);
    tracker.clear();

    tracker.mark_rows(10, 20);
    for row in 0..10 {
        assert!(!tracker.is_row_dirty(row));
    }
    for row in 10..20 {
        assert!(tracker.is_row_dirty(row));
    }
    for row in 20..100 {
        assert!(!tracker.is_row_dirty(row));
    }
}

#[test]
fn test_mark_all() {
    let mut tracker = DirtyTracker::new(100);
    tracker.clear();
    assert!(!tracker.is_full_dirty());

    tracker.mark_all();
    assert!(tracker.is_full_dirty());
    for row in 0..100 {
        assert!(tracker.is_row_dirty(row));
    }
}

#[test]
fn dirty_test_clear() {
    let mut tracker = DirtyTracker::new(100);
    assert!(tracker.has_dirty());

    tracker.clear();
    assert!(!tracker.has_dirty());
    assert!(!tracker.is_full_dirty());
}

#[test]
fn test_dirty_rows_iterator() {
    let mut tracker = DirtyTracker::new(10);
    tracker.clear();

    tracker.mark_row(2);
    tracker.mark_row(5);
    tracker.mark_row(8);

    let dirty: Vec<usize> = tracker.dirty_rows();
    assert_eq!(dirty, vec![2, 5, 8]);
}

#[test]
fn test_resize() {
    let mut tracker = DirtyTracker::new(10);
    tracker.clear();
    assert!(!tracker.has_dirty());

    tracker.resize(200);
    assert_eq!(tracker.row_count(), 200);
    assert!(tracker.is_full_dirty());
    assert!(tracker.has_dirty());
}

#[test]
fn test_large_grid() {
    let mut tracker = DirtyTracker::new(1000);
    tracker.clear();

    tracker.mark_row(500);
    tracker.mark_row(999);

    assert!(tracker.is_row_dirty(500));
    assert!(tracker.is_row_dirty(999));
    assert!(!tracker.is_row_dirty(501));
}

#[test]
fn test_out_of_bounds() {
    let mut tracker = DirtyTracker::new(10);
    tracker.clear();

    tracker.mark_row(100);
    assert!(!tracker.is_row_dirty(100));
    assert!(!tracker.has_dirty());
}

#[test]
fn dirty_rows_after_clear_and_mark_law() {
    let mut tracker = DirtyTracker::new(130);
    tracker.clear();
    assert_eq!(tracker.dirty_rows(), Vec::<usize>::new());
    tracker.mark_row(129);
    tracker.mark_row(64);
    assert_eq!(tracker.dirty_rows(), vec![64, 129]);
    assert!(!tracker.is_full_dirty());
}

#[test]
fn dirty_mark_rows_clipped() {
    let mut tracker = DirtyTracker::new(8);
    tracker.clear();
    tracker.mark_rows(6, 100);
    assert_eq!(tracker.dirty_rows(), vec![6, 7]);
    tracker.mark_rows(5, 3);
    assert_eq!(tracker.dirty_rows(), vec![6, 7]);
}

#[test]
fn dirty_default_tracks_nothing() {
    let tracker = DirtyTracker::default();
    assert_eq!(tracker.row_count(), 0);
    assert!(!tracker.has_dirty());
    assert!(tracker.is_full_dirty());
}
