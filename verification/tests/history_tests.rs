use canvas_history::history::History;
use canvas_history::history::CAPACITY;

fn snap(tag: u8) -> Vec<u8> {
    vec![tag, tag, tag]
}

#[test]
fn new_history_is_empty() {
    let h = History::new();
    assert_eq!(h.undo_len(), 0);
    assert_eq!(h.redo_len(), 0);
    assert_eq!(h.current(), None);
    assert!(!h.can_undo());
    assert!(!h.can_redo());
}

#[test]
fn record_sets_current() {
    let mut h = History::new();
    h.record(snap(1));
    assert_eq!(h.undo_len(), 1);
    assert_eq!(h.current(), Some(snap(1)));
    h.record(snap(2));
    assert_eq!(h.undo_len(), 2);
    assert_eq!(h.current(), Some(snap(2)));
}

#[test]
fn undo_with_single_snapshot_is_noop() {
    let mut h = History::new();
    h.record(snap(1));
    assert_eq!(h.undo(), None);
    assert_eq!(h.undo_len(), 1);
    assert_eq!(h.redo_len(), 0);
    assert_eq!(h.current(), Some(snap(1)));
}

#[test]
fn undo_on_empty_history_is_noop() {
    let mut h = History::new();
    assert_eq!(h.undo(), None);
    assert_eq!(h.undo_len(), 0);
    assert_eq!(h.redo_len(), 0);
}

#[test]
fn redo_with_empty_redo_stack_is_noop() {
    let mut h = History::new();
    h.record(snap(1));
    h.record(snap(2));
    assert_eq!(h.redo(), None);
    assert_eq!(h.undo_len(), 2);
    assert_eq!(h.redo_len(), 0);
    assert_eq!(h.current(), Some(snap(2)));
}

#[test]
fn undo_then_redo_restores_current() {
    let mut h = History::new();
    h.record(snap(1));
    h.record(snap(2));
    assert_eq!(h.undo(), Some(snap(1)));
    assert_eq!(h.current(), Some(snap(1)));
    assert_eq!(h.redo(), Some(snap(2)));
    assert_eq!(h.current(), Some(snap(2)));
    assert_eq!(h.undo_len(), 2);
    assert_eq!(h.redo_len(), 0);
}

#[test]
fn undo_redo_walk() {
    // record(A); record(B); record(C); undo -> B; undo -> A; redo -> B;
    // record(D); redo -> nothing: the lineage through C is abandoned.
    let mut h = History::new();
    h.record(snap(10));
    h.record(snap(11));
    h.record(snap(12));
    assert_eq!(h.undo(), Some(snap(11)));
    assert_eq!(h.undo(), Some(snap(10)));
    assert_eq!(h.redo(), Some(snap(11)));
    h.record(snap(13));
    assert_eq!(h.redo(), None);
    assert_eq!(h.current(), Some(snap(13)));
}

#[test]
fn record_abandons_redo_lineage() {
    let mut h = History::new();
    h.record(snap(1));
    h.record(snap(2));
    assert_eq!(h.undo(), Some(snap(1)));
    assert!(h.can_redo());
    h.record(snap(3));
    assert!(!h.can_redo());
    assert_eq!(h.redo(), None);
}

#[test]
fn capacity_bounds_undo_stack() {
    let mut h = History::new();
    for i in 0..(CAPACITY as u8 + 5) {
        h.record(snap(i));
    }
    assert_eq!(h.undo_len(), CAPACITY);
    assert_eq!(h.current(), Some(snap(CAPACITY as u8 + 4)));
}

#[test]
fn evicted_snapshots_are_unrecoverable() {
    // 55 distinct snapshots: the oldest 5 fall out and no amount of undo
    // reaches them again.
    let mut h = History::new();
    for i in 0u8..55 {
        h.record(snap(i));
    }
    let mut returned = Vec::new();
    while let Some(s) = h.undo() {
        returned.push(s);
    }
    // 50 retained entries allow 49 undos, walking from snapshot 53 down
    // to snapshot 5 and never reaching 0 through 4.
    assert_eq!(returned.len(), 49);
    assert_eq!(returned.first(), Some(&snap(53)));
    assert_eq!(returned.last(), Some(&snap(5)));
    for old in 0u8..5 {
        assert!(!returned.contains(&snap(old)));
    }
    assert_eq!(h.undo(), None);
    assert_eq!(h.current(), Some(snap(5)));
}

#[test]
fn undos_fill_redo_stack_within_capacity() {
    let mut h = History::new();
    for i in 0u8..52 {
        h.record(snap(i));
    }
    while h.can_undo() {
        h.undo();
    }
    assert_eq!(h.redo_len(), CAPACITY - 1);
    assert!(h.redo_len() <= CAPACITY);
}

#[test]
fn recover_reseeds_history() {
    let mut h = History::new();
    h.record(snap(1));
    h.record(snap(2));
    h.undo();
    h.recover(snap(9));
    assert_eq!(h.undo_len(), 1);
    assert_eq!(h.redo_len(), 0);
    assert_eq!(h.current(), Some(snap(9)));
    assert_eq!(h.undo(), None);
    assert_eq!(h.redo(), None);
}
