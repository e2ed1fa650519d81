use ezicode::history::{next_version, History, HistoryItem};
use std::time::Duration;

#[derive(Clone, Debug)]
struct TabIndex {
    tab_index: usize,
    version: usize,
}

impl PartialEq for TabIndex {
    fn eq(&self, other: &Self) -> bool {
        self.tab_index == other.tab_index
    }
}

impl From<usize> for TabIndex {
    fn from(value: usize) -> Self {
        TabIndex { tab_index: value, version: 0 }
    }
}

impl HistoryItem for TabIndex {
    fn spec_version(&self) -> usize {
        self.version
    }
    fn version(&self) -> usize {
        self.version
    }
    fn with_version(&self, version: usize) -> Self {
        TabIndex { tab_index: self.tab_index, version }
    }
    fn set_version(&mut self, version: usize) {
        self.version = version;
    }
}

#[test]
fn test_history() {
    let mut history: History<TabIndex> = History::new().max_undos(100);
    history.push(0.into());
    history.push(3.into());
    history.push(2.into());
    history.push(1.into());

    assert_eq!(history.version(), 4);
    let changes = history.undo().unwrap();
    assert_eq!(changes.len(), 1);
    assert_eq!(changes[0].tab_index, 1);

    let changes = history.undo().unwrap();
    assert_eq!(changes.len(), 1);
    assert_eq!(changes[0].tab_index, 2);

    history.push(5.into());

    let changes = history.redo().unwrap();
    assert_eq!(changes[0].tab_index, 2);

    let changes = history.redo().unwrap();
    assert_eq!(changes[0].tab_index, 1);

    let changes = history.undo().unwrap();
    assert_eq!(changes[0].tab_index, 1);

    let changes = history.undo().unwrap();
    assert_eq!(changes[0].tab_index, 2);

    let changes = history.undo().unwrap();
    assert_eq!(changes[0].tab_index, 5);

    let changes = history.undo().unwrap();
    assert_eq!(changes[0].tab_index, 3);

    let changes = history.undo().unwrap();
    assert_eq!(changes[0].tab_index, 0);

    assert_eq!(history.undo().is_none(), true);
}

#[test]
fn test_unique_history() {
    let mut history: History<TabIndex> = History::new().max_undos(100).unique();

    history.push(0.into());
    history.push(1.into());
    history.push(1.into());
    history.push(2.into());
    history.push(1.into());

    assert_eq!(history.version(), 5);
    assert_eq!(history.undos().len(), 3);
    assert_eq!(history.undos().last().unwrap().tab_index, 1);

    let changes = history.undo().unwrap();
    assert_eq!(changes.len(), 1);
    assert_eq!(changes[0].tab_index, 1);

    assert_eq!(history.redos().len(), 1);

    history.push(2.into());

    assert_eq!(history.undos().len(), 2);
    assert_eq!(history.redos().len(), 1);

    let changes = history.redo().unwrap();
    assert_eq!(changes.len(), 1);
    assert_eq!(changes[0].tab_index, 1);

    history.push(3.into());

    assert_eq!(history.version(), 7);
    assert_eq!(history.undos().len(), 4);

    for _ in 0..4 {
        history.undo();
    }

    assert_eq!(history.undos().len(), 0);
    assert_eq!(history.redos().len(), 4);
}

#[test]
fn undo_then_redo_restores_the_stacks() {
    let mut history: History<TabIndex> = History::new();
    history.push(7.into());
    history.push(8.into());
    let before: Vec<usize> = history.undos().iter().map(|t| t.tab_index).collect();
    history.undo().unwrap();
    history.redo().unwrap();
    let after: Vec<usize> = history.undos().iter().map(|t| t.tab_index).collect();
    assert_eq!(before, after);
    assert!(history.redos().is_empty());
}

#[test]
fn max_undos_drops_the_oldest() {
    let mut history: History<TabIndex> = History::new().max_undos(2);
    history.push(1.into());
    history.push(2.into());
    history.push(3.into());
    let kept: Vec<usize> = history.undos().iter().map(|t| t.tab_index).collect();
    assert_eq!(kept, vec![2, 3]);
}

#[test]
fn clear_empties_both_stacks() {
    let mut history: History<TabIndex> = History::new();
    history.push(1.into());
    history.undo();
    history.push(2.into());
    history.clear();
    assert!(history.undos().is_empty());
    assert!(history.redos().is_empty());
    assert!(history.undo().is_none());
    assert!(history.redo().is_none());
}

fn indexes(v: &[TabIndex]) -> Vec<usize> {
    v.iter().map(|c| c.tab_index).collect()
}

#[test]
fn grouped_pushes_are_undone_together() {
    let mut h: History<TabIndex> = History::new();
    h.start_grouping();
    h.push(0.into());
    h.push(1.into());
    h.end_grouping();
    h.push(2.into());
    assert_eq!(h.version(), 1);
    assert_eq!(indexes(&h.undo().unwrap()), vec![2]);
    assert_eq!(indexes(&h.undo().unwrap()), vec![1, 0]);
    assert!(h.undo().is_none());
    assert_eq!(indexes(&h.redo().unwrap()), vec![0, 1]);
}

#[test]
fn pushes_within_the_interval_share_a_version() {
    let mut h: History<TabIndex> = History::new().group_interval(Duration::from_secs(3600));
    h.push(0.into());
    h.push(1.into());
    assert_eq!(h.version(), 0);
    assert_eq!(indexes(&h.undo().unwrap()), vec![1, 0]);
}

#[test]
fn the_version_rule_follows_grouping_and_the_interval() {
    assert_eq!(next_version(3, false, None, 0), 4);
    assert_eq!(next_version(3, true, None, 100), 3);
    assert_eq!(next_version(3, false, Some(10), 11), 4);
    assert_eq!(next_version(3, false, Some(10), 10), 3);
    assert_eq!(next_version(3, true, Some(10), 11), 3);
}

#[test]
fn the_oldest_change_is_dropped_at_the_limit() {
    let mut h: History<TabIndex> = History::new().max_undos(2);
    h.push(0.into());
    h.push(1.into());
    h.push(2.into());
    assert_eq!(indexes(h.undos()), vec![1, 2]);
    assert_eq!(h.version(), 3);
    assert_eq!(h.undos()[1].version, 3);
}
