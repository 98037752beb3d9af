use file_watcher::scanner::{scan_path, FsTree, Stats};

fn zero() -> Stats {
    Stats { files: 0, total_bytes: 0 }
}

#[test]
fn default_stats_are_zero() {
    let s = Stats::default();
    assert_eq!(s.files, 0);
    assert_eq!(s.total_bytes, 0);
}

#[test]
fn scan_known_sizes_yields_count_and_total() {
    let dir = FsTree::Dir {
        children: vec![
            FsTree::File { size: 10 },
            FsTree::File { size: 20 },
            FsTree::File { size: 30 },
        ],
    };
    let mut stats = zero();
    scan_path(&dir, &mut stats);
    assert_eq!(stats.files, 3);
    assert_eq!(stats.total_bytes, 60);
}

#[test]
fn scan_totals_do_not_depend_on_listing_order() {
    let forward = FsTree::Dir {
        children: vec![
            FsTree::File { size: 10 },
            FsTree::File { size: 20 },
            FsTree::File { size: 30 },
        ],
    };
    let backward = FsTree::Dir {
        children: vec![
            FsTree::File { size: 30 },
            FsTree::File { size: 20 },
            FsTree::File { size: 10 },
        ],
    };
    let mut a = zero();
    let mut b = zero();
    scan_path(&forward, &mut a);
    scan_path(&backward, &mut b);
    assert_eq!(a.files, b.files);
    assert_eq!(a.total_bytes, b.total_bytes);
}

#[test]
fn scan_recurses_into_nested_directories() {
    let tree = FsTree::Dir {
        children: vec![
            FsTree::File { size: 1 },
            FsTree::Dir {
                children: vec![
                    FsTree::File { size: 2 },
                    FsTree::Dir { children: vec![FsTree::File { size: 4 }] },
                ],
            },
            FsTree::Dir { children: vec![] },
        ],
    };
    let mut stats = zero();
    scan_path(&tree, &mut stats);
    assert_eq!(stats.files, 3);
    assert_eq!(stats.total_bytes, 7);
}

#[test]
fn scan_single_file_snapshot() {
    let mut stats = zero();
    scan_path(&FsTree::File { size: 123 }, &mut stats);
    assert_eq!(stats.files, 1);
    assert_eq!(stats.total_bytes, 123);
}

#[test]
fn scan_absent_adds_nothing() {
    let mut stats = Stats { files: 7, total_bytes: 70 };
    scan_path(&FsTree::Absent, &mut stats);
    assert_eq!(stats.files, 7);
    assert_eq!(stats.total_bytes, 70);
}

#[test]
fn scan_accumulates_across_calls() {
    let mut stats = zero();
    scan_path(&FsTree::File { size: 5 }, &mut stats);
    scan_path(&FsTree::File { size: 6 }, &mut stats);
    assert_eq!(stats.files, 2);
    assert_eq!(stats.total_bytes, 11);
}

#[test]
fn scan_saturates_instead_of_overflowing() {
    let mut stats = Stats { files: u64::MAX, total_bytes: u64::MAX - 5 };
    scan_path(&FsTree::File { size: 10 }, &mut stats);
    assert_eq!(stats.files, u64::MAX);
    assert_eq!(stats.total_bytes, u64::MAX);
}
