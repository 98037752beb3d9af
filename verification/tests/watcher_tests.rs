use file_watcher::scanner::{FsTree, Stats};
use file_watcher::watcher::{
    flush_batch, should_process, ChangeKind, Coalescer, LoopAction, LoopEvent,
};

const WINDOW: u64 = 400;

fn paths(names: &[&str]) -> Vec<String> {
    names.iter().map(|n| n.to_string()).collect()
}

fn sorted(mut batch: Vec<String>) -> Vec<String> {
    batch.sort();
    batch
}

#[test]
fn accepted_kinds_are_processed() {
    assert!(should_process(&ChangeKind::Create));
    assert!(should_process(&ChangeKind::Remove));
    assert!(should_process(&ChangeKind::ModifyData));
    assert!(should_process(&ChangeKind::ModifyMetadata));
    assert!(should_process(&ChangeKind::ModifyName));
    assert!(should_process(&ChangeKind::ModifyAny));
}

#[test]
fn ignored_kinds_are_dropped() {
    assert!(!should_process(&ChangeKind::ModifyOther));
    assert!(!should_process(&ChangeKind::Access));
    assert!(!should_process(&ChangeKind::Any));
    assert!(!should_process(&ChangeKind::Other));
}

#[test]
fn repeated_events_on_one_path_flush_it_once() {
    let mut c = Coalescer::new(WINDOW);
    c.on_event(&ChangeKind::Create, paths(&["/tmp/a"]), 0);
    c.on_event(&ChangeKind::ModifyData, paths(&["/tmp/a"]), 100);
    c.on_event(&ChangeKind::ModifyData, paths(&["/tmp/a"]), 200);
    let out = c.handle_timeout(200 + WINDOW);
    let batch = out.batch.expect("window elapsed, batch must settle");
    assert_eq!(batch, paths(&["/tmp/a"]));
}

#[test]
fn duplicate_paths_within_one_event_coalesce() {
    let mut c = Coalescer::new(WINDOW);
    c.on_event(&ChangeKind::Create, paths(&["/tmp/a", "/tmp/a", "/tmp/a"]), 0);
    let out = c.handle_timeout(WINDOW);
    assert_eq!(out.batch.unwrap(), paths(&["/tmp/a"]));
}

#[test]
fn bursts_union_into_one_batch_with_each_path_once() {
    let mut c = Coalescer::new(WINDOW);
    c.on_event(&ChangeKind::Create, paths(&["/tmp/a"]), 0);
    c.on_event(&ChangeKind::ModifyData, paths(&["/tmp/b", "/tmp/a"]), 300);
    c.on_event(&ChangeKind::Remove, paths(&["/tmp/c"]), 600);
    // 300 ms after the last event: the clock was reset, so nothing settles.
    let early = c.handle_timeout(900);
    assert!(early.batch.is_none());
    assert!(early.report);
    let out = c.handle_timeout(1000);
    assert_eq!(
        sorted(out.batch.expect("window elapsed after last burst")),
        paths(&["/tmp/a", "/tmp/b", "/tmp/c"])
    );
}

#[test]
fn no_flush_before_the_window_elapses() {
    let mut c = Coalescer::new(WINDOW);
    c.on_event(&ChangeKind::Create, paths(&["/tmp/a"]), 500);
    let early = c.handle_timeout(500 + WINDOW - 1);
    assert!(early.batch.is_none());
    assert!(early.report);
    let due = c.handle_timeout(500 + WINDOW);
    assert_eq!(due.batch.unwrap(), paths(&["/tmp/a"]));
    assert!(due.report);
}

#[test]
fn ignored_kind_does_not_extend_the_clock() {
    let mut c = Coalescer::new(WINDOW);
    c.on_event(&ChangeKind::Create, paths(&["/tmp/a"]), 0);
    // An access notification at 300 must not reset the settle clock...
    c.on_event(&ChangeKind::Access, paths(&["/tmp/b"]), 300);
    // ...so at 400 the batch settles, and holds only the accepted path.
    let out = c.handle_timeout(WINDOW);
    assert_eq!(out.batch.unwrap(), paths(&["/tmp/a"]));
}

#[test]
fn ignored_kind_alone_never_fills_the_pending_set() {
    let mut c = Coalescer::new(WINDOW);
    c.on_event(&ChangeKind::Other, paths(&["/tmp/a"]), 0);
    let out = c.handle_timeout(10_000);
    assert!(out.batch.is_none());
    assert!(!out.report);
}

#[test]
fn quiet_ticks_take_no_action() {
    let mut c = Coalescer::new(WINDOW);
    for tick in 1..5u64 {
        let out = c.handle_timeout(tick * WINDOW);
        assert!(out.batch.is_none());
        assert!(!out.report);
    }
}

#[test]
fn nothing_pending_after_a_flush() {
    let mut c = Coalescer::new(WINDOW);
    c.on_event(&ChangeKind::Create, paths(&["/tmp/a"]), 0);
    let first = c.handle_timeout(WINDOW);
    assert!(first.batch.is_some());
    let second = c.handle_timeout(2 * WINDOW);
    assert!(second.batch.is_none());
    assert!(!second.report);
}

#[test]
fn source_error_loses_no_paths() {
    let mut c = Coalescer::new(WINDOW);
    assert!(matches!(
        c.step(LoopEvent::Change { kind: ChangeKind::Create, paths: paths(&["/tmp/a"]) }, 0),
        LoopAction::Continue
    ));
    assert!(matches!(c.step(LoopEvent::SourceError, 100), LoopAction::Continue));
    assert!(matches!(
        c.step(LoopEvent::Change { kind: ChangeKind::ModifyData, paths: paths(&["/tmp/b"]) }, 200),
        LoopAction::Continue
    ));
    match c.step(LoopEvent::Timeout, 200 + WINDOW) {
        LoopAction::Tick { batch, report } => {
            assert!(report);
            assert_eq!(sorted(batch.expect("window elapsed")), paths(&["/tmp/a", "/tmp/b"]));
        }
        _ => panic!("timeout must yield a tick"),
    }
}

#[test]
fn closed_source_stops_the_loop() {
    let mut c = Coalescer::new(WINDOW);
    c.on_event(&ChangeKind::Create, paths(&["/tmp/a"]), 0);
    assert!(matches!(c.step(LoopEvent::Closed, 100), LoopAction::Stop));
}

#[test]
fn flush_batch_isolates_a_vanished_path() {
    // X vanished before the scan ran; Y is still a 5-byte file.
    let snapshots = vec![FsTree::Absent, FsTree::File { size: 5 }];
    let mut stats = Stats::default();
    flush_batch(&snapshots, &mut stats);
    assert_eq!(stats.files, 1);
    assert_eq!(stats.total_bytes, 5);
}

#[test]
fn flush_batch_scans_every_snapshot() {
    let snapshots = vec![
        FsTree::File { size: 1 },
        FsTree::Dir { children: vec![FsTree::File { size: 2 }] },
        FsTree::Absent,
    ];
    let mut stats = Stats { files: 1, total_bytes: 100 };
    flush_batch(&snapshots, &mut stats);
    assert_eq!(stats.files, 3);
    assert_eq!(stats.total_bytes, 103);
}
