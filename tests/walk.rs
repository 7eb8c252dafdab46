use driver::{
    attempt_stats, choose_visit, AttemptOutcome, DemoStats, EntryKind, TreeWalk, Visit,
    WalkAction, WalkEvent,
};

fn expect_inspect(action: WalkAction<String>) -> String {
    match action {
        WalkAction::Inspect(p) => p,
        other => panic!("expected Inspect, got {:?}", other),
    }
}

fn feed(walk: &mut TreeWalk<String>, event: WalkEvent<String>) -> WalkAction<String> {
    assert!(walk.accepts(&event));
    walk.step(event)
}

fn dir() -> WalkEvent<String> {
    WalkEvent::Inspected { kind: EntryKind::Directory, size_bytes: 0 }
}

fn file(size_bytes: u64) -> WalkEvent<String> {
    WalkEvent::Inspected { kind: EntryKind::RegularFile, size_bytes }
}

fn listed(names: &[&str]) -> WalkEvent<String> {
    WalkEvent::Listed(names.iter().map(|n| n.to_string()).collect())
}

#[test]
fn visit_routes_each_kind() {
    assert_eq!(choose_visit(EntryKind::Directory, false), Visit::Descend);
    assert_eq!(choose_visit(EntryKind::Directory, true), Visit::Descend);
    assert_eq!(choose_visit(EntryKind::RegularFile, false), Visit::Attempt);
    assert_eq!(choose_visit(EntryKind::RegularFile, true), Visit::Attempt);
    assert_eq!(choose_visit(EntryKind::Other, false), Visit::Skip);
    assert_eq!(choose_visit(EntryKind::Other, true), Visit::Attempt);
}

#[test]
fn attempt_stats_counts_only_success_as_parsed() {
    let read = attempt_stats(9, &AttemptOutcome::ReadFailure("denied".to_string()));
    assert_eq!(read, DemoStats::new_single(9, false));
    let parse = attempt_stats(9, &AttemptOutcome::ParseFailure("unexpected token".to_string()));
    assert_eq!(parse, DemoStats::new_single(9, false));
    let ok = attempt_stats(9, &AttemptOutcome::Success);
    assert_eq!(ok, DemoStats::new_single(9, true));
}

#[test]
fn empty_directory_yields_zero() {
    let (mut walk, action) = TreeWalk::start("root".to_string());
    assert_eq!(expect_inspect(action), "root");
    assert!(matches!(feed(&mut walk, dir()), WalkAction::ListCurrent));
    match feed(&mut walk, listed(&[])) {
        WalkAction::Finished(s) => {
            assert_eq!(s.files_attempted(), 0);
            assert_eq!(s.files_parsed(), 0);
            assert_eq!(s.total_bytes(), 0);
        }
        other => panic!("expected Finished, got {:?}", other),
    }
}

#[test]
fn single_file_root_yields_one() {
    let (mut walk, _) = TreeWalk::start("a.js".to_string());
    assert!(matches!(feed(&mut walk, file(17)), WalkAction::AttemptCurrent));
    match feed(&mut walk, WalkEvent::Attempted(AttemptOutcome::Success)) {
        WalkAction::Finished(s) => {
            assert_eq!(s.files_attempted(), 1);
            assert_eq!(s.files_parsed(), 1);
            assert_eq!(s.total_bytes(), 17);
        }
        other => panic!("expected Finished, got {:?}", other),
    }
}

#[test]
fn special_root_is_attempted() {
    let (mut walk, _) = TreeWalk::start("/dev/null".to_string());
    let event = WalkEvent::Inspected { kind: EntryKind::Other, size_bytes: 0 };
    assert!(matches!(feed(&mut walk, event), WalkAction::AttemptCurrent));
    let failed = WalkEvent::Attempted(AttemptOutcome::ReadFailure("not text".to_string()));
    match feed(&mut walk, failed) {
        WalkAction::Finished(s) => assert_eq!(s, DemoStats::new_single(0, false)),
        other => panic!("expected Finished, got {:?}", other),
    }
}

#[test]
fn unlistable_root_aborts() {
    let (mut walk, _) = TreeWalk::start("locked".to_string());
    assert!(matches!(feed(&mut walk, dir()), WalkAction::ListCurrent));
    assert!(matches!(feed(&mut walk, WalkEvent::EnumerationFailed), WalkAction::Aborted));
    assert!(!walk.accepts(&listed(&[])));
}

#[test]
fn missing_root_aborts() {
    let (mut walk, _) = TreeWalk::start("missing".to_string());
    assert!(matches!(feed(&mut walk, WalkEvent::EnumerationFailed), WalkAction::Aborted));
}

#[test]
fn failure_deep_in_tree_aborts_without_totals() {
    let (mut walk, _) = TreeWalk::start("root".to_string());
    feed(&mut walk, dir());
    assert_eq!(expect_inspect(feed(&mut walk, listed(&["root/a.js", "root/sub"]))), "root/a.js");
    feed(&mut walk, file(4));
    let next = feed(&mut walk, WalkEvent::Attempted(AttemptOutcome::Success));
    assert_eq!(expect_inspect(next), "root/sub");
    feed(&mut walk, dir());
    assert!(matches!(feed(&mut walk, WalkEvent::EnumerationFailed), WalkAction::Aborted));
}

#[test]
fn tree_is_walked_depth_first_in_listing_order() {
    // root/{a.js, sub/{b.js, c.js}, fifo, d.js}
    let (mut walk, _) = TreeWalk::start("root".to_string());
    feed(&mut walk, dir());
    let mut visited = Vec::new();
    let mut action = feed(&mut walk, listed(&["a.js", "sub", "fifo", "d.js"]));
    loop {
        let path = match action {
            WalkAction::Inspect(p) => p,
            WalkAction::Finished(s) => {
                assert_eq!(s.files_attempted(), 4);
                assert_eq!(s.files_parsed(), 3);
                assert_eq!(s.total_bytes(), 10 + 20 + 30 + 40);
                break;
            }
            other => panic!("unexpected {:?}", other),
        };
        visited.push(path.clone());
        action = match path.as_str() {
            "sub" => {
                assert!(matches!(feed(&mut walk, dir()), WalkAction::ListCurrent));
                feed(&mut walk, listed(&["b.js", "c.js"]))
            }
            "fifo" => feed(&mut walk, WalkEvent::Inspected { kind: EntryKind::Other, size_bytes: 0 }),
            name => {
                let (size, outcome) = match name {
                    "a.js" => (10, AttemptOutcome::Success),
                    "b.js" => (20, AttemptOutcome::ParseFailure("bad".to_string())),
                    "c.js" => (30, AttemptOutcome::Success),
                    _ => (40, AttemptOutcome::Success),
                };
                assert!(matches!(feed(&mut walk, file(size)), WalkAction::AttemptCurrent));
                feed(&mut walk, WalkEvent::Attempted(outcome))
            }
        };
    }
    assert_eq!(visited, vec!["a.js", "sub", "b.js", "c.js", "fifo", "d.js"]);
}

#[test]
fn events_out_of_turn_are_refused() {
    let (mut walk, _) = TreeWalk::start("root".to_string());
    assert!(!walk.accepts(&listed(&[])));
    assert!(!walk.accepts(&WalkEvent::Attempted(AttemptOutcome::Success)));
    feed(&mut walk, file(3));
    assert!(!walk.accepts(&dir()));
    assert!(!walk.accepts(&WalkEvent::EnumerationFailed));
    assert!(walk.accepts(&WalkEvent::Attempted(AttemptOutcome::Success)));
    feed(&mut walk, WalkEvent::Attempted(AttemptOutcome::Success));
    assert!(!walk.accepts(&WalkEvent::EnumerationFailed));
}

#[test]
fn attempt_that_would_overflow_bytes_is_refused() {
    let (mut walk, _) = TreeWalk::start("root".to_string());
    feed(&mut walk, dir());
    feed(&mut walk, listed(&["a", "b"]));
    feed(&mut walk, file(u64::MAX));
    feed(&mut walk, WalkEvent::Attempted(AttemptOutcome::Success));
    feed(&mut walk, file(1));
    assert!(!walk.accepts(&WalkEvent::Attempted(AttemptOutcome::Success)));
}
