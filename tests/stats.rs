use driver::DemoStats;

#[test]
fn new_is_all_zero() {
    let s = DemoStats::new();
    assert_eq!(s.files_attempted(), 0);
    assert_eq!(s.files_parsed(), 0);
    assert_eq!(s.total_bytes(), 0);
    assert_eq!(DemoStats::default(), s);
}

#[test]
fn new_single_counts_one_file() {
    let ok = DemoStats::new_single(120, true);
    assert_eq!(ok.files_attempted(), 1);
    assert_eq!(ok.files_parsed(), 1);
    assert_eq!(ok.total_bytes(), 120);
    let bad = DemoStats::new_single(7, false);
    assert_eq!(bad.files_attempted(), 1);
    assert_eq!(bad.files_parsed(), 0);
    assert_eq!(bad.total_bytes(), 7);
}

#[test]
fn add_sums_field_by_field() {
    let mut s = DemoStats::new_single(10, true);
    s.add(&DemoStats::new_single(32, false));
    s.add(&DemoStats::new_single(0, true));
    assert_eq!(s.files_attempted(), 3);
    assert_eq!(s.files_parsed(), 2);
    assert_eq!(s.total_bytes(), 42);
}

#[test]
fn add_of_zero_changes_nothing() {
    let mut s = DemoStats::new_single(5, false);
    s.add(&DemoStats::new());
    assert_eq!(s, DemoStats::new_single(5, false));
}

#[test]
fn merge_order_does_not_matter() {
    let parts = [
        DemoStats::new_single(3, true),
        DemoStats::new_single(11, false),
        DemoStats::new_single(100, true),
    ];
    let mut forward = DemoStats::new();
    for p in parts.iter() {
        forward.add(p);
    }
    let mut backward = DemoStats::new();
    for p in parts.iter().rev() {
        backward.add(p);
    }
    let mut grouped = parts[1];
    grouped.add(&parts[2]);
    let mut left = parts[0];
    left.add(&grouped);
    assert_eq!(forward, backward);
    assert_eq!(forward, left);
    assert_eq!(forward.files_attempted(), 3);
    assert_eq!(forward.files_parsed(), 2);
    assert_eq!(forward.total_bytes(), 114);
}

#[test]
fn can_add_detects_overflow() {
    let big = DemoStats::new_single(u64::MAX, true);
    let one = DemoStats::new_single(1, false);
    assert!(!big.can_add(&one));
    assert!(big.can_add(&DemoStats::new_single(0, false)));
    assert!(one.can_add(&one));
}
