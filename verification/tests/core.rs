use gamepin::MemBudget;
use gamepin::PathKind;
use gamepin::PinnedRegion;
use gamepin::Preloader;
use gamepin::RESERVE_FLOOR;
use gamepin::VisitStep;
use gamepin::release_all;

#[test]
fn admits_when_plenty_is_free() {
    let mut b = MemBudget::new(RESERVE_FLOOR * 2);
    assert!(b.try_admit(1024));
    assert_eq!(b.cumulative_pinned(), 1024);
}

#[test]
fn rejection_under_pressure_leaves_no_trace() {
    // One byte of headroom above the reserve floor: a two-byte file must be
    // rejected, with no side effect on the counter.
    let mut b = MemBudget::new(RESERVE_FLOOR + 1);
    assert!(!b.try_admit(2));
    assert_eq!(b.cumulative_pinned(), 0);
}

#[test]
fn admission_needs_strictly_more_than_the_floor() {
    // Exactly the floor left after the candidate is not enough.
    let mut b = MemBudget::new(RESERVE_FLOOR + 100);
    assert!(!b.try_admit(100));
    assert!(b.try_admit(99));
    assert_eq!(b.cumulative_pinned(), 99);
    // The next admission sees the updated running estimate.
    assert!(!b.try_admit(1));
    assert_eq!(b.cumulative_pinned(), 99);
}

#[test]
fn cumulative_total_only_grows() {
    let mut b = MemBudget::new(RESERVE_FLOOR + 1000);
    let mut last = 0u64;
    for size in [100u64, 5000, 300, 400, 600, 0, 99] {
        b.try_admit(size);
        let now = b.cumulative_pinned();
        assert!(now >= last);
        assert!(now <= 1000 - 1);
        last = now;
    }
}

#[test]
fn region_release_hands_back_its_parts() {
    let r = PinnedRegion::new(0x7000, 4096);
    assert_eq!(r.len(), 4096);
    let (addr, len) = r.release();
    assert_eq!(addr, 0x7000);
    assert_eq!(len, 4096);
}

#[test]
fn release_all_releases_each_region_once() {
    let regions = vec![
        PinnedRegion::new(0x1000, 10),
        PinnedRegion::new(0x2000, 20),
        PinnedRegion::new(0x3000, 30),
    ];
    let parts = release_all(regions);
    assert_eq!(parts, vec![(0x1000, 10), (0x2000, 20), (0x3000, 30)]);
}

#[test]
fn missing_path_is_silently_skipped() {
    // A path that vanished between discovery and visit is an expected race:
    // empty result, no error.
    let mut p = Preloader::new(vec!["gone".to_string()], RESERVE_FLOOR * 2);
    assert_eq!(p.next_pending(), Some("gone".to_string()));
    assert_eq!(p.visit(PathKind::Missing), VisitStep::Skip);
    assert_eq!(p.next_pending(), None);
    assert_eq!(p.region_count(), 0);
    assert_eq!(p.into_regions().len(), 0);
}

#[test]
fn unknown_path_kind_fails_the_walk() {
    let mut p = Preloader::new(vec!["weird".to_string()], RESERVE_FLOOR * 2);
    p.next_pending();
    assert_eq!(p.visit(PathKind::Other), VisitStep::Fail);
}

#[test]
fn directory_of_three_admissible_files_yields_three_regions() {
    let mut p = Preloader::new(vec!["dir".to_string()], RESERVE_FLOOR * 2);
    assert_eq!(p.next_pending(), Some("dir".to_string()));
    let children = vec!["dir/a".to_string(), "dir/b".to_string(), "dir/c".to_string()];
    assert_eq!(p.visit(PathKind::Directory { children }), VisitStep::Recurse);
    let mut visited = 0;
    while let Some(_path) = p.next_pending() {
        match p.visit(PathKind::RegularFile { size: 4096 }) {
            VisitStep::AttemptPin { size } => {
                p.record_pin(0x5000 + visited, size as usize);
                visited += 1;
            }
            other => panic!("expected an admission, got {:?}", other),
        }
    }
    assert_eq!(visited, 3);
    assert_eq!(p.region_count(), 3);
    assert_eq!(p.pinned_bytes(), 3 * 4096);
}

#[test]
fn rejected_file_produces_no_region() {
    let mut p = Preloader::new(vec!["big".to_string()], RESERVE_FLOOR + 1);
    p.next_pending();
    assert_eq!(p.visit(PathKind::RegularFile { size: 2 }), VisitStep::Rejected);
    assert_eq!(p.region_count(), 0);
    assert_eq!(p.pinned_bytes(), 0);
}

#[test]
fn failed_mapping_keeps_the_admitted_budget() {
    // The budget is charged at admission and deliberately not refunded when
    // the mapping attempt fails afterwards: the admitted bytes simply stay
    // counted and no region is recorded.
    let mut p = Preloader::new(vec!["f".to_string()], RESERVE_FLOOR * 2);
    p.next_pending();
    match p.visit(PathKind::RegularFile { size: 512 }) {
        VisitStep::AttemptPin { size } => assert_eq!(size, 512),
        other => panic!("expected an admission, got {:?}", other),
    }
    // No record_pin call: the mapping failed.
    assert_eq!(p.region_count(), 0);
    assert_eq!(p.pinned_bytes(), 512);
}
