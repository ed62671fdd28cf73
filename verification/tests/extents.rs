use xcp::blocks::{queue_file_blocks, queue_file_range, BlockJob};
use xcp::errors::Error;
use xcp::extent::{merge_extents, Extent};

#[test]
fn test_extent_merge() -> Result<(), Error> {
    assert_eq!(merge_extents(vec!())?, vec!());
    assert_eq!(merge_extents(
        vec!((0..1).into()))?,
               vec!((0..1).into()));

    assert_eq!(merge_extents(
        vec!((0..1).into(),
             (10..20).into()))?,
               vec!((0..1).into(),
                    (10..20).into()));
    assert_eq!(merge_extents(
        vec!((0..10).into(),
             (11..20).into()))?,
               vec!((0..20).into()));
    assert_eq!(
        merge_extents(
            vec!((0..5).into(),
                 (11..20).into(),
                 (21..30).into(),
                 (40..50).into()))?,
        vec!((0..5).into(),
             (11..30).into(),
             (40..50).into())
    );
    assert_eq!(
        merge_extents(vec!((0..5).into(),
                           (11..20).into(),
                           (21..30).into(),
                           (40..50).into(),
                           (51..60).into()))?,
        vec!((0..5).into(),
             (11..30).into(),
             (40..60).into())
    );
    assert_eq!(
        merge_extents(
            vec!((0..10).into(),
                 (11..20).into(),
                 (21..30).into(),
                 (31..50).into(),
                 (51..60).into()))?,
        vec!((0..60).into())
    );
    Ok(())
}

fn ext(start: u64, end: u64, shared: bool) -> Extent {
    Extent { start, end, shared }
}

#[test]
fn merge_keeps_shared_only_when_both_shared() {
    let m = merge_extents::<>(vec![ext(0, 9, true), ext(10, 19, false), ext(30, 39, true), ext(40, 49, true)]).unwrap();
    assert_eq!(m, vec![ext(0, 19, false), ext(30, 49, true)]);
}

#[test]
fn merge_is_idempotent() {
    let input = vec![ext(0, 4, false), ext(5, 9, false), ext(20, 29, false), ext(30, 30, false), ext(50, 60, false)];
    let once = merge_extents(input).unwrap();
    let twice = merge_extents(once.clone()).unwrap();
    assert_eq!(once, twice);
    assert_eq!(once, vec![ext(0, 9, false), ext(20, 30, false), ext(50, 60, false)]);
}

#[test]
fn merge_keeps_covered_offsets() {
    let input = vec![ext(3, 7, false), ext(8, 8, false), ext(12, 15, false), ext(16, 20, false), ext(2, 4, false)];
    let merged = merge_extents(input.clone()).unwrap();
    let covers = |s: &Vec<Extent>, x: u64| s.iter().any(|e| e.start <= x && x <= e.end);
    for x in 0..30 {
        assert_eq!(covers(&merged, x), covers(&input, x), "offset {x}");
    }
    assert!(merged.len() <= input.len());
}

#[test]
fn merge_does_not_wrap_at_the_top_of_the_range() {
    let m = merge_extents(vec![ext(10, u64::MAX, false), ext(0, 5, false)]).unwrap();
    assert_eq!(m, vec![ext(10, u64::MAX, false), ext(0, 5, false)]);
}

#[test]
fn range_is_split_into_blocks() {
    let mut jobs = Vec::new();
    let len = queue_file_range(100, 110, 4, &mut jobs);
    assert_eq!(len, 10);
    assert_eq!(jobs, vec![
        BlockJob { offset: 100, bytes: 4 },
        BlockJob { offset: 104, bytes: 4 },
        BlockJob { offset: 108, bytes: 2 },
    ]);
}

#[test]
fn range_of_whole_blocks_and_empty_range() {
    let mut jobs = Vec::new();
    assert_eq!(queue_file_range(0, 8, 4, &mut jobs), 8);
    assert_eq!(jobs.len(), 2);
    assert_eq!(queue_file_range(5, 5, 4, &mut jobs), 0);
    assert_eq!(jobs.len(), 2);
    let total: u64 = jobs.iter().map(|j| j.bytes).sum();
    assert_eq!(total, 8);
}

#[test]
fn whole_file_is_queued_when_not_sparse() {
    let mut jobs = Vec::new();
    let queued = queue_file_blocks(10, false, Some(vec![ext(0, 2, false)]), u64::MAX, &mut jobs).unwrap();
    assert_eq!(queued, 10);
    assert_eq!(jobs, vec![BlockJob { offset: 0, bytes: 10 }]);
}

#[test]
fn sparse_file_queues_merged_extents() {
    let mut jobs = Vec::new();
    let extents = vec![ext(0, 4, false), ext(5, 8, false), ext(20, 24, false)];
    let queued = queue_file_blocks(100, true, Some(extents), 4, &mut jobs).unwrap();
    // Merged: [0, 8) and [20, 24), read as ranges.
    assert_eq!(queued, 12);
    assert_eq!(jobs, vec![
        BlockJob { offset: 0, bytes: 4 },
        BlockJob { offset: 4, bytes: 4 },
        BlockJob { offset: 20, bytes: 4 },
    ]);
}

#[test]
fn sparse_file_without_extent_map_is_queued_whole() {
    let mut jobs = Vec::new();
    let queued = queue_file_blocks(9, true, None, 4, &mut jobs).unwrap();
    assert_eq!(queued, 9);
    assert_eq!(jobs.len(), 3);
    assert_eq!(jobs[2], BlockJob { offset: 8, bytes: 1 });
}

#[test]
fn merging_gives_one_extent_per_contiguous_run() {
    let input = vec![
        Extent { start: 0, end: 9, shared: true },
        Extent { start: 10, end: 19, shared: false },
        Extent { start: 20, end: 29, shared: true },
        Extent { start: 40, end: 49, shared: true },
        Extent { start: 50, end: 59, shared: true },
        Extent { start: 70, end: 79, shared: false },
    ];
    assert_eq!(merge_extents(input).unwrap(), vec![
        Extent { start: 0, end: 29, shared: false },
        Extent { start: 40, end: 59, shared: true },
        Extent { start: 70, end: 79, shared: false },
    ]);
}
