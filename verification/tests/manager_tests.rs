use walcraft::manager::{FileConfig, SegmentState, MAX_FILE_SIZE, PAGE_SIZE};
use walcraft::meta::Meta;

#[test]
fn overflowing_arithmetics() {
    let v = usize::MAX - 1;
    let (new_v, of) = v.overflowing_add(1);
    assert_eq!(new_v, usize::MAX);
    assert_eq!(of, false);

    let (new_v, of) = v.overflowing_add(5);
    assert_eq!(new_v, 3);
    assert_eq!(of, true);
}

#[test]
fn config_derivation() {
    // four pages split over four files: one page per file, plus slack
    let c = FileConfig::new(PAGE_SIZE * 4);
    assert_eq!(c.size_per_file, PAGE_SIZE);
    assert_eq!(c.max_files, 5);
    // forty mebibytes: ten per file
    let c = FileConfig::new(40 * 1024 * 1024);
    assert_eq!(c.size_per_file, 10 * 1024 * 1024);
    assert_eq!(c.max_files, 5);
    // small totals are floored at one page per file
    let c = FileConfig::new(100);
    assert_eq!(c.size_per_file, PAGE_SIZE);
    assert_eq!(c.max_files, 2);
    // huge totals are capped at the largest segment size
    let c = FileConfig::new(u64::MAX);
    assert_eq!(c.size_per_file, MAX_FILE_SIZE);
}

#[test]
fn garbage_collection() {
    // ten pre-existing segments, index says live range is [0, 9]
    let mut state = SegmentState::open(PAGE_SIZE * 4, Some((0, 9)), 0);
    assert_eq!(state.config.max_files, 5);

    let mut deleted: Vec<u64> = Vec::new();
    for _ in 0..2 {
        match state.commit(PAGE_SIZE) {
            Some(d) => deleted.extend(d),
            None => panic!("a whole page must fill the segment"),
        }
    }

    assert_eq!(state.config.gc_pointer, 6);
    assert_eq!(state.config.current_pointer, 11);
    assert!(deleted.contains(&1));
    assert!(deleted.contains(&5));
    assert!(!deleted.contains(&6));
    assert!(!deleted.contains(&10));
    assert!(!deleted.contains(&11));
    assert_eq!(deleted, vec![0, 1, 2, 3, 4, 5]);
}

#[test]
fn garbage_collection_cyclic() {
    // live range wraps: ten segments at the top of the ring, two past zero
    let mut state = SegmentState::open(PAGE_SIZE * 4, Some((u64::MAX - 9, 1)), 0);
    assert_eq!(state.config.max_files, 5);

    let mut deleted: Vec<u64> = Vec::new();
    for _ in 0..2 {
        match state.commit(PAGE_SIZE) {
            Some(d) => deleted.extend(d),
            None => panic!("a whole page must fill the segment"),
        }
    }

    assert_eq!(state.config.gc_pointer, u64::MAX - 1);
    assert_eq!(state.config.current_pointer, 3);
    assert!(!deleted.contains(&1));
    assert!(!deleted.contains(&3));
    assert!(!deleted.contains(&u64::MAX));
    assert!(!deleted.contains(&(u64::MAX - 1)));
    assert!(deleted.contains(&(u64::MAX - 3)));
    // every old segment from the stale pointer up to the excess, inclusive
    let expected: Vec<u64> = (0..8).map(|k| u64::MAX - 9 + k).collect();
    assert_eq!(deleted, expected);
}

#[test]
fn rotation_fills_and_resets() {
    let mut state = SegmentState::open(PAGE_SIZE * 4, None, 0);
    assert_eq!(state.config.gc_pointer, 0);
    assert_eq!(state.config.current_pointer, 0);
    // a partial page does not rotate
    assert!(!state.commit_step(100));
    assert_eq!(state.filled, 100);
    // crossing the per-file size does
    assert!(state.commit_step(PAGE_SIZE));
    let deleted = state.rotate();
    assert!(deleted.is_empty());
    assert_eq!(state.filled, 0);
    assert_eq!(state.config.current_pointer, 1);
}

#[test]
fn open_is_idempotent() {
    // opening writes back exactly the pair it read, so a second open
    // sees the same pointers
    let first = SegmentState::open(PAGE_SIZE * 4, Some((3, 7)), 0);
    let persisted = Meta::render(first.config.gc_pointer, first.config.current_pointer);
    let reread = Meta::parse(&persisted);
    assert_eq!(reread, Some((3, 7)));
    let second = SegmentState::open(PAGE_SIZE * 4, reread, 0);
    assert_eq!(second.config.gc_pointer, first.config.gc_pointer);
    assert_eq!(second.config.current_pointer, first.config.current_pointer);
}
