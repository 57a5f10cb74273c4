use hermit_alloc::live::{LiveAllocations, RecordError};
use hermit_alloc::request::{align_layout, Request};
use hermit_alloc::span::Span;

const BASE: usize = 0x10000;

fn arena(size: usize) -> LiveAllocations {
    LiveAllocations::new(Span::from_base_size(BASE, size).unwrap())
}

fn normalized(size: usize, align: usize) -> Request {
    align_layout(Request::new(size, align).unwrap()).unwrap()
}

#[test]
fn span_queries() {
    let a = Span::from_base_size(100, 50).unwrap();
    let b = Span::from_base_size(149, 10).unwrap();
    let c = Span::from_base_size(150, 10).unwrap();
    let empty = Span::from_base_size(120, 0).unwrap();
    assert_eq!(a.end_addr(), 150);
    assert!(a.contains(100) && a.contains(149) && !a.contains(150) && !a.contains(99));
    assert!(a.overlaps(&b) && b.overlaps(&a));
    assert!(!a.overlaps(&c) && !c.overlaps(&a));
    assert!(!a.overlaps(&empty));
    assert!(a.contains_span(&Span::from_base_size(110, 40).unwrap()));
    assert!(!a.contains_span(&b));
    assert_eq!(Span::from_base_size(usize::MAX, 1), None);
    assert!(Span::from_base_size(usize::MAX - 1, 1).is_some());
}

#[test]
fn each_refusal_has_its_reason() {
    let mut t = arena(4096);
    let r = normalized(1, 1);
    assert_eq!(t.record(0, r), Err(RecordError::Null));
    assert_eq!(t.record(BASE + 8, r), Err(RecordError::Misaligned));
    assert_eq!(t.record(BASE + 4096, r), Err(RecordError::OutsideArena));
    assert_eq!(t.record(BASE - 64, r), Err(RecordError::OutsideArena));
    assert_eq!(t.record(usize::MAX - 63, r), Err(RecordError::OutsideArena));
    assert_eq!(t.record(BASE, r), Ok(()));
    assert_eq!(t.record(BASE, r), Err(RecordError::Overlap));
    assert_eq!(t.live_count(), 1);
}

#[test]
fn page_does_not_fit_after_one_byte() {
    let mut t = arena(4096);
    assert_eq!(t.record(BASE, normalized(1, 1)), Ok(()));
    let page = normalized(4096, 8);
    assert_eq!(page, Request::new(4096, 64).unwrap());
    let mut addr = BASE;
    while addr <= BASE + 4096 {
        assert!(t.record(addr, page).is_err());
        addr += 64;
    }
    assert_eq!(t.live_count(), 1);
}

#[test]
fn failed_record_leaves_room_for_smaller_one() {
    let mut t = arena(256);
    assert_eq!(t.record(BASE, normalized(100, 8)), Ok(()));
    assert_eq!(t.record(BASE + 128, normalized(200, 8)), Err(RecordError::OutsideArena));
    assert_eq!(t.live_count(), 1);
    assert_eq!(t.record(BASE + 128, normalized(100, 8)), Ok(()));
    assert_eq!(t.live_count(), 2);
}

#[test]
fn released_space_is_reusable() {
    let mut t = arena(128);
    let big = normalized(128, 8);
    assert_eq!(t.record(BASE, big), Ok(()));
    assert_eq!(t.record(BASE, normalized(16, 8)), Err(RecordError::Overlap));
    assert!(t.release(BASE, big));
    assert!(!t.is_live(BASE, big));
    assert_eq!(t.record(BASE + 64, normalized(16, 8)), Ok(()));
    assert!(t.is_live(BASE + 64, normalized(16, 8)));
}

#[test]
fn release_of_unknown_allocation_changes_nothing() {
    let mut t = arena(256);
    let r = normalized(1, 1);
    assert_eq!(t.record(BASE, r), Ok(()));
    assert!(!t.release(BASE + 64, r));
    assert!(!t.release(BASE, normalized(65, 1)));
    assert_eq!(t.live_count(), 1);
    assert!(t.release(BASE, r));
    assert_eq!(t.live_count(), 0);
}

#[test]
fn interleaved_allocations_never_overlap() {
    let mut t = arena(1024);
    let mut live: Vec<(usize, Request)> = Vec::new();
    let mut seed: usize = 12345;
    for _ in 0..2000 {
        seed = seed.wrapping_mul(6364136223846793005).wrapping_add(1442695040888963407);
        let slot = (seed >> 33) % 16;
        let size = 1 + (seed >> 20) % 150;
        let addr = BASE + slot * 64;
        let r = normalized(size, 8);
        if (seed >> 10) % 3 == 0 && !live.is_empty() {
            let (a, q) = live.remove((seed >> 40) % live.len());
            assert!(t.release(a, q));
        } else if t.record(addr, r).is_ok() {
            for (a, q) in &live {
                assert!(addr + r.size <= *a || *a + q.size <= addr);
            }
            live.push((addr, r));
        }
        assert_eq!(t.live_count(), live.len());
    }
}
