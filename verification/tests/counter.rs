use stabby_sync::{Counter, DefaultAllocator, Grant, IAlloc, Layout, USIZE_TOP_BIT};

#[test]
fn operations_return_what_was_there() {
    let mut counter = Counter::new(5);
    assert_eq!(counter.fetch_add(2), 5);
    assert_eq!(counter.fetch_sub(3), 7);
    assert_eq!(counter.fetch_or(3), 4);
    assert_eq!(counter.fetch_and(5), 7);
    assert_eq!(counter.load(), 5);
    counter.store(9);
    assert_eq!(counter.load(), 9);
}

#[test]
fn additions_and_subtractions_wrap_around() {
    let mut counter = Counter::new(usize::MAX);
    assert_eq!(counter.fetch_add(1), usize::MAX);
    assert_eq!(counter.load(), 0);
    assert_eq!(counter.fetch_sub(1), 0);
    assert_eq!(counter.load(), usize::MAX);
}

#[test]
fn the_top_bit_is_half_of_the_range() {
    assert_eq!(USIZE_TOP_BIT, usize::MAX / 2 + 1);
}

#[test]
fn upgrades_of_plain_counts() {
    let mut counter = Counter::new(0);
    assert!(!counter.try_upgrade());
    assert_eq!(counter.load(), 0);
    counter.store(1);
    assert!(counter.try_upgrade());
    assert_eq!(counter.load(), 2);
    counter.store(USIZE_TOP_BIT - 2);
    assert!(counter.try_upgrade());
    assert_eq!(counter.load(), USIZE_TOP_BIT - 1);
}

#[test]
fn upgrades_of_counts_that_use_the_top_bit() {
    let mut counter = Counter::new(USIZE_TOP_BIT);
    assert!(!counter.try_upgrade());
    assert_eq!(counter.load(), 0);
    counter.store(USIZE_TOP_BIT - 1);
    assert!(counter.try_upgrade());
    assert_eq!(counter.load(), 0);
    counter.store(USIZE_TOP_BIT + 4);
    assert!(counter.try_upgrade());
    assert_eq!(counter.load(), 5);
    counter.store(usize::MAX);
    assert!(counter.try_upgrade());
    assert_eq!(counter.load(), 0);
}

#[test]
fn layouts_of_values_and_arrays() {
    assert_eq!(Layout::of::<u32>(), Layout { size: 4, align: 4 });
    assert_eq!(Layout::of::<()>(), Layout { size: 0, align: 1 });
    assert_eq!(Layout::array::<u16>(3), Layout { size: 6, align: 2 });
    assert_eq!(Layout::array::<u16>(usize::MAX), Layout { size: usize::MAX, align: 2 });
    assert_eq!(Layout::array::<()>(usize::MAX), Layout { size: 0, align: 1 });
}

#[test]
fn layouts_are_joined_with_padding() {
    let first = Layout { size: 5, align: 1 };
    assert_eq!(first.padding(4), 3);
    assert_eq!(first.padding(5), 0);
    assert_eq!(first.concat(Layout::of::<u32>()), Layout { size: 12, align: 4 });
    assert_eq!(Layout::of::<u64>().concat(Layout::of::<u8>()), Layout { size: 9, align: 8 });
    assert_eq!(first.concat(Layout::array::<u32>(0)), Layout { size: 8, align: 4 });
    let huge = Layout::array::<u16>(usize::MAX);
    assert_eq!(first.concat(huge), Layout { size: usize::MAX, align: 2 });
}

#[test]
fn the_default_allocator_grants_an_aligned_address() {
    let mut alloc = DefaultAllocator;
    assert_eq!(alloc.allocate(Layout { size: 100, align: 16 }), Some(16));
    alloc.free(16);
}

#[test]
fn replies_are_settled() {
    match Grant::settle(DefaultAllocator, Some(32)) {
        Ok(grant) => assert_eq!(grant.origin, 32),
        Err(_) => panic!("refused"),
    }
    assert!(Grant::settle(DefaultAllocator, None).is_err());
}

#[test]
fn counts_read_one_after_the_other_tell_the_only_handle() {
    let strong = Counter::new(1);
    let mut weak = Counter::new(2);
    assert_eq!(strong.load(), 1);
    weak.fetch_add(1);
    weak.fetch_sub(1);
    weak.fetch_sub(1);
    assert_eq!(weak.load(), 1);
    assert_eq!(strong.load(), 1);
}

#[test]
fn a_drop_in_the_midst_of_an_upgrade_is_not_the_last() {
    let mut strong = Counter::new(1);
    assert_eq!(strong.fetch_or(USIZE_TOP_BIT), 1);
    assert_ne!(strong.fetch_sub(1), 1);
    strong.fetch_add(1);
    strong.fetch_and(!USIZE_TOP_BIT);
    assert_eq!(strong.load(), 1);
    assert_eq!(strong.fetch_sub(1), 1);
}
