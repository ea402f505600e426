use low_latency_data_structures::mem::{
    array_bytes, round_up_to_page, Allocator, GlobalAllocator, GlobalAllocatorOptions,
    HugepageAllocator, HugepageAllocatorOptions, HugepageSize,
};

#[test]
fn hugepage_sizes() {
    assert_eq!(HugepageSize::H64KB.as_usize_bytes(), 64 * 1024);
    assert_eq!(HugepageSize::H2MB.as_usize_bytes(), 2 * 1024 * 1024);
    assert_eq!(HugepageSize::H512MB.as_usize_bytes(), 512 * 1024 * 1024);
}

#[test]
fn mapping_length_rounds_up_to_pages() {
    let two_mb = HugepageAllocatorOptions::new(true, HugepageSize::H2MB);
    assert_eq!(HugepageAllocator::mapping_len(1024, 8, &two_mb), Some(2 * 1024 * 1024));
    assert_eq!(HugepageAllocator::mapping_len(0, 8, &two_mb), Some(0));
    assert_eq!(
        HugepageAllocator::mapping_len(2 * 1024 * 1024 / 8 + 1, 8, &two_mb),
        Some(4 * 1024 * 1024)
    );
    assert_eq!(HugepageAllocator::mapping_len(usize::MAX, 2, &two_mb), None);
    assert_eq!(round_up_to_page(4097, 4096), 8192);
    assert_eq!(round_up_to_page(4096, 4096), 4096);
    assert_eq!(array_bytes(usize::MAX / 2 + 1, 1), None);
    assert_eq!(array_bytes(3, 5), Some(15));
}

#[test]
fn global_allocator_hands_out_empty_slots() {
    let slots: Vec<Option<u32>> = GlobalAllocator::allocate(5, GlobalAllocatorOptions::new(false));
    assert_eq!(slots, vec![None; 5]);
}

#[test]
fn hugepage_allocator_hands_out_empty_slots() {
    let slots: Vec<Option<u32>> =
        HugepageAllocator::allocate(16, HugepageAllocatorOptions::new(true, HugepageSize::H2MB));
    assert_eq!(slots.len(), 16);
    assert!(slots.iter().all(|s| s.is_none()));
}
