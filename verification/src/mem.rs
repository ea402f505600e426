//! Slot-buffer allocation: the allocator interface used by the queues, the
//! global-allocator and hugepage variants with their options, and the size
//! arithmetic that the hugepage mapping performs.
use vstd::prelude::*;

use crate::ring::{is_pow2, lemma_mask_is_mod};

verus! {

/// Backing allocator for a queue's slot buffer.
///
/// Called once at construction, before any producer or consumer touches the
/// buffer; it hands back `items` empty slots.
pub trait Allocator {
    /// Configuration passed to [`allocate`](Self::allocate).
    type Options;

    /// Allocates `items` empty slots for values of type `T`.
    fn allocate<T>(items: usize, options: Self::Options) -> (slots: Vec<Option<T>>)
        ensures
            slots@.len() == items,
            forall|i: int| 0 <= i < items ==> (#[trigger] slots@[i]) is None,
    ;
}

/// Builds a buffer of `items` empty slots.
pub fn empty_slots<T>(items: usize) -> (slots: Vec<Option<T>>)
    ensures
        slots@.len() == items,
        forall|i: int| 0 <= i < items ==> (#[trigger] slots@[i]) is None,
{
    let mut slots: Vec<Option<T>> = Vec::with_capacity(items);
    let mut n: usize = 0;
    while n < items
        invariant
            n <= items,
            slots@.len() == n,
            forall|i: int| 0 <= i < n ==> (#[trigger] slots@[i]) is None,
        decreases items - n,
    {
        slots.push(None);
        n = n + 1;
    }
    slots
}

/// Allocator backed by the process's global allocator.
pub struct GlobalAllocator;

/// Options for [`GlobalAllocator`].
pub struct GlobalAllocatorOptions {
    /// Whether the buffer should be locked in memory (`mlock`) so it stays resident.
    pub mlock: bool,
}

impl GlobalAllocatorOptions {
    /// Options with the given `mlock` choice.
    pub fn new(mlock: bool) -> (o: Self)
        ensures
            o.mlock == mlock,
    {
        GlobalAllocatorOptions { mlock }
    }
}

impl Allocator for GlobalAllocator {
    type Options = GlobalAllocatorOptions;

    /// `items` empty slots. The `mlock` option is not acted on here: locking
    /// is a system call left to the embedding program, which reaches the
    /// buffer through the queue's `slot_buffer`.
    fn allocate<T>(items: usize, options: Self::Options) -> (slots: Vec<Option<T>>) {
        empty_slots(items)
    }
}

/// Linux hugepage size, selected through the `MAP_HUGE_*` mapping flags.
#[derive(Clone, Copy, Debug, PartialEq, Eq)]
pub enum HugepageSize {
    /// 64 KiB pages.
    H64KB,
    /// 512 KiB pages.
    H512KB,
    /// 1 MiB pages.
    H1MB,
    /// 2 MiB pages.
    H2MB,
    /// 8 MiB pages.
    H8MB,
    /// 16 MiB pages.
    H16MB,
    /// 32 MiB pages.
    H32MB,
    /// 256 MiB pages.
    H256MB,
    /// 512 MiB pages.
    H512MB,
}

/// The size in bytes of one page of the given kind.
pub open spec fn page_bytes(size: HugepageSize) -> nat {
    match size {
        HugepageSize::H64KB => 64 * 1024,
        HugepageSize::H512KB => 512 * 1024,
        HugepageSize::H1MB => 1024 * 1024,
        HugepageSize::H2MB => 2 * 1024 * 1024,
        HugepageSize::H8MB => 8 * 1024 * 1024,
        HugepageSize::H16MB => 16 * 1024 * 1024,
        HugepageSize::H32MB => 32 * 1024 * 1024,
        HugepageSize::H256MB => 256 * 1024 * 1024,
        HugepageSize::H512MB => 512 * 1024 * 1024,
    }
}

impl HugepageSize {
    /// The page size in bytes.
    pub fn as_usize_bytes(&self) -> (r: usize)
        ensures
            r == page_bytes(*self),
            is_pow2(r),
    {
        proof {
            vstd::arithmetic::power2::lemma2_to64();
            let n: nat = match *self {
                HugepageSize::H64KB => 16,
                HugepageSize::H512KB => 19,
                HugepageSize::H1MB => 20,
                HugepageSize::H2MB => 21,
                HugepageSize::H8MB => 23,
                HugepageSize::H16MB => 24,
                HugepageSize::H32MB => 25,
                HugepageSize::H256MB => 28,
                HugepageSize::H512MB => 29,
            };
            assert(page_bytes(*self) == vstd::arithmetic::power2::pow2(n));
        }
        match self {
            HugepageSize::H64KB => 64 * 1024,
            HugepageSize::H512KB => 512 * 1024,
            HugepageSize::H1MB => 1024 * 1024,
            HugepageSize::H2MB => 2 * 1024 * 1024,
            HugepageSize::H8MB => 8 * 1024 * 1024,
            HugepageSize::H16MB => 16 * 1024 * 1024,
            HugepageSize::H32MB => 32 * 1024 * 1024,
            HugepageSize::H256MB => 256 * 1024 * 1024,
            HugepageSize::H512MB => 512 * 1024 * 1024,
        }
    }
}

/// Allocator for slot buffers meant for hugepages. This module computes the
/// length of the `mmap(MAP_HUGETLB)` mapping and hands out the slots; the
/// mapping itself is a system call left to the embedding program.
pub struct HugepageAllocator;

/// Options for [`HugepageAllocator`].
#[derive(Clone, Copy)]
pub struct HugepageAllocatorOptions {
    /// Whether the mapping should be locked in memory (`mlock`).
    pub mlock: bool,
    /// Page size requested through the `MAP_HUGE_*` flags.
    pub hugepage_size: HugepageSize,
}

impl HugepageAllocatorOptions {
    /// Options with the given `mlock` choice and page size.
    pub fn new(mlock: bool, hugepage_size: HugepageSize) -> (o: Self)
        ensures
            o.mlock == mlock,
            o.hugepage_size == hugepage_size,
    {
        HugepageAllocatorOptions { mlock, hugepage_size }
    }
}

/// Byte size of an array of `items` elements of `item_size` bytes, or `None`
/// when it would exceed `isize::MAX` (the bound `Layout::array` enforces).
pub fn array_bytes(items: usize, item_size: usize) -> (r: Option<usize>)
    ensures
        items * item_size <= isize::MAX ==> r == Some((items * item_size) as usize),
        items * item_size > isize::MAX ==> r is None,
{
    match items.checked_mul(item_size) {
        Some(bytes) => {
            if bytes <= isize::MAX as usize {
                Some(bytes)
            } else {
                None
            }
        },
        None => None,
    }
}

/// `bytes` rounded up to a whole number of pages of `page` bytes, `page` a
/// power of two.
pub open spec fn round_up_spec(bytes: int, page: int) -> int {
    ((bytes + page - 1) / page) * page
}

/// Rounds `bytes` up to a multiple of the power-of-two `page`.
pub fn round_up_to_page(bytes: usize, page: usize) -> (r: usize)
    requires
        is_pow2(page),
        bytes + page - 1 <= usize::MAX,
    ensures
        r == round_up_spec(bytes as int, page as int),
        r % page == 0,
        bytes <= r < bytes + page,
{
    proof {
        lemma_mask_is_mod(bytes, page);
    }
    let x = bytes + (page - 1);
    proof {
        lemma_mask_is_mod(x, page);
        let m = (page - 1) as usize;
        assert(x & !m == x - (x & m)) by (bit_vector);
        vstd::arithmetic::div_mod::lemma_fundamental_div_mod(x as int, page as int);
        vstd::arithmetic::div_mod::lemma_mod_bound(x as int, page as int);
        assert((x as int / page as int) * page as int == page as int * (x as int / page as int)) by (nonlinear_arith);
        vstd::arithmetic::div_mod::lemma_mod_multiples_basic(x as int / page as int, page as int);
    }
    x & !(page - 1)
}

impl Allocator for HugepageAllocator {
    type Options = HugepageAllocatorOptions;

    /// `items` empty slots in an ordinary buffer. The options are not acted
    /// on here: where the memory lives is not part of the queue's behaviour,
    /// and the hugepage mapping of
    /// [`mapping_len`](HugepageAllocator::mapping_len) bytes is a system call
    /// left to the embedding program.
    fn allocate<T>(items: usize, options: Self::Options) -> (slots: Vec<Option<T>>) {
        empty_slots(items)
    }
}

impl HugepageAllocator {
    /// Length of the hugepage mapping for `items` slots of `item_size` bytes:
    /// the array size rounded up to whole pages, or `None` when the array
    /// size exceeds `isize::MAX`.
    pub fn mapping_len(items: usize, item_size: usize, options: &HugepageAllocatorOptions) -> (r:
        Option<usize>)
        ensures
            items * item_size > isize::MAX ==> r is None,
            items * item_size <= isize::MAX ==> r == Some(
                round_up_spec(items * item_size, page_bytes(options.hugepage_size) as int) as usize,
            ),
    {
        let page_size = options.hugepage_size.as_usize_bytes();
        match array_bytes(items, item_size) {
            Some(size) => Some(round_up_to_page(size, page_size)),
            None => None,
        }
    }
}

/// The kind of memory that backs a queue's slot buffer.
pub enum BackingAllocation {
    /// Whatever the global allocator provides.
    Global,
    /// A hugepage mapping with the given page size.
    Hugepages(HugepageSize),
}

} // verus!
