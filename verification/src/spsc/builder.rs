use vstd::prelude::*;

use crate::mem::{Allocator, GlobalAllocator, GlobalAllocatorOptions};

verus! {

/// Construction-time options for a queue: the options of the allocator that
/// provides the slot buffer.
pub struct Options<Alloc: Allocator> {
    pub(crate) alloc: Alloc::Options,
}

impl<Alloc: Allocator> Options<Alloc> {
    /// The allocator options carried.
    pub closed spec fn alloc_options(&self) -> Alloc::Options {
        self.alloc
    }

    /// Options that hand `alloc` to the allocator.
    pub fn new(alloc: Alloc::Options) -> (o: Self)
        ensures
            o.alloc_options() == alloc,
    {
        Options { alloc }
    }
}

impl Options<GlobalAllocator> {
    /// The common case: the global allocator with `mlock` enabled.
    pub fn global_mlocked() -> (o: Self)
        ensures
            o.alloc_options().mlock,
    {
        Options { alloc: GlobalAllocatorOptions::new(true) }
    }
}

} // verus!
