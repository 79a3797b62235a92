//! Accounting of heap traffic.
use vstd::prelude::*;

verus! {

/// Most samples that one sampling window takes.
pub const BACKTRACE_SAMPLE_CAP: u64 = 32;

/// Heap traffic so far: calls that allocate, calls that free, bytes asked for.
#[derive(Debug, Clone, Copy, PartialEq, Eq, Structural)]
pub struct AllocCounts {
    pub allocs: u64,
    pub frees: u64,
    pub bytes: u64,
}

impl AllocCounts {
    /// No traffic.
    pub fn new() -> (r: Self)
        ensures
            r == (AllocCounts { allocs: 0, frees: 0, bytes: 0 }),
    {
        AllocCounts { allocs: 0, frees: 0, bytes: 0 }
    }

    /// An allocation of `size` bytes.
    pub fn on_alloc(&mut self, size: u64)
        ensures
            *final(self) == (AllocCounts {
                allocs: old(self).allocs.wrapping_add(1),
                bytes: old(self).bytes.wrapping_add(size),
                ..*old(self)
            }),
    {
        self.allocs = self.allocs.wrapping_add(1);
        self.bytes = self.bytes.wrapping_add(size);
    }

    /// A deallocation.
    pub fn on_dealloc(&mut self)
        ensures
            *final(self) == (AllocCounts { frees: old(self).frees.wrapping_add(1), ..*old(self) }),
    {
        self.frees = self.frees.wrapping_add(1);
    }

    /// A reallocation to `new_size` bytes: one allocation and one free.
    pub fn on_realloc(&mut self, new_size: u64)
        ensures
            *final(self) == (AllocCounts {
                allocs: old(self).allocs.wrapping_add(1),
                frees: old(self).frees.wrapping_add(1),
                bytes: old(self).bytes.wrapping_add(new_size),
            }),
    {
        self.on_alloc(new_size);
        self.on_dealloc();
    }

    /// The three counts.
    pub fn snapshot(&self) -> (r: (u64, u64, u64))
        ensures
            r == (self.allocs, self.frees, self.bytes),
    {
        (self.allocs, self.frees, self.bytes)
    }
}

/// Whether an allocation is sampled, and the number of samples tried after it:
/// sampling must be on, not in progress already, and below the cap.
pub fn sample_decision(enabled: bool, already_in: bool, sampled: u64) -> (r: (bool, u64))
    ensures
        r.0 == (enabled && !already_in && sampled < BACKTRACE_SAMPLE_CAP),
        r.1 == (if enabled && !already_in {
            sampled.wrapping_add(1)
        } else {
            sampled
        }),
{
    if !enabled || already_in {
        return (false, sampled);
    }
    (sampled < BACKTRACE_SAMPLE_CAP, sampled.wrapping_add(1))
}

} // verus!
