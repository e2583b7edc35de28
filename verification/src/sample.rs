//! Raw counters as they are read at one instant.

use vstd::prelude::*;

verus! {

/// Cumulative processor ticks by kind of work.
#[derive(Clone, Copy, Debug, PartialEq, Eq, Structural)]
pub struct CpuSample {
    pub user: u64,
    pub nice: u64,
    pub system: u64,
    pub idle: u64,
}

impl CpuSample {
    /// All ticks of the sample together.
    pub open spec fn total(self) -> int {
        self.user + self.nice + self.system + self.idle
    }

    /// The sample before the first reading: every counter zero.
    pub fn zero() -> (r: CpuSample)
        ensures
            r == (CpuSample { user: 0, nice: 0, system: 0, idle: 0 }),
    {
        CpuSample { user: 0, nice: 0, system: 0, idle: 0 }
    }
}

/// Memory in all and memory still to be had, in the source's unit.
#[derive(Clone, Copy, Debug, PartialEq, Eq, Structural)]
pub struct MemorySample {
    pub total: u64,
    pub available: u64,
}

/// Cumulative read and write operations that a disk has completed.
#[derive(Clone, Copy, Debug, PartialEq, Eq, Structural)]
pub struct DiskSample {
    pub reads: u64,
    pub writes: u64,
}

impl DiskSample {
    /// The sample before the first reading: both counters zero.
    pub fn zero() -> (r: DiskSample)
        ensures
            r == (DiskSample { reads: 0, writes: 0 }),
    {
        DiskSample { reads: 0, writes: 0 }
    }
}

} // verus!
