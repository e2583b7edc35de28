//! Utilisation in percent, computed from raw counters.

use vstd::prelude::*;

use crate::error::ErrorKind;
use crate::sample::{CpuSample, DiskSample, MemorySample};

verus! {

/// The share of `part` in `whole`, in percent.
pub open spec fn percent_of(part: int, whole: int) -> real
    recommends
        whole > 0,
{
    100real * (part as real) / (whole as real)
}

/// The percentage nearest to `m` in the range from 0 to 100.
pub open spec fn clamp_percent(m: real) -> real {
    if m < 0real {
        0real
    } else if m > 100real {
        100real
    } else {
        m
    }
}

/// How a share in percent lies to the ends of the range.
pub proof fn lemma_percent_of_range(part: int, whole: int)
    by (nonlinear_arith)
    requires
        whole > 0,
    ensures
        percent_of(part, whole) < 0real <==> part < 0,
        percent_of(part, whole) > 100real <==> part > whole,
        percent_of(0, whole) == 0real,
        percent_of(whole, whole) == 100real,
{
}

/// The largest whole that a utilisation is taken of: four counters of 64
/// bits each.
pub const MAX_WHOLE: u128 = 0x3_ffff_ffff_ffff_fffc;

/// A utilisation between 0 and 100 percent, held as the exact ratio of two
/// counts.
#[derive(Clone, Copy, Debug)]
pub struct Usage {
    part: u128,
    whole: u128,
}

impl View for Usage {
    type V = real;

    /// The utilisation in percent.
    closed spec fn view(&self) -> real {
        percent_of(self.part as int, self.whole as int)
    }
}

impl Usage {
    #[verifier::type_invariant]
    spec fn well_formed(self) -> bool {
        0 < self.whole <= MAX_WHOLE && self.part <= self.whole
    }

    /// The utilisation `part` of `whole`, or `None` where `whole` is zero
    /// or `part` is more than `whole`.
    pub fn new(part: u64, whole: u64) -> (r: Option<Usage>)
        ensures
            r is Some <==> 0 < whole && part <= whole,
            r matches Some(u) ==> u@ == percent_of(part as int, whole as int),
            r matches Some(u) ==> 0real <= u@ <= 100real,
    {
        if whole == 0 || part > whole {
            None
        } else {
            proof {
                lemma_percent_of_range(part as int, whole as int);
            }
            Some(Usage { part: part as u128, whole: whole as u128 })
        }
    }

    /// No utilisation at all: what stands in for a sample that could not be
    /// had.
    pub fn idle() -> (r: Usage)
        ensures
            r@ == 0real,
    {
        proof {
            lemma_percent_of_range(0, 1);
        }
        Usage { part: 0, whole: 1 }
    }

    /// Two counts whose ratio is this utilisation: a part and the whole it
    /// is taken of.
    pub fn ratio(&self) -> (r: (u128, u128))
        ensures
            0 < r.1,
            r.0 <= r.1,
            r.1 <= MAX_WHOLE,
            self@ == percent_of(r.0 as int, r.1 as int),
    {
        proof {
            use_type_invariant(self);
        }
        (self.part, self.whole)
    }
}

/// The percentage of a stage's result, with the failure kept as it is.
pub open spec fn percent_result(r: Result<Usage, ErrorKind>) -> Result<real, ErrorKind> {
    match r {
        Ok(usage) => Ok(usage@),
        Err(kind) => Err(kind),
    }
}

/// Processor utilisation between two samples: of the ticks that passed in
/// all, the share that was not idle, held to the range from 0 to 100 where
/// a counter ran backwards. There is none where no tick passed in all.
pub open spec fn cpu_percent(previous: CpuSample, current: CpuSample) -> Result<real, ErrorKind> {
    let elapsed = current.total() - previous.total();
    let idle = current.idle - previous.idle;
    if elapsed <= 0 {
        Err(ErrorKind::DivisionDegenerate)
    } else {
        Ok(clamp_percent(percent_of(elapsed - idle, elapsed)))
    }
}

/// Memory utilisation of a sample: of the memory in all, the share that is
/// not to be had, held to the range from 0 to 100 where more is said to be
/// had than there is. There is none where there is no memory in all.
pub open spec fn memory_percent(sample: MemorySample) -> Result<real, ErrorKind> {
    if sample.total == 0 {
        Err(ErrorKind::DivisionDegenerate)
    } else {
        Ok(clamp_percent(percent_of(sample.total - sample.available, sample.total as int)))
    }
}

/// A disk was busy between two samples where either counter changed.
pub open spec fn disk_active(previous: DiskSample, current: DiskSample) -> bool {
    current.reads != previous.reads || current.writes != previous.writes
}

/// Whatever the two samples hold, a processor utilisation lies between 0
/// and 100 percent.
pub proof fn lemma_cpu_percent_in_range(previous: CpuSample, current: CpuSample)
    ensures
        cpu_percent(previous, current) matches Ok(percent) ==> 0real <= percent <= 100real,
{
}

/// Where no counter ran backwards and a tick passed, the processor
/// utilisation is the share of the ticks that were not idle, as it stands.
pub proof fn lemma_cpu_percent_of_growing_counters(previous: CpuSample, current: CpuSample)
    requires
        previous.user <= current.user,
        previous.nice <= current.nice,
        previous.system <= current.system,
        previous.idle <= current.idle,
        previous.total() < current.total(),
    ensures
        cpu_percent(previous, current) == Ok::<real, ErrorKind>(
            percent_of(
                (current.total() - previous.total()) - (current.idle - previous.idle),
                current.total() - previous.total(),
            ),
        ),
{
    let elapsed = current.total() - previous.total();
    lemma_percent_of_range(elapsed - (current.idle - previous.idle), elapsed);
}

/// Whatever the sample holds, a memory utilisation lies between 0 and 100
/// percent.
pub proof fn lemma_memory_percent_in_range(sample: MemorySample)
    ensures
        memory_percent(sample) matches Ok(percent) ==> 0real <= percent <= 100real,
{
}

/// Computes the processor utilisation between two samples.
pub fn cpu_usage(previous: &CpuSample, current: &CpuSample) -> (r: Result<Usage, ErrorKind>)
    ensures
        percent_result(r) == cpu_percent(*previous, *current),
        r matches Ok(usage) ==> 0real <= usage@ <= 100real,
{
    let before: u128 = previous.user as u128 + previous.nice as u128 + previous.system as u128
        + previous.idle as u128;
    let now: u128 = current.user as u128 + current.nice as u128 + current.system as u128
        + current.idle as u128;
    if now <= before {
        return Err(ErrorKind::DivisionDegenerate);
    }
    let elapsed: u128 = now - before;
    let busy: u128 = if current.idle <= previous.idle {
        elapsed
    } else {
        let idle: u128 = (current.idle - previous.idle) as u128;
        if idle >= elapsed {
            0
        } else {
            elapsed - idle
        }
    };
    proof {
        lemma_percent_of_range(elapsed - (current.idle - previous.idle), elapsed as int);
        lemma_percent_of_range(0, elapsed as int);
        lemma_percent_of_range(elapsed as int, elapsed as int);
        lemma_percent_of_range(busy as int, elapsed as int);
    }
    Ok(Usage { part: busy, whole: elapsed })
}

/// Computes the memory utilisation of a sample.
pub fn memory_usage(sample: &MemorySample) -> (r: Result<Usage, ErrorKind>)
    ensures
        percent_result(r) == memory_percent(*sample),
        r matches Ok(usage) ==> 0real <= usage@ <= 100real,
{
    if sample.total == 0 {
        return Err(ErrorKind::DivisionDegenerate);
    }
    let used: u64 = if sample.available >= sample.total {
        0
    } else {
        sample.total - sample.available
    };
    proof {
        lemma_percent_of_range(sample.total - sample.available, sample.total as int);
        lemma_percent_of_range(0, sample.total as int);
        lemma_percent_of_range(used as int, sample.total as int);
    }
    Ok(Usage { part: used as u128, whole: sample.total as u128 })
}

/// Tells whether a disk was busy between two samples.
pub fn disk_busy(previous: &DiskSample, current: &DiskSample) -> (r: bool)
    ensures
        r == disk_active(*previous, *current),
{
    current.reads != previous.reads || current.writes != previous.writes
}

} // verus!
