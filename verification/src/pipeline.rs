//! The three pipelines: each turns the text of its source into the writes
//! for its channel, once per cycle.

use vstd::prelude::*;
use vstd::string::StringSliceAdditionalSpecFns;

use crate::driver::{drive, writes_for, AttributeWrite};
use crate::error::ErrorKind;
use crate::level::{level_of_activity, level_of_percent, Level};
use crate::metric::{
    cpu_percent, cpu_usage, disk_active, disk_busy, memory_percent, memory_usage, percent_result,
    Usage,
};
use crate::reader::{
    cpu_reading, disk_reading, memory_reading, read_cpu, read_disk, read_memory, DISK_DEVICE,
};
use crate::sample::{CpuSample, DiskSample};

verus! {

/// The resource that a pipeline watches.
#[derive(Clone, Copy, Debug, PartialEq, Eq, Structural)]
pub enum Resource {
    /// Memory in use.
    Memory,
    /// Processor time not idle.
    Cpu,
    /// Reads and writes of the disk.
    Disk,
}

impl Resource {
    /// The kernel source that holds the counters of the resource.
    pub open spec fn source_of(self) -> Seq<char> {
        match self {
            Resource::Memory => "/proc/meminfo"@,
            Resource::Cpu => "/proc/stat"@,
            Resource::Disk => "/proc/diskstats"@,
        }
    }

    /// The output channel that shows the resource.
    pub open spec fn channel_of(self) -> Seq<char> {
        match self {
            Resource::Memory => "rgb-led-r"@,
            Resource::Cpu => "rgb-led-g"@,
            Resource::Disk => "rgb-led-b"@,
        }
    }

    /// The path of the kernel source that holds the counters of the
    /// resource.
    pub fn source(&self) -> (r: &'static str)
        ensures
            r@ == self.source_of(),
    {
        match self {
            Resource::Memory => "/proc/meminfo",
            Resource::Cpu => "/proc/stat",
            Resource::Disk => "/proc/diskstats",
        }
    }

    /// The name of the output channel that shows the resource.
    pub fn channel(&self) -> (r: &'static str)
        ensures
            r@ == self.channel_of(),
    {
        match self {
            Resource::Memory => "rgb-led-r",
            Resource::Cpu => "rgb-led-g",
            Resource::Disk => "rgb-led-b",
        }
    }
}

/// The text that was read from a source, if it could be read.
pub open spec fn text_of(source: Option<&[u8]>) -> Option<Seq<u8>> {
    match source {
        Some(text) => Some(text@),
        None => None,
    }
}

/// The memory utilisation that a cycle finds in its source.
pub open spec fn memory_metric(source: Option<Seq<u8>>) -> Result<real, ErrorKind> {
    match source {
        None => Err(ErrorKind::SourceUnavailable),
        Some(text) => match memory_reading(text) {
            Ok(sample) => memory_percent(sample),
            Err(kind) => Err(kind),
        },
    }
}

/// The processor sample that a cycle finds in its source.
pub open spec fn cpu_sample(source: Option<Seq<u8>>) -> Result<CpuSample, ErrorKind> {
    match source {
        None => Err(ErrorKind::SourceUnavailable),
        Some(text) => cpu_reading(text),
    }
}

/// The processor utilisation that a cycle finds, when the sample before
/// was `previous`.
pub open spec fn cpu_metric(previous: CpuSample, source: Option<Seq<u8>>) -> Result<
    real,
    ErrorKind,
> {
    match cpu_sample(source) {
        Ok(sample) => cpu_percent(previous, sample),
        Err(kind) => Err(kind),
    }
}

/// The processor sample that a cycle leaves for the next one: the one it
/// read, or the one it had where it could read none.
pub open spec fn cpu_next(previous: CpuSample, source: Option<Seq<u8>>) -> CpuSample {
    match cpu_sample(source) {
        Ok(sample) => sample,
        Err(_) => previous,
    }
}

/// The disk sample that a cycle finds in its source; `None` where the
/// source has no line for the disk.
pub open spec fn disk_sample(source: Option<Seq<u8>>) -> Result<Option<DiskSample>, ErrorKind> {
    match source {
        None => Err(ErrorKind::SourceUnavailable),
        Some(text) => disk_reading(text, DISK_DEVICE.spec_bytes()),
    }
}

/// The disk activity that a cycle finds, when the sample before was
/// `previous`. A disk that the source does not list is not busy.
pub open spec fn disk_metric(previous: DiskSample, source: Option<Seq<u8>>) -> Result<
    bool,
    ErrorKind,
> {
    match disk_sample(source) {
        Ok(Some(sample)) => Ok(disk_active(previous, sample)),
        Ok(None) => Ok(false),
        Err(kind) => Err(kind),
    }
}

/// The disk sample that a cycle leaves for the next one: the one it read,
/// or the one it had where it could read none.
pub open spec fn disk_next(previous: DiskSample, source: Option<Seq<u8>>) -> DiskSample {
    match disk_sample(source) {
        Ok(Some(sample)) => sample,
        _ => previous,
    }
}

/// The percentage that goes on to the mapping: that of the stages before,
/// or zero where one of them failed.
pub open spec fn percent_or_default(metric: Result<real, ErrorKind>) -> real {
    match metric {
        Ok(percent) => percent,
        Err(_) => 0real,
    }
}

/// The activity that goes on to the mapping: that of the stages before, or
/// none where one of them failed.
pub open spec fn activity_or_default(metric: Result<bool, ErrorKind>) -> bool {
    match metric {
        Ok(busy) => busy,
        Err(_) => false,
    }
}

/// Reads the memory information and computes the utilisation. `source` is
/// `None` where the source could not be read.
pub fn sample_memory(source: Option<&[u8]>) -> (r: Result<Usage, ErrorKind>)
    ensures
        percent_result(r) == memory_metric(text_of(source)),
        r matches Ok(usage) ==> 0real <= usage@ <= 100real,
{
    match source {
        None => Err(ErrorKind::SourceUnavailable),
        Some(text) => match read_memory(text) {
            Ok(sample) => memory_usage(&sample),
            Err(kind) => Err(kind),
        },
    }
}

/// Reads the processor statistics, computes the utilisation since the
/// sample before, and keeps the new sample in its place. `source` is `None`
/// where the source could not be read.
pub fn sample_cpu(previous: &mut CpuSample, source: Option<&[u8]>) -> (r: Result<
    Usage,
    ErrorKind,
>)
    ensures
        percent_result(r) == cpu_metric(*old(previous), text_of(source)),
        r matches Ok(usage) ==> 0real <= usage@ <= 100real,
        *final(previous) == cpu_next(*old(previous), text_of(source)),
{
    match source {
        None => Err(ErrorKind::SourceUnavailable),
        Some(text) => match read_cpu(text) {
            Ok(sample) => {
                let before = *previous;
                *previous = sample;
                cpu_usage(&before, &sample)
            },
            Err(kind) => Err(kind),
        },
    }
}

/// Reads the disk statistics, tells whether the disk was busy since the
/// sample before, and keeps the new sample in its place. `source` is `None`
/// where the source could not be read.
pub fn sample_disk(previous: &mut DiskSample, source: Option<&[u8]>) -> (r: Result<
    bool,
    ErrorKind,
>)
    ensures
        r == disk_metric(*old(previous), text_of(source)),
        *final(previous) == disk_next(*old(previous), text_of(source)),
{
    match source {
        None => Err(ErrorKind::SourceUnavailable),
        Some(text) => match read_disk(text, DISK_DEVICE.as_bytes()) {
            Ok(Some(sample)) => {
                let before = *previous;
                *previous = sample;
                Ok(disk_busy(&before, &sample))
            },
            Ok(None) => Ok(false),
            Err(kind) => Err(kind),
        },
    }
}

/// Maps the outcome of the stages before to a level, for a utilisation. A
/// failure counts as no utilisation.
pub fn usage_level(metric: &Result<Usage, ErrorKind>) -> (r: Level)
    ensures
        r@ == level_of_percent(percent_or_default(percent_result(*metric))),
{
    match metric {
        Ok(usage) => Level::for_usage(usage),
        Err(_) => {
            let idle = Usage::idle();
            Level::for_usage(&idle)
        },
    }
}

/// Maps the outcome of the stages before to a level, for disk activity. A
/// failure counts as no activity.
pub fn activity_level(metric: &Result<bool, ErrorKind>) -> (r: Level)
    ensures
        r@ == level_of_activity(activity_or_default(*metric)),
{
    match metric {
        Ok(busy) => Level::for_activity(*busy),
        Err(_) => Level::for_activity(false),
    }
}

/// A pipeline with what it keeps from one cycle to the next: for the
/// processor and the disk the sample of the cycle before, for memory, whose
/// counters are absolute, nothing.
#[derive(Clone, Copy, Debug, PartialEq, Eq, Structural)]
pub enum Pipeline {
    /// The pipeline for memory.
    Memory,
    /// The pipeline for the processor, with the sample of the cycle before.
    Cpu(CpuSample),
    /// The pipeline for the disk, with the sample of the cycle before.
    Disk(DiskSample),
}

impl Pipeline {
    /// The resource that the pipeline watches.
    pub open spec fn watched(self) -> Resource {
        match self {
            Pipeline::Memory => Resource::Memory,
            Pipeline::Cpu(_) => Resource::Cpu,
            Pipeline::Disk(_) => Resource::Disk,
        }
    }

    /// The level that a cycle gives its channel.
    pub open spec fn level(self, source: Option<Seq<u8>>) -> nat {
        match self {
            Pipeline::Memory => level_of_percent(percent_or_default(memory_metric(source))),
            Pipeline::Cpu(previous) => level_of_percent(
                percent_or_default(cpu_metric(previous, source)),
            ),
            Pipeline::Disk(previous) => level_of_activity(
                activity_or_default(disk_metric(previous, source)),
            ),
        }
    }

    /// Why a cycle has no metric, where one of its stages fails.
    pub open spec fn failure(self, source: Option<Seq<u8>>) -> Option<ErrorKind> {
        match self {
            Pipeline::Memory => match memory_metric(source) {
                Ok(_) => None,
                Err(kind) => Some(kind),
            },
            Pipeline::Cpu(previous) => match cpu_metric(previous, source) {
                Ok(_) => None,
                Err(kind) => Some(kind),
            },
            Pipeline::Disk(previous) => match disk_metric(previous, source) {
                Ok(_) => None,
                Err(kind) => Some(kind),
            },
        }
    }

    /// The pipeline after a cycle.
    pub open spec fn next(self, source: Option<Seq<u8>>) -> Pipeline {
        match self {
            Pipeline::Memory => Pipeline::Memory,
            Pipeline::Cpu(previous) => Pipeline::Cpu(cpu_next(previous, source)),
            Pipeline::Disk(previous) => Pipeline::Disk(disk_next(previous, source)),
        }
    }

    /// The pipeline for a resource before its first cycle: every counter of
    /// the sample before is zero.
    pub fn new(resource: Resource) -> (r: Pipeline)
        ensures
            r == match resource {
                Resource::Memory => Pipeline::Memory,
                Resource::Cpu => Pipeline::Cpu(
                    CpuSample { user: 0, nice: 0, system: 0, idle: 0 },
                ),
                Resource::Disk => Pipeline::Disk(DiskSample { reads: 0, writes: 0 }),
            },
    {
        match resource {
            Resource::Memory => Pipeline::Memory,
            Resource::Cpu => Pipeline::Cpu(CpuSample::zero()),
            Resource::Disk => Pipeline::Disk(DiskSample::zero()),
        }
    }

    /// The resource that the pipeline watches.
    pub fn resource(&self) -> (r: Resource)
        ensures
            r == self.watched(),
    {
        match self {
            Pipeline::Memory => Resource::Memory,
            Pipeline::Cpu(_) => Resource::Cpu,
            Pipeline::Disk(_) => Resource::Disk,
        }
    }

    /// Runs one cycle on the text of the source: computes the metric, maps
    /// it to a level and plans the writes for the channel. `source` is
    /// `None` where the source could not be read.
    pub fn cycle(&mut self, source: Option<&[u8]>) -> (r: Vec<AttributeWrite>)
        ensures
            r@ == writes_for(old(self).level(text_of(source))),
            *final(self) == old(self).next(text_of(source)),
    {
        let level = match self {
            Pipeline::Memory => usage_level(&sample_memory(source)),
            Pipeline::Cpu(previous) => usage_level(&sample_cpu(previous, source)),
            Pipeline::Disk(previous) => activity_level(&sample_disk(previous, source)),
        };
        drive(level)
    }
}

/// A cycle of which a stage fails, whatever the failure, switches the
/// channel off: one bad sample never stops a pipeline.
pub proof fn lemma_failed_cycle_switches_off(pipeline: Pipeline, source: Option<Seq<u8>>)
    requires
        pipeline.failure(source) is Some,
    ensures
        pipeline.level(source) == 0,
        writes_for(pipeline.level(source)) == seq![AttributeWrite::SwitchOff],
{
}

/// A source that cannot be read fails the cycle and leaves the pipeline as
/// it was.
pub proof fn lemma_unread_source_keeps_the_sample(pipeline: Pipeline)
    ensures
        pipeline.failure(None) == Some(ErrorKind::SourceUnavailable),
        pipeline.next(None) == pipeline,
{
}

} // verus!
