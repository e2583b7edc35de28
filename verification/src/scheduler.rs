//! The schedule of a pipeline: what it asks of the outside after each
//! thing that the outside reports.
//!
//! A pipeline does no reading, writing or sleeping itself. It is told what
//! happened and answers with what is to happen next: read, then drive, then
//! sleep, then read again, without end. Between a read and its writes it
//! computes the metric and maps it to a level; while the outside reads,
//! writes or sleeps, it waits.

use vstd::prelude::*;

use crate::driver::{file_writes, file_writes_for, writes_for, FileWrite};
use crate::error::ErrorKind;
use crate::pipeline::Pipeline;

verus! {

/// How long a pipeline sleeps after each cycle, in milliseconds.
pub const POLL_INTERVAL_MS: u64 = 50;

/// What the outside reports to a pipeline.
#[derive(Debug, PartialEq, Eq)]
pub enum Event {
    /// The pipeline was started.
    Started,
    /// The source was read; `None` where it could not be.
    SourceRead(Option<Vec<u8>>),
    /// The writes were made, or one of them failed.
    Written(Result<(), ErrorKind>),
    /// The sleep is over.
    Woke,
}

/// What a pipeline asks of the outside.
#[derive(Debug, PartialEq, Eq)]
pub enum Action {
    /// Read the file at this path whole.
    Read(&'static str),
    /// Make these writes, in this order.
    Drive(Vec<FileWrite>),
    /// Sleep for this many milliseconds.
    Sleep(u64),
}

/// The text that a read reported, if the source could be read.
pub open spec fn text_read(source: Option<Vec<u8>>) -> Option<Seq<u8>> {
    match source {
        Some(text) => Some(text@),
        None => None,
    }
}

impl Pipeline {
    /// Takes what the outside reports and says what is to happen next.
    ///
    /// A start and the end of a sleep ask for a read of the source of the
    /// pipeline's resource. A read, also one that failed, runs a cycle and
    /// asks for its writes, all of them to the channel of the pipeline's
    /// resource. The writes, also when one of them failed, ask for a sleep
    /// of `POLL_INTERVAL_MS`. Only a read changes what the pipeline keeps.
    pub fn step(&mut self, event: Event) -> (r: Action)
        ensures
            match event {
                Event::Started | Event::Woke => {
                    &&& r matches Action::Read(path)
                    &&& path@ == old(self).watched().source_of()
                    &&& *final(self) == *old(self)
                },
                Event::SourceRead(source) => {
                    &&& r matches Action::Drive(files)
                    &&& files.deep_view() == file_writes_for(
                        old(self).watched().channel_of(),
                        writes_for(old(self).level(text_read(source))),
                    )
                    &&& *final(self) == old(self).next(text_read(source))
                },
                Event::Written(_) => {
                    &&& r == Action::Sleep(POLL_INTERVAL_MS)
                    &&& *final(self) == *old(self)
                },
            },
    {
        match event {
            Event::Started => Action::Read(self.resource().source()),
            Event::Woke => Action::Read(self.resource().source()),
            Event::SourceRead(source) => {
                let channel = self.resource().channel();
                let writes = match &source {
                    Some(text) => self.cycle(Some(text.as_slice())),
                    None => self.cycle(None),
                };
                Action::Drive(file_writes(channel, &writes))
            },
            Event::Written(_) => Action::Sleep(POLL_INTERVAL_MS),
        }
    }
}

} // verus!
