//! The ways in which one cycle of a pipeline can fail.

use vstd::prelude::*;

verus! {

/// Why a stage of a pipeline gave no value.
#[derive(Clone, Copy, Debug, PartialEq, Eq, Structural)]
pub enum ErrorKind {
    /// A counter source or a device attribute could not be opened or read.
    SourceUnavailable,
    /// A line lacks a field, or a field is not an unsigned number.
    ParseError,
    /// A labelled field is in no line of the source.
    MissingField,
    /// No counter progress since the sample before, or no memory at all:
    /// the ratio has no denominator.
    DivisionDegenerate,
    /// A device attribute did not take a write.
    WriteFailure,
}

} // verus!
