//! Readers that take the counters out of the text of a kernel source.

use vstd::prelude::*;
use vstd::slice::slice_subrange;
use vstd::string::StringSliceAdditionalSpecFns;

use crate::error::ErrorKind;
use crate::sample::{CpuSample, DiskSample, MemorySample};
use crate::text::{
    contains, lemma_lines_step, line_end, lines, lines_from, number_at, number_field, occurs_in,
    starts_with,
};

verus! {

/// Label of the line that holds the memory in all.
pub const MEM_TOTAL_LABEL: &'static str = "MemTotal:";

/// Label of the line that holds the memory still to be had.
pub const MEM_AVAILABLE_LABEL: &'static str = "MemAvailable:";

/// Name of the disk whose activity is shown.
pub const DISK_DEVICE: &'static str = "mmcblk1";

/// The sample that a line of aggregate processor statistics holds: after
/// the label, which may be any field, the ticks for user, nice, system and
/// idle in this order. Further fields are not read.
pub open spec fn cpu_line_reading(line: Seq<u8>) -> Result<CpuSample, ErrorKind> {
    match (number_at(line, 1), number_at(line, 2), number_at(line, 3), number_at(line, 4)) {
        (Some(user), Some(nice), Some(system), Some(idle)) => Ok(
            CpuSample { user, nice, system, idle },
        ),
        _ => Err(ErrorKind::ParseError),
    }
}

/// The sample that the processor statistics hold: that of their first line.
pub open spec fn cpu_reading(text: Seq<u8>) -> Result<CpuSample, ErrorKind> {
    if lines(text).len() == 0 {
        Err(ErrorKind::ParseError)
    } else {
        cpu_line_reading(lines(text)[0])
    }
}

/// Reads the processor ticks from the text of the aggregate statistics.
pub fn read_cpu(text: &[u8]) -> (r: Result<CpuSample, ErrorKind>)
    ensures
        r == cpu_reading(text@),
{
    if text.len() == 0 {
        return Err(ErrorKind::ParseError);
    }
    let end = line_end(text, 0);
    proof {
        lemma_lines_step(text@, 0);
    }
    let line = slice_subrange(text, 0, end);
    let user = number_field(line, 1);
    let nice = number_field(line, 2);
    let system = number_field(line, 3);
    let idle = number_field(line, 4);
    match (user, nice, system, idle) {
        (Some(user), Some(nice), Some(system), Some(idle)) => Ok(
            CpuSample { user, nice, system, idle },
        ),
        _ => Err(ErrorKind::ParseError),
    }
}

/// The last of the lines `ls` that begins with `label`.
pub open spec fn last_line_under(ls: Seq<Seq<u8>>, label: Seq<u8>) -> Option<Seq<u8>>
    decreases ls.len(),
{
    if ls.len() == 0 {
        None
    } else if label.is_prefix_of(ls.last()) {
        Some(ls.last())
    } else {
        last_line_under(ls.drop_last(), label)
    }
}

/// The line begins with one of the two memory labels, and its second field
/// is no number.
pub open spec fn malformed_memory_line(line: Seq<u8>) -> bool {
    &&& MEM_TOTAL_LABEL.spec_bytes().is_prefix_of(line)
        || MEM_AVAILABLE_LABEL.spec_bytes().is_prefix_of(line)
    &&& number_at(line, 1) is None
}

/// The sample that the lines of the memory information hold: under each of
/// the two labels the second field of the last line that begins with it,
/// wherever in the text the lines stand. One malformed line anywhere is a
/// parse error; else a label under which no line stands is a missing field.
pub open spec fn memory_lines_reading(ls: Seq<Seq<u8>>) -> Result<MemorySample, ErrorKind> {
    if exists|i: int| 0 <= i < ls.len() && malformed_memory_line(#[trigger] ls[i]) {
        Err(ErrorKind::ParseError)
    } else {
        match (
            last_line_under(ls, MEM_TOTAL_LABEL.spec_bytes()),
            last_line_under(ls, MEM_AVAILABLE_LABEL.spec_bytes()),
        ) {
            (Some(total_line), Some(available_line)) => match (
                number_at(total_line, 1),
                number_at(available_line, 1),
            ) {
                (Some(total), Some(available)) => Ok(MemorySample { total, available }),
                _ => Err(ErrorKind::ParseError),
            },
            _ => Err(ErrorKind::MissingField),
        }
    }
}

/// The sample that the memory information holds.
pub open spec fn memory_reading(text: Seq<u8>) -> Result<MemorySample, ErrorKind> {
    memory_lines_reading(lines(text))
}

/// The value that a scan has found under `label` in the lines `done`, none
/// of which is malformed.
spec fn found_under(done: Seq<Seq<u8>>, label: Seq<u8>) -> Option<u64> {
    match last_line_under(done, label) {
        Some(line) => number_at(line, 1),
        None => None,
    }
}

/// Reads the memory in all and the memory still to be had from the text of
/// the memory information.
pub fn read_memory(text: &[u8]) -> (r: Result<MemorySample, ErrorKind>)
    ensures
        r == memory_reading(text@),
{
    let n = text.len();
    let total_label = MEM_TOTAL_LABEL.as_bytes();
    let available_label = MEM_AVAILABLE_LABEL.as_bytes();
    let mut total: Option<u64> = None;
    let mut available: Option<u64> = None;
    let mut pos: usize = 0;
    let ghost mut done: Seq<Seq<u8>> = Seq::empty();
    while pos < n
        invariant
            n == text@.len(),
            pos <= n,
            total_label@ == MEM_TOTAL_LABEL.spec_bytes(),
            available_label@ == MEM_AVAILABLE_LABEL.spec_bytes(),
            lines(text@) =~= done + lines_from(text@, pos as int),
            forall|i: int| 0 <= i < done.len() ==> !malformed_memory_line(#[trigger] done[i]),
            total == found_under(done, total_label@),
            available == found_under(done, available_label@),
            total is Some <==> last_line_under(done, total_label@) is Some,
            available is Some <==> last_line_under(done, available_label@) is Some,
        decreases n - pos,
    {
        let end = line_end(text, pos);
        let line = slice_subrange(text, pos, end);
        proof {
            lemma_lines_step(text@, pos as int);
            assert(lines(text@)[done.len() as int] == line@);
            assert(done.push(line@).drop_last() =~= done);
        }
        if starts_with(line, total_label) {
            match number_field(line, 1) {
                Some(value) => {
                    total = Some(value);
                },
                None => {
                    return Err(ErrorKind::ParseError);
                },
            }
        }
        if starts_with(line, available_label) {
            match number_field(line, 1) {
                Some(value) => {
                    available = Some(value);
                },
                None => {
                    return Err(ErrorKind::ParseError);
                },
            }
        }
        proof {
            assert(done.push(line@) + lines_from(text@, pos as int).drop_first() =~= done
                + lines_from(text@, pos as int));
            done = done.push(line@);
        }
        pos = if end < n {
            end + 1
        } else {
            n
        };
    }
    assert(lines(text@) =~= done);
    match (total, available) {
        (Some(total), Some(available)) => Ok(MemorySample { total, available }),
        _ => Err(ErrorKind::MissingField),
    }
}

/// The first of the lines `ls` in which `needle` stands.
pub open spec fn first_line_with(ls: Seq<Seq<u8>>, needle: Seq<u8>) -> Option<Seq<u8>>
    decreases ls.len(),
{
    if ls.len() == 0 {
        None
    } else if occurs_in(ls[0], needle) {
        Some(ls[0])
    } else {
        first_line_with(ls.drop_first(), needle)
    }
}

/// The sample that a line of disk statistics holds: the reads completed in
/// its fourth field and the writes completed in its eighth.
pub open spec fn disk_line_reading(line: Seq<u8>) -> Result<DiskSample, ErrorKind> {
    match (number_at(line, 3), number_at(line, 7)) {
        (Some(reads), Some(writes)) => Ok(DiskSample { reads, writes }),
        _ => Err(ErrorKind::ParseError),
    }
}

/// The sample that the disk statistics hold for `device`: that of the first
/// line in which the name stands, and `None` where it stands in no line.
pub open spec fn disk_reading(text: Seq<u8>, device: Seq<u8>) -> Result<
    Option<DiskSample>,
    ErrorKind,
> {
    match first_line_with(lines(text), device) {
        None => Ok(None),
        Some(line) => match disk_line_reading(line) {
            Ok(sample) => Ok(Some(sample)),
            Err(kind) => Err(kind),
        },
    }
}

/// Reads the operations that `device` has completed from the text of the
/// disk statistics.
pub fn read_disk(text: &[u8], device: &[u8]) -> (r: Result<Option<DiskSample>, ErrorKind>)
    ensures
        r == disk_reading(text@, device@),
{
    let n = text.len();
    let mut pos: usize = 0;
    while pos < n
        invariant
            n == text@.len(),
            pos <= n,
            first_line_with(lines(text@), device@) == first_line_with(
                lines_from(text@, pos as int),
                device@,
            ),
        decreases n - pos,
    {
        let end = line_end(text, pos);
        proof {
            lemma_lines_step(text@, pos as int);
        }
        let line = slice_subrange(text, pos, end);
        if contains(line, device) {
            let reads = number_field(line, 3);
            let writes = number_field(line, 7);
            return match (reads, writes) {
                (Some(reads), Some(writes)) => Ok(Some(DiskSample { reads, writes })),
                _ => Err(ErrorKind::ParseError),
            };
        }
        pos = if end < n {
            end + 1
        } else {
            n
        };
    }
    Ok(None)
}

} // verus!
