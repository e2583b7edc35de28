//! The attribute writes that set an output channel to a brightness level.

use vstd::prelude::*;
use vstd::slice::slice_to_vec;
use vstd::string::StringSliceAdditionalSpecFns;

use crate::decimal::{decimal, format_number};
use crate::level::{Level, MAX_LEVEL};

verus! {

/// Length of one pulse, on and off together, in the unit of the delays.
pub const PULSE_PERIOD: u16 = 1000;

/// What each level adds to the time that a pulse is on.
pub const PULSE_STEP: u16 = 10;

/// What is written to `brightness` to switch a channel off.
pub const OFF_VALUE: &'static str = "0";

/// What is written to `trigger` to make a channel pulse.
pub const PULSE_TRIGGER: &'static str = "timer";

/// Where the channels are found: the name of a channel and of an attribute
/// follow.
pub const CHANNEL_DIRECTORY: &'static str = "/sys/class/leds/";

/// Stands between the name of a channel and that of an attribute.
pub const PATH_SEPARATOR: &'static str = "/";

/// A control attribute of an output channel.
#[derive(Clone, Copy, Debug, PartialEq, Eq, Hash, Structural)]
pub enum Attribute {
    /// The steady brightness.
    Brightness,
    /// The selector of the pulse mode.
    Trigger,
    /// How long a pulse is on.
    DelayOn,
    /// How long a pulse is off.
    DelayOff,
}

impl Attribute {
    /// The name of the attribute's file.
    pub open spec fn name(self) -> Seq<char> {
        match self {
            Attribute::Brightness => "brightness"@,
            Attribute::Trigger => "trigger"@,
            Attribute::DelayOn => "delay_on"@,
            Attribute::DelayOff => "delay_off"@,
        }
    }

    /// The name of the attribute's file.
    pub fn file_name(&self) -> (r: &'static str)
        ensures
            r@ == self.name(),
    {
        match self {
            Attribute::Brightness => "brightness",
            Attribute::Trigger => "trigger",
            Attribute::DelayOn => "delay_on",
            Attribute::DelayOff => "delay_off",
        }
    }
}

/// The path of an attribute of a channel.
pub open spec fn path_of(channel: Seq<char>, attribute: Attribute) -> Seq<char> {
    CHANNEL_DIRECTORY@ + channel + PATH_SEPARATOR@ + attribute.name()
}

/// Builds the path of an attribute of a channel.
pub fn attribute_path(channel: &str, attribute: Attribute) -> (r: String)
    ensures
        r@ == path_of(channel@, attribute),
{
    let mut path = String::from_str(CHANNEL_DIRECTORY);
    path.append(channel);
    path.append(PATH_SEPARATOR);
    path.append(attribute.file_name());
    path
}

/// One write to an attribute of a channel.
#[derive(Clone, Copy, Debug, PartialEq, Eq, Structural)]
pub enum AttributeWrite {
    /// Switches the channel off.
    SwitchOff,
    /// Selects the pulse mode.
    SelectPulse,
    /// Sets how long a pulse is on.
    SetDelayOn(u16),
    /// Sets how long a pulse is off.
    SetDelayOff(u16),
}

impl AttributeWrite {
    /// The attribute that is written.
    pub open spec fn target(self) -> Attribute {
        match self {
            AttributeWrite::SwitchOff => Attribute::Brightness,
            AttributeWrite::SelectPulse => Attribute::Trigger,
            AttributeWrite::SetDelayOn(_) => Attribute::DelayOn,
            AttributeWrite::SetDelayOff(_) => Attribute::DelayOff,
        }
    }

    /// The bytes that are written.
    pub open spec fn content(self) -> Seq<u8> {
        match self {
            AttributeWrite::SwitchOff => OFF_VALUE.spec_bytes(),
            AttributeWrite::SelectPulse => PULSE_TRIGGER.spec_bytes(),
            AttributeWrite::SetDelayOn(delay) => decimal(delay as nat),
            AttributeWrite::SetDelayOff(delay) => decimal(delay as nat),
        }
    }

    /// The attribute that is written.
    pub fn attribute(&self) -> (r: Attribute)
        ensures
            r == self.target(),
    {
        match self {
            AttributeWrite::SwitchOff => Attribute::Brightness,
            AttributeWrite::SelectPulse => Attribute::Trigger,
            AttributeWrite::SetDelayOn(_) => Attribute::DelayOn,
            AttributeWrite::SetDelayOff(_) => Attribute::DelayOff,
        }
    }

    /// The bytes that are written.
    pub fn value(&self) -> (r: Vec<u8>)
        ensures
            r@ == self.content(),
    {
        match self {
            AttributeWrite::SwitchOff => slice_to_vec(OFF_VALUE.as_bytes()),
            AttributeWrite::SelectPulse => slice_to_vec(PULSE_TRIGGER.as_bytes()),
            AttributeWrite::SetDelayOn(delay) => format_number(*delay as u64),
            AttributeWrite::SetDelayOff(delay) => format_number(*delay as u64),
        }
    }
}

/// The writes that set a channel to `level`, in the order in which they are
/// made. Level zero switches the channel off. A higher level makes it
/// pulse: on for one step per level, and off for the rest of the period.
pub open spec fn writes_for(level: nat) -> Seq<AttributeWrite>
    recommends
        level <= MAX_LEVEL,
{
    if level == 0 {
        seq![AttributeWrite::SwitchOff]
    } else {
        seq![
            AttributeWrite::SelectPulse,
            AttributeWrite::SetDelayOn((level * PULSE_STEP) as u16),
            AttributeWrite::SetDelayOff((PULSE_PERIOD - level * PULSE_STEP) as u16),
        ]
    }
}

/// Plans the writes that set a channel to `level`.
pub fn drive(level: Level) -> (r: Vec<AttributeWrite>)
    ensures
        r@ == writes_for(level@),
{
    let value = level.value();
    let mut writes: Vec<AttributeWrite> = Vec::new();
    if value == 0 {
        writes.push(AttributeWrite::SwitchOff);
    } else {
        let on: u16 = value as u16 * PULSE_STEP;
        writes.push(AttributeWrite::SelectPulse);
        writes.push(AttributeWrite::SetDelayOn(on));
        writes.push(AttributeWrite::SetDelayOff(PULSE_PERIOD - on));
    }
    assert(writes@ =~= writes_for(level@));
    writes
}

/// One write to a file: the path of an attribute and the bytes for it.
#[derive(Debug, PartialEq, Eq)]
pub struct FileWrite {
    pub path: String,
    pub content: Vec<u8>,
}

impl View for FileWrite {
    type V = (Seq<char>, Seq<u8>);

    /// The path and the bytes.
    open spec fn view(&self) -> (Seq<char>, Seq<u8>) {
        (self.path@, self.content@)
    }
}

impl DeepView for FileWrite {
    type V = (Seq<char>, Seq<u8>);

    /// The path and the bytes.
    open spec fn deep_view(&self) -> (Seq<char>, Seq<u8>) {
        self@
    }
}

/// The file write that makes `write` on `channel`.
pub open spec fn file_write_for(channel: Seq<char>, write: AttributeWrite) -> (
    Seq<char>,
    Seq<u8>,
) {
    (path_of(channel, write.target()), write.content())
}

/// The file writes that make `writes` on `channel`: as many, in the same
/// order, each to its attribute of that one channel.
pub open spec fn file_writes_for(channel: Seq<char>, writes: Seq<AttributeWrite>) -> Seq<
    (Seq<char>, Seq<u8>),
> {
    writes.map_values(|write: AttributeWrite| file_write_for(channel, write))
}

/// Turns the writes of a plan into file writes on one channel.
pub fn file_writes(channel: &str, writes: &Vec<AttributeWrite>) -> (r: Vec<FileWrite>)
    ensures
        r.deep_view() == file_writes_for(channel@, writes@),
{
    let mut files: Vec<FileWrite> = Vec::new();
    let mut i: usize = 0;
    while i < writes.len()
        invariant
            i <= writes@.len(),
            files@.len() == i,
            forall|j: int|
                0 <= j < i ==> (#[trigger] files@[j])@ == file_write_for(channel@, writes@[j]),
        decreases writes@.len() - i,
    {
        let write = writes[i];
        let path = attribute_path(channel, write.attribute());
        files.push(FileWrite { path, content: write.value() });
        i += 1;
    }
    assert(files.deep_view() =~= file_writes_for(channel@, writes@));
    files
}

/// What the attributes of one channel hold: for each attribute that was
/// written, the bytes of the last write to it.
pub type ChannelState = Map<Attribute, Seq<u8>>;

/// The state of a channel after the writes were made in their order.
pub open spec fn state_after(state: ChannelState, writes: Seq<AttributeWrite>) -> ChannelState
    decreases writes.len(),
{
    if writes.len() == 0 {
        state
    } else {
        state_after(state, writes.drop_last()).insert(
            writes.last().target(),
            writes.last().content(),
        )
    }
}

/// The bytes of the last of the writes that goes to `attribute`, if one
/// of them does.
pub open spec fn last_write_to(writes: Seq<AttributeWrite>, attribute: Attribute) -> Option<
    Seq<u8>,
>
    decreases writes.len(),
{
    if writes.len() == 0 {
        None
    } else if writes.last().target() == attribute {
        Some(writes.last().content())
    } else {
        last_write_to(writes.drop_last(), attribute)
    }
}

/// The last write wins: after the writes an attribute holds the bytes of
/// the last write that went to it, and what it held before where none did.
pub proof fn lemma_last_write_wins(
    state: ChannelState,
    writes: Seq<AttributeWrite>,
    attribute: Attribute,
)
    ensures
        state_after(state, writes).dom().contains(attribute) <==> last_write_to(writes, attribute)
            is Some || state.dom().contains(attribute),
        last_write_to(writes, attribute) matches Some(content) ==> state_after(
            state,
            writes,
        )[attribute] == content,
        last_write_to(writes, attribute) is None ==> state_after(state, writes)[attribute]
            == state[attribute],
    decreases writes.len(),
{
    if writes.len() > 0 {
        lemma_last_write_wins(state, writes.drop_last(), attribute);
    }
}

/// To make the same writes twice leaves a channel as to make them once.
pub proof fn lemma_writes_idempotent(state: ChannelState, writes: Seq<AttributeWrite>)
    ensures
        state_after(state_after(state, writes), writes) == state_after(state, writes),
{
    let once = state_after(state, writes);
    let twice = state_after(once, writes);
    assert forall|attribute: Attribute| #[trigger]
        twice.dom().contains(attribute) == once.dom().contains(attribute) by {
        lemma_last_write_wins(state, writes, attribute);
        lemma_last_write_wins(once, writes, attribute);
    }
    assert forall|attribute: Attribute| #[trigger]
        once.dom().contains(attribute) implies twice[attribute] == once[attribute] by {
        lemma_last_write_wins(state, writes, attribute);
        lemma_last_write_wins(once, writes, attribute);
    }
    assert(twice =~= once);
}

/// To drive a channel twice to the same level leaves it as to drive it
/// once.
pub proof fn lemma_drive_idempotent(state: ChannelState, level: nat)
    ensures
        state_after(state_after(state, writes_for(level)), writes_for(level)) == state_after(
            state,
            writes_for(level),
        ),
{
    lemma_writes_idempotent(state, writes_for(level));
}

} // verus!
