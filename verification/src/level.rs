//! Brightness levels, and how a metric maps to one.

use vstd::prelude::*;

use crate::metric::{percent_of, Usage, MAX_WHOLE};

verus! {

/// The brightest level.
pub const MAX_LEVEL: u8 = 5;

/// Below this percentage a channel is off.
pub const LOW_THRESHOLD: u8 = 30;

/// Above this percentage a channel is at the brightest level.
pub const HIGH_THRESHOLD: u8 = 95;

/// The percentage at which the ramp between the thresholds leaves zero.
pub const RAMP_CENTRE: u8 = 50;

/// The width of the ramp in percent.
pub const RAMP_SPAN: u8 = 45;

/// The level that the ramp reaches at the end of its span.
pub const RAMP_TOP: u8 = 4;

/// The ramp between the thresholds: the distance of `m` from the centre,
/// scaled so that the span gives the top of the ramp, and cut to a whole
/// number towards zero. Below the centre that is zero.
pub open spec fn ramp(m: real) -> nat {
    let scaled = (m - RAMP_CENTRE as real) / (RAMP_SPAN as real) * (RAMP_TOP as real);
    if scaled < 0real {
        0
    } else {
        scaled.floor() as nat
    }
}

/// The level for a utilisation of `m` percent.
pub open spec fn level_of_percent(m: real) -> nat {
    if m < LOW_THRESHOLD as real {
        0
    } else if m > HIGH_THRESHOLD as real {
        MAX_LEVEL as nat
    } else {
        ramp(m)
    }
}

/// The level for disk activity: the brightest when busy, else off.
pub open spec fn level_of_activity(busy: bool) -> nat {
    if busy {
        MAX_LEVEL as nat
    } else {
        0
    }
}

/// A brightness level from 0, which is off, to `MAX_LEVEL`.
#[derive(Clone, Copy, Debug, PartialEq, Eq)]
pub struct Level {
    value: u8,
}

impl View for Level {
    type V = nat;

    /// The number of the level.
    closed spec fn view(&self) -> nat {
        self.value as nat
    }
}

/// A share in percent lies to a whole percentage as a hundred parts lie
/// to that many wholes.
proof fn lemma_percent_of_order(part: int, whole: int, percent: int)
    by (nonlinear_arith)
    requires
        whole > 0,
    ensures
        percent_of(part, whole) < percent as real <==> 100 * part < percent * whole,
        percent_of(part, whole) > percent as real <==> 100 * part > percent * whole,
{
}

/// The ramp of a share, in whole numbers: it is `steps` where the distance
/// of a hundred parts from the centre, taken as many times as the ramp has
/// levels, holds the span `steps` times and not once more.
proof fn lemma_ramp_steps(part: int, whole: int, steps: int)
    by (nonlinear_arith)
    requires
        whole > 0,
        steps >= 0,
        steps * (RAMP_SPAN * whole) <= RAMP_TOP * (100 * part - RAMP_CENTRE * whole),
        RAMP_TOP * (100 * part - RAMP_CENTRE * whole) < (steps + 1) * (RAMP_SPAN * whole),
    ensures
        ramp(percent_of(part, whole)) == steps,
{
}

/// The ramp of a share below the centre is zero.
proof fn lemma_ramp_below_centre(part: int, whole: int)
    by (nonlinear_arith)
    requires
        whole > 0,
        100 * part < RAMP_CENTRE * whole,
    ensures
        ramp(percent_of(part, whole)) == 0,
{
}

/// As many wholes as `count` says.
fn wholes(count: u8, whole: u128) -> (r: u128)
    requires
        whole <= MAX_WHOLE,
    ensures
        r == count * whole,
{
    assert(count * whole <= 255 * MAX_WHOLE) by (nonlinear_arith)
        requires
            count <= 255,
            whole <= MAX_WHOLE,
    ;
    count as u128 * whole
}

impl Level {
    #[verifier::type_invariant]
    spec fn well_formed(self) -> bool {
        self.value <= MAX_LEVEL
    }

    /// The level with the given number, or `None` above `MAX_LEVEL`.
    pub fn new(value: u8) -> (r: Option<Level>)
        ensures
            r is Some <==> value <= MAX_LEVEL,
            r matches Some(level) ==> level@ == value,
    {
        if value <= MAX_LEVEL {
            Some(Level { value })
        } else {
            None
        }
    }

    /// The level at which a channel is off.
    pub fn off() -> (r: Level)
        ensures
            r@ == 0,
    {
        Level { value: 0 }
    }

    /// The number of the level.
    pub fn value(&self) -> (r: u8)
        ensures
            r == self@,
            r <= MAX_LEVEL,
    {
        proof {
            use_type_invariant(self);
        }
        self.value
    }

    /// Maps a utilisation to its level.
    pub fn for_usage(usage: &Usage) -> (r: Level)
        ensures
            r@ == level_of_percent(usage@),
    {
        let (part, whole) = usage.ratio();
        let hundred_parts: u128 = 100 * part;
        proof {
            lemma_percent_of_order(part as int, whole as int, LOW_THRESHOLD as int);
            lemma_percent_of_order(part as int, whole as int, HIGH_THRESHOLD as int);
        }
        if hundred_parts < wholes(LOW_THRESHOLD, whole) {
            Level { value: 0 }
        } else if hundred_parts > wholes(HIGH_THRESHOLD, whole) {
            Level { value: MAX_LEVEL }
        } else if hundred_parts < wholes(RAMP_CENTRE, whole) {
            proof {
                lemma_ramp_below_centre(part as int, whole as int);
            }
            Level { value: 0 }
        } else {
            let distance: u128 = RAMP_TOP as u128 * (hundred_parts - wholes(RAMP_CENTRE, whole));
            let span: u128 = wholes(RAMP_SPAN, whole);
            let steps: u128 = distance / span;
            proof {
                assert(steps * span <= distance < (steps + 1) * span) by (nonlinear_arith)
                    requires
                        steps == distance / span,
                        span > 0,
                ;
                assert(steps <= RAMP_TOP) by (nonlinear_arith)
                    requires
                        steps * span <= distance,
                        distance <= RAMP_TOP * span,
                        span > 0,
                ;
                lemma_ramp_steps(part as int, whole as int, steps as int);
            }
            Level { value: steps as u8 }
        }
    }

    /// Maps disk activity to its level.
    pub fn for_activity(busy: bool) -> (r: Level)
        ensures
            r@ == level_of_activity(busy),
    {
        if busy {
            Level { value: MAX_LEVEL }
        } else {
            Level { value: 0 }
        }
    }
}

/// A higher utilisation never gives a lower level, and no level is above
/// the brightest.
pub proof fn lemma_level_of_percent_monotonic(lower: real, higher: real)
    by (nonlinear_arith)
    requires
        lower <= higher,
    ensures
        level_of_percent(lower) <= level_of_percent(higher) <= MAX_LEVEL,
{
}

/// Activity never gives a lower level than no activity.
pub proof fn lemma_level_of_activity_monotonic(lower: bool, higher: bool)
    requires
        lower ==> higher,
    ensures
        level_of_activity(lower) <= level_of_activity(higher) <= MAX_LEVEL,
{
}

} // verus!
