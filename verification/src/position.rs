//! The position translator: from a frame of the timeline to a timestamp of the source.

use vstd::arithmetic::div_mod::lemma_div_is_ordered;
use vstd::prelude::*;

use crate::error::ExtractionError;

verus! {

/// The rational unit, in seconds, in which a stream's timestamps are counted.
#[derive(Clone, Copy, Debug, PartialEq, Eq, Structural)]
pub struct TimeBase {
    pub numerator: i32,
    pub denominator: i32,
}

impl TimeBase {
    /// A unit of time is a positive rational.
    pub open spec fn valid(self) -> bool {
        self.numerator > 0 && self.denominator > 0
    }
}

/// The position of frame `frame_index` of a timeline that runs at `fps`
/// frames per second, in units of `time_base`, rounded down:
/// `floor(frame_index / fps * denominator / numerator)`.
pub open spec fn position_of(frame_index: nat, fps: nat, time_base: TimeBase) -> int {
    (frame_index * time_base.denominator) / (fps * time_base.numerator)
}

/// What the translator answers for each input: a zero rate is refused first,
/// then a time base that is no positive rational, then a position that no
/// 64-bit timestamp can hold.
pub open spec fn translate(frame_index: u64, fps: u32, time_base: TimeBase) -> Result<
    i64,
    ExtractionError,
> {
    if fps == 0 {
        Err(ExtractionError::InvalidFrameRate)
    } else if !time_base.valid() {
        Err(ExtractionError::InvalidTimeBase)
    } else if position_of(frame_index as nat, fps as nat, time_base) > i64::MAX {
        Err(ExtractionError::PositionOutOfRange)
    } else {
        Ok(position_of(frame_index as nat, fps as nat, time_base) as i64)
    }
}

/// Translates a frame index of the requesting timeline into a timestamp of
/// the source, in the units of the stream's time base. No rounding
/// correction is applied: the quotient is rounded down.
pub fn target_position(frame_index: u64, fps: u32, time_base: TimeBase) -> (result: Result<
    i64,
    ExtractionError,
>)
    ensures
        result == translate(frame_index, fps, time_base),
{
    if fps == 0 {
        return Err(ExtractionError::InvalidFrameRate);
    }
    if time_base.numerator <= 0 || time_base.denominator <= 0 {
        return Err(ExtractionError::InvalidTimeBase);
    }
    let numerator = time_base.numerator as u128;
    let denominator = time_base.denominator as u128;
    assert(frame_index * denominator <= 0xffff_ffff_ffff_ffff * 0x7fff_ffff) by (nonlinear_arith)
        requires
            0 <= frame_index <= 0xffff_ffff_ffff_ffff,
            0 <= denominator <= 0x7fff_ffff,
    ;
    assert(0 < fps * numerator <= 0xffff_ffff * 0x7fff_ffff) by (nonlinear_arith)
        requires
            0 < fps <= 0xffff_ffff,
            0 < numerator <= 0x7fff_ffff,
    ;
    let ticks: u128 = (frame_index as u128) * denominator;
    let per_frame: u128 = (fps as u128) * numerator;
    let position: u128 = ticks / per_frame;
    if position > i64::MAX as u128 {
        Err(ExtractionError::PositionOutOfRange)
    } else {
        Ok(position as i64)
    }
}

/// `p` whole units lie at or before the exact position of the frame, and
/// `p + 1` units lie past it.
pub open spec fn rounds_down_to(frame_index: nat, fps: nat, time_base: TimeBase, p: int) -> bool {
    p * (fps * time_base.numerator) <= frame_index * time_base.denominator < (p + 1) * (fps
        * time_base.numerator)
}

/// The position is the floor of the exact quotient: the exact position
/// rounds down to it and to no other integer, and it is never negative.
pub proof fn lemma_position_is_floor(frame_index: nat, fps: nat, time_base: TimeBase)
    requires
        fps > 0,
        time_base.valid(),
    ensures
        0 <= position_of(frame_index, fps, time_base),
        rounds_down_to(frame_index, fps, time_base, position_of(frame_index, fps, time_base)),
        forall|p: int| #[trigger]
            rounds_down_to(frame_index, fps, time_base, p) ==> p == position_of(
                frame_index,
                fps,
                time_base,
            ),
{
    let x = frame_index * time_base.denominator;
    let d = fps * time_base.numerator;
    assert(0 <= x && 0 < d) by (nonlinear_arith)
        requires
            x == frame_index * time_base.denominator,
            d == fps * time_base.numerator,
            fps > 0,
            time_base.numerator > 0,
            time_base.denominator > 0,
    ;
    assert(0 <= x / d && (x / d) * d <= x < (x / d + 1) * d) by (nonlinear_arith)
        requires
            0 <= x,
            0 < d,
    ;
    assert forall|p: int| #[trigger]
        rounds_down_to(frame_index, fps, time_base, p) implies p == x / d by {
        assert(p == x / d) by (nonlinear_arith)
            requires
                0 < d,
                p * d <= x < (p + 1) * d,
                (x / d) * d <= x < (x / d + 1) * d,
        ;
    }
}

/// A later frame of the timeline never lies at an earlier position.
pub proof fn lemma_position_grows(earlier: nat, later: nat, fps: nat, time_base: TimeBase)
    requires
        earlier <= later,
        fps > 0,
        time_base.valid(),
    ensures
        position_of(earlier, fps, time_base) <= position_of(later, fps, time_base),
{
    let d = fps * time_base.numerator;
    assert(0 < d && earlier * time_base.denominator <= later * time_base.denominator)
        by (nonlinear_arith)
        requires
            d == fps * time_base.numerator,
            earlier <= later,
            fps > 0,
            time_base.numerator > 0,
            time_base.denominator > 0,
    ;
    lemma_div_is_ordered(earlier * time_base.denominator, later * time_base.denominator, d);
}

} // verus!
