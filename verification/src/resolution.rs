//! What the decode-forward engine computes on a source, and why.

use vstd::prelude::*;

use crate::decode::{overshoots, DecodeForward, DecodeOutcome, Event, Phase, RecordedPacket};
use crate::error::ExtractionError;

verus! {

/// The packet at `i` belongs to `stream` and overshoots `target`.
pub open spec fn ends_at(source: Seq<RecordedPacket>, stream: usize, target: i64, i: int) -> bool {
    source[i].packet.stream_index == stream && overshoots(source[i].packet.dts, target)
}

/// The packet at `i` belongs to `stream` and decodes to a frame.
pub open spec fn yields_frame(source: Seq<RecordedPacket>, stream: usize, i: int) -> bool {
    source[i].packet.stream_index == stream && source[i].outcome == DecodeOutcome::Frame
}

/// Index of the first packet at or after `from` that belongs to `stream` and
/// overshoots `target`; the length of `source` if there is none.
pub open spec fn cut(source: Seq<RecordedPacket>, stream: usize, target: i64, from: nat) -> nat
    decreases source.len() - from,
{
    if from >= source.len() {
        source.len()
    } else if ends_at(source, stream, target, from as int) {
        from
    } else {
        cut(source, stream, target, from + 1)
    }
}

/// Decode timestamp of the last packet before index `upto` that belongs to
/// `stream` and decodes to a frame.
pub open spec fn last_frame(source: Seq<RecordedPacket>, stream: usize, upto: nat) -> Option<i64>
    decreases upto,
{
    if upto == 0 {
        None
    } else if yields_frame(source, stream, upto - 1) {
        Some(source[upto - 1].packet.dts)
    } else {
        last_frame(source, stream, (upto - 1) as nat)
    }
}

/// The frame that a request for `target` resolves to on `source`: the last
/// frame decoded before the first packet of `stream` that overshoots.
pub open spec fn resolve(source: Seq<RecordedPacket>, stream: usize, target: i64) -> Option<i64> {
    last_frame(source, stream, cut(source, stream, target, 0))
}

/// The decode timestamps of the packets of `stream` never decrease.
pub open spec fn in_decode_order(source: Seq<RecordedPacket>, stream: usize) -> bool {
    forall|i: int, j: int|
        0 <= i <= j < source.len() && source[i].packet.stream_index == stream
            && source[j].packet.stream_index == stream
            ==> source[i].packet.dts <= source[j].packet.dts
}

/// The phase in which the engine ends on `source`.
pub open spec fn final_phase(source: Seq<RecordedPacket>, stream: usize, target: i64) -> Phase {
    if resolve(source, stream, target) is Some {
        Phase::Done
    } else if cut(source, stream, target, 0) < source.len() {
        Phase::Overshot
    } else {
        Phase::Exhausted
    }
}

/// `cut` is the least index from `from` on at which a packet of the stream
/// overshoots.
pub proof fn lemma_cut_is_first_overshoot(
    source: Seq<RecordedPacket>,
    stream: usize,
    target: i64,
    from: nat,
)
    requires
        from <= source.len(),
    ensures
        from <= cut(source, stream, target, from) <= source.len(),
        forall|k: int|
            from <= k < cut(source, stream, target, from) ==> !ends_at(source, stream, target, k),
        cut(source, stream, target, from) < source.len() ==> ends_at(
            source,
            stream,
            target,
            cut(source, stream, target, from) as int,
        ),
    decreases source.len() - from,
{
    if from < source.len() && !ends_at(source, stream, target, from as int) {
        lemma_cut_is_first_overshoot(source, stream, target, from + 1);
    }
}

/// `last_frame` is the timestamp of the greatest index below `upto` at which
/// a packet of the stream decodes to a frame, and `None` exactly when there
/// is no such index.
pub proof fn lemma_last_frame_is_latest(source: Seq<RecordedPacket>, stream: usize, upto: nat)
    ensures
        match last_frame(source, stream, upto) {
            Some(dts) => exists|j: int|
                0 <= j < upto && #[trigger] yields_frame(source, stream, j)
                    && source[j].packet.dts == dts && forall|k: int|
                    j < k < upto ==> !yields_frame(source, stream, k),
            None => forall|j: int| 0 <= j < upto ==> !yields_frame(source, stream, j),
        },
    decreases upto,
{
    if upto > 0 {
        if yields_frame(source, stream, upto - 1) {
        } else {
            lemma_last_frame_is_latest(source, stream, (upto - 1) as nat);
        }
    }
}

/// Driving the engine from a scanning state that retains what the packets
/// before `from` gave ends with what the packets before the cut gave.
proof fn lemma_drive_from(
    state: DecodeForward,
    source: Seq<RecordedPacket>,
    from: nat,
)
    requires
        from <= source.len(),
        state.phase is Scanning,
        state.retained == last_frame(source, state.stream_index, from),
    ensures
        ({
            let reach = cut(source, state.stream_index, state.target, from);
            let end = state.drive(source, from);
            &&& end.target == state.target
            &&& end.stream_index == state.stream_index
            &&& end.retained == last_frame(source, state.stream_index, reach)
            &&& end.phase == if end.retained is Some {
                Phase::Done
            } else if reach < source.len() {
                Phase::Overshot
            } else {
                Phase::Exhausted
            }
        }),
    decreases source.len() - from,
{
    if from < source.len() {
        let offered = state.next(Event::Packet(source[from as int].packet)).0;
        if offered.phase is Feeding {
            let answered = offered.next(Event::Decoded(source[from as int].outcome)).0;
            lemma_drive_from(answered, source, from + 1);
        } else if offered.phase is Scanning {
            lemma_drive_from(offered, source, from + 1);
        }
    }
}

/// What the engine computes: driven over a source from the seek point, it
/// retains the last frame decoded before the first overshooting packet of
/// the stream, and its verdict is that frame, or `NoFrameProduced` exactly
/// when there is none.
pub proof fn lemma_drive_resolves(source: Seq<RecordedPacket>, stream: usize, target: i64)
    ensures
        DecodeForward::start(target, stream).drive(source, 0) == (DecodeForward {
            target,
            stream_index: stream,
            phase: final_phase(source, stream, target),
            retained: resolve(source, stream, target),
        }),
        DecodeForward::start(target, stream).drive(source, 0).verdict_spec() == match resolve(
            source,
            stream,
            target,
        ) {
            Some(dts) => Ok::<i64, ExtractionError>(dts),
            None => Err(ExtractionError::NoFrameProduced),
        },
{
    lemma_drive_from(DecodeForward::start(target, stream), source, 0);
}

/// A source that gives no packet after the seek point, as when the request
/// lies beyond the end of the stream, produces no frame.
pub proof fn lemma_empty_source_fails(source: Seq<RecordedPacket>, stream: usize, target: i64)
    requires
        source.len() == 0,
    ensures
        DecodeForward::start(target, stream).drive(source, 0).verdict_spec() == Err::<
            i64,
            ExtractionError,
        >(ExtractionError::NoFrameProduced),
        DecodeForward::start(target, stream).drive(source, 0).phase == Phase::Exhausted,
{
    lemma_drive_resolves(source, stream, target);
}

/// The frame a request resolves to never lies past the tolerance: its decode
/// timestamp is at most one unit after the target.
pub proof fn lemma_never_past_tolerance(source: Seq<RecordedPacket>, stream: usize, target: i64)
    ensures
        match resolve(source, stream, target) {
            Some(dts) => dts - 1 <= target,
            None => true,
        },
{
    let reach = cut(source, stream, target, 0);
    lemma_cut_is_first_overshoot(source, stream, target, 0);
    lemma_last_frame_is_latest(source, stream, reach);
    match last_frame(source, stream, reach) {
        Some(dts) => {
            let j = choose|j: int|
                0 <= j < reach && #[trigger] yields_frame(source, stream, j)
                    && source[j].packet.dts == dts && forall|k: int|
                    j < k < reach ==> !yields_frame(source, stream, k);
            assert(!ends_at(source, stream, target, j));
        },
        None => {},
    }
}

/// Rounding tolerance: where the packets come in decode order, a target that
/// lands between the frame at `earlier` and the next frame of the stream, at
/// `later`, more than one unit before it, resolves to the earlier frame.
pub proof fn lemma_between_frames_takes_earlier(
    source: Seq<RecordedPacket>,
    stream: usize,
    target: i64,
    earlier: int,
    later: int,
)
    requires
        in_decode_order(source, stream),
        0 <= earlier < later < source.len(),
        yields_frame(source, stream, earlier),
        source[later].packet.stream_index == stream,
        forall|k: int| earlier < k < later ==> !yields_frame(source, stream, k),
        source[earlier].packet.dts - 1 <= target < source[later].packet.dts - 1,
    ensures
        resolve(source, stream, target) == Some(source[earlier].packet.dts),
{
    lemma_cut_is_first_overshoot(source, stream, target, 0);
    assert(ends_at(source, stream, target, later));
    lemma_last_frame_is_latest(source, stream, cut(source, stream, target, 0));
}

/// A later target cuts the source no earlier.
proof fn lemma_cut_grows_with_target(
    source: Seq<RecordedPacket>,
    stream: usize,
    low: i64,
    high: i64,
    from: nat,
)
    requires
        low <= high,
    ensures
        cut(source, stream, low, from) <= cut(source, stream, high, from),
    decreases source.len() - from,
{
    if from < source.len() && !ends_at(source, stream, low, from as int) {
        lemma_cut_grows_with_target(source, stream, low, high, from + 1);
    }
    if from <= source.len() {
        lemma_cut_is_first_overshoot(source, stream, high, from);
    }
}

/// Where the packets come in decode order, reading further never replaces a
/// retained frame by an earlier one.
proof fn lemma_last_frame_grows(source: Seq<RecordedPacket>, stream: usize, near: nat, far: nat)
    requires
        in_decode_order(source, stream),
        near <= far <= source.len(),
        last_frame(source, stream, near) is Some,
    ensures
        last_frame(source, stream, far) is Some,
        last_frame(source, stream, near)->0 <= last_frame(source, stream, far)->0,
    decreases far,
{
    if near < far {
        if yields_frame(source, stream, far - 1) {
            lemma_last_frame_is_latest(source, stream, near);
        } else {
            lemma_last_frame_grows(source, stream, near, (far - 1) as nat);
        }
    }
}

/// Monotonicity: on one source whose packets come in decode order, a later
/// target never resolves to an earlier frame, and where the earlier target
/// finds a frame the later one finds one too.
pub proof fn lemma_later_target_later_frame(
    source: Seq<RecordedPacket>,
    stream: usize,
    low: i64,
    high: i64,
)
    requires
        in_decode_order(source, stream),
        low <= high,
    ensures
        match resolve(source, stream, low) {
            Some(before) => resolve(source, stream, high) is Some && before <= resolve(
                source,
                stream,
                high,
            )->0,
            None => true,
        },
{
    lemma_cut_grows_with_target(source, stream, low, high, 0);
    lemma_cut_is_first_overshoot(source, stream, high, 0);
    if resolve(source, stream, low) is Some {
        lemma_last_frame_grows(
            source,
            stream,
            cut(source, stream, low, 0),
            cut(source, stream, high, 0),
        );
    }
}

} // verus!
