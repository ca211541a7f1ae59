//! The end of the pipeline, and the pipeline as a whole.

use vstd::prelude::*;

use crate::convert::{conversion_plan, plan_conversion, ConversionPlan, Dimensions};
use crate::decode::{DecodeForward, RecordedPacket};
use crate::error::ExtractionError;
use crate::pack::{lemma_padding_is_stripped, ConvertedFrame};
use crate::position::{lemma_position_grows, lemma_position_is_floor, translate};
use crate::request::FrameRequest;
use crate::resolution::{in_decode_order, lemma_drive_resolves, lemma_later_target_later_frame, resolve};
use crate::seek::{plan_seek, seek_plan, StreamInfo};

verus! {

/// Everything the outside answers in the course of one extraction, as plain
/// values: a source that has been recorded can be extracted from again
/// without being opened.
#[derive(Clone, Debug, PartialEq, Eq)]
pub struct RecordedSession<'a> {
    /// The streams of the container, or `None` where it cannot be opened.
    pub streams: Option<Vec<StreamInfo>>,
    /// Whether the container accepts the seek request.
    pub seek_accepted: bool,
    /// The packets that follow the seek point, each with the decoder's answer.
    pub packets: Vec<RecordedPacket>,
    /// The size of the pictures that the decoder gives.
    pub native: Dimensions,
    /// What the scaler makes of the retained frame, or `None` where it fails.
    pub converted: Option<ConvertedFrame<'a>>,
}

impl<'a> RecordedSession<'a> {
    pub open spec fn streams_view(self) -> Option<Seq<StreamInfo>> {
        match self.streams {
            Some(streams) => Some(streams@),
            None => None,
        }
    }
}

/// What is delivered for a converted frame: its packed rows where the scaler
/// gave a valid picture of the planned size, else `Conversion`.
pub open spec fn delivery(plan: ConversionPlan, converted: Option<ConvertedFrame>) -> Result<
    Seq<u8>,
    ExtractionError,
> {
    match converted {
        Some(frame) => if frame.width == plan.target.width && frame.height == plan.target.height
            && frame.valid() {
            Ok(frame.packed())
        } else {
            Err(ExtractionError::Conversion)
        },
        None => Err(ExtractionError::Conversion),
    }
}

/// The whole pipeline on a recorded session, stage after stage: plan the
/// seek, seek, decode forward, convert, pack. The first stage that fails
/// decides the error.
pub open spec fn extraction(request: FrameRequest, fps: u32, session: RecordedSession) -> Result<
    Seq<u8>,
    ExtractionError,
> {
    match seek_plan(session.streams_view(), request.frame_index, fps) {
        Err(e) => Err(e),
        Ok(plan) => if !session.seek_accepted {
            Err(ExtractionError::Seek)
        } else {
            match DecodeForward::start(plan.position, plan.stream.index).drive(
                session.packets@,
                0,
            ).verdict_spec() {
                Err(e) => Err(e),
                Ok(_) => match conversion_plan(session.native, request.output()) {
                    Err(e) => Err(e),
                    Ok(conversion) => delivery(conversion, session.converted),
                },
            }
        },
    }
}

/// The last stage: checks what the scaler gave against the plan and packs
/// it. `converted` is `None` where the scaler could not be set up or failed.
/// A buffer that is returned holds exactly `3 * width * height` bytes of the
/// planned size, and is never empty.
pub fn deliver(plan: &ConversionPlan, converted: Option<ConvertedFrame>) -> (result: Result<
    Vec<u8>,
    ExtractionError,
>)
    ensures
        match result {
            Ok(buffer) => delivery(*plan, converted) == Ok::<Seq<u8>, ExtractionError>(buffer@)
                && buffer@.len() == 3 * plan.target.width * plan.target.height && buffer@.len()
                > 0,
            Err(e) => delivery(*plan, converted) == Err::<Seq<u8>, ExtractionError>(e),
        },
{
    match converted {
        None => Err(ExtractionError::Conversion),
        Some(frame) => {
            if frame.width != plan.target.width || frame.height != plan.target.height {
                return Err(ExtractionError::Conversion);
            }
            let packed = frame.pack_rows();
            proof {
                if frame.valid() {
                    lemma_padding_is_stripped(frame);
                }
            }
            packed
        },
    }
}

/// Extracts the requested frame from a recorded session.
pub fn extract_recorded(request: &FrameRequest, fps: u32, session: &RecordedSession) -> (result:
    Result<Vec<u8>, ExtractionError>)
    ensures
        match result {
            Ok(buffer) => extraction(*request, fps, *session) == Ok::<Seq<u8>, ExtractionError>(
                buffer@,
            ),
            Err(e) => extraction(*request, fps, *session) == Err::<Seq<u8>, ExtractionError>(e),
        },
{
    let plan = match plan_seek(session.streams.as_ref(), request.frame_index, fps) {
        Ok(plan) => plan,
        Err(e) => {
            return Err(e);
        },
    };
    let mut engine = match plan.after_seek(session.seek_accepted) {
        Ok(engine) => engine,
        Err(e) => {
            return Err(e);
        },
    };
    engine.run(&session.packets);
    match engine.verdict() {
        Ok(_) => {},
        Err(e) => {
            return Err(e);
        },
    }
    let conversion = match plan_conversion(session.native, request.output_size()) {
        Ok(conversion) => conversion,
        Err(e) => {
            return Err(e);
        },
    };
    deliver(&conversion, session.converted)
}

/// Every buffer that an extraction returns has exactly `3 * output_width *
/// output_height` bytes, and none is empty.
pub proof fn lemma_success_has_requested_size(
    request: FrameRequest,
    fps: u32,
    session: RecordedSession,
)
    ensures
        match extraction(request, fps, session) {
            Ok(buffer) => buffer.len() == 3 * request.output_width * request.output_height
                && buffer.len() > 0,
            Err(_) => true,
        },
{
    if extraction(request, fps, session) is Ok {
        lemma_padding_is_stripped(session.converted->0);
    }
}

/// Asking twice for the same frame of the same recorded source gives the
/// same answer, byte for byte.
pub proof fn lemma_repeat_is_identical(
    request: FrameRequest,
    fps: u32,
    session: RecordedSession,
    first: Result<Seq<u8>, ExtractionError>,
    second: Result<Seq<u8>, ExtractionError>,
)
    requires
        first == extraction(request, fps, session),
        second == extraction(request, fps, session),
    ensures
        first == second,
{
}

/// Where the packets after the seek point give no frame before the first
/// one that overshoots, as when they have run out, the extraction fails with
/// `NoFrameProduced`.
pub proof fn lemma_no_frame_no_buffer(request: FrameRequest, fps: u32, session: RecordedSession)
    requires
        seek_plan(session.streams_view(), request.frame_index, fps) is Ok,
        session.seek_accepted,
        resolve(
            session.packets@,
            seek_plan(session.streams_view(), request.frame_index, fps)->Ok_0.stream.index,
            seek_plan(session.streams_view(), request.frame_index, fps)->Ok_0.position,
        ) is None,
    ensures
        extraction(request, fps, session) == Err::<Seq<u8>, ExtractionError>(
            ExtractionError::NoFrameProduced,
        ),
{
    let plan = seek_plan(session.streams_view(), request.frame_index, fps)->Ok_0;
    lemma_drive_resolves(session.packets@, plan.stream.index, plan.position);
}

/// Monotonicity over requests: on one source whose packets come in decode
/// order, at one frame rate, a request for a later frame of the timeline
/// never resolves to an earlier frame of the source.
pub proof fn lemma_later_request_later_frame(
    source: Seq<RecordedPacket>,
    stream: StreamInfo,
    fps: u32,
    earlier: u64,
    later: u64,
)
    requires
        in_decode_order(source, stream.index),
        earlier < later,
        translate(earlier, fps, stream.time_base) is Ok,
        translate(later, fps, stream.time_base) is Ok,
    ensures
        translate(earlier, fps, stream.time_base)->Ok_0 <= translate(
            later,
            fps,
            stream.time_base,
        )->Ok_0,
        match resolve(source, stream.index, translate(earlier, fps, stream.time_base)->Ok_0) {
            Some(before) => {
                let after = resolve(
                    source,
                    stream.index,
                    translate(later, fps, stream.time_base)->Ok_0,
                );
                after is Some && before <= after->0
            },
            None => true,
        },
{
    lemma_position_grows(earlier as nat, later as nat, fps as nat, stream.time_base);
    lemma_position_is_floor(earlier as nat, fps as nat, stream.time_base);
    lemma_later_target_later_frame(
        source,
        stream.index,
        translate(earlier, fps, stream.time_base)->Ok_0,
        translate(later, fps, stream.time_base)->Ok_0,
    );
}

} // verus!
