//! The seek coordinator: which stream is read, and where the container is asked to go.

use vstd::prelude::*;

use crate::decode::DecodeForward;
use crate::error::ExtractionError;
use crate::position::{target_position, translate, TimeBase};

verus! {

/// The media type of a stream.
#[derive(Clone, Copy, Debug, PartialEq, Eq, Structural)]
pub enum MediaKind {
    Unknown,
    Video,
    Audio,
    Data,
    Subtitle,
    Attachment,
}

/// What the coordinator reads of one stream of an opened container.
#[derive(Clone, Copy, Debug, PartialEq, Eq, Structural)]
pub struct StreamInfo {
    /// The index by which the container's packets name the stream.
    pub index: usize,
    pub medium: MediaKind,
    pub time_base: TimeBase,
}

/// A request to position the container at the latest point it can reach at
/// or before `timestamp`: any point from `min_timestamp` to `max_timestamp`
/// is acceptable, and the container picks the one nearest to `timestamp`.
#[derive(Clone, Copy, Debug, PartialEq, Eq, Structural)]
pub struct SeekRequest {
    pub min_timestamp: i64,
    pub timestamp: i64,
    pub max_timestamp: i64,
}

/// What the coordinator has settled before the container is asked to seek.
#[derive(Clone, Copy, Debug, PartialEq, Eq, Structural)]
pub struct SeekPlan {
    /// The selected video stream.
    pub stream: StreamInfo,
    /// The target position, in the units of that stream's time base.
    pub position: i64,
    pub request: SeekRequest,
}

/// The first stream at or after index `from` whose media type is video.
pub open spec fn first_video(streams: Seq<StreamInfo>, from: nat) -> Option<StreamInfo>
    decreases streams.len() - from,
{
    if from >= streams.len() {
        None
    } else if streams[from as int].medium == MediaKind::Video {
        Some(streams[from as int])
    } else {
        first_video(streams, from + 1)
    }
}

/// The seek request for a target position: bounded above by the position,
/// unbounded below.
pub open spec fn request_for(position: i64) -> SeekRequest {
    SeekRequest { min_timestamp: i64::MIN, timestamp: position, max_timestamp: position }
}

/// What the coordinator answers. `opened` is `None` where the container
/// could not be opened, else the streams it holds, in the container's order.
pub open spec fn seek_plan(opened: Option<Seq<StreamInfo>>, frame_index: u64, fps: u32) -> Result<
    SeekPlan,
    ExtractionError,
> {
    match opened {
        None => Err(ExtractionError::ContainerOpen),
        Some(streams) => match first_video(streams, 0) {
            None => Err(ExtractionError::NoVideoStream),
            Some(stream) => match translate(frame_index, fps, stream.time_base) {
                Err(e) => Err(e),
                Ok(position) => Ok(SeekPlan { stream, position, request: request_for(position) }),
            },
        },
    }
}

/// Finds the first stream whose media type is video.
pub fn find_video_stream(streams: &Vec<StreamInfo>) -> (found: Option<StreamInfo>)
    ensures
        found == first_video(streams@, 0),
{
    let mut i: usize = 0;
    while i < streams.len()
        invariant
            i <= streams.len(),
            first_video(streams@, 0) == first_video(streams@, i as nat),
        decreases streams.len() - i,
    {
        match streams[i].medium {
            MediaKind::Video => {
                return Some(streams[i]);
            },
            _ => {},
        }
        i = i + 1;
    }
    None
}

/// Forms the seek request for a target position.
pub fn seek_request(position: i64) -> (request: SeekRequest)
    ensures
        request == request_for(position),
{
    SeekRequest { min_timestamp: i64::MIN, timestamp: position, max_timestamp: position }
}

/// The coordinator's part between opening the container and seeking in it:
/// selects the video stream, translates the frame index into that stream's
/// units and forms the seek request. A container that could not be opened
/// gives `ContainerOpen`, one without a video stream `NoVideoStream`, and
/// the translator's refusals are handed on.
pub fn plan_seek(opened: Option<&Vec<StreamInfo>>, frame_index: u64, fps: u32) -> (result: Result<
    SeekPlan,
    ExtractionError,
>)
    ensures
        result == seek_plan(
            match opened {
                Some(streams) => Some(streams@),
                None => None,
            },
            frame_index,
            fps,
        ),
{
    match opened {
        None => Err(ExtractionError::ContainerOpen),
        Some(streams) => match find_video_stream(streams) {
            None => Err(ExtractionError::NoVideoStream),
            Some(stream) => match target_position(frame_index, fps, stream.time_base) {
                Err(e) => Err(e),
                Ok(position) => Ok(SeekPlan { stream, position, request: seek_request(position) }),
            },
        },
    }
}

impl SeekPlan {
    /// The decode-forward engine for this plan once the container has
    /// answered the seek request; `Seek` where it rejected the request.
    pub fn after_seek(&self, accepted: bool) -> (result: Result<DecodeForward, ExtractionError>)
        ensures
            result == if accepted {
                Ok::<DecodeForward, ExtractionError>(
                    DecodeForward::start(self.position, self.stream.index),
                )
            } else {
                Err(ExtractionError::Seek)
            },
    {
        if accepted {
            Ok(DecodeForward::new(self.position, self.stream.index))
        } else {
            Err(ExtractionError::Seek)
        }
    }
}

/// `first_video` is the stream at the least index whose media type is
/// video, and `None` exactly when no stream is a video stream.
pub proof fn lemma_first_video_is_first(streams: Seq<StreamInfo>, from: nat)
    ensures
        match first_video(streams, from) {
            Some(stream) => exists|i: int|
                from <= i < streams.len() && #[trigger] streams[i] == stream && stream.medium
                    == MediaKind::Video && forall|j: int|
                    from <= j < i ==> streams[j].medium != MediaKind::Video,
            None => forall|i: int| from <= i < streams.len() ==> streams[i].medium != MediaKind::Video,
        },
    decreases streams.len() - from,
{
    if from < streams.len() && streams[from as int].medium != MediaKind::Video {
        lemma_first_video_is_first(streams, from + 1);
    }
}

} // verus!
