//! What is asked for.

use vstd::prelude::*;

use crate::convert::Dimensions;

verus! {

/// One request for one frame: which source, which frame of the requesting
/// timeline, and the size of the picture wanted.
#[derive(Clone, Debug, PartialEq, Eq)]
pub struct FrameRequest {
    pub source_path: String,
    pub frame_index: u64,
    pub output_width: u32,
    pub output_height: u32,
}

impl FrameRequest {
    /// The size of the picture wanted.
    pub open spec fn output(self) -> Dimensions {
        Dimensions { width: self.output_width, height: self.output_height }
    }

    /// The size of the picture wanted.
    pub fn output_size(&self) -> (size: Dimensions)
        ensures
            size == self.output(),
    {
        Dimensions { width: self.output_width, height: self.output_height }
    }
}

} // verus!
