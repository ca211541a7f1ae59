//! The scaler's parameters.

use vstd::prelude::*;

use crate::error::ExtractionError;

verus! {

/// A picture size in pixels.
#[derive(Clone, Copy, Debug, PartialEq, Eq, Structural)]
pub struct Dimensions {
    pub width: u32,
    pub height: u32,
}

/// What the scaler is set up with: it turns pictures of the `source` size,
/// in the decoder's pixel format, into 24-bit RGB pictures of the `target`
/// size, with bilinear filtering.
#[derive(Clone, Copy, Debug, PartialEq, Eq, Structural)]
pub struct ConversionPlan {
    pub source: Dimensions,
    pub target: Dimensions,
}

impl Dimensions {
    /// Neither side is zero, and neither is negative when the scaler reads
    /// it as a signed 32-bit size.
    pub open spec fn valid(self) -> bool {
        1 <= self.width <= i32::MAX && 1 <= self.height <= i32::MAX
    }

    /// Tells whether the size is valid.
    pub fn is_valid(&self) -> (ok: bool)
        ensures
            ok == self.valid(),
    {
        1 <= self.width && self.width <= 0x7fff_ffff && 1 <= self.height && self.height
            <= 0x7fff_ffff
    }
}

/// The plan for a native and a requested size: `Conversion` unless both are
/// valid.
pub open spec fn conversion_plan(native: Dimensions, requested: Dimensions) -> Result<
    ConversionPlan,
    ExtractionError,
> {
    if native.valid() && requested.valid() {
        Ok(ConversionPlan { source: native, target: requested })
    } else {
        Err(ExtractionError::Conversion)
    }
}

/// Settles the scaler's parameters, given the size of the pictures that the
/// decoder gives and the size that is wanted.
pub fn plan_conversion(native: Dimensions, requested: Dimensions) -> (result: Result<
    ConversionPlan,
    ExtractionError,
>)
    ensures
        result == conversion_plan(native, requested),
{
    if native.is_valid() && requested.is_valid() {
        Ok(ConversionPlan { source: native, target: requested })
    } else {
        Err(ExtractionError::Conversion)
    }
}

} // verus!
