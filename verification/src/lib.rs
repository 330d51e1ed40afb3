use vstd::prelude::*;

pub mod pack;
pub mod ramp;
pub mod session;
pub mod shm;

verus! {

/// Errors reported by the gamma library.
#[derive(Clone, Copy, Debug, PartialEq, Eq, Structural)]
pub enum GammaError {
    /// The gamma exponent was not positive.
    InvalidGamma,
    /// The ramp size was too small or too large to build a table for.
    InvalidRampSize,
    /// The requested output index is not in the discovered output list.
    InvalidOutput,
    /// Discovery finished with an empty output list.
    NoOutputs,
    /// The compositor never announced a gamma-control manager.
    UnsupportedCompositor,
    /// An operation that needs a ready gamma control was called too early.
    NotReady,
    /// The shared-memory region could not be created, filled or sealed.
    ShmFailure,
}

impl GammaError {
    /// A short human-readable account of the error.
    pub fn describe(&self) -> String {
        match self {
            GammaError::InvalidGamma => "gamma must be positive".to_owned(),
            GammaError::InvalidRampSize => "unusable gamma ramp size".to_owned(),
            GammaError::InvalidOutput => "invalid output".to_owned(),
            GammaError::NoOutputs => "no outputs found".to_owned(),
            GammaError::UnsupportedCompositor => "compositor offers no gamma control".to_owned(),
            GammaError::NotReady => "no gamma control is ready".to_owned(),
            GammaError::ShmFailure => "failed to prepare the shared gamma table".to_owned(),
        }
    }
}

} // verus!
