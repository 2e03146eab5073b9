//! The ways in which building a grid or exporting a recording can fail.

use vstd::prelude::*;

verus! {

/// Why a construction or an export was refused.
#[derive(Clone, Copy, Debug, PartialEq, Eq, Structural)]
pub enum LifeError {
    /// A grid side below [`crate::grid::MIN_SIDE`], or an export target
    /// side that is not positive.
    InvalidDimensions,
    /// An export was asked of a simulation that has recorded no generation.
    NoFramesToExport,
    /// The image encoder could not produce the animation.
    IoFailure,
}

/// The words that describe an error.
pub open spec fn message_of(e: LifeError) -> Seq<char> {
    match e {
        LifeError::InvalidDimensions => "invalid dimensions"@,
        LifeError::NoFramesToExport => "no frames to export"@,
        LifeError::IoFailure => "could not encode the animation"@,
    }
}

impl LifeError {
    /// A short description of the error, for a person to read.
    pub fn message(&self) -> (text: &'static str)
        ensures
            text@ == message_of(*self),
    {
        match self {
            LifeError::InvalidDimensions => "invalid dimensions",
            LifeError::NoFramesToExport => "no frames to export",
            LifeError::IoFailure => "could not encode the animation",
        }
    }
}

} // verus!
