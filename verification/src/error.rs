//! Why a frame or a configuration is turned away.

use vstd::prelude::*;

verus! {

/// A configuration or a frame that no disparity map can be computed for.
#[derive(Clone, Copy, Debug, PartialEq, Eq, Structural)]
pub enum Error {
    /// The smallest disparity is not below the largest.
    EmptyDisparityRange,
    /// The correlation window has no width or no height.
    EmptyWindow,
    /// The left and the right image differ in size.
    FrameSizeMismatch,
    /// The correlation window is wider or taller than the images.
    WindowExceedsImage,
}

impl Error {
    /// The error in words.
    pub open spec fn spec_message(&self) -> Seq<char> {
        match self {
            Error::EmptyDisparityRange =>
                "The minimum disparity must be below the maximum disparity"@,
            Error::EmptyWindow =>
                "The correlation window must have at least one column and one row"@,
            Error::FrameSizeMismatch => "The left and right images differ in size"@,
            Error::WindowExceedsImage => "The correlation window is larger than the images"@,
        }
    }

    /// The error in words.
    pub fn message(&self) -> (text: String)
        ensures
            text@ == self.spec_message(),
    {
        match self {
            Error::EmptyDisparityRange =>
                "The minimum disparity must be below the maximum disparity".to_owned(),
            Error::EmptyWindow =>
                "The correlation window must have at least one column and one row".to_owned(),
            Error::FrameSizeMismatch => "The left and right images differ in size".to_owned(),
            Error::WindowExceedsImage =>
                "The correlation window is larger than the images".to_owned(),
        }
    }
}

} // verus!
