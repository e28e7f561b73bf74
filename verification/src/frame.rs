//! A rectified stereo pair.

use crate::grid::Grid;
use vstd::prelude::*;

verus! {

/// The left and right image of one capture, as 16-bit intensities, each
/// with the time it was taken.
///
/// The images are rectified: a scene point appears on the same row of both,
/// further to the left in the right image.
pub struct StereoFrame {
    /// The image of the left camera.
    pub left: Grid<u16>,
    /// When the left image was captured.
    pub left_timestamp: u64,
    /// The image of the right camera.
    pub right: Grid<u16>,
    /// When the right image was captured.
    pub right_timestamp: u64,
}

impl StereoFrame {
    /// Width of the left image.
    pub open spec fn spec_width(&self) -> usize {
        self.left.spec_width()
    }

    /// Height of the left image.
    pub open spec fn spec_height(&self) -> usize {
        self.left.spec_height()
    }

    /// Whether both images have the same dimensions.
    pub open spec fn same_sized(&self) -> bool {
        self.left.spec_width() == self.right.spec_width() && self.left.spec_height()
            == self.right.spec_height()
    }

    /// Whether both images have the same size and hold the same intensity
    /// in every cell.
    pub open spec fn identical(&self) -> bool {
        &&& self.same_sized()
        &&& forall|x: int, y: int|
            self.left.contains(x, y) ==> #[trigger] self.left.at(x, y) == self.right.at(x, y)
    }

    /// Width of the left image.
    #[verifier::when_used_as_spec(spec_width)]
    pub fn width(&self) -> (w: usize)
        ensures
            w == self.spec_width(),
    {
        self.left.width()
    }

    /// Height of the left image.
    #[verifier::when_used_as_spec(spec_height)]
    pub fn height(&self) -> (h: usize)
        ensures
            h == self.spec_height(),
    {
        self.left.height()
    }
}

} // verus!
