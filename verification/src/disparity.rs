//! Disparity values and the map they are collected in.

use crate::error::Error;
use crate::frame::StereoFrame;
use crate::grid::Grid;
use crate::luma::{luma_rows, GrayImage};
use vstd::prelude::*;

verus! {

/// Number of steps a pixel is divided into.
pub const SUBPIXEL_SCALE: u32 = 65536;

/// A disparity in pixels: `whole + frac / 65536`.
#[derive(Clone, Copy, Debug, PartialEq, Eq, Structural)]
pub struct Disparity {
    /// Whole pixels.
    pub whole: usize,
    /// The rest, in steps of 1/65536 of a pixel.
    pub frac: u16,
}

impl Disparity {
    /// The disparity in subpixel steps.
    pub open spec fn scaled(&self) -> int {
        self.whole as int * SUBPIXEL_SCALE as int + self.frac as int
    }

    /// The largest whole number of pixels not above the disparity.
    pub open spec fn spec_floor(&self) -> int {
        self.scaled() / (SUBPIXEL_SCALE as int)
    }

    /// The smallest whole number of pixels not below the disparity.
    pub open spec fn spec_ceil(&self) -> int {
        (self.scaled() + SUBPIXEL_SCALE - 1) / (SUBPIXEL_SCALE as int)
    }

    /// The disparity as a grey value: its whole pixels, or 255 where it
    /// is larger than that.
    pub open spec fn spec_luma(&self) -> u8 {
        if self.whole > 255 {
            255
        } else {
            self.whole as u8
        }
    }

    /// The disparity as a grey value on a scale where `max_disp` is 255:
    /// `255 * self / max_disp` rounded down, or 255 where that is larger.
    /// With `max_disp` zero, zero gives 0 and anything else 255; without
    /// `max_disp`, the scale is that of `spec_luma`.
    pub open spec fn spec_luma_normalised(&self, max_disp: Option<Disparity>) -> u8 {
        match max_disp {
            None => self.spec_luma(),
            Some(most) => if most.scaled() == 0 {
                if self.scaled() == 0 {
                    0
                } else {
                    255
                }
            } else if (self.scaled() * 255) / most.scaled() > 255 {
                255
            } else {
                ((self.scaled() * 255) / most.scaled()) as u8
            },
        }
    }

    /// The disparity as a grey value: its whole pixels, or 255 where it
    /// is larger than that.
    #[verifier::when_used_as_spec(spec_luma)]
    pub fn luma(&self) -> (grey: u8)
        ensures
            grey == self.spec_luma(),
    {
        if self.whole > 255 {
            255
        } else {
            self.whole as u8
        }
    }

    /// The disparity as a grey value on a scale where `max_disp` is 255.
    #[verifier::when_used_as_spec(spec_luma_normalised)]
    pub fn luma_normalised(&self, max_disp: Option<Disparity>) -> (grey: u8)
        ensures
            grey == self.spec_luma_normalised(max_disp),
    {
        match max_disp {
            None => self.luma(),
            Some(most) => {
                let value: u128 = self.whole as u128 * 65536 + self.frac as u128;
                let limit: u128 = most.whole as u128 * 65536 + most.frac as u128;
                if limit == 0 {
                    if value == 0 {
                        0
                    } else {
                        255
                    }
                } else {
                    let grey: u128 = (value * 255) / limit;
                    if grey > 255 {
                        255
                    } else {
                        grey as u8
                    }
                }
            },
        }
    }

    /// A disparity of `whole` pixels exactly.
    pub fn from_whole(whole: usize) -> (d: Self)
        ensures
            d.whole == whole,
            d.frac == 0,
            d.scaled() == whole * SUBPIXEL_SCALE,
    {
        Disparity { whole, frac: 0 }
    }

    /// Whether `self` is the smaller disparity.
    pub fn less_than(&self, other: &Disparity) -> (b: bool)
        ensures
            b == (self.scaled() < other.scaled()),
    {
        self.whole < other.whole || (self.whole == other.whole && self.frac < other.frac)
    }

    /// The disparity rounded down to whole pixels.
    pub fn floor(&self) -> (n: usize)
        ensures
            n == self.spec_floor(),
            n == self.whole,
    {
        proof {
            lemma_whole_and_frac(self.whole as int, self.frac as int);
        }
        self.whole
    }

    /// The disparity rounded up to whole pixels, or `None` where that is
    /// more than a `usize` holds.
    pub fn ceil(&self) -> (n: Option<usize>)
        ensures
            n is Some <==> self.spec_ceil() <= usize::MAX,
            n matches Some(c) ==> c == self.spec_ceil(),
    {
        proof {
            lemma_whole_and_frac(self.whole as int, self.frac as int);
        }
        if self.frac == 0 {
            Some(self.whole)
        } else {
            self.whole.checked_add(1)
        }
    }
}

/// A disparity for every pixel of an image, with the smallest and the
/// largest disparity found.
pub struct DisparityMap {
    /// The disparity of every pixel.
    pub data: Grid<Disparity>,
    /// Largest disparity in the map, once it has been worked out.
    pub max_disp: Option<Disparity>,
    /// Smallest disparity in the map, once it has been worked out.
    pub min_disp: Option<Disparity>,
}

impl DisparityMap {
    /// Number of columns.
    pub open spec fn spec_width(&self) -> usize {
        self.data.spec_width()
    }

    /// Number of rows.
    pub open spec fn spec_height(&self) -> usize {
        self.data.spec_height()
    }

    /// The disparity stored for the pixel in column `x` of row `y`.
    pub open spec fn at(&self, x: int, y: int) -> Disparity {
        self.data.at(x, y)
    }

    /// Whether `(x, y)` addresses a pixel of the map.
    pub open spec fn contains(&self, x: int, y: int) -> bool {
        0 <= x < self.spec_width() && 0 <= y < self.spec_height()
    }

    /// A map of the given size with zero disparity everywhere and no
    /// extremes recorded.
    pub fn new(width: usize, height: usize) -> (map: Self)
        requires
            width * height <= usize::MAX,
        ensures
            map.spec_width() == width,
            map.spec_height() == height,
            forall|x: int, y: int|
                map.contains(x, y) ==> map.at(x, y) == (Disparity { whole: 0, frac: 0 }),
            map.max_disp is None,
            map.min_disp is None,
    {
        DisparityMap {
            data: Grid::new(width, height, Disparity::from_whole(0)),
            max_disp: None,
            min_disp: None,
        }
    }

    /// Number of columns.
    #[verifier::when_used_as_spec(spec_width)]
    pub fn width(&self) -> (w: usize)
        ensures
            w == self.spec_width(),
    {
        self.data.width()
    }

    /// Number of rows.
    #[verifier::when_used_as_spec(spec_height)]
    pub fn height(&self) -> (h: usize)
        ensures
            h == self.spec_height(),
    {
        self.data.height()
    }

    /// The disparity stored for the pixel in column `x` of row `y`.
    pub fn get(&self, x: usize, y: usize) -> (val: Disparity)
        requires
            self.contains(x as int, y as int),
        ensures
            val == self.at(x as int, y as int),
    {
        self.data.get(x, y)
    }

    /// Converts the map into a grey image: each disparity cut to whole
    /// pixels, and to 255 where it is larger. The map may have no more
    /// columns or rows than a grey image can have, and no more pixels than
    /// a vector can hold bytes.
    pub fn to_luma(&self) -> (img: GrayImage)
        requires
            self.spec_width() <= u32::MAX,
            self.spec_height() <= u32::MAX,
            self.spec_width() * self.spec_height() <= isize::MAX,
        ensures
            luma_rows(img) == Seq::new(
                self.spec_height() as nat,
                |y: int| Seq::new(self.spec_width() as nat, |x: int| self.at(x, y).spec_luma()),
            ),
    {
        let img: GrayImage = self.to_grey(None);
        proof {
            let expected = Seq::new(
                self.spec_height() as nat,
                |y: int| Seq::new(self.spec_width() as nat, |x: int| self.at(x, y).spec_luma()),
            );
            assert forall|v: int| 0 <= v < self.spec_height() implies #[trigger] luma_rows(img)[v]
                =~= expected[v] by {}
            assert(luma_rows(img) =~= expected);
        }
        img
    }

    /// Converts the map into a grey image on which the largest disparity
    /// recorded in `max_disp` is 255. Where none is recorded the image is
    /// that of `to_luma`. The limits on the size of the map are those of
    /// `to_luma`.
    pub fn to_luma_normalised(&self) -> (img: GrayImage)
        requires
            self.spec_width() <= u32::MAX,
            self.spec_height() <= u32::MAX,
            self.spec_width() * self.spec_height() <= isize::MAX,
        ensures
            luma_rows(img) == Seq::new(
                self.spec_height() as nat,
                |y: int|
                    Seq::new(
                        self.spec_width() as nat,
                        |x: int| self.at(x, y).spec_luma_normalised(self.max_disp),
                    ),
            ),
    {
        let img: GrayImage = self.to_grey(Some(self.max_disp));
        proof {
            let expected = Seq::new(
                self.spec_height() as nat,
                |y: int|
                    Seq::new(
                        self.spec_width() as nat,
                        |x: int| self.at(x, y).spec_luma_normalised(self.max_disp),
                    ),
            );
            assert forall|v: int| 0 <= v < self.spec_height() implies #[trigger] luma_rows(img)[v]
                =~= expected[v] by {}
            assert(luma_rows(img) =~= expected);
        }
        img
    }

    /// Grey value given to a disparity: cut to whole pixels without a
    /// scale, on the scale of a largest disparity with one.
    pub open spec fn grey_of(val: Disparity, scale: Option<Option<Disparity>>) -> u8 {
        match scale {
            None => val.spec_luma(),
            Some(max_disp) => val.spec_luma_normalised(max_disp),
        }
    }

    /// The grey image of the map, cell by cell.
    fn to_grey(&self, scale: Option<Option<Disparity>>) -> (img: GrayImage)
        requires
            self.spec_width() <= u32::MAX,
            self.spec_height() <= u32::MAX,
            self.spec_width() * self.spec_height() <= isize::MAX,
        ensures
            luma_rows(img) == Seq::new(
                self.spec_height() as nat,
                |y: int|
                    Seq::new(
                        self.spec_width() as nat,
                        |x: int| Self::grey_of(self.at(x, y), scale),
                    ),
            ),
    {
        let width: u32 = self.data.width() as u32;
        let height: u32 = self.data.height() as u32;
        let mut img: GrayImage = GrayImage::new(width, height);
        let mut y: u32 = 0;
        while y < height
            invariant
                y <= height,
                width == self.spec_width(),
                height == self.spec_height(),
                luma_rows(img).len() == height,
                forall|v: int| 0 <= v < height ==> (#[trigger] luma_rows(img)[v]).len() == width,
                forall|u: int, v: int|
                    0 <= u < width && 0 <= v < y ==> img.at(u, v) == Self::grey_of(
                        self.at(u, v),
                        scale,
                    ),
            decreases height - y,
        {
            let mut x: u32 = 0;
            while x < width
                invariant
                    x <= width,
                    y < height,
                    width == self.spec_width(),
                    height == self.spec_height(),
                    luma_rows(img).len() == height,
                    forall|v: int|
                        0 <= v < height ==> (#[trigger] luma_rows(img)[v]).len() == width,
                    forall|u: int, v: int|
                        0 <= u < width && 0 <= v < y ==> img.at(u, v) == Self::grey_of(
                            self.at(u, v),
                            scale,
                        ),
                    forall|u: int|
                        0 <= u < x ==> img.at(u, y as int) == Self::grey_of(
                            self.at(u, y as int),
                            scale,
                        ),
                decreases width - x,
            {
                let val: Disparity = self.data.get(x as usize, y as usize);
                let grey: u8 = match scale {
                    None => val.luma(),
                    Some(max_disp) => val.luma_normalised(max_disp),
                };
                img.put_pixel(x, y, grey);
                x = x + 1;
            }
            y = y + 1;
        }
        proof {
            let expected = Seq::new(
                self.spec_height() as nat,
                |y: int|
                    Seq::new(
                        self.spec_width() as nat,
                        |x: int| Self::grey_of(self.at(x, y), scale),
                    ),
            );
            assert forall|v: int| 0 <= v < height implies #[trigger] luma_rows(img)[v]
                =~= expected[v] by {
                assert forall|u: int| 0 <= u < width implies luma_rows(img)[v][u]
                    == expected[v][u] by {
                    assert(img.at(u, v) == Self::grey_of(self.at(u, v), scale));
                }
            }
            assert(luma_rows(img) =~= expected);
        }
        img
    }

    /// Stores `val` for the pixel in column `x` of row `y`; nothing else
    /// changes.
    pub fn put(&mut self, x: usize, y: usize, val: Disparity)
        requires
            old(self).contains(x as int, y as int),
        ensures
            final(self).spec_width() == old(self).spec_width(),
            final(self).spec_height() == old(self).spec_height(),
            final(self).max_disp == old(self).max_disp,
            final(self).min_disp == old(self).min_disp,
            final(self).at(x as int, y as int) == val,
            forall|u: int, v: int|
                old(self).contains(u, v) && !(u == x && v == y) ==> final(self).at(u, v) == old(
                    self,
                ).at(u, v),
    {
        self.data.put(x, y, val)
    }
}

/// An algorithm that turns a stereo frame into a disparity map.
pub trait DisparityAlgorithm {
    /// Compute the disparity map of the given stereo frame: on success,
    /// a map with a disparity for every pixel of the frame.
    fn compute(&mut self, frame: &StereoFrame) -> (result: Result<DisparityMap, Error>)
        ensures
            result matches Ok(map) ==> map.spec_width() == frame.spec_width() && map.spec_height()
                == frame.spec_height(),
    ;
}

/// Splitting `whole * 65536 + frac` into pixels recovers `whole`, rounding
/// up gives one more unless `frac` is zero.
pub proof fn lemma_whole_and_frac(whole: int, frac: int)
    requires
        0 <= frac < SUBPIXEL_SCALE,
    ensures
        (whole * SUBPIXEL_SCALE + frac) / (SUBPIXEL_SCALE as int) == whole,
        (whole * SUBPIXEL_SCALE + frac + SUBPIXEL_SCALE - 1) / (SUBPIXEL_SCALE as int) == if frac
            == 0 {
            whole
        } else {
            whole + 1
        },
{
}

} // verus!
