//! Eight-bit grey images, held in the `image` crate's buffer.

use vstd::prelude::*;

verus! {

/// An eight-bit grey image. It holds an `image::GrayImage`, which only
/// the functions of this module reach; the verifier sees nothing of it but
/// what those functions state.
#[verifier::external_body]
pub struct GrayImage {
    inner: image::GrayImage,
}

/// The grey values the `image::GrayImage` inside holds, row by row from the
/// top, each row from the left: there are as many rows as the image is
/// high, each as long as the image is wide, and entry `x` of row `y` is the
/// value its `get_pixel(x, y)` gives.
pub uninterp spec fn luma_rows(img: GrayImage) -> Seq<Seq<u8>>;

/// `image::GrayImage::new`: an image of `width` by `height` pixels, all
/// of them zero. The outside function panics where the image has more
/// pixels than a vector can hold bytes; the precondition rules that out.
#[verifier::external_body]
fn gray_image_new(width: u32, height: u32) -> (img: GrayImage)
    requires
        width * height <= isize::MAX,
    ensures
        luma_rows(img) == Seq::new(height as nat, |y: int| Seq::new(width as nat, |x: int| 0u8)),
{
    GrayImage { inner: image::GrayImage::new(width, height) }
}

/// Assignment through `image::GrayImage::get_pixel_mut`: the pixel in
/// column `x` of row `y` takes the value `luma`, every other pixel keeps
/// its own. The outside function panics for a pixel outside the image;
/// the precondition rules that out.
#[verifier::external_body]
fn gray_image_put(img: &mut GrayImage, x: u32, y: u32, luma: u8)
    requires
        y < luma_rows(*old(img)).len(),
        x < luma_rows(*old(img))[y as int].len(),
    ensures
        luma_rows(*final(img)) == luma_rows(*old(img)).update(
            y as int,
            luma_rows(*old(img))[y as int].update(x as int, luma),
        ),
{
    *img.inner.get_pixel_mut(x, y) = image::Luma([luma]);
}

/// `image::GrayImage::get_pixel`: the value of the pixel in column `x` of
/// row `y`. The outside function panics for a pixel outside the image;
/// the precondition rules that out.
#[verifier::external_body]
fn gray_image_get(img: &GrayImage, x: u32, y: u32) -> (luma: u8)
    requires
        y < luma_rows(*img).len(),
        x < luma_rows(*img)[y as int].len(),
    ensures
        luma == luma_rows(*img)[y as int][x as int],
{
    img.inner.get_pixel(x, y).0[0]
}

impl GrayImage {
    /// Whether `(x, y)` addresses a pixel of the image.
    pub open spec fn contains(&self, x: int, y: int) -> bool {
        0 <= y < luma_rows(*self).len() && 0 <= x < luma_rows(*self)[y].len()
    }

    /// The grey value of the pixel in column `x` of row `y`.
    pub open spec fn at(&self, x: int, y: int) -> u8 {
        luma_rows(*self)[y][x]
    }

    /// An image of `width` by `height` pixels, all of them zero. There
    /// may be no more pixels than a vector can hold bytes.
    pub fn new(width: u32, height: u32) -> (img: Self)
        requires
            width * height <= isize::MAX,
        ensures
            luma_rows(img).len() == height,
            forall|y: int| 0 <= y < height ==> (#[trigger] luma_rows(img)[y]).len() == width,
            forall|x: int, y: int| img.contains(x, y) ==> img.at(x, y) == 0,
    {
        gray_image_new(width, height)
    }

    /// The grey value of the pixel in column `x` of row `y`.
    pub fn get_pixel(&self, x: u32, y: u32) -> (luma: u8)
        requires
            self.contains(x as int, y as int),
        ensures
            luma == self.at(x as int, y as int),
    {
        gray_image_get(self, x, y)
    }

    /// Sets the grey value of the pixel in column `x` of row `y`; every
    /// other pixel keeps its own.
    pub fn put_pixel(&mut self, x: u32, y: u32, luma: u8)
        requires
            old(self).contains(x as int, y as int),
        ensures
            luma_rows(*final(self)).len() == luma_rows(*old(self)).len(),
            forall|v: int|
                0 <= v < luma_rows(*old(self)).len() ==> (#[trigger] luma_rows(
                    *final(self),
                )[v]).len() == luma_rows(*old(self))[v].len(),
            final(self).at(x as int, y as int) == luma,
            forall|u: int, v: int|
                old(self).contains(u, v) && !(u == x && v == y) ==> final(self).at(u, v) == old(
                    self,
                ).at(u, v),
    {
        gray_image_put(self, x, y, luma)
    }
}

} // verus!
