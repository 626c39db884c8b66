//! The raster that the histogram is drawn on: an 8-bit RGB image of the
//! `image` crate, seen by the verifier as a grid of colour triples.

use image::{ImageBuffer, Rgb};
use vstd::prelude::*;

verus! {

/// An RGB image with 8 bits per channel, stored row by row from the top-left
/// corner. The pixels live in an `image::ImageBuffer`; contracts speak of them
/// through [`buffer_width`], [`buffer_height`] and [`buffer_pixels`].
#[verifier::external_body]
pub struct PixelBuffer {
    image: ImageBuffer<Rgb<u8>, Vec<u8>>,
}

/// Number of pixel columns of a buffer.
pub uninterp spec fn buffer_width(buf: PixelBuffer) -> nat;

/// Number of pixel rows of a buffer.
pub uninterp spec fn buffer_height(buf: PixelBuffer) -> nat;

/// The colour of every pixel of a buffer as `(red, green, blue)`, keyed by
/// `(x, y)` with the origin in the top-left corner.
pub uninterp spec fn buffer_pixels(buf: PixelBuffer) -> Map<(int, int), (u8, u8, u8)>;

/// The positions of a `width` by `height` grid.
pub open spec fn grid(width: int, height: int) -> Set<(int, int)> {
    Set::new(|p: (int, int)| 0 <= p.0 < width && 0 <= p.1 < height)
}

/// One channel of a colour: 0 is red, 1 is green, anything else is blue.
pub open spec fn channel(color: (u8, u8, u8), index: int) -> u8 {
    if index == 0 {
        color.0
    } else if index == 1 {
        color.1
    } else {
        color.2
    }
}

/// The samples of a buffer in storage order: rows from top to bottom, pixels
/// from left to right within a row, and red, green, blue within a pixel.
pub open spec fn samples(buf: PixelBuffer) -> Seq<u8> {
    let width = buffer_width(buf) as int;
    let height = buffer_height(buf) as int;
    Seq::new(
        (3 * width * height) as nat,
        |k: int| channel(buffer_pixels(buf)[((k / 3) % width, (k / 3) / width)], k % 3),
    )
}

/// `ImageBuffer::new`: a `width` by `height` image whose samples are all zero,
/// so every pixel is black. The call panics when the number of samples,
/// `3 * width * height`, does not fit in `usize`; the precondition rules that
/// out.
#[verifier::external_body]
pub(crate) fn blank_buffer(width: u32, height: u32) -> (buf: PixelBuffer)
    requires
        3 * width <= usize::MAX,
        3 * width * height <= usize::MAX,
    ensures
        buffer_width(buf) == width,
        buffer_height(buf) == height,
        buffer_pixels(buf) == Map::new(
            |p: (int, int)| grid(width as int, height as int).contains(p),
            |p: (int, int)| (0u8, 0u8, 0u8),
        ),
{
    PixelBuffer { image: ImageBuffer::new(width, height) }
}

/// `ImageBuffer::get_pixel_mut`, written through: the pixel at `(x, y)` takes
/// the given colour and nothing else changes. The call panics outside the
/// image; the precondition rules that out.
#[verifier::external_body]
pub(crate) fn set_pixel(buf: &mut PixelBuffer, x: u32, y: u32, color: (u8, u8, u8))
    requires
        x < buffer_width(*old(buf)),
        y < buffer_height(*old(buf)),
    ensures
        buffer_width(*final(buf)) == buffer_width(*old(buf)),
        buffer_height(*final(buf)) == buffer_height(*old(buf)),
        buffer_pixels(*final(buf)) == buffer_pixels(*old(buf)).insert((x as int, y as int), color),
{
    *buf.image.get_pixel_mut(x, y) = Rgb([color.0, color.1, color.2]);
}

/// `ImageBuffer::get_pixel`: the colour stored at `(x, y)`. The call panics
/// outside the image; the precondition rules that out.
#[verifier::external_body]
fn read_pixel(buf: &PixelBuffer, x: u32, y: u32) -> (color: (u8, u8, u8))
    requires
        x < buffer_width(*buf),
        y < buffer_height(*buf),
    ensures
        color == buffer_pixels(*buf)[(x as int, y as int)],
{
    let Rgb([red, green, blue]) = *buf.image.get_pixel(x, y);
    (red, green, blue)
}

/// `ImageBuffer::width`: the number of pixel columns.
#[verifier::external_body]
fn read_width(buf: &PixelBuffer) -> (width: u32)
    ensures
        width == buffer_width(*buf),
{
    buf.image.width()
}

/// `ImageBuffer::height`: the number of pixel rows.
#[verifier::external_body]
fn read_height(buf: &PixelBuffer) -> (height: u32)
    ensures
        height == buffer_height(*buf),
{
    buf.image.height()
}

/// `ImageBuffer::into_raw`: the backing vector, which holds three samples per
/// pixel in row-major order.
#[verifier::external_body]
fn take_samples(buf: PixelBuffer) -> (raw: Vec<u8>)
    ensures
        raw@ == samples(buf),
{
    buf.image.into_raw()
}

impl PixelBuffer {
    /// Number of pixel columns.
    pub fn width(&self) -> (width: u32)
        ensures
            width == buffer_width(*self),
    {
        read_width(self)
    }

    /// Number of pixel rows.
    pub fn height(&self) -> (height: u32)
        ensures
            height == buffer_height(*self),
    {
        read_height(self)
    }

    /// The colour at `(x, y)`, or `None` when the position lies outside the
    /// image.
    pub fn pixel(&self, x: u32, y: u32) -> (color: Option<(u8, u8, u8)>)
        ensures
            color == if x < buffer_width(*self) && y < buffer_height(*self) {
                Some(buffer_pixels(*self)[(x as int, y as int)])
            } else {
                None
            },
    {
        if x < self.width() && y < self.height() {
            Some(read_pixel(self, x, y))
        } else {
            None
        }
    }

    /// Gives up the buffer for its samples in storage order, ready to be
    /// encoded as an 8-bit RGB image of the same dimensions.
    pub fn into_raw(self) -> (raw: Vec<u8>)
        ensures
            raw@ == samples(self),
    {
        take_samples(self)
    }
}

} // verus!
