//! The image: an 8-bit RGBA buffer of the `image` crate, and its model.

use vstd::prelude::*;
use crate::pixel::Rgba;

verus! {

/// The mathematical model of an image: its dimensions and the pixel at each
/// coordinate `(x, y)` with `0 <= x < width` and `0 <= y < height`.
pub struct Raster {
    pub width: nat,
    pub height: nat,
    pub pixels: Map<(int, int), Rgba>,
}

impl Raster {
    /// Whether `(x, y)` is a coordinate of the image.
    pub open spec fn contains(self, x: int, y: int) -> bool {
        0 <= x < self.width && 0 <= y < self.height
    }

    /// The pixel at `(x, y)`.
    pub open spec fn at(self, x: int, y: int) -> Rgba
        recommends
            self.contains(x, y),
    {
        self.pixels[(x, y)]
    }

    /// The model holds a pixel for each coordinate of the image and for
    /// nothing else.
    pub open spec fn wf(self) -> bool {
        forall|x: int, y: int| #[trigger] self.pixels.dom().contains((x, y)) <==> self.contains(x, y)
    }

    /// The image of the given size whose pixels are all `pixel`.
    pub open spec fn filled(width: nat, height: nat, pixel: Rgba) -> Raster {
        Raster {
            width,
            height,
            pixels: Map::new(
                |k: (int, int)| 0 <= k.0 < width && 0 <= k.1 < height,
                |k: (int, int)| pixel,
            ),
        }
    }

    /// The image that differs from this one at `(x, y)` alone, where it holds
    /// `pixel`.
    pub open spec fn put(self, x: int, y: int, pixel: Rgba) -> Raster
        recommends
            self.contains(x, y),
    {
        Raster { width: self.width, height: self.height, pixels: self.pixels.insert((x, y), pixel) }
    }
}

/// Two well-formed models of the same size that agree on every pixel are
/// equal.
pub proof fn lemma_raster_ext(a: Raster, b: Raster)
    requires
        a.wf(),
        b.wf(),
        a.width == b.width,
        a.height == b.height,
        forall|x: int, y: int| a.contains(x, y) ==> a.at(x, y) == b.at(x, y),
    ensures
        a == b,
{
    assert forall|k: (int, int)| a.pixels.dom().contains(k) <==> b.pixels.dom().contains(k) by {
        assert(a.pixels.dom().contains((k.0, k.1)) <==> a.contains(k.0, k.1));
        assert(b.pixels.dom().contains((k.0, k.1)) <==> b.contains(k.0, k.1));
    }
    assert forall|k: (int, int)| a.pixels.dom().contains(k) implies a.pixels[k] == b.pixels[k] by {
        assert(a.pixels.dom().contains((k.0, k.1)));
        assert(a.at(k.0, k.1) == b.at(k.0, k.1));
    }
    assert(a.pixels =~= b.pixels);
}

/// An 8-bit RGBA image, held in an `image::RgbaImage`.
#[verifier::external_body]
#[derive(Debug, PartialEq, Eq)]
pub struct Image {
    buffer: image::RgbaImage,
}

/// The width of the buffer that an image holds.
pub uninterp spec fn image_width(img: Image) -> nat;

/// The height of the buffer that an image holds.
pub uninterp spec fn image_height(img: Image) -> nat;

/// The pixels of the buffer that an image holds: the pixel at each coordinate
/// `(x, y)` with `0 <= x < width` and `0 <= y < height`.
pub uninterp spec fn image_pixels(img: Image) -> Map<(int, int), Rgba>;

impl View for Image {
    type V = Raster;

    open spec fn view(&self) -> Raster {
        Raster {
            width: image_width(*self),
            height: image_height(*self),
            pixels: Map::new(
                |k: (int, int)| 0 <= k.0 < image_width(*self) && 0 <= k.1 < image_height(*self),
                |k: (int, int)| image_pixels(*self)[k],
            ),
        }
    }
}

/// Whether an image of the given size can be allocated: its four bytes per
/// pixel must fit in one allocation.
pub open spec fn allocatable(width: u32, height: u32) -> bool {
    4 * width * height <= isize::MAX
}

/// Calls `image::ImageBuffer::from_pixel`. Trusted: the buffer has the
/// requested dimensions and holds `pixel` at every coordinate. The call
/// panics when the four bytes per pixel exceed what a `Vec` can hold, which
/// the precondition rules out.
#[verifier::external_body]
fn buffer_from_pixel(width: u32, height: u32, pixel: Rgba) -> (img: Image)
    requires
        allocatable(width, height),
    ensures
        image_width(img) == width,
        image_height(img) == height,
        forall|x: int, y: int|
            0 <= x < width && 0 <= y < height ==> #[trigger] image_pixels(img)[(x, y)] == pixel,
{
    let fill = image::Rgba([pixel.r, pixel.g, pixel.b, pixel.a]);
    Image { buffer: image::ImageBuffer::from_pixel(width, height, fill) }
}

/// Calls `image::GenericImageView::dimensions` on the buffer. Trusted: it
/// returns the buffer's width and height, in that order.
#[verifier::external_body]
fn buffer_dimensions(img: &Image) -> (dims: (u32, u32))
    ensures
        dims.0 == image_width(*img),
        dims.1 == image_height(*img),
{
    image::GenericImageView::dimensions(&img.buffer)
}

/// Calls `image::GenericImageView::get_pixel` on the buffer. Trusted: it
/// returns the pixel at `(x, y)`. The call panics outside the image, which
/// the precondition rules out.
#[verifier::external_body]
fn buffer_get_pixel(img: &Image, x: u32, y: u32) -> (pixel: Rgba)
    requires
        x < image_width(*img),
        y < image_height(*img),
    ensures
        pixel == image_pixels(*img)[(x as int, y as int)],
{
    let p = image::GenericImageView::get_pixel(&img.buffer, x, y);
    Rgba { r: p.0[0], g: p.0[1], b: p.0[2], a: p.0[3] }
}

/// Calls `image::GenericImage::put_pixel` on the buffer. Trusted: it stores
/// `pixel` at `(x, y)` and changes neither another pixel nor the dimensions.
/// The call panics outside the image, which the precondition rules out.
#[verifier::external_body]
fn buffer_put_pixel(img: &mut Image, x: u32, y: u32, pixel: Rgba)
    requires
        x < image_width(*old(img)),
        y < image_height(*old(img)),
    ensures
        image_width(*final(img)) == image_width(*old(img)),
        image_height(*final(img)) == image_height(*old(img)),
        image_pixels(*final(img)) == image_pixels(*old(img)).insert((x as int, y as int), pixel),
{
    let p = image::Rgba([pixel.r, pixel.g, pixel.b, pixel.a]);
    image::GenericImage::put_pixel(&mut img.buffer, x, y, p);
}

impl Image {
    /// The model of every image is well-formed.
    pub proof fn lemma_view_wf(self)
        ensures
            self@.wf(),
    {
    }

    /// Whether an image of the given size can be allocated.
    pub fn can_allocate(width: u32, height: u32) -> (ok: bool)
        ensures
            ok == allocatable(width, height),
    {
        assert(width * height <= 0xffff_ffff * 0xffff_ffff && 4 * width * height == 4 * (width
            * height)) by (nonlinear_arith)
            requires
                width <= 0xffff_ffff,
                height <= 0xffff_ffff,
        ;
        let area: u64 = (width as u64) * (height as u64);
        area <= (isize::MAX as u64) / 4
    }

    /// A new image of the given size, every pixel of which is `pixel`.
    pub fn from_pixel(width: u32, height: u32, pixel: Rgba) -> (img: Image)
        requires
            allocatable(width, height),
        ensures
            img@ == Raster::filled(width as nat, height as nat, pixel),
    {
        let img = buffer_from_pixel(width, height, pixel);
        proof {
            lemma_raster_ext(img@, Raster::filled(width as nat, height as nat, pixel));
        }
        img
    }

    /// The width and the height of the image.
    pub fn dimensions(&self) -> (dims: (u32, u32))
        ensures
            dims.0 == self@.width,
            dims.1 == self@.height,
    {
        buffer_dimensions(self)
    }

    /// The pixel at `(x, y)`.
    pub fn get_pixel(&self, x: u32, y: u32) -> (pixel: Rgba)
        requires
            self@.contains(x as int, y as int),
        ensures
            pixel == self@.at(x as int, y as int),
    {
        buffer_get_pixel(self, x, y)
    }

    /// Stores `pixel` at `(x, y)`.
    pub fn put_pixel(&mut self, x: u32, y: u32, pixel: Rgba)
        requires
            old(self)@.contains(x as int, y as int),
        ensures
            final(self)@ == old(self)@.put(x as int, y as int, pixel),
    {
        buffer_put_pixel(self, x, y, pixel);
        proof {
            lemma_raster_ext(self@, old(self)@.put(x as int, y as int, pixel));
        }
    }
}

} // verus!
