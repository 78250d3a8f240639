//! The pixel: four 8-bit channels, red, green, blue and alpha.

use vstd::prelude::*;

verus! {

/// One pixel with straight (not premultiplied) alpha. An alpha of 0 is fully
/// transparent, 255 fully opaque.
#[derive(Clone, Copy, PartialEq, Eq, Structural, Debug, Hash)]
pub struct Rgba {
    pub r: u8,
    pub g: u8,
    pub b: u8,
    pub a: u8,
}

impl Rgba {
    /// Fully transparent black, which stands for a source pixel that lies
    /// outside the top image.
    pub open spec fn transparent() -> Rgba {
        Rgba { r: 0, g: 0, b: 0, a: 0 }
    }

    /// Whether all three colour channels are zero.
    pub open spec fn is_black(self) -> bool {
        self.r == 0 && self.g == 0 && self.b == 0
    }

    pub fn new(r: u8, g: u8, b: u8, a: u8) -> (p: Rgba)
        ensures
            p == (Rgba { r, g, b, a }),
    {
        Rgba { r, g, b, a }
    }
}

/// What `image`'s blend of an RGBA pixel gives for a top pixel that is neither
/// fully transparent nor fully opaque: a source-over blend that the crate
/// evaluates in single-precision floating point.
pub uninterp spec fn blended(bottom: Rgba, top: Rgba) -> Rgba;

/// The result of blending `top` over `bottom`: a fully transparent top leaves
/// the bottom pixel, a fully opaque top replaces it.
pub open spec fn blend_pixel(bottom: Rgba, top: Rgba) -> Rgba {
    if top.a == 0 {
        bottom
    } else if top.a == 255 {
        top
    } else {
        blended(bottom, top)
    }
}

/// Calls `image::Pixel::blend` on `image::Rgba<u8>`. Trusted: the call returns
/// its receiver unchanged when the other pixel's alpha is zero, returns the
/// other pixel when that alpha is 255, and is otherwise a function of the two
/// pixels alone. It does not panic on 8-bit channels.
#[verifier::external_body]
fn blend_over(bottom: Rgba, top: Rgba) -> (res: Rgba)
    ensures
        res == blended(bottom, top),
        top.a == 0 ==> res == bottom,
        top.a == 255 ==> res == top,
{
    let mut under = image::Rgba([bottom.r, bottom.g, bottom.b, bottom.a]);
    image::Pixel::blend(&mut under, &image::Rgba([top.r, top.g, top.b, top.a]));
    Rgba { r: under.0[0], g: under.0[1], b: under.0[2], a: under.0[3] }
}

/// Blends `top` over `bottom` with the pixel type's own blend operation.
pub fn blend(bottom: Rgba, top: Rgba) -> (res: Rgba)
    ensures
        res == blend_pixel(bottom, top),
{
    blend_over(bottom, top)
}

} // verus!
