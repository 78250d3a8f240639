//! Extending an image onto a canvas of another size.

use vstd::prelude::*;
use crate::compositor::{composite, composited};
use crate::operator::CompositeOperator;
use crate::raster::{allocatable, lemma_raster_ext, Image, Raster};

verus! {

/// The canvas of the given size for `img`: filled with the image's top-left
/// pixel, then the image copied onto it with its origin at
/// `(-offset_x, -offset_y)`. The offset says where the canvas's origin sits on
/// the image.
pub open spec fn extended(
    img: Raster,
    width: nat,
    height: nat,
    offset_x: int,
    offset_y: int,
) -> Raster
    recommends
        img.contains(0, 0),
{
    composited(
        Raster::filled(width, height, img.at(0, 0)),
        img,
        -offset_x,
        -offset_y,
        CompositeOperator::Copy,
    )
}

/// A new image of `width` by `height` pixels that holds `img` on a background
/// of its top-left pixel. `img` must have at least one pixel.
pub fn extent(img: &Image, width: u32, height: u32, offset_x: i64, offset_y: i64) -> (res: Image)
    requires
        img@.contains(0, 0),
        allocatable(width, height),
    ensures
        res@ == extended(img@, width as nat, height as nat, offset_x as int, offset_y as int),
{
    let p = img.get_pixel(0, 0);
    let mut extent_img = Image::from_pixel(width, height, p);
    if offset_x == i64::MIN || offset_y == i64::MIN {
        // The negated offset lies beyond every image: nothing is composited.
        proof {
            extent_img.lemma_view_wf();
            lemma_raster_ext(
                extent_img@,
                extended(img@, width as nat, height as nat, offset_x as int, offset_y as int),
            );
        }
        return extent_img;
    }
    composite(&mut extent_img, img, -offset_x, -offset_y, CompositeOperator::Copy);
    extent_img
}

/// As [`extent`], for any image and size: `None` where `img` has no pixel or
/// the canvas cannot be allocated.
pub fn try_extent(
    img: &Image,
    width: u32,
    height: u32,
    offset_x: i64,
    offset_y: i64,
) -> (res: Option<Image>)
    ensures
        res is Some <==> img@.contains(0, 0) && allocatable(width, height),
        res is Some ==> res->0@ == extended(
            img@,
            width as nat,
            height as nat,
            offset_x as int,
            offset_y as int,
        ),
{
    let (img_w, img_h) = img.dimensions();
    if img_w == 0 || img_h == 0 || !Image::can_allocate(width, height) {
        return None;
    }
    Some(extent(img, width, height, offset_x, offset_y))
}

} // verus!
