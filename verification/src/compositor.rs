//! Compositing a top image onto a bottom image at an offset.
//!
//! The offset `(offset_x, offset_y)` is where the top image's origin lands on
//! the bottom image, so that the bottom pixel `(x, y)` lies under the top
//! pixel `(x - offset_x, y - offset_y)`.

use vstd::prelude::*;
use crate::operator::{porter_duff, porter_duff_composite, CompositeOperator};
use crate::pixel::{blend, blend_pixel, Rgba};
use crate::raster::{lemma_raster_ext, Image, Raster};

verus! {

/// Whether the top image, placed at the offset, is taken not to meet the
/// bottom image at all, so that nothing is composited.
pub open spec fn misses(bottom: Raster, top: Raster, offset_x: int, offset_y: int) -> bool {
    offset_x >= bottom.width || offset_x + top.width < 0 || offset_y >= bottom.height || offset_y
        + top.height < 0
}

/// Whether the bottom pixel `(x, y)` is reached by the compositor: the images
/// meet, and the pixel's coordinate relative to the top image's origin lies
/// within the bottom image's own dimensions.
pub open spec fn reaches(
    bottom: Raster,
    top: Raster,
    offset_x: int,
    offset_y: int,
    x: int,
    y: int,
) -> bool {
    !misses(bottom, top, offset_x, offset_y) && bottom.contains(x - offset_x, y - offset_y)
}

/// The source pixel for a Porter-Duff operator: the top image's pixel at the
/// coordinate, or transparent black outside the top image.
pub open spec fn source_at(top: Raster, x: int, y: int) -> Rgba {
    if top.contains(x, y) {
        top.at(x, y)
    } else {
        Rgba::transparent()
    }
}

/// The pixel that compositing leaves at `(x, y)` of the bottom image.
///
/// A pixel that is not reached is unchanged. `Blend` also leaves a reached
/// pixel unchanged where the top image has no pixel for it; a Porter-Duff
/// operator composes transparent black onto it there.
pub open spec fn composite_pixel(
    bottom: Raster,
    top: Raster,
    offset_x: int,
    offset_y: int,
    op: CompositeOperator,
    x: int,
    y: int,
) -> Rgba {
    let dest = bottom.at(x, y);
    if !reaches(bottom, top, offset_x, offset_y, x, y) {
        dest
    } else if op == CompositeOperator::Blend {
        if top.contains(x - offset_x, y - offset_y) {
            blend_pixel(dest, top.at(x - offset_x, y - offset_y))
        } else {
            dest
        }
    } else {
        porter_duff(op, dest, source_at(top, x - offset_x, y - offset_y))
    }
}

/// The bottom image after `top` has been composited onto it.
pub open spec fn composited(
    bottom: Raster,
    top: Raster,
    offset_x: int,
    offset_y: int,
    op: CompositeOperator,
) -> Raster {
    Raster {
        width: bottom.width,
        height: bottom.height,
        pixels: Map::new(
            |k: (int, int)| bottom.contains(k.0, k.1),
            |k: (int, int)| composite_pixel(bottom, top, offset_x, offset_y, op, k.0, k.1),
        ),
    }
}

/// The image while the compositor is at work: the pixels before `(x, y)` in
/// row order are composited, the others are still the bottom image's.
spec fn partly_composited(
    bottom: Raster,
    top: Raster,
    offset_x: int,
    offset_y: int,
    op: CompositeOperator,
    x: int,
    y: int,
) -> Raster {
    Raster {
        width: bottom.width,
        height: bottom.height,
        pixels: Map::new(
            |k: (int, int)| bottom.contains(k.0, k.1),
            |k: (int, int)|
                if k.1 < y || (k.1 == y && k.0 < x) {
                    composite_pixel(bottom, top, offset_x, offset_y, op, k.0, k.1)
                } else {
                    bottom.at(k.0, k.1)
                },
        ),
    }
}

/// Composites the one bottom pixel `(x, y)`, given the dimensions of the two
/// images.
fn composite_at(
    bottom: &mut Image,
    bottom_dims: (u32, u32),
    top: &Image,
    top_dims: (u32, u32),
    offset_x: i64,
    offset_y: i64,
    op: CompositeOperator,
    x: u32,
    y: u32,
)
    requires
        bottom_dims.0 == old(bottom)@.width,
        bottom_dims.1 == old(bottom)@.height,
        top_dims.0 == top@.width,
        top_dims.1 == top@.height,
        old(bottom)@.contains(x as int, y as int),
        !misses(old(bottom)@, top@, offset_x as int, offset_y as int),
    ensures
        final(bottom)@ == old(bottom)@.put(
            x as int,
            y as int,
            composite_pixel(
                old(bottom)@,
                top@,
                offset_x as int,
                offset_y as int,
                op,
                x as int,
                y as int,
            ),
        ),
{
    let (bottom_w, bottom_h) = bottom_dims;
    let (top_w, top_h) = top_dims;
    proof {
        bottom.lemma_view_wf();
        lemma_raster_ext(bottom@, bottom@.put(x as int, y as int, bottom@.at(x as int, y as int)));
    }
    let rel_x: i64 = (x as i64) - offset_x;
    let rel_y: i64 = (y as i64) - offset_y;
    if rel_x >= bottom_w as i64 || rel_x < 0 || rel_y >= bottom_h as i64 || rel_y < 0 {
        return ;
    }
    let mut bottom_pixel = bottom.get_pixel(x, y);

    match op {
        CompositeOperator::Blend => {
            if rel_x >= top_w as i64 || rel_y >= top_h as i64 {
                return ;
            }
            let p = top.get_pixel(rel_x as u32, rel_y as u32);
            bottom_pixel = blend(bottom_pixel, p);
            bottom.put_pixel(x, y, bottom_pixel);
        },
        CompositeOperator::Clear
        | CompositeOperator::Copy
        | CompositeOperator::Dest
        | CompositeOperator::DestAtop
        | CompositeOperator::DestIn
        | CompositeOperator::DestOut
        | CompositeOperator::DestOver
        | CompositeOperator::SrcAtop
        | CompositeOperator::SrcIn
        | CompositeOperator::SrcOut
        | CompositeOperator::Xor
        | CompositeOperator::SrcOver => {
            let rgba = if rel_x >= top_w as i64 || rel_y >= top_h as i64 {
                Rgba::new(0, 0, 0, 0)
            } else {
                top.get_pixel(rel_x as u32, rel_y as u32)
            };
            porter_duff_composite(&mut bottom_pixel, &rgba, op);
            bottom.put_pixel(x, y, bottom_pixel);
        },
    }
}

/// Composites `top` onto `bottom` in place, with the top image's origin at
/// `(offset_x, offset_y)` of the bottom image. The bottom image keeps its
/// dimensions; the top image is only read.
pub fn composite(
    bottom: &mut Image,
    top: &Image,
    offset_x: i64,
    offset_y: i64,
    op: CompositeOperator,
)
    ensures
        final(bottom)@ == composited(old(bottom)@, top@, offset_x as int, offset_y as int, op),
{
    let (bottom_w, bottom_h) = bottom.dimensions();
    let (top_w, top_h) = top.dimensions();
    let ghost before = bottom@;
    proof {
        bottom.lemma_view_wf();
    }

    if offset_x >= bottom_w as i64 || offset_x + (top_w as i64) < 0 || offset_y >= bottom_h as i64
        || offset_y + (top_h as i64) < 0 {
        proof {
            lemma_raster_ext(before, composited(before, top@, offset_x as int, offset_y as int, op));
        }
        return ;
    }
    proof {
        lemma_raster_ext(
            before,
            partly_composited(before, top@, offset_x as int, offset_y as int, op, 0, 0),
        );
    }

    for y in 0..bottom_h
        invariant
            before.wf(),
            before.width == bottom_w,
            before.height == bottom_h,
            top@.width == top_w,
            top@.height == top_h,
            !misses(before, top@, offset_x as int, offset_y as int),
            bottom@ == partly_composited(
                before,
                top@,
                offset_x as int,
                offset_y as int,
                op,
                0,
                y as int,
            ),
    {
        for x in 0..bottom_w
            invariant
                before.wf(),
                before.width == bottom_w,
                before.height == bottom_h,
                top@.width == top_w,
                top@.height == top_h,
                y < bottom_h,
                !misses(before, top@, offset_x as int, offset_y as int),
                bottom@ == partly_composited(
                    before,
                    top@,
                    offset_x as int,
                    offset_y as int,
                    op,
                    x as int,
                    y as int,
                ),
        {
            composite_at(
                bottom,
                (bottom_w, bottom_h),
                top,
                (top_w, top_h),
                offset_x,
                offset_y,
                op,
                x,
                y,
            );
            proof {
                bottom.lemma_view_wf();
                lemma_raster_ext(
                    bottom@,
                    partly_composited(
                        before,
                        top@,
                        offset_x as int,
                        offset_y as int,
                        op,
                        x + 1,
                        y as int,
                    ),
                );
            }
        }
        proof {
            lemma_raster_ext(
                bottom@,
                partly_composited(before, top@, offset_x as int, offset_y as int, op, 0, y + 1),
            );
        }
    }
    proof {
        lemma_raster_ext(bottom@, composited(before, top@, offset_x as int, offset_y as int, op));
    }
}

} // verus!
