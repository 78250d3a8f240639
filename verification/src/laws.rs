//! What holds of compositing and extending, for every image.
//!
//! The Porter-Duff formula weighs each colour channel by its pixel's alpha
//! and gives every result the alpha of source over destination, whatever the
//! operator. An operator therefore reproduces a pixel only where the alphas
//! allow it; each law names that condition, and the lemmas of
//! [`crate::operator`] show that it is exact for a single pixel.

use vstd::prelude::*;
use crate::canvas::extended;
use crate::compositor::{composited, misses, reaches, source_at};
use crate::operator::{
    copy_yields_source,
    dest_yields_dest,
    lemma_clear,
    lemma_copy,
    lemma_dest,
    lemma_src_over_opaque,
    lemma_transparent_source,
    survives_transparent,
    CompositeOperator,
};
use crate::pixel::Rgba;
use crate::raster::{lemma_raster_ext, Raster};

verus! {

/// Whether the top image, placed at the offset, shares no pixel with the
/// bottom image.
pub open spec fn lies_outside(bottom: Raster, top: Raster, offset_x: int, offset_y: int) -> bool {
    offset_x >= bottom.width || offset_x + top.width <= 0 || offset_y >= bottom.height || offset_y
        + top.height <= 0
}

/// Compositing is a no-op, for every operator, where the top image is taken
/// to miss the bottom image.
pub proof fn law_miss_is_noop(
    bottom: Raster,
    top: Raster,
    offset_x: int,
    offset_y: int,
    op: CompositeOperator,
)
    requires
        bottom.wf(),
        misses(bottom, top, offset_x, offset_y),
    ensures
        composited(bottom, top, offset_x, offset_y, op) == bottom,
{
    lemma_raster_ext(composited(bottom, top, offset_x, offset_y, op), bottom);
}

/// Compositing a top image that lies fully outside the bottom image is a
/// no-op, for every operator.
///
/// A top image that ends exactly at the bottom image's left or upper edge is
/// not taken to miss it: a Porter-Duff operator then composes transparent
/// black onto the pixels it reaches. The law holds where each of those pixels
/// survives that.
pub proof fn law_outside_is_noop(
    bottom: Raster,
    top: Raster,
    offset_x: int,
    offset_y: int,
    op: CompositeOperator,
)
    requires
        bottom.wf(),
        lies_outside(bottom, top, offset_x, offset_y),
        op.is_porter_duff() ==> forall|x: int, y: int|
            bottom.contains(x, y) && #[trigger] reaches(bottom, top, offset_x, offset_y, x, y)
                ==> survives_transparent(op, bottom.at(x, y)),
    ensures
        composited(bottom, top, offset_x, offset_y, op) == bottom,
{
    let after = composited(bottom, top, offset_x, offset_y, op);
    assert forall|x: int, y: int| after.contains(x, y) implies after.at(x, y) == bottom.at(
        x,
        y,
    ) by {
        if reaches(bottom, top, offset_x, offset_y, x, y) {
            assert(!top.contains(x - offset_x, y - offset_y));
            if op.is_porter_duff() {
                lemma_transparent_source(op, bottom.at(x, y));
            }
        }
    }
    lemma_raster_ext(after, bottom);
}

/// `Copy` at offset zero onto a bottom image of the top image's size makes
/// the bottom image equal to the top image, where every top pixel is one that
/// `Copy` reproduces.
pub proof fn law_copy_same_size(bottom: Raster, top: Raster)
    requires
        bottom.wf(),
        top.wf(),
        bottom.width == top.width,
        bottom.height == top.height,
        forall|x: int, y: int|
            top.contains(x, y) ==> copy_yields_source(bottom.at(x, y), #[trigger] top.at(x, y)),
    ensures
        composited(bottom, top, 0, 0, CompositeOperator::Copy) == top,
{
    let after = composited(bottom, top, 0, 0, CompositeOperator::Copy);
    assert forall|x: int, y: int| after.contains(x, y) implies after.at(x, y) == top.at(x, y) by {
        assert(reaches(bottom, top, 0, 0, x, y));
        assert(copy_yields_source(bottom.at(x, y), top.at(x, y)));
        lemma_copy(bottom.at(x, y), top.at(x, y));
    }
    lemma_raster_ext(after, top);
}

/// `Clear` zeroes the colour channels of every pixel it reaches and leaves
/// every other pixel unchanged. A reached pixel becomes fully transparent
/// black exactly where it and its source pixel are both fully transparent.
pub proof fn law_clear_pixel(
    bottom: Raster,
    top: Raster,
    offset_x: int,
    offset_y: int,
    x: int,
    y: int,
)
    requires
        bottom.contains(x, y),
    ensures
        ({
            let after = composited(bottom, top, offset_x, offset_y, CompositeOperator::Clear).at(
                x,
                y,
            );
            let src = source_at(top, x - offset_x, y - offset_y);
            if reaches(bottom, top, offset_x, offset_y, x, y) {
                &&& after.is_black()
                &&& after == Rgba::transparent() <==> src.a == 0 && bottom.at(x, y).a == 0
            } else {
                after == bottom.at(x, y)
            }
        }),
{
    lemma_clear(bottom.at(x, y), source_at(top, x - offset_x, y - offset_y));
}

/// `Clear` sets every pixel it reaches to fully transparent black and leaves
/// every other pixel unchanged, where the reached pixels and their source
/// pixels are fully transparent.
pub proof fn law_clear(bottom: Raster, top: Raster, offset_x: int, offset_y: int)
    requires
        forall|x: int, y: int|
            bottom.contains(x, y) && #[trigger] reaches(bottom, top, offset_x, offset_y, x, y)
                ==> bottom.at(x, y).a == 0 && source_at(top, x - offset_x, y - offset_y).a == 0,
    ensures
        forall|x: int, y: int|
            bottom.contains(x, y) ==> #[trigger] composited(
                bottom,
                top,
                offset_x,
                offset_y,
                CompositeOperator::Clear,
            ).at(x, y) == (if reaches(bottom, top, offset_x, offset_y, x, y) {
                Rgba::transparent()
            } else {
                bottom.at(x, y)
            }),
{
    let after = composited(bottom, top, offset_x, offset_y, CompositeOperator::Clear);
    assert forall|x: int, y: int| bottom.contains(x, y) implies #[trigger] after.at(x, y) == (
    if reaches(bottom, top, offset_x, offset_y, x, y) {
        Rgba::transparent()
    } else {
        bottom.at(x, y)
    }) by {
        law_clear_pixel(bottom, top, offset_x, offset_y, x, y);
    }
}

/// `Dest` is a no-op, whatever the top image and the offset, where every
/// pixel it reaches is one that `Dest` reproduces.
pub proof fn law_dest_is_noop(bottom: Raster, top: Raster, offset_x: int, offset_y: int)
    requires
        bottom.wf(),
        forall|x: int, y: int|
            bottom.contains(x, y) && #[trigger] reaches(bottom, top, offset_x, offset_y, x, y)
                ==> dest_yields_dest(bottom.at(x, y), source_at(top, x - offset_x, y - offset_y)),
    ensures
        composited(bottom, top, offset_x, offset_y, CompositeOperator::Dest) == bottom,
{
    let after = composited(bottom, top, offset_x, offset_y, CompositeOperator::Dest);
    assert forall|x: int, y: int| after.contains(x, y) implies after.at(x, y) == bottom.at(
        x,
        y,
    ) by {
        if reaches(bottom, top, offset_x, offset_y, x, y) {
            lemma_dest(bottom.at(x, y), source_at(top, x - offset_x, y - offset_y));
        }
    }
    lemma_raster_ext(after, bottom);
}

/// Extending an image to its own size at offset zero gives the image back,
/// where every pixel is one that `Copy` reproduces over the top-left pixel.
pub proof fn law_extent_same_size(img: Raster)
    requires
        img.wf(),
        img.contains(0, 0),
        forall|x: int, y: int|
            img.contains(x, y) ==> copy_yields_source(img.at(0, 0), #[trigger] img.at(x, y)),
    ensures
        extended(img, img.width, img.height, 0, 0) == img,
{
    let canvas = Raster::filled(img.width, img.height, img.at(0, 0));
    assert forall|x: int, y: int| img.contains(x, y) implies copy_yields_source(
        canvas.at(x, y),
        #[trigger] img.at(x, y),
    ) by {
        assert(canvas.at(x, y) == img.at(0, 0));
    }
    law_copy_same_size(canvas, img);
}

/// `SrcOver` with a top image that is opaque wherever it is used replaces
/// each bottom pixel that has a top pixel by that top pixel, and leaves every
/// other pixel unchanged.
///
/// A reached pixel without a top pixel has transparent black composed onto
/// it. The law holds where each of those pixels survives that.
pub proof fn law_src_over_opaque(bottom: Raster, top: Raster, offset_x: int, offset_y: int)
    requires
        forall|x: int, y: int|
            bottom.contains(x, y) && #[trigger] reaches(bottom, top, offset_x, offset_y, x, y)
                ==> (if top.contains(x - offset_x, y - offset_y) {
                top.at(x - offset_x, y - offset_y).a == 255
            } else {
                survives_transparent(CompositeOperator::SrcOver, bottom.at(x, y))
            }),
    ensures
        forall|x: int, y: int|
            bottom.contains(x, y) ==> #[trigger] composited(
                bottom,
                top,
                offset_x,
                offset_y,
                CompositeOperator::SrcOver,
            ).at(x, y) == (if reaches(bottom, top, offset_x, offset_y, x, y) && top.contains(
                x - offset_x,
                y - offset_y,
            ) {
                top.at(x - offset_x, y - offset_y)
            } else {
                bottom.at(x, y)
            }),
{
    let op = CompositeOperator::SrcOver;
    let after = composited(bottom, top, offset_x, offset_y, op);
    assert forall|x: int, y: int| bottom.contains(x, y) implies #[trigger] after.at(x, y) == (
    if reaches(bottom, top, offset_x, offset_y, x, y) && top.contains(x - offset_x, y - offset_y) {
        top.at(x - offset_x, y - offset_y)
    } else {
        bottom.at(x, y)
    }) by {
        if reaches(bottom, top, offset_x, offset_y, x, y) {
            if top.contains(x - offset_x, y - offset_y) {
                lemma_src_over_opaque(bottom.at(x, y), top.at(x - offset_x, y - offset_y));
            } else {
                lemma_transparent_source(op, bottom.at(x, y));
            }
        }
    }
}

/// `Blend` with a top image that is opaque wherever it is used replaces each
/// bottom pixel that is reached and has a top pixel by that top pixel, and
/// leaves every other pixel unchanged.
pub proof fn law_blend_opaque(bottom: Raster, top: Raster, offset_x: int, offset_y: int)
    requires
        forall|x: int, y: int|
            bottom.contains(x, y) && #[trigger] reaches(bottom, top, offset_x, offset_y, x, y)
                && top.contains(x - offset_x, y - offset_y) ==> top.at(
                x - offset_x,
                y - offset_y,
            ).a == 255,
    ensures
        forall|x: int, y: int|
            bottom.contains(x, y) ==> #[trigger] composited(
                bottom,
                top,
                offset_x,
                offset_y,
                CompositeOperator::Blend,
            ).at(x, y) == (if reaches(bottom, top, offset_x, offset_y, x, y) && top.contains(
                x - offset_x,
                y - offset_y,
            ) {
                top.at(x - offset_x, y - offset_y)
            } else {
                bottom.at(x, y)
            }),
{
}

/// `Blend` is a no-op where the top image is fully transparent wherever it is
/// used.
pub proof fn law_blend_transparent_is_noop(
    bottom: Raster,
    top: Raster,
    offset_x: int,
    offset_y: int,
)
    requires
        bottom.wf(),
        forall|x: int, y: int|
            bottom.contains(x, y) && #[trigger] reaches(bottom, top, offset_x, offset_y, x, y)
                && top.contains(x - offset_x, y - offset_y) ==> top.at(
                x - offset_x,
                y - offset_y,
            ).a == 0,
    ensures
        composited(bottom, top, offset_x, offset_y, CompositeOperator::Blend) == bottom,
{
    let after = composited(bottom, top, offset_x, offset_y, CompositeOperator::Blend);
    lemma_raster_ext(after, bottom);
}

} // verus!
