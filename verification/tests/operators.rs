use gazou::operator::porter_duff_composite;
use gazou::pixel::blend;
use gazou::{CompositeOperator, Rgba};

fn compose(op: CompositeOperator, dest: Rgba, src: Rgba) -> Rgba {
    let mut out = dest;
    porter_duff_composite(&mut out, &src, op);
    out
}

fn translucent_dest() -> Rgba {
    Rgba::new(100, 50, 25, 128)
}

fn translucent_src() -> Rgba {
    Rgba::new(200, 100, 40, 64)
}

#[test]
fn clear_zeroes_colour() {
    assert_eq!(compose(CompositeOperator::Clear, translucent_dest(), translucent_src()), Rgba::new(0, 0, 0, 159));
}

#[test]
fn copy_weighs_source_by_its_alpha() {
    assert_eq!(compose(CompositeOperator::Copy, translucent_dest(), translucent_src()), Rgba::new(50, 25, 10, 159));
}

#[test]
fn dest_weighs_destination_by_its_alpha() {
    assert_eq!(compose(CompositeOperator::Dest, translucent_dest(), translucent_src()), Rgba::new(50, 25, 12, 159));
}

#[test]
fn src_over_formula() {
    assert_eq!(compose(CompositeOperator::SrcOver, translucent_dest(), translucent_src()), Rgba::new(87, 43, 19, 159));
}

#[test]
fn dest_over_formula() {
    assert_eq!(compose(CompositeOperator::DestOver, translucent_dest(), translucent_src()), Rgba::new(75, 37, 17, 159));
}

#[test]
fn src_in_formula() {
    assert_eq!(compose(CompositeOperator::SrcIn, translucent_dest(), translucent_src()), Rgba::new(25, 12, 5, 159));
}

#[test]
fn dest_in_formula() {
    assert_eq!(compose(CompositeOperator::DestIn, translucent_dest(), translucent_src()), Rgba::new(12, 6, 3, 159));
}

#[test]
fn src_out_formula() {
    assert_eq!(compose(CompositeOperator::SrcOut, translucent_dest(), translucent_src()), Rgba::new(24, 12, 4, 159));
}

#[test]
fn dest_out_formula() {
    assert_eq!(compose(CompositeOperator::DestOut, translucent_dest(), translucent_src()), Rgba::new(37, 18, 9, 159));
}

#[test]
fn src_atop_formula() {
    assert_eq!(compose(CompositeOperator::SrcAtop, translucent_dest(), translucent_src()), Rgba::new(62, 31, 14, 159));
}

#[test]
fn dest_atop_formula() {
    assert_eq!(compose(CompositeOperator::DestAtop, translucent_dest(), translucent_src()), Rgba::new(37, 18, 8, 159));
}

#[test]
fn xor_formula() {
    assert_eq!(compose(CompositeOperator::Xor, translucent_dest(), translucent_src()), Rgba::new(62, 31, 14, 159));
}

#[test]
fn exact_quotients_are_not_rounded_down() {
    // 51/255 * 225 * (119/255) = 21 exactly.
    let dest = Rgba::new(52, 4, 177, 136);
    let src = Rgba::new(28, 225, 153, 51);
    assert_eq!(compose(CompositeOperator::SrcOut, dest, src), Rgba::new(2, 21, 14, 159));
}

#[test]
fn src_over_of_opaque_source_is_the_source() {
    let src = Rgba::new(7, 99, 201, 255);
    assert_eq!(compose(CompositeOperator::SrcOver, translucent_dest(), src), src);
    assert_eq!(compose(CompositeOperator::SrcOver, Rgba::new(0, 0, 0, 0), src), src);
}

#[test]
fn copy_of_opaque_source_is_the_source() {
    let src = Rgba::new(7, 99, 201, 255);
    assert_eq!(compose(CompositeOperator::Copy, translucent_dest(), src), src);
}

#[test]
fn copy_of_translucent_source_is_darker() {
    let src = Rgba::new(200, 100, 50, 128);
    let dest = Rgba::new(1, 2, 3, 255);
    assert_eq!(compose(CompositeOperator::Copy, dest, src), Rgba::new(100, 50, 25, 255));
}

#[test]
fn dest_keeps_an_opaque_destination() {
    let dest = Rgba::new(9, 8, 7, 255);
    assert_eq!(compose(CompositeOperator::Dest, dest, translucent_src()), dest);
    assert_eq!(compose(CompositeOperator::Dest, dest, Rgba::new(0, 0, 0, 0)), dest);
}

#[test]
fn dest_scales_a_translucent_destination() {
    let dest = Rgba::new(100, 100, 100, 128);
    let out = compose(CompositeOperator::Dest, dest, Rgba::new(0, 0, 0, 0));
    assert_eq!(out, Rgba::new(50, 50, 50, 128));
}

#[test]
fn clear_of_two_transparent_pixels_is_transparent_black() {
    let out = compose(CompositeOperator::Clear, Rgba::new(5, 6, 7, 0), Rgba::new(1, 2, 3, 0));
    assert_eq!(out, Rgba::new(0, 0, 0, 0));
}

#[test]
fn clear_keeps_the_composed_alpha() {
    let out = compose(CompositeOperator::Clear, Rgba::new(5, 6, 7, 255), Rgba::new(1, 2, 3, 4));
    assert_eq!(out, Rgba::new(0, 0, 0, 255));
}

#[test]
fn transparent_source_on_opaque_destination() {
    let dest = Rgba::new(9, 8, 7, 255);
    let clear = Rgba::new(0, 0, 0, 0);
    let kept = [
        CompositeOperator::Dest,
        CompositeOperator::SrcOver,
        CompositeOperator::DestOver,
        CompositeOperator::DestOut,
        CompositeOperator::SrcAtop,
        CompositeOperator::Xor,
    ];
    for op in kept {
        assert_eq!(compose(op, dest, clear), dest);
    }
    let blackened = [
        CompositeOperator::Clear,
        CompositeOperator::Copy,
        CompositeOperator::SrcIn,
        CompositeOperator::DestIn,
        CompositeOperator::SrcOut,
        CompositeOperator::DestAtop,
    ];
    for op in blackened {
        assert_eq!(compose(op, dest, clear), Rgba::new(0, 0, 0, 255));
    }
}

#[test]
fn channels_stay_in_range_at_the_extremes() {
    let white = Rgba::new(255, 255, 255, 255);
    assert_eq!(compose(CompositeOperator::SrcOver, white, white), white);
    assert_eq!(compose(CompositeOperator::DestOver, white, white), white);
    assert_eq!(compose(CompositeOperator::SrcAtop, white, white), white);
    assert_eq!(compose(CompositeOperator::DestAtop, white, white), white);
    assert_eq!(compose(CompositeOperator::Xor, white, white), Rgba::new(0, 0, 0, 255));
    let half = Rgba::new(255, 255, 255, 128);
    assert_eq!(compose(CompositeOperator::Xor, half, half), Rgba::new(127, 127, 127, 191));
}

#[test]
fn blend_with_opaque_top_is_the_top() {
    let bottom = Rgba::new(1, 2, 3, 4);
    let top = Rgba::new(5, 6, 7, 255);
    assert_eq!(blend(bottom, top), top);
}

#[test]
fn blend_with_transparent_top_is_the_bottom() {
    let bottom = Rgba::new(1, 2, 3, 4);
    let top = Rgba::new(5, 6, 7, 0);
    assert_eq!(blend(bottom, top), bottom);
}

#[test]
fn blend_with_translucent_top_mixes() {
    let out = blend(Rgba::new(10, 20, 30, 255), Rgba::new(200, 100, 50, 128));
    assert_eq!(out, Rgba::new(105, 60, 40, 254));
    let out = blend(Rgba::new(0, 0, 0, 255), Rgba::new(255, 0, 0, 128));
    assert_eq!(out, Rgba::new(128, 0, 0, 254));
}
