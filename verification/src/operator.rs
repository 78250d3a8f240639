//! The compositing operators and the Porter-Duff formula on one pixel.
//!
//! Alpha is a fraction of 255. A channel of the result is
//! `alpha_s * src * fs + alpha_d * dest * fd`, where `fs` and `fd` are the
//! operator's source and destination factors; its alpha is
//! `alpha_s + alpha_d * (1 - alpha_s)`, whatever the operator. Both are
//! evaluated exactly over the rationals and then truncated toward zero.

use vstd::prelude::*;
use crate::pixel::Rgba;

verus! {

/// How a top pixel is combined with the bottom pixel beneath it.
#[derive(Clone, Copy, PartialEq, Eq, Structural, Debug, Hash)]
pub enum CompositeOperator {
    /// The pixel type's own alpha blend of top over bottom.
    Blend,
    // Porter-Duff
    Clear,
    Copy,
    Dest,
    SrcOver,
    DestOver,
    SrcIn,
    DestIn,
    SrcOut,
    DestOut,
    SrcAtop,
    DestAtop,
    Xor,
}

impl CompositeOperator {
    /// Whether the operator is one of the twelve Porter-Duff operators.
    pub open spec fn is_porter_duff(self) -> bool {
        self != CompositeOperator::Blend
    }
}

/// The source factor `fs` of a Porter-Duff operator, as a numerator over 255,
/// for raw alphas `alpha_s` of the source and `alpha_d` of the destination.
pub open spec fn source_factor(op: CompositeOperator, alpha_s: int, alpha_d: int) -> int
    recommends
        op.is_porter_duff(),
{
    match op {
        CompositeOperator::Clear => 0,
        CompositeOperator::Copy => 255,
        CompositeOperator::Dest => 0,
        CompositeOperator::SrcOver => 255,
        CompositeOperator::DestOver => 255 - alpha_d,
        CompositeOperator::SrcIn => alpha_d,
        CompositeOperator::DestIn => 0,
        CompositeOperator::SrcOut => 255 - alpha_d,
        CompositeOperator::DestOut => 0,
        CompositeOperator::SrcAtop => alpha_d,
        CompositeOperator::DestAtop => 255 - alpha_d,
        CompositeOperator::Xor => 255 - alpha_d,
        CompositeOperator::Blend => arbitrary(),
    }
}

/// The destination factor `fd` of a Porter-Duff operator, as a numerator over
/// 255.
pub open spec fn dest_factor(op: CompositeOperator, alpha_s: int, alpha_d: int) -> int
    recommends
        op.is_porter_duff(),
{
    match op {
        CompositeOperator::Clear => 0,
        CompositeOperator::Copy => 0,
        CompositeOperator::Dest => 255,
        CompositeOperator::SrcOver => 255 - alpha_s,
        CompositeOperator::DestOver => 255,
        CompositeOperator::SrcIn => 0,
        CompositeOperator::DestIn => alpha_s,
        CompositeOperator::SrcOut => 0,
        CompositeOperator::DestOut => 255 - alpha_s,
        CompositeOperator::SrcAtop => 255 - alpha_s,
        CompositeOperator::DestAtop => alpha_s,
        CompositeOperator::Xor => 255 - alpha_s,
        CompositeOperator::Blend => arbitrary(),
    }
}

/// One colour channel of the result: `alpha_s * src * fs + alpha_d * dest * fd`
/// with both alphas and both factors as fractions of 255, truncated.
pub open spec fn composite_channel(
    op: CompositeOperator,
    src: int,
    alpha_s: int,
    dest: int,
    alpha_d: int,
) -> int
    recommends
        op.is_porter_duff(),
{
    (alpha_s * source_factor(op, alpha_s, alpha_d) * src
        + alpha_d * dest_factor(op, alpha_s, alpha_d) * dest) / 65025
}

/// The alpha of the result, on the scale of 255:
/// `alpha_s + alpha_d * (1 - alpha_s)`, truncated.
pub open spec fn composite_alpha(alpha_s: int, alpha_d: int) -> int {
    (255 * alpha_s + alpha_d * (255 - alpha_s)) / 255
}

/// The Porter-Duff composition of `src` onto `dest`, channel by channel.
pub open spec fn porter_duff(op: CompositeOperator, dest: Rgba, src: Rgba) -> Rgba
    recommends
        op.is_porter_duff(),
{
    Rgba {
        r: composite_channel(op, src.r as int, src.a as int, dest.r as int, dest.a as int) as u8,
        g: composite_channel(op, src.g as int, src.a as int, dest.g as int, dest.a as int) as u8,
        b: composite_channel(op, src.b as int, src.a as int, dest.b as int, dest.a as int) as u8,
        a: composite_alpha(src.a as int, dest.a as int) as u8,
    }
}

/// The two alpha weights `alpha_s * fs` and `alpha_d * fd` never sum to more
/// than one, that is to more than 255 * 255 on the raw scale.
pub proof fn lemma_weights_bounded(op: CompositeOperator, alpha_s: int, alpha_d: int)
    requires
        op.is_porter_duff(),
        0 <= alpha_s <= 255,
        0 <= alpha_d <= 255,
    ensures
        0 <= source_factor(op, alpha_s, alpha_d) <= 255,
        0 <= dest_factor(op, alpha_s, alpha_d) <= 255,
        0 <= alpha_s * source_factor(op, alpha_s, alpha_d),
        0 <= alpha_d * dest_factor(op, alpha_s, alpha_d),
        alpha_s * source_factor(op, alpha_s, alpha_d) + alpha_d * dest_factor(
            op,
            alpha_s,
            alpha_d,
        ) <= 65025,
{
    let fs = source_factor(op, alpha_s, alpha_d);
    let fd = dest_factor(op, alpha_s, alpha_d);
    assert(0 <= alpha_s * fs && 0 <= alpha_d * fd && alpha_s * fs + alpha_d * fd <= 65025)
        by (nonlinear_arith)
        requires
            0 <= alpha_s <= 255,
            0 <= alpha_d <= 255,
            0 <= fs <= 255,
            0 <= fd <= 255,
            fs == 0 || fd == 0 || (fs == 255 && fd == 255 - alpha_s) || (fs == 255 - alpha_d
                && fd == 255) || (fs == alpha_d && fd == 255 - alpha_s) || (fs == 255 - alpha_d
                && fd == alpha_s) || (fs == 255 - alpha_d && fd == 255 - alpha_s),
    ;
}

/// Every channel of a Porter-Duff result fits in 8 bits: nothing is clamped.
pub proof fn lemma_channels_in_range(op: CompositeOperator, dest: Rgba, src: Rgba)
    requires
        op.is_porter_duff(),
    ensures
        0 <= composite_channel(op, src.r as int, src.a as int, dest.r as int, dest.a as int) <= 255,
        0 <= composite_channel(op, src.g as int, src.a as int, dest.g as int, dest.a as int) <= 255,
        0 <= composite_channel(op, src.b as int, src.a as int, dest.b as int, dest.a as int) <= 255,
        0 <= composite_alpha(src.a as int, dest.a as int) <= 255,
{
    lemma_channel_in_range(op, src.r as int, src.a as int, dest.r as int, dest.a as int);
    lemma_channel_in_range(op, src.g as int, src.a as int, dest.g as int, dest.a as int);
    lemma_channel_in_range(op, src.b as int, src.a as int, dest.b as int, dest.a as int);
    lemma_alpha_in_range(src.a as int, dest.a as int);
}

proof fn lemma_channel_in_range(
    op: CompositeOperator,
    src: int,
    alpha_s: int,
    dest: int,
    alpha_d: int,
)
    requires
        op.is_porter_duff(),
        0 <= src <= 255,
        0 <= alpha_s <= 255,
        0 <= dest <= 255,
        0 <= alpha_d <= 255,
    ensures
        0 <= alpha_s * source_factor(op, alpha_s, alpha_d) * src + alpha_d * dest_factor(
            op,
            alpha_s,
            alpha_d,
        ) * dest <= 65025 * 255,
        0 <= composite_channel(op, src, alpha_s, dest, alpha_d) <= 255,
{
    lemma_weights_bounded(op, alpha_s, alpha_d);
    let ws = alpha_s * source_factor(op, alpha_s, alpha_d);
    let wd = alpha_d * dest_factor(op, alpha_s, alpha_d);
    assert(0 <= ws * src + wd * dest <= 65025 * 255) by (nonlinear_arith)
        requires
            0 <= ws,
            0 <= wd,
            ws + wd <= 65025,
            0 <= src <= 255,
            0 <= dest <= 255,
    ;
}

proof fn lemma_alpha_in_range(alpha_s: int, alpha_d: int)
    requires
        0 <= alpha_s <= 255,
        0 <= alpha_d <= 255,
    ensures
        0 <= 255 * alpha_s + alpha_d * (255 - alpha_s) <= 65025,
        0 <= composite_alpha(alpha_s, alpha_d) <= 255,
{
    assert(0 <= alpha_d * (255 - alpha_s) <= 255 * (255 - alpha_s)) by (nonlinear_arith)
        requires
            0 <= alpha_s <= 255,
            0 <= alpha_d <= 255,
    ;
}

/// The operator's two factors, each as a numerator over 255.
fn factors(op: CompositeOperator, alpha_s: u32, alpha_d: u32) -> (f: (u32, u32))
    requires
        op.is_porter_duff(),
        alpha_s <= 255,
        alpha_d <= 255,
    ensures
        f.0 == source_factor(op, alpha_s as int, alpha_d as int),
        f.1 == dest_factor(op, alpha_s as int, alpha_d as int),
{
    match op {
        CompositeOperator::Clear => (0, 0),
        CompositeOperator::Copy => (255, 0),
        CompositeOperator::Dest => (0, 255),
        CompositeOperator::SrcOver => (255, 255 - alpha_s),
        CompositeOperator::DestOver => (255 - alpha_d, 255),
        CompositeOperator::SrcIn => (alpha_d, 0),
        CompositeOperator::DestIn => (0, alpha_s),
        CompositeOperator::SrcOut => (255 - alpha_d, 0),
        CompositeOperator::DestOut => (0, 255 - alpha_s),
        CompositeOperator::SrcAtop => (alpha_d, 255 - alpha_s),
        CompositeOperator::DestAtop => (255 - alpha_d, alpha_s),
        CompositeOperator::Xor => (255 - alpha_d, 255 - alpha_s),
        CompositeOperator::Blend => (0, 0),
    }
}

/// One channel from the two alpha weights `weight_s = alpha_s * fs` and
/// `weight_d = alpha_d * fd`.
fn weigh(weight_s: u32, src: u8, weight_d: u32, dest: u8) -> (c: u8)
    requires
        weight_s + weight_d <= 65025,
    ensures
        c == (weight_s * src + weight_d * dest) / 65025,
{
    assert(weight_s * src <= 65025 * 255 && weight_d * dest <= 65025 * 255 && weight_s * src
        + weight_d * dest <= 65025 * 255) by (nonlinear_arith)
        requires
            weight_s + weight_d <= 65025,
            src <= 255,
            dest <= 255,
    ;
    let sum: u32 = weight_s * (src as u32) + weight_d * (dest as u32);
    (sum / 65025) as u8
}

/// Composes `src` onto `dest` with a Porter-Duff operator and stores the
/// result in `dest`.
pub fn porter_duff_composite(dest: &mut Rgba, src: &Rgba, op: CompositeOperator)
    requires
        op.is_porter_duff(),
    ensures
        *final(dest) == porter_duff(op, *old(dest), *src),
{
    let alpha_s: u32 = src.a as u32;
    let alpha_d: u32 = dest.a as u32;
    let (fs, fd) = factors(op, alpha_s, alpha_d);
    proof {
        lemma_weights_bounded(op, alpha_s as int, alpha_d as int);
        lemma_alpha_in_range(alpha_s as int, alpha_d as int);
    }
    let weight_s: u32 = alpha_s * fs;
    let weight_d: u32 = alpha_d * fd;
    let r: u8 = weigh(weight_s, src.r, weight_d, dest.r);
    let g: u8 = weigh(weight_s, src.g, weight_d, dest.g);
    let b: u8 = weigh(weight_s, src.b, weight_d, dest.b);
    let a: u32 = (255 * alpha_s + alpha_d * (255 - alpha_s)) / 255;
    *dest = Rgba { r, g, b, a: a as u8 };
}

/// Scaling a channel by an alpha that is a fraction of 255 never raises it,
/// and keeps it exactly when the alpha is one or the channel is zero.
proof fn lemma_scale(alpha: int, channel: int)
    requires
        0 <= alpha <= 255,
        0 <= channel <= 255,
    ensures
        0 <= (alpha * 255 * channel) / 65025 <= channel,
        (alpha * 255 * channel) / 65025 == channel <==> alpha == 255 || channel == 0,
{
    let p = alpha * channel;
    assert(alpha * 255 * channel == 255 * p && 0 <= p <= 255 * channel && (p == 255 * channel
        <==> alpha == 255 || channel == 0)) by (nonlinear_arith)
        requires
            0 <= alpha <= 255,
            0 <= channel <= 255,
            p == alpha * channel,
    ;
}

/// Whether composing transparent black onto `dest` leaves `dest` as it is:
/// `dest` is black, or it is opaque and the operator keeps the destination.
pub open spec fn survives_transparent(op: CompositeOperator, dest: Rgba) -> bool
    recommends
        op.is_porter_duff(),
{
    dest.is_black() || (dest.a == 255 && dest_factor(op, 0, 255) == 255)
}

/// A Porter-Duff operator with a fully transparent black source returns the
/// destination exactly where [`survives_transparent`] holds.
pub proof fn lemma_transparent_source(op: CompositeOperator, dest: Rgba)
    requires
        op.is_porter_duff(),
    ensures
        porter_duff(op, dest, Rgba::transparent()) == dest <==> survives_transparent(op, dest),
{
    lemma_channels_in_range(op, dest, Rgba::transparent());
    lemma_scale(dest.a as int, dest.r as int);
    lemma_scale(dest.a as int, dest.g as int);
    lemma_scale(dest.a as int, dest.b as int);
    let fd = dest_factor(op, 0, dest.a as int);
    assert(fd == dest_factor(op, 0, 255));
    assert forall|c: int| #[trigger]
        composite_channel(op, 0, 0, c, dest.a as int) == (if fd == 255 {
            (dest.a * 255 * c) / 65025
        } else {
            0
        }) by {
        assert(0 * source_factor(op, 0, dest.a as int) * 0 == 0);
        if fd != 255 {
            assert(dest.a * 0 * c == 0) by (nonlinear_arith);
        }
    }
    assert(composite_alpha(0, dest.a as int) == dest.a);
}

/// Whether `Copy` of `src` onto `dest` gives `src` itself: `src` is opaque, or
/// it is black and the alpha it is composed with rounds away.
pub open spec fn copy_yields_source(dest: Rgba, src: Rgba) -> bool {
    src.a == 255 || (src.is_black() && dest.a * (255 - src.a) < 255)
}

/// `Copy` returns the source pixel exactly where [`copy_yields_source`] holds.
pub proof fn lemma_copy(dest: Rgba, src: Rgba)
    ensures
        porter_duff(CompositeOperator::Copy, dest, src) == src <==> copy_yields_source(dest, src),
{
    let op = CompositeOperator::Copy;
    lemma_channels_in_range(op, dest, src);
    lemma_scale(src.a as int, src.r as int);
    lemma_scale(src.a as int, src.g as int);
    lemma_scale(src.a as int, src.b as int);
    assert forall|s: int, d: int| #[trigger]
        composite_channel(op, s, src.a as int, d, dest.a as int) == (src.a * 255 * s) / 65025 by {
        assert(dest.a * 0 * d == 0) by (nonlinear_arith);
    }
    lemma_alpha_shift(src.a as int, dest.a as int);
}

/// Whether `Dest` of `src` onto `dest` gives `dest` itself: `dest` is opaque,
/// or it is black and the source's alpha rounds away.
pub open spec fn dest_yields_dest(dest: Rgba, src: Rgba) -> bool {
    dest.a == 255 || (dest.is_black() && src.a * (255 - dest.a) < 255)
}

/// `Dest` returns the destination pixel exactly where [`dest_yields_dest`]
/// holds.
pub proof fn lemma_dest(dest: Rgba, src: Rgba)
    ensures
        porter_duff(CompositeOperator::Dest, dest, src) == dest <==> dest_yields_dest(dest, src),
{
    let op = CompositeOperator::Dest;
    lemma_channels_in_range(op, dest, src);
    lemma_scale(dest.a as int, dest.r as int);
    lemma_scale(dest.a as int, dest.g as int);
    lemma_scale(dest.a as int, dest.b as int);
    assert forall|s: int, d: int| #[trigger]
        composite_channel(op, s, src.a as int, d, dest.a as int) == (dest.a * 255 * d) / 65025 by {
        assert(src.a * 0 * s == 0) by (nonlinear_arith);
    }
    lemma_alpha_shift(dest.a as int, src.a as int);
    assert(composite_alpha(src.a as int, dest.a as int) == composite_alpha(
        dest.a as int,
        src.a as int,
    )) by (nonlinear_arith);
}

/// The result's alpha is the first alpha plus what the second adds to it.
proof fn lemma_alpha_shift(first: int, second: int)
    requires
        0 <= first <= 255,
        0 <= second <= 255,
    ensures
        composite_alpha(first, second) == first + (second * (255 - first)) / 255,
        0 <= second * (255 - first),
        composite_alpha(first, second) == first <==> second * (255 - first) < 255,
{
    assert(0 <= second * (255 - first)) by (nonlinear_arith)
        requires
            0 <= first <= 255,
            0 <= second <= 255,
    ;
}

/// `Clear` zeroes the colour channels; the alpha is that of every operator.
/// The result is fully transparent black exactly where both pixels are fully
/// transparent.
pub proof fn lemma_clear(dest: Rgba, src: Rgba)
    ensures
        porter_duff(CompositeOperator::Clear, dest, src) == (Rgba {
            r: 0,
            g: 0,
            b: 0,
            a: composite_alpha(src.a as int, dest.a as int) as u8,
        }),
        porter_duff(CompositeOperator::Clear, dest, src) == Rgba::transparent() <==> src.a == 0
            && dest.a == 0,
{
    let op = CompositeOperator::Clear;
    lemma_channels_in_range(op, dest, src);
    assert forall|s: int, d: int| #[trigger]
        composite_channel(op, s, src.a as int, d, dest.a as int) == 0 by {
        assert(src.a * 0 * s == 0 && dest.a * 0 * d == 0) by (nonlinear_arith);
    }
    lemma_alpha_shift(src.a as int, dest.a as int);
    if src.a == 0 {
        assert(dest.a * (255 - src.a) == 255 * dest.a) by (nonlinear_arith)
            requires
                src.a == 0,
        ;
    }
}

/// `SrcOver` with an opaque source returns the source pixel.
pub proof fn lemma_src_over_opaque(dest: Rgba, src: Rgba)
    requires
        src.a == 255,
    ensures
        porter_duff(CompositeOperator::SrcOver, dest, src) == src,
{
    let op = CompositeOperator::SrcOver;
    lemma_channels_in_range(op, dest, src);
    lemma_scale(255, src.r as int);
    lemma_scale(255, src.g as int);
    lemma_scale(255, src.b as int);
    assert forall|s: int, d: int| #[trigger]
        composite_channel(op, s, 255, d, dest.a as int) == (255 * 255 * s) / 65025 by {
        assert(dest.a * 0 * d == 0) by (nonlinear_arith);
    }
}

} // verus!
