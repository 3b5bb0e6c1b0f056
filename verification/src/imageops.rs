//! Placing one image over another: which part of each overlaps, and how pixels blend.
//!
//! The pixel arithmetic itself is done on floats by the caller; this module decides the
//! overlapping rectangle and the blending case.
use vstd::prelude::*;
use crate::error::ReadError;

verus! {

/// The blend factors of the blend modes the format names by their GL numbers.
#[derive(Clone, Copy, Debug, PartialEq, Eq, Structural)]
pub enum BlendModes {
    Zero,
    One,
    SrcColor,
    InvSrcColor,
    SrcAlpha,
    InvSrcAlpha,
    DestColor,
    InvDestColor,
    DestAlpha,
    InvDestAlpha,
    SrcAlphaSaturate,
}

/// The blend mode of a GL number.
pub open spec fn blend_mode_of(index: i32) -> Option<BlendModes> {
    if index == 0 {
        Some(BlendModes::Zero)
    } else if index == 1 {
        Some(BlendModes::One)
    } else if index == 768 {
        Some(BlendModes::SrcColor)
    } else if index == 769 {
        Some(BlendModes::InvSrcColor)
    } else if index == 770 {
        Some(BlendModes::SrcAlpha)
    } else if index == 771 {
        Some(BlendModes::InvSrcAlpha)
    } else if index == 774 {
        Some(BlendModes::DestColor)
    } else if index == 775 {
        Some(BlendModes::InvDestColor)
    } else if index == 772 {
        Some(BlendModes::DestAlpha)
    } else if index == 773 {
        Some(BlendModes::InvDestAlpha)
    } else if index == 776 {
        Some(BlendModes::SrcAlphaSaturate)
    } else {
        None
    }
}

impl BlendModes {
    /// The blend mode of a GL number; `BlendModeNotFound` for any other number.
    pub fn from_index(index: i32) -> (r: Result<BlendModes, ReadError>)
        ensures
            match blend_mode_of(index) {
                Some(m) => r == Ok::<BlendModes, ReadError>(m),
                None => r == Err::<BlendModes, ReadError>(ReadError::BlendModeNotFound),
            },
    {
        match index {
            0 => Ok(BlendModes::Zero),
            1 => Ok(BlendModes::One),
            768 => Ok(BlendModes::SrcColor),
            769 => Ok(BlendModes::InvSrcColor),
            770 => Ok(BlendModes::SrcAlpha),
            771 => Ok(BlendModes::InvSrcAlpha),
            774 => Ok(BlendModes::DestColor),
            775 => Ok(BlendModes::InvDestColor),
            772 => Ok(BlendModes::DestAlpha),
            773 => Ok(BlendModes::InvDestAlpha),
            776 => Ok(BlendModes::SrcAlphaSaturate),
            _ => Err(ReadError::BlendModeNotFound),
        }
    }
}

/// Whether a pair of modes can be blended: the source must be `SrcAlpha` or `One` and the
/// destination `InvSrcAlpha` (blending panics on any other pair).
pub open spec fn blend_supported(src: BlendModes, dest: BlendModes) -> bool {
    (src == BlendModes::SrcAlpha || src == BlendModes::One) && dest == BlendModes::InvSrcAlpha
}

/// Whether a pair of modes can be blended (see [`blend_supported`]).
pub fn blend_modes_supported(src: &BlendModes, dest: &BlendModes) -> (r: bool)
    ensures
        r == blend_supported(*src, *dest),
{
    let s = match src {
        BlendModes::SrcAlpha => true,
        BlendModes::One => true,
        _ => false,
    };
    let d = match dest {
        BlendModes::InvSrcAlpha => true,
        _ => false,
    };
    s && d
}

/// What blending a pixel over another does, decided by the top pixel's alpha.
#[derive(Clone, Copy, Debug, PartialEq, Eq, Structural)]
pub enum BlendCase {
    /// A transparent top pixel leaves the bottom one.
    Keep,
    /// An opaque top pixel replaces the bottom one.
    Replace,
    /// Otherwise the two mix.
    Mix,
}

/// The blending case of a top pixel of alpha `alpha`, whose largest value is 255.
pub fn blend_case(alpha: u8) -> (r: BlendCase)
    ensures
        alpha == 0 ==> r == BlendCase::Keep,
        alpha == 255 ==> r == BlendCase::Replace,
        0 < alpha < 255 ==> r == BlendCase::Mix,
{
    if alpha == 0 {
        BlendCase::Keep
    } else if alpha == 255 {
        BlendCase::Replace
    } else {
        BlendCase::Mix
    }
}

/// `v` brought into `[lo, hi]`.
pub open spec fn clamp_int(v: int, lo: int, hi: int) -> int {
    if v < lo {
        lo
    } else if v > hi {
        hi
    } else {
        v
    }
}

/// `a + b` held to the range of `i64`.
pub open spec fn sat_add(a: int, b: int) -> int {
    clamp_int(a + b, i64::MIN as int, i64::MAX as int)
}

/// `-a` held to the range of `i64`.
pub open spec fn sat_neg(a: int) -> int {
    clamp_int(-a, i64::MIN as int, i64::MAX as int)
}

/// The overlap of a top image placed at `(x, y)` on a bottom image: the origin in the
/// bottom image, the origin in the top image, and the width and height, all 0 when they
/// do not overlap.
pub open spec fn overlay_bounds(bw: u32, bh: u32, tw: u32, th: u32, x: i64, y: i64) -> (u32, u32, u32, u32, u32, u32) {
    if x > bw || y > bh || sat_add(x as int, tw as int) <= 0 || sat_add(y as int, th as int) <= 0 {
        (0, 0, 0, 0, 0, 0)
    } else {
        let max_x = clamp_int(sat_add(x as int, tw as int), 0, bw as int);
        let max_y = clamp_int(sat_add(y as int, th as int), 0, bh as int);
        let ox = clamp_int(x as int, 0, bw as int);
        let oy = clamp_int(y as int, 0, bh as int);
        (
            ox as u32,
            oy as u32,
            clamp_int(sat_neg(x as int), 0, tw as int) as u32,
            clamp_int(sat_neg(y as int), 0, th as int) as u32,
            (max_x - ox) as u32,
            (max_y - oy) as u32,
        )
    }
}

/// The overlap of a top image placed at `(x, y)` on a bottom image (see
/// [`overlay_bounds`]).
pub fn overlay_bounds_ext(bottom: (u32, u32), top: (u32, u32), x: i64, y: i64) -> (r: (u32, u32, u32, u32, u32, u32))
    ensures
        r == overlay_bounds(bottom.0, bottom.1, top.0, top.1, x, y),
{
    let (bottom_width, bottom_height) = bottom;
    let (top_width, top_height) = top;
    if x > bottom_width as i64 || y > bottom_height as i64 || sat_add_i64(x, top_width as i64) <= 0
        || sat_add_i64(y, top_height as i64) <= 0 {
        return (0, 0, 0, 0, 0, 0);
    }
    let max_x = sat_add_i64(x, top_width as i64);
    let max_y = sat_add_i64(y, top_height as i64);
    let max_inbounds_x = clamp_i64(max_x, 0, bottom_width as i64) as u32;
    let max_inbounds_y = clamp_i64(max_y, 0, bottom_height as i64) as u32;
    let origin_bottom_x = clamp_i64(x, 0, bottom_width as i64) as u32;
    let origin_bottom_y = clamp_i64(y, 0, bottom_height as i64) as u32;
    let x_range = max_inbounds_x - origin_bottom_x;
    let y_range = max_inbounds_y - origin_bottom_y;
    let origin_top_x = clamp_i64(sat_neg_i64(x), 0, top_width as i64) as u32;
    let origin_top_y = clamp_i64(sat_neg_i64(y), 0, top_height as i64) as u32;
    (origin_bottom_x, origin_bottom_y, origin_top_x, origin_top_y, x_range, y_range)
}

/// `a + b` held to the range of `i64`, for `b` not negative.
pub fn sat_add_i64(a: i64, b: i64) -> (r: i64)
    requires
        b >= 0,
    ensures
        r == sat_add(a as int, b as int),
{
    if a > i64::MAX - b {
        i64::MAX
    } else {
        a + b
    }
}

/// `-a` held to the range of `i64`.
pub fn sat_neg_i64(a: i64) -> (r: i64)
    ensures
        r == sat_neg(a as int),
{
    if a == i64::MIN {
        i64::MAX
    } else {
        -a
    }
}

/// `v` brought into `[lo, hi]`.
pub fn clamp_i64(v: i64, lo: i64, hi: i64) -> (r: i64)
    requires
        lo <= hi,
    ensures
        r == clamp_int(v as int, lo as int, hi as int),
{
    if v < lo {
        lo
    } else if v > hi {
        hi
    } else {
        v
    }
}

/// The overlap lies within both images: the rectangle that starts at the bottom origin
/// fits in the bottom image, and the one that starts at the top origin fits in the top
/// image.
pub proof fn overlay_within_both(bw: u32, bh: u32, tw: u32, th: u32, x: i64, y: i64)
    ensures
        ({
            let (ox, oy, tx, ty, w, h) = overlay_bounds(bw, bh, tw, th, x, y);
            &&& ox + w <= bw
            &&& oy + h <= bh
            &&& tx + w <= tw
            &&& ty + h <= th
        }),
{
}

} // verus!
