//! TGAM textures: a TGA image with a separate alpha mask, behind a small header.
//!
//! Numbers are little-endian.
use vstd::prelude::*;
use crate::bytes::{le_at, read_u8, read_u16, read_u32};
use crate::error::ReadError;
use crate::utils::{is_pow2, nearest_greatest_pow_of_two, pow2_ceil};
use crate::tga::copy_range;
use crate::pixels::{corner_pixels, is_corner};

verus! {

/// The alpha mask of a TGAM texture and its scale.
#[derive(Clone, Debug)]
pub struct AlphaMask {
    pub bytes: Vec<u8>,
    pub resize: u8,
}

/// A TGAM texture: its size, the TGA image bytes and the alpha mask.
#[derive(Clone, Debug)]
pub struct Tgam {
    pub width: u16,
    pub height: u16,
    pub bytes: Vec<u8>,
    pub mask: AlphaMask,
}

pub struct TgamView {
    pub width: u16,
    pub height: u16,
    pub bytes: Seq<u8>,
    pub mask_bytes: Seq<u8>,
    pub mask_resize: u8,
}

impl View for Tgam {
    type V = TgamView;

    open spec fn view(&self) -> TgamView {
        TgamView {
            width: self.width,
            height: self.height,
            bytes: self.bytes@,
            mask_bytes: self.mask.bytes@,
            mask_resize: self.mask.resize,
        }
    }
}

/// The signature `AGT`.
pub open spec fn agt() -> Seq<u8> {
    seq![65u8, 71, 84]
}

/// A TGAM texture at the start of `d`: a resize marker byte, the signature `AGT` (any
/// other fails with `BadInput`), width and height as `u16`, the image and mask sizes as
/// `u32`, the mask scale as a byte when the marker is `m` (1 otherwise), then the image
/// bytes and the mask bytes. Cut short, it fails with `Incomplete`.
pub open spec fn sp_tgam(d: Seq<u8>) -> Result<(TgamView, nat), ReadError> {
    if d.len() < 4 {
        Err(ReadError::Incomplete)
    } else if d.subrange(1, 4) != agt() {
        Err(ReadError::BadInput)
    } else if d.len() < 16 {
        Err(ReadError::Incomplete)
    } else {
        let marker = d[0];
        let tga_size = (le_at(d, 8, 4) as u32) as int;
        let mask_size = (le_at(d, 12, 4) as u32) as int;
        let head: Option<(u8, int)> = if marker == 109 {
            if d.len() < 17 {
                None
            } else {
                Some((d[16], 17))
            }
        } else {
            Some((1, 16))
        };
        match head {
            None => Err(ReadError::Incomplete),
            Some((resize, off)) => if off + tga_size + mask_size > d.len() {
                Err(ReadError::Incomplete)
            } else {
                Ok(
                    (
                        TgamView {
                            width: le_at(d, 4, 2) as u16,
                            height: le_at(d, 6, 2) as u16,
                            bytes: d.subrange(off, off + tga_size),
                            mask_bytes: d.subrange(off + tga_size, off + tga_size + mask_size),
                            mask_resize: resize,
                        },
                        (off + tga_size + mask_size) as nat,
                    ),
                )
            },
        }
    }
}

impl Tgam {
    pub fn bytes(&self) -> (r: &[u8])
        ensures
            r@ == self@.bytes,
    {
        self.bytes.as_slice()
    }

    /// The width rounded up to a power of two.
    pub fn width(&self) -> (r: u32)
        ensures
            is_pow2(r as int),
            r >= self.width,
            r == 1 || r / 2 < self.width,
            r == pow2_ceil(self.width as int),
    {
        nearest_greatest_pow_of_two(self.width as i32) as u32
    }

    /// The height rounded up to a power of two.
    pub fn height(&self) -> (r: u32)
        ensures
            is_pow2(r as int),
            r >= self.height,
            r == 1 || r / 2 < self.height,
            r == pow2_ceil(self.height as int),
    {
        nearest_greatest_pow_of_two(self.height as i32) as u32
    }

    /// Reads a texture at the start of `bytes` (see [`sp_tgam`]), with its size.
    pub fn try_read(bytes: &[u8]) -> (r: Result<(Tgam, usize), ReadError>)
        ensures
            match sp_tgam(bytes@) {
                Ok((v, q)) => r matches Ok((t, n)) && t@ == v && n == q,
                Err(e) => r == Err::<(Tgam, usize), ReadError>(e),
            },
    {
        if bytes.len() < 4 {
            return Err(ReadError::Incomplete);
        }
        let resize_mask = bytes[0];
        if !(bytes[1] == 65 && bytes[2] == 71 && bytes[3] == 84) {
            proof {
                if bytes@.subrange(1, 4) == agt() {
                    assert(bytes@.subrange(1, 4)[0] == 65);
                    assert(bytes@.subrange(1, 4)[1] == 71);
                    assert(bytes@.subrange(1, 4)[2] == 84);
                }
            }
            return Err(ReadError::BadInput);
        }
        proof {
            assert(bytes@.subrange(1, 4) =~= agt());
        }
        if bytes.len() < 16 {
            return Err(ReadError::Incomplete);
        }
        let (width, _) = read_u16(bytes, 4).unwrap();
        let (height, _) = read_u16(bytes, 6).unwrap();
        let (tga_size, _) = read_u32(bytes, 8).unwrap();
        let (mask_size, _) = read_u32(bytes, 12).unwrap();
        let mut offset: usize = 16;
        let mask_resize: u8 = if resize_mask == 109 {
            match read_u8(bytes, 16) {
                Some((v, o)) => {
                    offset = o;
                    v
                },
                None => return Err(ReadError::Incomplete),
            }
        } else {
            1
        };
        if tga_size as u64 > (bytes.len() - offset) as u64 {
            return Err(ReadError::Incomplete);
        }
        let tga_bytes = copy_range(bytes, offset, tga_size as usize);
        offset = offset + tga_size as usize;
        if mask_size as u64 > (bytes.len() - offset) as u64 {
            return Err(ReadError::Incomplete);
        }
        let mask_bytes = copy_range(bytes, offset, mask_size as usize);
        offset = offset + mask_size as usize;
        Ok((Tgam { width, height, bytes: tga_bytes, mask: AlphaMask { bytes: mask_bytes, resize: mask_resize } }, offset))
    }
}

/// Reads TGAM textures.
pub struct TgamLoader;

impl TgamLoader {
    /// Reads a texture from `bytes` (see [`sp_tgam`]).
    pub fn load(bytes: &[u8]) -> (r: Result<Tgam, ReadError>)
        ensures
            match sp_tgam(bytes@) {
                Ok((v, _q)) => r matches Ok(t) && t@ == v,
                Err(e) => r == Err::<Tgam, ReadError>(e),
            },
    {
        match Tgam::try_read(bytes) {
            Ok((t, _)) => Ok(t),
            Err(e) => Err(e),
        }
    }
}

/// The top-left `w` by `h` pixels of a texture, whose size is its own rounded up to
/// powers of two (see [`Tgam::width`]), each row mirrored when `flip` (see
/// [`is_corner`]); `None` when the texture holds fewer bytes than that size asks. The
/// corner must lie within the texture whenever the texture is whole.
pub fn texture_pixels(tgam: &Tgam, w: u32, h: u32, flip: bool) -> (r: Option<Vec<u8>>)
    requires
        4 * pow2_ceil(tgam.width as int) * pow2_ceil(tgam.height as int) <= tgam@.bytes.len()
            ==> w <= pow2_ceil(tgam.width as int) && h <= pow2_ceil(tgam.height as int),
    ensures
        r is None <==> tgam@.bytes.len() < 4 * pow2_ceil(tgam.width as int) * pow2_ceil(tgam.height as int),
        r matches Some(v) ==> is_corner(v@, tgam@.bytes, pow2_ceil(tgam.width as int), w as int, h as int, flip, false),
{
    let tw = tgam.width();
    let th = tgam.height();
    corner_pixels(tgam.bytes(), tw, th, w, h, flip, false)
}

} // verus!
