//! TGA textures: an 18-byte header, an optional color map, then the pixel rows.
//!
//! Numbers are little-endian.
use vstd::prelude::*;
use crate::bytes::{le_at, fits, read_i8, read_u8, read_i16, read_u16};
use crate::buffer::{i8_of, i16_of};
use crate::error::ReadError;
use crate::utils::{clamp, clamped};
use crate::pixels::{corner_pixels, is_corner};

verus! {

/// The header of a TGA image.
#[derive(Clone, Copy, Debug, PartialEq, Eq, Structural)]
pub struct TgaHeader {
    pub id_length: i8,
    pub color_map_type: i8,
    pub image_type: i8,
    pub color_map_start: i16,
    pub color_map_length: i16,
    pub color_map_bit_depth: i8,
    pub start_x: i16,
    pub start_y: i16,
    pub width: u16,
    pub height: u16,
    pub bit_depth: i8,
    pub desc: i8,
}

/// The `i8` at `p`.
pub open spec fn i8_at(d: Seq<u8>, p: int) -> i8 {
    i8_of(d[p] as int) as i8
}

/// The little-endian `i16` at `p`.
pub open spec fn i16_at(d: Seq<u8>, p: int) -> i16 {
    i16_of(le_at(d, p, 2) as int) as i16
}

/// The little-endian `u16` at `p`.
pub open spec fn u16_at(d: Seq<u8>, p: int) -> u16 {
    le_at(d, p, 2) as u16
}

/// The header stored in the first 18 bytes: id length, color map type and image type as
/// `i8`; color map start and length as `i16`; color map depth as `i8`; origin as two
/// `i16`; width and height as `u16`; bit depth and descriptor as `i8`.
pub open spec fn sp_tga_header(d: Seq<u8>) -> Option<TgaHeader> {
    if d.len() >= 18 {
        Some(
            TgaHeader {
                id_length: i8_at(d, 0),
                color_map_type: i8_at(d, 1),
                image_type: i8_at(d, 2),
                color_map_start: i16_at(d, 3),
                color_map_length: i16_at(d, 5),
                color_map_bit_depth: i8_at(d, 7),
                start_x: i16_at(d, 8),
                start_y: i16_at(d, 10),
                width: u16_at(d, 12),
                height: u16_at(d, 14),
                bit_depth: i8_at(d, 16),
                desc: i8_at(d, 17),
            },
        )
    } else {
        None
    }
}

impl TgaHeader {
    pub fn color_map_length(&self) -> (r: i16)
        ensures
            r == self.color_map_length,
    {
        self.color_map_length
    }

    pub fn color_map_bit_depth(&self) -> (r: i8)
        ensures
            r == self.color_map_bit_depth,
    {
        self.color_map_bit_depth
    }

    pub fn width(&self) -> (r: u16)
        ensures
            r == self.width,
    {
        self.width
    }

    pub fn height(&self) -> (r: u16)
        ensures
            r == self.height,
    {
        self.height
    }

    pub fn bit_depth(&self) -> (r: i8)
        ensures
            r == self.bit_depth,
    {
        self.bit_depth
    }

    /// Reads the header at the start of `bytes`, and returns it with its size, 18.
    pub fn try_read(bytes: &[u8]) -> (r: Result<(TgaHeader, usize), ReadError>)
        ensures
            match sp_tga_header(bytes@) {
                Some(h) => r == Ok::<(TgaHeader, usize), ReadError>((h, 18)),
                None => r == Err::<(TgaHeader, usize), ReadError>(ReadError::Incomplete),
            },
    {
        if bytes.len() < 18 {
            return Err(ReadError::Incomplete);
        }
        let (id_length, _) = read_i8(bytes, 0).unwrap();
        let (color_map_type, _) = read_i8(bytes, 1).unwrap();
        let (image_type, _) = read_i8(bytes, 2).unwrap();
        let (color_map_start, _) = read_i16(bytes, 3).unwrap();
        let (color_map_length, _) = read_i16(bytes, 5).unwrap();
        let (color_map_bit_depth, _) = read_i8(bytes, 7).unwrap();
        let (start_x, _) = read_i16(bytes, 8).unwrap();
        let (start_y, _) = read_i16(bytes, 10).unwrap();
        let (width, _) = read_u16(bytes, 12).unwrap();
        let (height, _) = read_u16(bytes, 14).unwrap();
        let (bit_depth, _) = read_i8(bytes, 16).unwrap();
        let (desc, _) = read_i8(bytes, 17).unwrap();
        Ok((
            TgaHeader {
                id_length,
                color_map_type,
                image_type,
                color_map_start,
                color_map_length,
                color_map_bit_depth,
                start_x,
                start_y,
                width,
                height,
                bit_depth,
                desc,
            },
            18,
        ))
    }
}

/// A color packed as `0xAABBGGRR`, each channel clamped to `[0, 255]`.
#[derive(Clone, Copy, Debug, PartialEq, Eq, Structural)]
pub struct Color {
    pub abgr: i32,
}

/// The packed value of a color.
pub open spec fn abgr_of(red: i32, green: i32, blue: i32, alpha: i32) -> i32 {
    ((clamped(alpha as int, 0, 255) as i32) << 24u32) | (clamped(red as int, 0, 255) as i32) | ((clamped(
        green as int,
        0,
        255,
    ) as i32) << 8u32) | ((clamped(blue as int, 0, 255) as i32) << 16u32)
}

impl Color {
    pub fn new(red: i32, green: i32, blue: i32, alpha: i32) -> (r: Self)
        ensures
            r.abgr == abgr_of(red, green, blue, alpha),
    {
        let a = clamp(alpha, 0, 255);
        let rr = clamp(red, 0, 255);
        let g = clamp(green, 0, 255);
        let b = clamp(blue, 0, 255);
        Color { abgr: (a << 24u32) | rr | (g << 8u32) | (b << 16u32) }
    }
}

/// The colors of a color map.
#[derive(Clone, Debug)]
pub struct Palette {
    pub colors: Vec<Color>,
}

impl Palette {
    pub fn new() -> (r: Self)
        ensures
            r.colors@ == Seq::<Color>::empty(),
    {
        Palette { colors: Vec::new() }
    }

    pub fn add_color(&mut self, color: Color)
        ensures
            final(self).colors@ == old(self).colors@.push(color),
    {
        self.colors.push(color);
    }
}

/// A palette entry: blue, green and red as `i8` values, kept as a color whose red is -1
/// (clamped to 0), green the stored red, blue the stored green and alpha the stored blue,
/// as the image is built.
pub open spec fn palette_fn(d: Seq<u8>) -> spec_fn(nat) -> Option<(Color, nat)> {
    |p: nat| if p + 3 <= d.len() {
        Some(
            (
                Color {
                    abgr: abgr_of(
                        -1i32,
                        i8_at(d, p + 2int) as i32,
                        i8_at(d, p + 1int) as i32,
                        i8_at(d, p as int) as i32,
                    ),
                },
                p + 3,
            ),
        )
    } else {
        None
    }
}

/// The bytes of one row: `width * bit_depth / 8`, rounded down, and 0 for a depth that is
/// not positive.
pub open spec fn tga_line_size(width: u16, bit_depth: i8) -> int {
    if bit_depth <= 0 {
        0
    } else {
        (width as int * bit_depth as int) / 8
    }
}

/// A TGA image: its header, its palette when it has one, and its pixel bytes.
#[derive(Clone, Debug)]
pub struct Tga {
    pub header: TgaHeader,
    pub palette: Option<Palette>,
    pub bytes: Vec<u8>,
}

pub struct TgaView {
    pub header: TgaHeader,
    pub palette: Option<Seq<Color>>,
    pub bytes: Seq<u8>,
}

impl View for Tga {
    type V = TgaView;

    open spec fn view(&self) -> TgaView {
        TgaView {
            header: self.header,
            palette: match self.palette {
                Some(p) => Some(p.colors@),
                None => None,
            },
            bytes: self.bytes@,
        }
    }
}

/// Where the color map ends, and the palette that it holds. A color map of depth 4 or 8
/// is read as `color_map_length` colors; any other is skipped, its size being the length
/// times the depth in `i16` arithmetic (which panics when it overflows). A
/// negative size moves the offset back: by at most 18 bytes it overflows and
/// panics; by more it wraps to an offset past the end.
pub open spec fn sp_tga_palette(d: Seq<u8>, h: TgaHeader) -> crate::parse::Parsed<Option<Seq<Color>>> {
    if h.color_map_length != 0 {
        if h.bit_depth != 4 && h.bit_depth != 8 {
            let ps = h.color_map_length as int * h.color_map_bit_depth as int;
            if ps < i16::MIN || ps > i16::MAX {
                crate::parse::Parsed::Panics
            } else if ps < -18 {
                crate::parse::Parsed::Fails(ReadError::BadOffset((usize::MAX + 19 + ps) as usize))
            } else if ps < 0 {
                crate::parse::Parsed::Panics
            } else {
                crate::parse::Parsed::Done(None, (18 + ps) as nat)
            }
        } else {
            match crate::parse::sp_many(crate::anm_frame::loop_count(h.color_map_length as int), 18, palette_fn(d)) {
                Some((cs, q)) => crate::parse::Parsed::Done(Some(cs), q),
                None => crate::parse::Parsed::Fails(ReadError::Incomplete),
            }
        }
    } else {
        crate::parse::Parsed::Done(None, 18)
    }
}

/// A TGA image at the start of `d`: the header, the color map, then `height` rows of pixel
/// bytes. The end of the image is the size read.
pub open spec fn sp_tga(d: Seq<u8>) -> crate::parse::Parsed<TgaView> {
    match sp_tga_header(d) {
        None => crate::parse::Parsed::Fails(ReadError::Incomplete),
        Some(h) => match sp_tga_palette(d, h) {
            crate::parse::Parsed::Done(palette, off) => {
                let n = h.height as int * tga_line_size(h.width, h.bit_depth);
                if off > d.len() {
                    crate::parse::Parsed::Fails(ReadError::BadOffset(off as usize))
                } else if off + n > d.len() {
                    crate::parse::Parsed::Fails(ReadError::Incomplete)
                } else {
                    crate::parse::Parsed::Done(
                        TgaView { header: h, palette, bytes: d.subrange(off as int, off + n) },
                        (off + n) as nat,
                    )
                }
            },
            crate::parse::Parsed::Fails(e) => crate::parse::Parsed::Fails(e),
            crate::parse::Parsed::Panics => crate::parse::Parsed::Panics,
        },
    }
}

/// The bytes of `d` from `p` to `p + n`.
pub fn copy_range(d: &[u8], p: usize, n: usize) -> (r: Vec<u8>)
    requires
        p + n <= d@.len(),
    ensures
        r@ == d@.subrange(p as int, p + n),
{
    let mut out: Vec<u8> = Vec::new();
    let mut i: usize = 0;
    while i < n
        invariant
            p + n <= d@.len(),
            i <= n,
            out@ == d@.subrange(p as int, p + i),
        decreases n - i,
    {
        assert(p + i < d.len());
        out.push(d[p + i]);
        proof {
            assert(out@ =~= d@.subrange(p as int, p + i + 1));
        }
        i = i + 1;
    }
    out
}

impl Tga {
    pub fn bytes(&self) -> (r: &[u8])
        ensures
            r@ == self@.bytes,
    {
        self.bytes.as_slice()
    }

    pub fn width(&self) -> (r: u16)
        ensures
            r == self@.header.width,
    {
        self.header.width()
    }

    pub fn height(&self) -> (r: u16)
        ensures
            r == self@.header.height,
    {
        self.header.height()
    }

    /// Reads an image at the start of `bytes` (see [`sp_tga`]), and returns it with its
    /// size, on the inputs where [`sp_tga`] does not panic.
    pub fn try_read(bytes: &[u8]) -> (r: Result<(Tga, usize), ReadError>)
        requires
            !(sp_tga(bytes@) is Panics),
        ensures
            match sp_tga(bytes@) {
                crate::parse::Parsed::Done(v, q) => r matches Ok((t, n)) && t@ == v && n == q,
                crate::parse::Parsed::Fails(e) => r == Err::<(Tga, usize), ReadError>(e),
                crate::parse::Parsed::Panics => false,
            },
    {
        match Self::read_checked(bytes) {
            Some(r) => r,
            None => Err(ReadError::BadInput),
        }
    }

    /// Reads an image like [`Tga::try_read`], on every input: `None` where [`sp_tga`]
    /// panics.
    pub fn read_checked(bytes: &[u8]) -> (r: Option<Result<(Tga, usize), ReadError>>)
        ensures
            match sp_tga(bytes@) {
                crate::parse::Parsed::Done(v, q) => r matches Some(Ok((t, n))) && t@ == v && n == q,
                crate::parse::Parsed::Fails(e) => r == Some(Err::<(Tga, usize), ReadError>(e)),
                crate::parse::Parsed::Panics => r is None,
            },
    {
        let (header, _) = match TgaHeader::try_read(bytes) {
            Ok(v) => v,
            Err(e) => return Some(Err(e)),
        };
        let ghost d = bytes@;
        let mut opt_palette: Option<Palette> = None;
        let mut offset: usize = 18;
        if header.color_map_length() != 0 {
            if header.bit_depth() != 4 && header.bit_depth() != 8 {
                let cl: i32 = header.color_map_length() as i32;
                let cd: i32 = header.color_map_bit_depth() as i32;
                assert(-32768 * 128 <= cl * cd <= 32768 * 128) by (nonlinear_arith)
                    requires
                        -32768 <= cl <= 32767,
                        -128 <= cd <= 127,
                ;
                let wide: i32 = cl * cd;
                if wide < -32768 || wide > 32767 || (-18 <= wide && wide < 0) {
                    return None;
                }
                let palette_size = wide as i16;
                if palette_size < -18 {
                    let k = (-(palette_size as i32)) as usize;
                    return Some(Err(ReadError::BadOffset(usize::MAX - (k - 19))));
                }
                offset = 18 + palette_size as usize;
            } else {
                let mut palette = Palette::new();
                let n = header.color_map_length();
                let ghost f = palette_fn(d);
                let mut i: i16 = 0;
                while i < n
                    invariant
                        d == bytes@,
                        f == palette_fn(d),
                        sp_tga_header(d) == Some(header),
                        header.color_map_length == n,
                        header.bit_depth == 4 || header.bit_depth == 8,
                        0 <= i,
                        n >= 0 ==> i <= n,
                        n < 0 ==> i == 0,
                        crate::parse::sp_many(i as nat, 18, f) == Some((palette.colors@, offset as nat)),
                    decreases n - i,
                {
                    if offset >= bytes.len() || bytes.len() - offset < 3 {
                        proof {
                            crate::parse::lemma_many_fails((i + 1) as nat, crate::anm_frame::loop_count(n as int), 18, f);
                        }
                        return Some(Err(ReadError::Incomplete));
                    }
                    let (b, _) = read_i8(bytes, offset).unwrap();
                    let (g, _) = read_i8(bytes, offset + 1).unwrap();
                    let (r, _) = read_i8(bytes, offset + 2).unwrap();
                    palette.add_color(Color::new(-1, r as i32, g as i32, b as i32));
                    offset = offset + 3;
                    i = i + 1;
                }
                proof {
                    assert(crate::anm_frame::loop_count(n as int) == i as nat);
                }
                opt_palette = Some(palette);
            }
        }
        let line_size: u64 = if header.bit_depth() <= 0 {
            0
        } else {
            let w = header.width() as u64;
            let bd = header.bit_depth() as u64;
            assert(w * bd <= 65535 * 127) by (nonlinear_arith)
                requires
                    w <= 65535,
                    bd <= 127,
            ;
            (w * bd) / 8
        };
        let h = header.height() as u64;
        assert(h * line_size <= 65535 * (65535 * 127)) by (nonlinear_arith)
            requires
                h <= 65535,
                line_size <= 65535 * 127,
        ;
        let n: u64 = h * line_size;
        if offset > bytes.len() {
            return Some(Err(ReadError::BadOffset(offset)));
        }
        if n > (bytes.len() - offset) as u64 {
            return Some(Err(ReadError::Incomplete));
        }
        let tga_bytes = copy_range(bytes, offset, n as usize);
        Some(Ok((Tga { header, palette: opt_palette, bytes: tga_bytes }, offset + n as usize)))
    }
}

/// Reads TGA images.
pub struct TgaLoader;

impl TgaLoader {
    /// Reads an image from `bytes`; a start past the end is reported as `Incomplete`.
    pub fn load(bytes: &[u8]) -> (r: Result<Tga, ReadError>)
        requires
            !(sp_tga(bytes@) is Panics),
        ensures
            match sp_tga(bytes@) {
                crate::parse::Parsed::Done(v, _q) => r matches Ok(t) && t@ == v,
                crate::parse::Parsed::Fails(e) => r == Err::<Tga, ReadError>(
                    match e {
                        ReadError::BadOffset(_) => ReadError::Incomplete,
                        _ => e,
                    },
                ),
                crate::parse::Parsed::Panics => false,
            },
    {
        match Tga::try_read(bytes) {
            Ok((t, _)) => Ok(t),
            Err(ReadError::BadOffset(_)) => Err(ReadError::Incomplete),
            Err(e) => Err(e),
        }
    }

    /// Reads an image like [`TgaLoader::load`], on every input: `None` where [`sp_tga`]
    /// panics.
    pub fn load_checked(bytes: &[u8]) -> (r: Option<Result<Tga, ReadError>>)
        ensures
            match sp_tga(bytes@) {
                crate::parse::Parsed::Done(v, _q) => r matches Some(Ok(t)) && t@ == v,
                crate::parse::Parsed::Fails(e) => r == Some(Err::<Tga, ReadError>(
                    match e {
                        ReadError::BadOffset(_) => ReadError::Incomplete,
                        _ => e,
                    },
                )),
                crate::parse::Parsed::Panics => r is None,
            },
    {
        match Tga::read_checked(bytes) {
            Some(Ok((t, _))) => Some(Ok(t)),
            Some(Err(ReadError::BadOffset(_))) => Some(Err(ReadError::Incomplete)),
            Some(Err(e)) => Some(Err(e)),
            None => None,
        }
    }
}

/// The pixels of a particle texture with its rows in reverse order (see [`is_corner`]);
/// `None` when the texture holds fewer than four bytes for each of its pixels.
pub fn flipped_rows(tga: &Tga) -> (r: Option<Vec<u8>>)
    ensures
        r is None <==> tga@.bytes.len() < 4 * tga@.header.width * tga@.header.height,
        r matches Some(v) ==> is_corner(
            v@,
            tga@.bytes,
            tga@.header.width as int,
            tga@.header.width as int,
            tga@.header.height as int,
            false,
            true,
        ),
{
    let w = tga.width() as u32;
    let h = tga.height() as u32;
    corner_pixels(tga.bytes(), w, h, w, h, false, true)
}

} // verus!
