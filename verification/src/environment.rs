//! The environment of a map chunk: its particle systems, sounds, ambiances, interactive
//! elements and dynamic elements.
//!
//! Numbers are little-endian. Each list is given by its length, a byte, and its items are
//! read one after another; a list ends early at the first item that the data cannot hold,
//! and the reading goes on after the items that were read.
use vstd::prelude::*;
use vstd::utf8::valid_utf8;
use vstd::string::StrSliceExecFns;
use crate::buffer::{i8_of, i16_of, i32_of, i64_of, buffer_from_vec};
use crate::error::{LoadError, ReadError};
use crate::archive::{zip_bytes, zip_count, zip_entry_bytes, zip_entry_count, zip_entry_name, zip_name};
use crate::bytes::{
    le_at, fits, find_byte, lemma_find_byte, lemma_uint_le_2, read_u8, read_i8, read_u16, read_i16, read_i32, read_u32, read_i64,
    read_delimited, is_utf8,
};
use crate::parse::{Parsed, sp_upto, after, lemma_upto_step, lemma_upto_not_fails};
use crate::interactive_element_data::{InteractiveElementData, sp_element_data, parts_view};
use crate::binar_serial_part::PartView;

verus! {

/// The position of an element on the map.
#[derive(Debug, Clone, Copy)]
pub struct ElementCoord {
    pub x: i8,
    pub y: i8,
    pub z: i16,
}

/// A particle system placed on the map. `unknown` holds the bits of a 32-bit float.
#[derive(Debug, Clone, Copy)]
pub struct ParticleDef {
    pub coord: ElementCoord,
    pub system_id: i32,
    pub level: i8,
    pub unknown: u32,
    pub offset_x: i8,
    pub offset_y: i8,
    pub offset_z: i8,
    pub lod: i8,
}

/// A sound placed on the map.
#[derive(Debug, Clone, Copy)]
pub struct Sound {
    pub coord: ElementCoord,
    pub sound_id: i32,
}

/// The coordinates held by the four bytes at `p`: `x` and `y` as `i8`, `z` as an `i16`.
pub open spec fn coord_val(d: Seq<u8>, p: int) -> ElementCoord {
    ElementCoord {
        x: i8_of(d[p] as int) as i8,
        y: i8_of(d[p + 1] as int) as i8,
        z: i16_of(le_at(d, p + 2, 2) as int) as i16,
    }
}

/// The particle system held by the 17 bytes at `p`: its coordinates, the system as an
/// `i32`, the level as an `i8`, a float, then the three offsets and the level of detail
/// as `i8`.
pub open spec fn particle_val(d: Seq<u8>, p: int) -> ParticleDef {
    ParticleDef {
        coord: coord_val(d, p),
        system_id: i32_of(le_at(d, p + 4, 4) as int) as i32,
        level: i8_of(d[p + 8] as int) as i8,
        unknown: le_at(d, p + 9, 4) as u32,
        offset_x: i8_of(d[p + 13] as int) as i8,
        offset_y: i8_of(d[p + 14] as int) as i8,
        offset_z: i8_of(d[p + 15] as int) as i8,
        lod: i8_of(d[p + 16] as int) as i8,
    }
}

/// The sound held by the eight bytes at `p`: its coordinates and the sound as an `i32`.
pub open spec fn sound_val(d: Seq<u8>, p: int) -> Sound {
    Sound { coord: coord_val(d, p), sound_id: i32_of(le_at(d, p + 4, 4) as int) as i32 }
}

/// How many items of `size` bytes are read from `p` on when at most `m` are asked for:
/// as many as the data holds, at most `m`.
pub open spec fn count_upto(d: Seq<u8>, p: int, size: int, m: nat) -> nat {
    let avail = if p <= d.len() {
        (d.len() - p) / size
    } else {
        0
    };
    if avail < m {
        avail as nat
    } else {
        m
    }
}

/// The particle systems read from `p` on, at most `m` of them.
pub open spec fn particles_upto(d: Seq<u8>, p: int, m: nat) -> Seq<ParticleDef> {
    Seq::new(count_upto(d, p, 17, m), |j: int| particle_val(d, p + 17 * j))
}

/// The sounds read from `p` on, at most `m` of them.
pub open spec fn sounds_upto(d: Seq<u8>, p: int, m: nat) -> Seq<Sound> {
    Seq::new(count_upto(d, p, 8, m), |j: int| sound_val(d, p + 8 * j))
}

/// The `i32` values read from `p` on, at most `m` of them.
pub open spec fn i32s_upto(d: Seq<u8>, p: int, m: nat) -> Seq<i32> {
    Seq::new(count_upto(d, p, 4, m), |j: int| i32_of(le_at(d, p + 4 * j, 4) as int) as i32)
}

/// The bytes read from `p` on, at most `m` of them.
pub open spec fn bytes_upto(d: Seq<u8>, p: int, m: nat) -> Seq<u8> {
    d.subrange(p, p + count_upto(d, p, 1, m))
}

/// Reads the coordinates at `off`, with the offset after them.
fn coord_at(bytes: &[u8], off: usize) -> (r: Option<(ElementCoord, usize)>)
    ensures
        r == (if fits(bytes@, off as int, 4) {
            Some((coord_val(bytes@, off as int), (off + 4) as usize))
        } else {
            None::<(ElementCoord, usize)>
        }),
{
    if !(off <= bytes.len() && bytes.len() - off >= 4) {
        return None;
    }
    let (x, o1) = read_i8(bytes, off)?;
    let (y, o2) = read_i8(bytes, o1)?;
    let (z, o3) = read_i16(bytes, o2)?;
    Some((ElementCoord { x, y, z }, o3))
}

/// Reads the particle system at `off`, with the offset after it.
fn particle_at(bytes: &[u8], off: usize) -> (r: Option<(ParticleDef, usize)>)
    ensures
        r == (if fits(bytes@, off as int, 17) {
            Some((particle_val(bytes@, off as int), (off + 17) as usize))
        } else {
            None::<(ParticleDef, usize)>
        }),
{
    if !(off <= bytes.len() && bytes.len() - off >= 17) {
        return None;
    }
    let (coord, o) = coord_at(bytes, off)?;
    let (system_id, o) = read_i32(bytes, o)?;
    let (level, o) = read_i8(bytes, o)?;
    let (unknown, o) = read_u32(bytes, o)?;
    let (offset_x, o) = read_i8(bytes, o)?;
    let (offset_y, o) = read_i8(bytes, o)?;
    let (offset_z, o) = read_i8(bytes, o)?;
    let (lod, o) = read_i8(bytes, o)?;
    Some((ParticleDef { coord, system_id, level, unknown, offset_x, offset_y, offset_z, lod }, o))
}

/// Reads the sound at `off`, with the offset after it.
fn sound_at(bytes: &[u8], off: usize) -> (r: Option<(Sound, usize)>)
    ensures
        r == (if fits(bytes@, off as int, 8) {
            Some((sound_val(bytes@, off as int), (off + 8) as usize))
        } else {
            None::<(Sound, usize)>
        }),
{
    if !(off <= bytes.len() && bytes.len() - off >= 8) {
        return None;
    }
    let (coord, o) = coord_at(bytes, off)?;
    let (sound_id, o) = read_i32(bytes, o)?;
    Some((Sound { coord, sound_id }, o))
}

impl ElementCoord {
    /// Reads the coordinates at the start of `bytes`, with their size; `Incomplete` when
    /// fewer than four bytes are there.
    pub fn try_read(bytes: &[u8]) -> (r: Result<(ElementCoord, usize), ReadError>)
        ensures
            r == (if fits(bytes@, 0, 4) {
                Ok((coord_val(bytes@, 0), 4usize))
            } else {
                Err::<(ElementCoord, usize), ReadError>(ReadError::Incomplete)
            }),
    {
        match coord_at(bytes, 0) {
            Some(x) => Ok(x),
            None => Err(ReadError::Incomplete),
        }
    }
}

impl ParticleDef {
    /// Reads the particle system at the start of `bytes`, with its size; `Incomplete`
    /// when fewer than 17 bytes are there.
    pub fn try_read(bytes: &[u8]) -> (r: Result<(ParticleDef, usize), ReadError>)
        ensures
            r == (if fits(bytes@, 0, 17) {
                Ok((particle_val(bytes@, 0), 17usize))
            } else {
                Err::<(ParticleDef, usize), ReadError>(ReadError::Incomplete)
            }),
    {
        match particle_at(bytes, 0) {
            Some(x) => Ok(x),
            None => Err(ReadError::Incomplete),
        }
    }
}

impl Sound {
    /// Reads the sound at the start of `bytes`, with its size; `Incomplete` when fewer
    /// than eight bytes are there.
    pub fn try_read(bytes: &[u8]) -> (r: Result<(Sound, usize), ReadError>)
        ensures
            r == (if fits(bytes@, 0, 8) {
                Ok((sound_val(bytes@, 0), 8usize))
            } else {
                Err::<(Sound, usize), ReadError>(ReadError::Incomplete)
            }),
    {
        match sound_at(bytes, 0) {
            Some(x) => Ok(x),
            None => Err(ReadError::Incomplete),
        }
    }
}

/// Reads the particle systems from `off` on, at most `m` (see [`particles_upto`]), with
/// the offset after them.
fn read_particles_upto(bytes: &[u8], off: usize, m: u8) -> (r: (Vec<ParticleDef>, usize))
    requires
        off <= bytes@.len(),
    ensures
        r.0@ == particles_upto(bytes@, off as int, m as nat),
        r.1 == off + 17 * r.0@.len(),
{
    let mut out: Vec<ParticleDef> = Vec::new();
    let mut o = off;
    let mut i: u8 = 0;
    while i < m
        invariant
            off <= o <= bytes@.len(),
            o == off + 17 * out@.len(),
            out@.len() == i,
            i <= m,
            forall|j: int| 0 <= j < i ==> out@[j] == particle_val(bytes@, off + 17 * j),
        decreases m - i,
    {
        match particle_at(bytes, o) {
            Some((v, o2)) => {
                assert(fits(bytes@, o as int, 17));
                assert(o + 17 <= bytes.len());
                out.push(v);
                o = o2;
            },
            None => {
                proof {
                    assert((bytes@.len() - off) / 17 == i as int);
                    assert(out@ =~= particles_upto(bytes@, off as int, m as nat));
                }
                return (out, o);
            },
        }
        i = i + 1;
    }
    proof {
        assert((bytes@.len() - off) / 17 >= m as int);
        assert(out@ =~= particles_upto(bytes@, off as int, m as nat));
    }
    (out, o)
}

/// Reads the sounds from `off` on, at most `m` (see [`sounds_upto`]), with the offset
/// after them.
fn read_sounds_upto(bytes: &[u8], off: usize, m: u8) -> (r: (Vec<Sound>, usize))
    requires
        off <= bytes@.len(),
    ensures
        r.0@ == sounds_upto(bytes@, off as int, m as nat),
        r.1 == off + 8 * r.0@.len(),
{
    let mut out: Vec<Sound> = Vec::new();
    let mut o = off;
    let mut i: u8 = 0;
    while i < m
        invariant
            off <= o <= bytes@.len(),
            o == off + 8 * out@.len(),
            out@.len() == i,
            i <= m,
            forall|j: int| 0 <= j < i ==> out@[j] == sound_val(bytes@, off + 8 * j),
        decreases m - i,
    {
        match sound_at(bytes, o) {
            Some((v, o2)) => {
                assert(fits(bytes@, o as int, 8));
                assert(o + 8 <= bytes.len());
                out.push(v);
                o = o2;
            },
            None => {
                proof {
                    assert((bytes@.len() - off) / 8 == i as int);
                    assert(out@ =~= sounds_upto(bytes@, off as int, m as nat));
                }
                return (out, o);
            },
        }
        i = i + 1;
    }
    proof {
        assert((bytes@.len() - off) / 8 >= m as int);
        assert(out@ =~= sounds_upto(bytes@, off as int, m as nat));
    }
    (out, o)
}

/// Reads the `i32` values from `off` on, at most `m` (see [`i32s_upto`]), with the
/// offset after them.
fn read_i32s_upto(bytes: &[u8], off: usize, m: u8) -> (r: (Vec<i32>, usize))
    requires
        off <= bytes@.len(),
    ensures
        r.0@ == i32s_upto(bytes@, off as int, m as nat),
        r.1 == off + 4 * r.0@.len(),
{
    let mut out: Vec<i32> = Vec::new();
    let mut o = off;
    let mut i: u8 = 0;
    while i < m
        invariant
            off <= o <= bytes@.len(),
            o == off + 4 * out@.len(),
            out@.len() == i,
            i <= m,
            forall|j: int| 0 <= j < i ==> out@[j] == i32_of(le_at(bytes@, off + 4 * j, 4) as int) as i32,
        decreases m - i,
    {
        match read_i32(bytes, o) {
            Some((v, o2)) => {
                assert(fits(bytes@, o as int, 4));
                assert(o + 4 <= bytes.len());
                out.push(v);
                o = o2;
            },
            None => {
                proof {
                    assert((bytes@.len() - off) / 4 == i as int);
                    assert(out@ =~= i32s_upto(bytes@, off as int, m as nat));
                }
                return (out, o);
            },
        }
        i = i + 1;
    }
    proof {
        assert((bytes@.len() - off) / 4 >= m as int);
        assert(out@ =~= i32s_upto(bytes@, off as int, m as nat));
    }
    (out, o)
}

/// Reads the bytes from `off` on, at most `m` (see [`bytes_upto`]), with the offset
/// after them.
fn read_bytes_upto(bytes: &[u8], off: usize, m: u16) -> (r: (Vec<u8>, usize))
    requires
        off <= bytes@.len(),
    ensures
        r.0@ == bytes_upto(bytes@, off as int, m as nat),
        r.1 == off + r.0@.len(),
{
    let mut out: Vec<u8> = Vec::new();
    let mut o = off;
    let mut i: u16 = 0;
    while i < m
        invariant
            off <= o <= bytes@.len(),
            o == off + out@.len(),
            out@.len() == i,
            i <= m,
            out@ == bytes@.subrange(off as int, o as int),
        decreases m - i,
    {
        match read_u8(bytes, o) {
            Some((v, o2)) => {
                assert(fits(bytes@, o as int, 1));
                assert(o + 1 <= bytes.len());
                out.push(v);
                proof {
                    assert(out@ =~= bytes@.subrange(off as int, o2 as int));
                }
                o = o2;
            },
            None => {
                return (out, o);
            },
        }
        i = i + 1;
    }
    (out, o)
}

/// An interactive element of the map.
#[derive(Debug)]
pub struct InteractiveElement {
    pub id: i64,
    pub interactive_type: i16,
    pub views: Vec<i32>,
    pub data: InteractiveElementData,
    pub client_only: u8,
    pub land_mark_type: i16,
}

/// What an interactive element holds, its parts taken by their views.
pub struct InteractiveElementView {
    pub id: i64,
    pub interactive_type: i16,
    pub views: Seq<i32>,
    pub data: Seq<PartView>,
    pub client_only: u8,
    pub land_mark_type: i16,
}

impl View for InteractiveElement {
    type V = InteractiveElementView;

    open spec fn view(&self) -> InteractiveElementView {
        InteractiveElementView {
            id: self.id,
            interactive_type: self.interactive_type,
            views: self.views@,
            data: parts_view(self.data.data@),
            client_only: self.client_only,
            land_mark_type: self.land_mark_type,
        }
    }
}

/// An element of the map that is animated. Its two names are UTF-8.
#[derive(Debug)]
pub struct DynamicElementDef {
    pub coord: ElementCoord,
    pub id: i32,
    pub gfx_id: i32,
    pub dynamic_type: i16,
    pub direction: i8,
    pub occluder: i8,
    pub height: i8,
    pub base_animation: Vec<u8>,
    pub params: Vec<u8>,
}

/// What a dynamic element holds.
pub struct DynamicElementDefView {
    pub coord: ElementCoord,
    pub id: i32,
    pub gfx_id: i32,
    pub dynamic_type: i16,
    pub direction: i8,
    pub occluder: i8,
    pub height: i8,
    pub base_animation: Seq<u8>,
    pub params: Seq<u8>,
}

impl View for DynamicElementDef {
    type V = DynamicElementDefView;

    open spec fn view(&self) -> DynamicElementDefView {
        DynamicElementDefView {
            coord: self.coord,
            id: self.id,
            gfx_id: self.gfx_id,
            dynamic_type: self.dynamic_type,
            direction: self.direction,
            occluder: self.occluder,
            height: self.height,
            base_animation: self.base_animation@,
            params: self.params@,
        }
    }
}

/// The start of the interactive element at `p`: its id as an `i64`, its type as an
/// `i16`, a byte count of views and up to that many `i32` views, then a `u16` count of
/// data bytes and up to that many bytes; with the position after them.
pub open spec fn interactive_head(d: Seq<u8>, at: nat) -> Option<(i64, i16, Seq<i32>, Seq<u8>, nat)> {
    let p = at as int;
    if !fits(d, p, 11) {
        None
    } else {
        let views = i32s_upto(d, p + 11, d[p + 10] as nat);
        let p4 = p + 11 + 4 * views.len();
        if !fits(d, p4, 2) {
            None
        } else {
            let data = bytes_upto(d, p4 + 2, le_at(d, p4, 2));
            Some((
                i64_of(le_at(d, p, 8) as int) as i64,
                i16_of(le_at(d, p + 8, 2) as int) as i16,
                views,
                data,
                (p4 + 2 + data.len()) as nat,
            ))
        }
    }
}

/// The interactive element at `p`: its start (see [`interactive_head`]), then the
/// client-only flag as a byte and the landmark type as an `i16`. The data bytes hold the
/// element's parts (see [`sp_element_data`], read from their start, most significant
/// byte first); reading panics where they cannot be read.
#[verifier::opaque]
pub open spec fn sp_interactive(d: Seq<u8>, p: nat) -> Parsed<InteractiveElementView> {
    match interactive_head(d, p) {
        None => Parsed::Fails(ReadError::Incomplete),
        Some((id, interactive_type, views, data, q)) => match sp_element_data(data, 0, false, 0) {
            Parsed::Done(parts, _) => if !fits(d, q as int, 3) {
                Parsed::Fails(ReadError::Incomplete)
            } else {
                Parsed::Done(
                    InteractiveElementView {
                        id,
                        interactive_type,
                        views,
                        data: parts,
                        client_only: d[q as int],
                        land_mark_type: i16_of(le_at(d, q as int + 1, 2) as int) as i16,
                    },
                    q + 3,
                )
            },
            _ => Parsed::Panics,
        },
    }
}

/// The dynamic element at `p`: its coordinates, its id and graphics id as `i32`, its
/// type as an `i16`, its direction, occluder flag and height as `i8`, then two strings,
/// each ended by a zero byte. A string without its zero byte fails with `Incomplete`,
/// one that is not UTF-8 with `BadInput`.
#[verifier::opaque]
pub open spec fn sp_dynamic(d: Seq<u8>, at: nat) -> Parsed<DynamicElementDefView> {
    let p = at as int;
    if !fits(d, p, 17) {
        Parsed::Fails(ReadError::Incomplete)
    } else {
        match find_byte(d, p + 17, 0) {
            None => Parsed::Fails(ReadError::Incomplete),
            Some(q1) => {
                let s1 = d.subrange(p + 17, q1);
                if !valid_utf8(s1) {
                    Parsed::Fails(ReadError::BadInput)
                } else {
                    match find_byte(d, q1 + 1, 0) {
                        None => Parsed::Fails(ReadError::Incomplete),
                        Some(q2) => {
                            let s2 = d.subrange(q1 + 1, q2);
                            if !valid_utf8(s2) {
                                Parsed::Fails(ReadError::BadInput)
                            } else {
                                Parsed::Done(
                                    DynamicElementDefView {
                                        coord: coord_val(d, p),
                                        id: i32_of(le_at(d, p + 4, 4) as int) as i32,
                                        gfx_id: i32_of(le_at(d, p + 8, 4) as int) as i32,
                                        dynamic_type: i16_of(le_at(d, p + 12, 2) as int) as i16,
                                        direction: i8_of(d[p + 14] as int) as i8,
                                        occluder: i8_of(d[p + 15] as int) as i8,
                                        height: i8_of(d[p + 16] as int) as i8,
                                        base_animation: s1,
                                        params: s2,
                                    },
                                    (q2 + 1) as nat,
                                )
                            }
                        },
                    }
                }
            },
        }
    }
}

/// Reads the start of the interactive element at `off` (see [`interactive_head`]).
fn interactive_head_at(bytes: &[u8], off: usize) -> (r: Option<(i64, i16, Vec<i32>, Vec<u8>, usize)>)
    ensures
        match interactive_head(bytes@, off as nat) {
            Some((id, t, vs, db, q)) => r matches Some((id2, t2, vs2, db2, o)) && id2 == id
                && t2 == t && vs2@ == vs && db2@ == db && o == q && o <= bytes@.len(),
            None => r is None,
        },
{
    if !(off <= bytes.len() && bytes.len() - off >= 11) {
        return None;
    }
    let ghost d = bytes@;
    let (id, o) = match read_i64(bytes, off) {
        Some(x) => x,
        None => return None,
    };
    let (interactive_type, o) = match read_i16(bytes, o) {
        Some(x) => x,
        None => return None,
    };
    let (num_view, o) = match read_u8(bytes, o) {
        Some(x) => x,
        None => return None,
    };
    assert(o == off + 11);
    let (views, o) = read_i32s_upto(bytes, o, num_view);
    assert(views@ == i32s_upto(d, off + 11, d[off + 10] as nat));
    let (data_size, o) = match read_u16(bytes, o) {
        Some(x) => x,
        None => return None,
    };
    proof {
        lemma_uint_le_2(d.subrange(o - 2, o as int));
    }
    let (data_bytes, o) = read_bytes_upto(bytes, o, data_size);
    assert(o <= d.len());
    Some((id, interactive_type, views, data_bytes, o))
}

/// Reads the interactive element at `off` (see [`sp_interactive`]), with the offset
/// after it; `None` where [`sp_interactive`] panics.
fn interactive_at(bytes: &[u8], off: usize) -> (r: Option<Result<(InteractiveElement, usize), ReadError>>)
    ensures
        match sp_interactive(bytes@, off as nat) {
            Parsed::Done(v, q) => r matches Some(Ok((e, o))) && e@ == v && o == q && o <= bytes@.len(),
            Parsed::Fails(e) => r == Some(Err::<(InteractiveElement, usize), ReadError>(e)),
            Parsed::Panics => r is None,
        },
{
    reveal(sp_interactive);
    let (id, interactive_type, views, data_bytes, o) = match interactive_head_at(bytes, off) {
        Some(x) => x,
        None => return Some(Err(ReadError::Incomplete)),
    };
    let data = match InteractiveElementData::read_checked(buffer_from_vec(data_bytes), 0) {
        Some(Ok(x)) => x,
        _ => return None,
    };
    let (client_only, o) = match read_u8(bytes, o) {
        Some(x) => x,
        None => return Some(Err(ReadError::Incomplete)),
    };
    let (land_mark_type, o) = match read_i16(bytes, o) {
        Some(x) => x,
        None => return Some(Err(ReadError::Incomplete)),
    };
    assert(o <= bytes.len());
    Some(Ok((InteractiveElement { id, interactive_type, views, data, client_only, land_mark_type }, o)))
}

/// Reads the dynamic element at `off` (see [`sp_dynamic`]), with the offset after it.
fn dynamic_at(bytes: &[u8], off: usize) -> (r: Result<(DynamicElementDef, usize), ReadError>)
    ensures
        match sp_dynamic(bytes@, off as nat) {
            Parsed::Done(v, q) => r matches Ok((e, o)) && e@ == v && o == q && o <= bytes@.len(),
            Parsed::Fails(e) => r == Err::<(DynamicElementDef, usize), ReadError>(e),
            Parsed::Panics => false,
        },
{
    reveal(sp_dynamic);
    if !(off <= bytes.len() && bytes.len() - off >= 17) {
        return Err(ReadError::Incomplete);
    }
    let (coord, o) = match coord_at(bytes, off) {
        Some(x) => x,
        None => return Err(ReadError::Incomplete),
    };
    let (id, o) = match read_i32(bytes, o) {
        Some(x) => x,
        None => return Err(ReadError::Incomplete),
    };
    let (gfx_id, o) = match read_i32(bytes, o) {
        Some(x) => x,
        None => return Err(ReadError::Incomplete),
    };
    let (dynamic_type, o) = match read_i16(bytes, o) {
        Some(x) => x,
        None => return Err(ReadError::Incomplete),
    };
    let (direction, o) = match read_i8(bytes, o) {
        Some(x) => x,
        None => return Err(ReadError::Incomplete),
    };
    let (occluder, o) = match read_i8(bytes, o) {
        Some(x) => x,
        None => return Err(ReadError::Incomplete),
    };
    let (height, o) = match read_i8(bytes, o) {
        Some(x) => x,
        None => return Err(ReadError::Incomplete),
    };
    proof {
        lemma_find_byte(bytes@, o as int, 0);
    }
    let (base_animation, o) = match read_delimited(bytes, o, 0) {
        Some(x) => x,
        None => return Err(ReadError::Incomplete),
    };
    if !is_utf8(base_animation.as_slice()) {
        return Err(ReadError::BadInput);
    }
    proof {
        lemma_find_byte(bytes@, o as int, 0);
    }
    let (params, o) = match read_delimited(bytes, o, 0) {
        Some(x) => x,
        None => return Err(ReadError::Incomplete),
    };
    if !is_utf8(params.as_slice()) {
        return Err(ReadError::BadInput);
    }
    assert(o <= bytes.len());
    Ok((
        DynamicElementDef {
            coord,
            id,
            gfx_id,
            dynamic_type,
            direction,
            occluder,
            height,
            base_animation,
            params,
        },
        o,
    ))
}

impl InteractiveElement {
    /// Reads the interactive element at the start of `bytes` (see [`sp_interactive`]),
    /// with its size, on the inputs where [`sp_interactive`] does not panic.
    pub fn try_read(bytes: &[u8]) -> (r: Result<(InteractiveElement, usize), ReadError>)
        requires
            !(sp_interactive(bytes@, 0) is Panics),
        ensures
            match sp_interactive(bytes@, 0) {
                Parsed::Done(v, q) => r matches Ok((e, n)) && e@ == v && n == q,
                Parsed::Fails(e) => r == Err::<(InteractiveElement, usize), ReadError>(e),
                Parsed::Panics => false,
            },
    {
        match Self::read_checked(bytes) {
            Some(r) => r,
            None => Err(ReadError::BadInput),
        }
    }

    /// Reads the interactive element like [`InteractiveElement::try_read`], on every
    /// input: `None` where [`sp_interactive`] panics.
    pub fn read_checked(bytes: &[u8]) -> (r: Option<Result<(InteractiveElement, usize), ReadError>>)
        ensures
            match sp_interactive(bytes@, 0) {
                Parsed::Done(v, q) => r matches Some(Ok((e, n))) && e@ == v && n == q,
                Parsed::Fails(e) => r == Some(Err::<(InteractiveElement, usize), ReadError>(e)),
                Parsed::Panics => r is None,
            },
    {
        interactive_at(bytes, 0)
    }
}

impl DynamicElementDef {
    /// Reads the dynamic element at the start of `bytes` (see [`sp_dynamic`]), with its
    /// size.
    pub fn try_read(bytes: &[u8]) -> (r: Result<(DynamicElementDef, usize), ReadError>)
        ensures
            match sp_dynamic(bytes@, 0) {
                Parsed::Done(v, q) => r matches Ok((e, n)) && e@ == v && n == q,
                Parsed::Fails(e) => r == Err::<(DynamicElementDef, usize), ReadError>(e),
                Parsed::Panics => false,
            },
    {
        dynamic_at(bytes, 0)
    }
}

/// The interactive elements read one after another from a position.
pub open spec fn interactive_fn(d: Seq<u8>) -> spec_fn(nat) -> Parsed<InteractiveElementView> {
    |p: nat| sp_interactive(d, p)
}

/// The dynamic elements read one after another from a position.
pub open spec fn dynamic_fn(d: Seq<u8>) -> spec_fn(nat) -> Parsed<DynamicElementDefView> {
    |p: nat| sp_dynamic(d, p)
}

/// The views of a list of interactive elements.
pub open spec fn interactives_view(v: Seq<InteractiveElement>) -> Seq<InteractiveElementView> {
    v.map_values(|e: InteractiveElement| e@)
}

/// The views of a list of dynamic elements.
pub open spec fn dynamics_view(v: Seq<DynamicElementDef>) -> Seq<DynamicElementDefView> {
    v.map_values(|e: DynamicElementDef| e@)
}

/// Reads the interactive elements from `off` on, at most `m` (see [`sp_upto`]), with the
/// offset after them; `None` where [`sp_upto`] panics.
fn read_interactives_upto(bytes: &[u8], off: usize, m: u8) -> (r: Option<(Vec<InteractiveElement>, usize)>)
    requires
        off <= bytes@.len(),
    ensures
        match sp_upto(m as nat, off as nat, interactive_fn(bytes@)) {
            Parsed::Done(v, q) => r matches Some((x, o)) && interactives_view(x@) == v && o == q && o <= bytes@.len(),
            Parsed::Fails(_) => false,
            Parsed::Panics => r is None,
        },
{
    let ghost f = interactive_fn(bytes@);
    let mut out: Vec<InteractiveElement> = Vec::new();
    let mut o = off;
    let mut i: u8 = 0;
    proof {
        assert(interactives_view(out@) + Seq::<InteractiveElementView>::empty() =~= Seq::<InteractiveElementView>::empty());
        lemma_upto_not_fails(m as nat, off as nat, f);
        match sp_upto(m as nat, off as nat, f) {
            Parsed::Done(t, q) => {
                assert(Seq::<InteractiveElementView>::empty() + t =~= t);
            },
            _ => {},
        }
    }
    while i < m
        invariant
            f == interactive_fn(bytes@),
            o <= bytes@.len(),
            i <= m,
            !(sp_upto(m as nat, off as nat, f) is Fails),
            sp_upto(m as nat, off as nat, f) == after(
                interactives_view(out@),
                sp_upto((m - i) as nat, o as nat, f),
            ),
        decreases m - i,
    {
        assert(f(o as nat) == sp_interactive(bytes@, o as nat));
        match interactive_at(bytes, o) {
            Some(Ok((e, o2))) => {
                proof {
                    lemma_upto_step(interactives_view(out@), e@, (m - i) as nat, o as nat, o2 as nat, f);
                    assert(interactives_view(out@.push(e)) =~= interactives_view(out@).push(e@));
                }
                out.push(e);
                o = o2;
            },
            Some(Err(_)) => {
                proof {
                    assert(interactives_view(out@) + Seq::<InteractiveElementView>::empty() =~= interactives_view(out@));
                }
                return Some((out, o));
            },
            None => {
                return None;
            },
        }
        i = i + 1;
    }
    proof {
        assert(interactives_view(out@) + Seq::<InteractiveElementView>::empty() =~= interactives_view(out@));
    }
    Some((out, o))
}

/// Reads the dynamic elements from `off` on, at most `m` (see [`sp_upto`]), with the
/// offset after them.
fn read_dynamics_upto(bytes: &[u8], off: usize, m: u8) -> (r: (Vec<DynamicElementDef>, usize))
    requires
        off <= bytes@.len(),
    ensures
        sp_upto(m as nat, off as nat, dynamic_fn(bytes@)) == Parsed::Done(
            dynamics_view(r.0@),
            r.1 as nat,
        ),
        r.1 <= bytes@.len(),
{
    let ghost f = dynamic_fn(bytes@);
    let mut out: Vec<DynamicElementDef> = Vec::new();
    let mut o = off;
    let mut i: u8 = 0;
    proof {
        match sp_upto(m as nat, off as nat, f) {
            Parsed::Done(t, q) => {
                assert(dynamics_view(out@) + t =~= t);
            },
            _ => {},
        }
    }
    while i < m
        invariant
            f == dynamic_fn(bytes@),
            o <= bytes@.len(),
            i <= m,
            sp_upto(m as nat, off as nat, f) == after(
                dynamics_view(out@),
                sp_upto((m - i) as nat, o as nat, f),
            ),
        decreases m - i,
    {
        assert(f(o as nat) == sp_dynamic(bytes@, o as nat));
        match dynamic_at(bytes, o) {
            Ok((e, o2)) => {
                proof {
                    lemma_upto_step(dynamics_view(out@), e@, (m - i) as nat, o as nat, o2 as nat, f);
                    assert(dynamics_view(out@.push(e)) =~= dynamics_view(out@).push(e@));
                }
                out.push(e);
                o = o2;
            },
            Err(_) => {
                proof {
                    assert(dynamics_view(out@) + Seq::<DynamicElementDefView>::empty() =~= dynamics_view(out@));
                }
                return (out, o);
            },
        }
        i = i + 1;
    }
    proof {
        assert(dynamics_view(out@) + Seq::<DynamicElementDefView>::empty() =~= dynamics_view(out@));
    }
    (out, o)
}

/// The environment of a map chunk.
#[derive(Debug)]
pub struct Environment {
    pub x: i16,
    pub y: i16,
    pub particle_data: Vec<ParticleDef>,
    pub sound_data: Vec<Sound>,
    pub ambiances_id: Vec<i32>,
    pub ambiances: Vec<u8>,
    pub interactive_elements: Vec<InteractiveElement>,
    pub dynamic_elements: Vec<DynamicElementDef>,
}

/// What an environment holds, its elements taken by their views.
pub struct EnvironmentView {
    pub x: i16,
    pub y: i16,
    pub particle_data: Seq<ParticleDef>,
    pub sound_data: Seq<Sound>,
    pub ambiances_id: Seq<i32>,
    pub ambiances: Seq<u8>,
    pub interactive_elements: Seq<InteractiveElementView>,
    pub dynamic_elements: Seq<DynamicElementDefView>,
}

impl View for Environment {
    type V = EnvironmentView;

    open spec fn view(&self) -> EnvironmentView {
        EnvironmentView {
            x: self.x,
            y: self.y,
            particle_data: self.particle_data@,
            sound_data: self.sound_data@,
            ambiances_id: self.ambiances_id@,
            ambiances: self.ambiances@,
            interactive_elements: interactives_view(self.interactive_elements@),
            dynamic_elements: dynamics_view(self.dynamic_elements@),
        }
    }
}

/// The fixed-size part of an environment at the start of `d`: a header byte, `x` and `y`
/// as `i16`, then four lists each counted by a byte: particle systems, sounds, ambiance
/// ids as `i32` and ambiance bytes; with the position after them.
#[verifier::opaque]
pub open spec fn environment_head(d: Seq<u8>) -> Option<(i16, i16, Seq<ParticleDef>, Seq<Sound>, Seq<i32>, Seq<u8>, nat)> {
    if !fits(d, 0, 6) {
        None
    } else {
        let parts = particles_upto(d, 6, d[5] as nat);
        let p1 = 6 + 17 * parts.len() as int;
        if !fits(d, p1, 1) {
            None
        } else {
            let sounds = sounds_upto(d, p1 + 1, d[p1] as nat);
            let p2 = p1 + 1 + 8 * sounds.len();
            if !fits(d, p2, 1) {
                None
            } else {
                let ids = i32s_upto(d, p2 + 1, d[p2] as nat);
                let p3 = p2 + 1 + 4 * ids.len();
                if !fits(d, p3, 1) {
                    None
                } else {
                    let amb = bytes_upto(d, p3 + 1, d[p3] as nat);
                    Some((
                        i16_of(le_at(d, 1, 2) as int) as i16,
                        i16_of(le_at(d, 3, 2) as int) as i16,
                        parts,
                        sounds,
                        ids,
                        amb,
                        (p3 + 1 + amb.len()) as nat,
                    ))
                }
            }
        }
    }
}

/// The lists of interactive elements and of dynamic elements from `p` on, each counted
/// by a byte (see [`sp_upto`], [`sp_interactive`], [`sp_dynamic`]).
pub open spec fn environment_tail(d: Seq<u8>, p: nat) -> Parsed<(Seq<InteractiveElementView>, Seq<DynamicElementDefView>)> {
    if !fits(d, p as int, 1) {
        Parsed::Fails(ReadError::Incomplete)
    } else {
        match sp_upto(d[p as int] as nat, p + 1, interactive_fn(d)) {
            Parsed::Done(ies, p5) => if !fits(d, p5 as int, 1) {
                Parsed::Fails(ReadError::Incomplete)
            } else {
                match sp_upto(d[p5 as int] as nat, p5 + 1, dynamic_fn(d)) {
                    Parsed::Done(des, p6) => Parsed::Done((ies, des), p6),
                    Parsed::Fails(e) => Parsed::Fails(e),
                    Parsed::Panics => Parsed::Panics,
                }
            },
            Parsed::Fails(e) => Parsed::Fails(e),
            Parsed::Panics => Parsed::Panics,
        }
    }
}

/// The environment at the start of `d`: its fixed-size part (see [`environment_head`]),
/// then its interactive and dynamic elements (see [`environment_tail`]).
pub open spec fn sp_environment(d: Seq<u8>) -> Parsed<EnvironmentView> {
    match environment_head(d) {
        None => Parsed::Fails(ReadError::Incomplete),
        Some((x, y, parts, sounds, ids, amb, p4)) => match environment_tail(d, p4) {
            Parsed::Done((ies, des), p6) => Parsed::Done(
                EnvironmentView {
                    x,
                    y,
                    particle_data: parts,
                    sound_data: sounds,
                    ambiances_id: ids,
                    ambiances: amb,
                    interactive_elements: ies,
                    dynamic_elements: des,
                },
                p6,
            ),
            Parsed::Fails(e) => Parsed::Fails(e),
            Parsed::Panics => Parsed::Panics,
        },
    }
}

/// Reads the interactive and dynamic elements from `off` on (see [`environment_tail`]);
/// `None` where it panics.
fn environment_tail_at(bytes: &[u8], off: usize) -> (r: Option<Result<(Vec<InteractiveElement>, Vec<DynamicElementDef>, usize), ReadError>>)
    requires
        off <= bytes@.len(),
    ensures
        match environment_tail(bytes@, off as nat) {
            Parsed::Done((ies, des), q) => r matches Some(Ok((ies2, des2, o))) && interactives_view(ies2@)
                == ies && dynamics_view(des2@) == des && o == q,
            Parsed::Fails(e) => r == Some(Err::<(Vec<InteractiveElement>, Vec<DynamicElementDef>, usize), ReadError>(e)),
            Parsed::Panics => r is None,
        },
{
    let ghost d = bytes@;
    let (n, o) = match read_u8(bytes, off) {
        Some(v) => v,
        None => return Some(Err(ReadError::Incomplete)),
    };
    assert(off < bytes.len());
    let (interactive_elements, o) = match read_interactives_upto(bytes, o, n) {
        Some(v) => v,
        None => return None,
    };
    let (n, o) = match read_u8(bytes, o) {
        Some(v) => v,
        None => return Some(Err(ReadError::Incomplete)),
    };
    assert(o <= bytes.len());
    let (dynamic_elements, o) = read_dynamics_upto(bytes, o, n);
    Some(Ok((interactive_elements, dynamic_elements, o)))
}

/// Reads the fixed-size part of the environment at the start of `bytes` (see
/// [`environment_head`]).
fn environment_head_at(bytes: &[u8]) -> (r: Option<(i16, i16, Vec<ParticleDef>, Vec<Sound>, Vec<i32>, Vec<u8>, usize)>)
    ensures
        match environment_head(bytes@) {
            Some((x, y, ps, ss, ids, amb, q)) => r matches Some((x2, y2, ps2, ss2, ids2, amb2, o))
                && x2 == x && y2 == y && ps2@ == ps && ss2@ == ss && ids2@ == ids && amb2@ == amb
                && o == q && o <= bytes@.len(),
            None => r is None,
        },
{
    reveal(environment_head);
    let ghost d = bytes@;
    if bytes.len() < 6 {
        return None;
    }
    let (x, o) = match read_i16(bytes, 1) {
        Some(v) => v,
        None => return None,
    };
    let (y, o) = match read_i16(bytes, o) {
        Some(v) => v,
        None => return None,
    };
    let (n, o) = match read_u8(bytes, o) {
        Some(v) => v,
        None => return None,
    };
    let (particle_data, o) = read_particles_upto(bytes, o, n);
    let (n, o) = match read_u8(bytes, o) {
        Some(v) => v,
        None => return None,
    };
    let (sound_data, o) = read_sounds_upto(bytes, o, n);
    let (n, o) = match read_u8(bytes, o) {
        Some(v) => v,
        None => return None,
    };
    let (ambiances_id, o) = read_i32s_upto(bytes, o, n);
    let (n, o) = match read_u8(bytes, o) {
        Some(v) => v,
        None => return None,
    };
    let (ambiances, o) = read_bytes_upto(bytes, o as usize, n as u16);
    assert(o <= d.len());
    Some((x, y, particle_data, sound_data, ambiances_id, ambiances, o))
}

impl Environment {
    /// Reads the environment at the start of `bytes` (see [`sp_environment`]), with its
    /// size, on the inputs where [`sp_environment`] does not panic: it panics where the
    /// data of an interactive element that is read cannot be read.
    pub fn try_read(bytes: &[u8]) -> (r: Result<(Environment, usize), ReadError>)
        requires
            !(sp_environment(bytes@) is Panics),
        ensures
            match sp_environment(bytes@) {
                Parsed::Done(v, q) => r matches Ok((e, n)) && e@ == v && n == q,
                Parsed::Fails(e) => r == Err::<(Environment, usize), ReadError>(e),
                Parsed::Panics => false,
            },
    {
        match Self::read_checked(bytes) {
            Some(r) => r,
            None => Err(ReadError::BadInput),
        }
    }

    /// Reads the environment like [`Environment::try_read`], on every input: `None` where
    /// [`sp_environment`] panics.
    pub fn read_checked(bytes: &[u8]) -> (r: Option<Result<(Environment, usize), ReadError>>)
        ensures
            match sp_environment(bytes@) {
                Parsed::Done(v, q) => r matches Some(Ok((e, n))) && e@ == v && n == q,
                Parsed::Fails(e) => r == Some(Err::<(Environment, usize), ReadError>(e)),
                Parsed::Panics => r is None,
            },
    {
        let ghost d = bytes@;
        let (x, y, particle_data, sound_data, ambiances_id, ambiances, o) = match environment_head_at(bytes) {
            Some(v) => v,
            None => return Some(Err(ReadError::Incomplete)),
        };
        let (interactive_elements, dynamic_elements, o) = match environment_tail_at(bytes, o) {
            Some(Ok(v)) => v,
            Some(Err(e)) => return Some(Err(e)),
            None => return None,
        };
        let env = Environment {
            x,
            y,
            particle_data,
            sound_data,
            ambiances_id,
            ambiances,
            interactive_elements,
            dynamic_elements,
        };
        assert(sp_environment(d) == Parsed::Done(env@, o as nat));
        Some(Ok((env, o)))
    }

    pub fn get_interactive_elements(&self) -> (r: &Vec<InteractiveElement>)
        ensures
            interactives_view(r@) == interactives_view(self.interactive_elements@),
    {
        &self.interactive_elements
    }

    pub fn get_dynamic_elements(&self) -> (r: &Vec<DynamicElementDef>)
        ensures
            dynamics_view(r@) == dynamics_view(self.dynamic_elements@),
    {
        &self.dynamic_elements
    }
}

/// Whether `c` is a numeric character, as `char::is_numeric` says.
pub uninterp spec fn char_is_numeric(c: char) -> bool;

/// Whether `c` is numeric.
///
/// Calls `char::is_numeric`; nothing is claimed of its result but that it is a function
/// of `c` (Unicode's numeric categories are not restated here).
#[verifier::external_body]
fn is_numeric(c: char) -> (r: bool)
    ensures
        r == char_is_numeric(c),
{
    c.is_numeric()
}

/// Whether `c` is taken off the ends of an entry's name: a numeric character or `-`.
pub open spec fn trimmed_char(c: char) -> bool {
    char_is_numeric(c) || c == '-'
}

/// Whether `name`, less the numeric characters and hyphens at its two ends, is `_`:
/// exactly one of its characters is not trimmed, and that one is `_`.
pub open spec fn environment_entry_name(name: Seq<char>) -> bool {
    exists|i: int|
        0 <= i < name.len() && !trimmed_char(#[trigger] name[i]) && name[i] == '_' && forall|j: int|
            0 <= j < name.len() && j != i ==> trimmed_char(name[j])
}

/// The environments of a map, one per chunk.
#[derive(Debug)]
pub struct EnvironmentChunk {
    pub chunks: Vec<Environment>,
}

impl EnvironmentChunk {
    /// Whether an entry of a map's archive holds an environment, by its name (see
    /// [`environment_entry_name`]).
    pub fn is_environment_entry(name: &str) -> (r: bool)
        ensures
            r == environment_entry_name(name@),
    {
        let n = name.unicode_len();
        let mut i: usize = 0;
        while i < n
            invariant
                n == name@.len(),
                i <= n,
                forall|j: int| 0 <= j < i ==> trimmed_char(name@[j]),
            ensures
                i <= n,
                forall|j: int| 0 <= j < i ==> trimmed_char(name@[j]),
                i < n ==> !trimmed_char(name@[i as int]),
            decreases n - i,
        {
            let c = name.get_char(i);
            if !(is_numeric(c) || c == '-') {
                break;
            }
            i = i + 1;
        }
        if i == n {
            proof {
                assert forall|k: int| 0 <= k < n implies trimmed_char(name@[k]) by {}
            }
            return false;
        }
        let a = i;
        let first = name.get_char(a);
        if first != '_' {
            proof {
                if environment_entry_name(name@) {
                    let w = choose|w: int|
                        0 <= w < name@.len() && !trimmed_char(#[trigger] name@[w]) && name@[w] == '_'
                            && forall|j: int| 0 <= j < name@.len() && j != w ==> trimmed_char(name@[j]);
                    if w != a as int {
                        assert(trimmed_char(name@[a as int]));
                    }
                }
            }
            return false;
        }
        let mut i: usize = a + 1;
        while i < n
            invariant
                n == name@.len(),
                a < i <= n,
                forall|j: int| 0 <= j < a ==> trimmed_char(name@[j]),
                !trimmed_char(name@[a as int]),
                name@[a as int] == '_',
                forall|j: int| a < j < i ==> trimmed_char(name@[j]),
            decreases n - i,
        {
            let c = name.get_char(i);
            if !(is_numeric(c) || c == '-') {
                proof {
                    assert(!trimmed_char(name@[i as int]));
                    if environment_entry_name(name@) {
                        let w = choose|w: int|
                            0 <= w < name@.len() && !trimmed_char(#[trigger] name@[w]) && name@[w] == '_'
                                && forall|j: int| 0 <= j < name@.len() && j != w ==> trimmed_char(name@[j]);
                        if w != a as int {
                            assert(trimmed_char(name@[a as int]));
                        } else {
                            assert(trimmed_char(name@[i as int]));
                        }
                    }
                }
                return false;
            }
            i = i + 1;
        }
        proof {
            assert(!trimmed_char(name@[a as int]));
        }
        true
    }

    pub fn get_chunks(&self) -> (r: &Vec<Environment>)
        ensures
            r@ == self.chunks@,
    {
        &self.chunks
    }
}

/// The views of a list of environments.
pub open spec fn environments_view(v: Seq<Environment>) -> Seq<EnvironmentView> {
    v.map_values(|e: Environment| e@)
}

/// What loading the environments gives from entry `i` on of `archive`, which has `n`
/// entries, `acc` holding those read before: each entry whose name is an environment
/// entry's (see [`environment_entry_name`]) is read (see [`sp_environment`]) and added;
/// `Unzip` at the first entry whose name, or whose contents when they are read, cannot be
/// had; `Read` at the first that does not read; `None` where reading panics.
pub open spec fn environments_scan(archive: Seq<u8>, i: int, n: int, acc: Seq<EnvironmentView>) -> Option<
    Result<Seq<EnvironmentView>, LoadError>,
>
    decreases n - i,
{
    if i >= n {
        Some(Ok(acc))
    } else {
        match zip_entry_name(archive, i) {
            None => Some(Err(LoadError::Unzip)),
            Some(name) => if environment_entry_name(name) {
                match zip_entry_bytes(archive, i) {
                    None => Some(Err(LoadError::Unzip)),
                    Some(b) => match sp_environment(b) {
                        Parsed::Done(v, _) => environments_scan(archive, i + 1, n, acc.push(v)),
                        Parsed::Fails(e) => Some(Err(LoadError::Read(e))),
                        Parsed::Panics => None,
                    },
                }
            } else {
                environments_scan(archive, i + 1, n, acc)
            },
        }
    }
}

/// What loading the environments of the zip archive `archive` gives (see
/// [`environments_scan`]): `Unzip` when the archive cannot be opened.
pub open spec fn environments_load(archive: Seq<u8>) -> Option<Result<Seq<EnvironmentView>, LoadError>> {
    match zip_entry_count(archive) {
        None => Some(Err(LoadError::Unzip)),
        Some(n) => environments_scan(archive, 0, n as int, Seq::empty()),
    }
}

impl EnvironmentChunk {
    /// Loads the environment of each chunk of a map from its zip archive (see
    /// [`environments_load`]); `None` where reading panics.
    pub fn load(archive: &[u8]) -> (r: Option<Result<EnvironmentChunk, LoadError>>)
        ensures
            match environments_load(archive@) {
                None => r is None,
                Some(Ok(v)) => r matches Some(Ok(c)) && environments_view(c.chunks@) == v,
                Some(Err(e)) => r matches Some(Err(e2)) && e2 == e,
            },
    {
        let n = match zip_count(archive) {
            Some(n) => n,
            None => return Some(Err(LoadError::Unzip)),
        };
        let mut chunks: Vec<Environment> = Vec::new();
        let mut i: usize = 0;
        proof {
            assert(environments_view(chunks@) =~= Seq::<EnvironmentView>::empty());
        }
        while i < n
            invariant
                i <= n,
                zip_entry_count(archive@) == Some(n),
                environments_scan(archive@, i as int, n as int, environments_view(chunks@)) == environments_load(
                    archive@,
                ),
            decreases n - i,
        {
            let name = match zip_name(archive, i) {
                Some(s) => s,
                None => return Some(Err(LoadError::Unzip)),
            };
            if Self::is_environment_entry(name.as_str()) {
                let bytes = match zip_bytes(archive, i) {
                    Some(b) => b,
                    None => return Some(Err(LoadError::Unzip)),
                };
                match Environment::read_checked(&bytes) {
                    None => return None,
                    Some(Err(e)) => return Some(Err(LoadError::Read(e))),
                    Some(Ok((env, _))) => {
                        let ghost before = chunks@;
                        chunks.push(env);
                        proof {
                            assert(environments_view(chunks@) =~= environments_view(before).push(env@));
                        }
                    },
                }
            }
            i = i + 1;
        }
        Some(Ok(EnvironmentChunk { chunks }))
    }
}

/// The particle systems of an environment are the 17-byte records stored one after
/// another from byte 6: the `j`-th is the one at `6 + 17 * j`, its system id the `i32` at
/// `6 + 17 * j + 4`; there are at most as many as byte 5 announces, and each lies within
/// the data.
pub proof fn environment_particles_in_stored_order(d: Seq<u8>)
    requires
        sp_environment(d) is Done,
    ensures
        sp_environment(d) matches Parsed::Done(v, _) && v.particle_data.len() <= d[5] && forall|j: int|
            0 <= j < v.particle_data.len() ==> #[trigger] v.particle_data[j] == particle_val(d, 6 + 17 * j)
                && v.particle_data[j].system_id == i32_of(le_at(d, 6 + 17 * j + 4, 4) as int) as i32 && 6 + 17 * (j
                + 1) <= d.len(),
{
    reveal(environment_head);
    let parts = particles_upto(d, 6, d[5] as nat);
    assert(environment_head(d) matches Some((_, _, ps, _, _, _, _)) && ps == parts);
    assert(parts.len() <= d[5]);
    assert forall|j: int| 0 <= j < parts.len() implies 6 + 17 * (j + 1) <= d.len() && #[trigger] parts[j] == particle_val(d, 6 + 17 * j) by {
        let avail = (d.len() - 6) / 17;
        assert(j + 1 <= avail);
        assert(17 * avail <= d.len() - 6) by (nonlinear_arith)
            requires
                avail == (d.len() - 6) / 17,
                d.len() >= 6,
        ;
        assert(17 * (j + 1) <= 17 * avail) by (nonlinear_arith)
            requires
                j + 1 <= avail,
        ;
    }
}

/// The sounds and ambiance ids of an environment are stored one after another after the
/// particle systems, each list after its count byte: sound `j` is the one held by the 8
/// bytes at `p1 + 1 + 8 * j`, where `p1` is where the particle systems end, and ambiance
/// id `j` the `i32` at `p2 + 1 + 4 * j`, where `p2` is where the sounds end.
pub proof fn environment_lists_in_stored_order(d: Seq<u8>)
    requires
        sp_environment(d) is Done,
    ensures
        sp_environment(d) matches Parsed::Done(v, _) && {
            let p1: int = 6 + 17 * v.particle_data.len() as int;
            let p2: int = p1 + 1 + 8 * v.sound_data.len() as int;
            &&& v.sound_data.len() <= d[p1]
            &&& forall|j: int| 0 <= j < v.sound_data.len() ==> #[trigger] v.sound_data[j] == sound_val(d, p1 + 1 + 8 * j)
            &&& v.ambiances_id.len() <= d[p2]
            &&& forall|j: int| 0 <= j < v.ambiances_id.len() ==> #[trigger] v.ambiances_id[j] == i32_of(
                le_at(d, p2 + 1 + 4 * j, 4) as int,
            ) as i32
        },
{
    reveal(environment_head);
}

} // verus!
