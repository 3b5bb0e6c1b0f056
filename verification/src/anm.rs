//! An animation file: its header, its index of animations, the shapes of its atlas, its
//! table of transforms, its sprite definitions and its imports.
//!
//! Fields the format stores as 32-bit floats are kept as the float's bits.
use vstd::prelude::*;
use bytebuffer::ByteBuffer;
use std::collections::HashMap;
use crate::buffer::same_bytes;
use crate::error::ReadError;
use crate::parse::{
    Parsed, sp_i8, sp_i16, sp_i32, sp_u32, sp_cstr, sp_many, lemma_many_fails, lift, reads_as,
    parsed_as, checked_as, dat, pos, le, bits_after, u32_fn, read_i8, read_i16, read_i32, read_f32_bits,
    read_cstr, read_cstrs, read_u32s,
};
use crate::anm_action::{AnmAction, AnmActionView, sp_action};
use crate::anm_frame::loop_count;
use crate::utils::{java_hash, java_string_hashcode};
use crate::bytes::{find_byte, lemma_find_byte};

verus! {

/// The first bytes of an animation file.
#[derive(Clone, Copy, Debug, PartialEq, Eq, Structural)]
pub struct AnimHeader {
    pub version_number: i8,
    pub frame_rate: i8,
}

impl View for AnimHeader {
    type V = AnimHeader;

    open spec fn view(&self) -> AnimHeader {
        *self
    }
}

/// The version as an `i8`, an `i16` that is skipped, then the frame rate as an `i8`.
pub open spec fn sp_anim_header(d: Seq<u8>, p: nat, le: bool) -> Option<(AnimHeader, nat)> {
    match sp_i8(d, p) {
        Some((version_number, q1)) => match sp_i16(d, q1, le) {
            Some((_skip, q2)) => match sp_i8(d, q2) {
                Some((frame_rate, q3)) => Some((AnimHeader { version_number, frame_rate }, q3)),
                None => None,
            },
            None => None,
        },
        None => None,
    }
}

impl AnimHeader {
    pub fn default() -> (r: Self)
        ensures
            r == (AnimHeader { version_number: 0, frame_rate: 0 }),
    {
        AnimHeader { version_number: 0, frame_rate: 0 }
    }

    pub fn read(buffer: &mut ByteBuffer) -> (r: Result<Self, ReadError>)
        ensures
            reads_as(*old(buffer), *final(buffer), r, sp_anim_header(dat(*old(buffer)), pos(*old(buffer)), le(*old(buffer)))),
    {
        let version_number = read_i8(buffer)?;
        read_i16(buffer)?;
        let frame_rate = read_i8(buffer)?;
        Ok(AnimHeader { version_number, frame_rate })
    }
}

/// A part hidden when an item is worn: the key and the part's hash.
#[derive(Clone, Copy, Debug, PartialEq, Eq, Structural)]
pub struct HiddingPart {
    pub crc_key: i32,
    pub crc_to_hide: i32,
}

/// An item that can hide parts: its name and key.
#[derive(Clone, Debug)]
pub struct CanHidePart {
    pub item_name: Vec<u8>,
    pub crc_key: i32,
}

/// `v + 1`, wrapping from 127 to -128.
pub open spec fn wrapping_inc(v: i8) -> i8 {
    if v == 127 {
        -128i8
    } else {
        (v + 1) as i8
    }
}

/// A height entry: the key as an `i32`, then the height as an `i8`, kept plus one.
pub open spec fn sp_height(d: Seq<u8>, p: nat, le: bool) -> Option<((i32, i8), nat)> {
    match sp_i32(d, p, le) {
        Some((k, q)) => match sp_i8(d, q) {
            Some((v, q2)) => Some(((k, wrapping_inc(v)), q2)),
            None => None,
        },
        None => None,
    }
}

pub open spec fn height_fn(d: Seq<u8>, le: bool) -> spec_fn(nat) -> Option<((i32, i8), nat)> {
    |p: nat| sp_height(d, p, le)
}

/// The map of heights that a list of entries gives: a later entry for a key replaces an
/// earlier one.
pub open spec fn heights_map(s: Seq<(i32, i8)>) -> Map<i32, i8>
    decreases s.len(),
{
    if s.len() == 0 {
        Map::empty()
    } else {
        heights_map(s.drop_last()).insert(s.last().0, s.last().1)
    }
}

/// The extension of an animation index: per-key heights and a highlight color.
#[derive(Debug)]
pub struct AnmIndexExtend {
    pub heights: HashMap<i32, i8>,
    /// The bits of the three 32-bit floats of the color, when there is one.
    pub high_light_color: Vec<u32>,
}

pub struct AnmIndexExtendView {
    pub heights: Map<i32, i8>,
    pub high_light_color: Seq<u32>,
}

impl View for AnmIndexExtend {
    type V = AnmIndexExtendView;

    open spec fn view(&self) -> AnmIndexExtendView {
        AnmIndexExtendView { heights: self.heights@, high_light_color: self.high_light_color@ }
    }
}

/// The extension: flags as an `i32`; with flag 1, a count as an `i16` and that many height
/// entries; with flag 2, three floats of color.
pub open spec fn sp_index_extend(d: Seq<u8>, p: nat, le: bool) -> Option<(AnmIndexExtendView, nat)> {
    match sp_i32(d, p, le) {
        Some((flags, q)) => {
            let hs: Option<(Seq<(i32, i8)>, nat)> = if (flags & 1) != 0 {
                match sp_i16(d, q, le) {
                    Some((n, q1)) => sp_many(loop_count(n as int), q1, height_fn(d, le)),
                    None => None,
                }
            } else {
                Some((Seq::empty(), q))
            };
            match hs {
                Some((h, q2)) => {
                    let cs: Option<(Seq<u32>, nat)> = if (flags & 2) == 2 {
                        sp_many(3, q2, u32_fn(d, le))
                    } else {
                        Some((Seq::empty(), q2))
                    };
                    match cs {
                        Some((c, q3)) => Some(
                            (AnmIndexExtendView { heights: heights_map(h), high_light_color: c }, q3),
                        ),
                        None => None,
                    }
                },
                None => None,
            }
        },
        None => None,
    }
}

impl AnmIndexExtend {
    pub fn default() -> (r: Self)
        ensures
            r@.heights == Map::<i32, i8>::empty(),
            r@.high_light_color == Seq::<u32>::empty(),
    {
        AnmIndexExtend { heights: HashMap::new(), high_light_color: Vec::new() }
    }

    pub fn read(buffer: &mut ByteBuffer) -> (r: Result<Self, ReadError>)
        ensures
            reads_as(*old(buffer), *final(buffer), r, sp_index_extend(dat(*old(buffer)), pos(*old(buffer)), le(*old(buffer)))),
    {
        let ghost d = dat(*buffer);
        let ghost l = le(*buffer);
        let mut heights: HashMap<i32, i8> = HashMap::new();
        let flags = read_i32(buffer)?;
        let ghost b1 = *buffer;
        let ghost mut pairs: Seq<(i32, i8)> = Seq::empty();
        if (flags & 0x1) != 0 {
            let count = read_i16(buffer)?;
            let ghost q1 = pos(*buffer);
            let ghost b2 = *buffer;
            let mut i: i16 = 0;
            while i < count
                invariant
                    same_bytes(*old(buffer), *buffer),
                    d == dat(*old(buffer)),
                    l == le(*old(buffer)),
                    0 <= i,
                    count >= 0 ==> i <= count,
                    count < 0 ==> i == 0,
                    sp_many(i as nat, q1, height_fn(d, l)) == Some((pairs, pos(*buffer))),
                    sp_i32(d, pos(*old(buffer)), l) == Some((flags, pos(b1))),
                    (flags & 1) != 0,
                    sp_i16(d, pos(b1), l) == Some((count, q1)),
                    heights@ == heights_map(pairs),
                    bits_after(b2, *buffer),
                    bits_after(*old(buffer), b2),
                decreases count - i,
            {
                let key = match read_i32(buffer) {
                    Ok(k) => k,
                    Err(e) => {
                        proof {
                            lemma_many_fails((i + 1) as nat, loop_count(count as int), q1, height_fn(d, l));
                        }
                        return Err(e);
                    },
                };
                let v = match read_i8(buffer) {
                    Ok(v) => v,
                    Err(e) => {
                        proof {
                            lemma_many_fails((i + 1) as nat, loop_count(count as int), q1, height_fn(d, l));
                        }
                        return Err(e);
                    },
                };
                let value = v.wrapping_add(1);
                heights.insert(key, value);
                proof {
                    let old_pairs = pairs;
                    pairs = pairs.push((key, value));
                    assert(pairs.drop_last() =~= old_pairs);
                }
                i = i + 1;
            }
            proof {
                assert(loop_count(count as int) == i as nat);
            }
        }
        let mut high_light_color: Vec<u32> = Vec::new();
        if (flags & 0x2) == 0x2 {
            high_light_color = read_u32s(buffer, 3)?;
        }
        Ok(AnmIndexExtend { heights, high_light_color })
    }
}

/// An animation of the index: its name, the name's hash and the file that holds it.
#[derive(Clone, Debug)]
pub struct AnmAnimationFileRecord {
    pub name: Vec<u8>,
    pub crc: i32,
    pub file_index: i16,
}

pub struct AnmAnimationFileRecordView {
    pub name: Seq<u8>,
    pub crc: i32,
    pub file_index: i16,
}

impl View for AnmAnimationFileRecord {
    type V = AnmAnimationFileRecordView;

    open spec fn view(&self) -> AnmAnimationFileRecordView {
        AnmAnimationFileRecordView { name: self.name@, crc: self.crc, file_index: self.file_index }
    }
}

/// A record: its name without a length, an `i32` that is skipped, then the file index as an
/// `i16`. The hash is that of the name.
pub open spec fn sp_file_record(d: Seq<u8>, p: nat, le: bool) -> Option<(AnmAnimationFileRecordView, nat)> {
    match sp_cstr(d, p) {
        Some((name, q1)) => match sp_i32(d, q1, le) {
            Some((_skip, q2)) => match sp_i16(d, q2, le) {
                Some((file_index, q3)) => Some(
                    (AnmAnimationFileRecordView { name, crc: java_hash(name), file_index }, q3),
                ),
                None => None,
            },
            None => None,
        },
        None => None,
    }
}

impl AnmAnimationFileRecord {
    pub fn read(buffer: &mut ByteBuffer) -> (r: Result<Self, ReadError>)
        ensures
            reads_as(*old(buffer), *final(buffer), r, sp_file_record(dat(*old(buffer)), pos(*old(buffer)), le(*old(buffer)))),
    {
        let name = read_cstr(buffer)?;
        read_i32(buffer)?;
        let crc = java_string_hashcode(&name);
        let file_index = read_i16(buffer)?;
        Ok(AnmAnimationFileRecord { name, crc, file_index })
    }

    /// A copy of the record.
    pub fn copy(&self) -> (r: Self)
        ensures
            r@ == self@,
    {
        AnmAnimationFileRecord { name: copy_bytes(&self.name), crc: self.crc, file_index: self.file_index }
    }
}

/// A copy of a byte vector.
pub fn copy_bytes(v: &Vec<u8>) -> (r: Vec<u8>)
    ensures
        r@ == v@,
{
    let mut out: Vec<u8> = Vec::new();
    let mut i: usize = 0;
    while i < v.len()
        invariant
            i <= v@.len(),
            out@ == v@.subrange(0, i as int),
        decreases v@.len() - i,
    {
        out.push(v[i]);
        proof {
            assert(out@ =~= v@.subrange(0, i + 1));
        }
        i = i + 1;
    }
    proof {
        assert(out@ =~= v@);
    }
    out
}

/// A shape of the atlas: where it lies in the texture and how it is placed. The four edges
/// are the stored `i16` values (the edge is the value over 65535); the offsets are the bits
/// of 32-bit floats.
#[derive(Clone, Copy, Debug, PartialEq, Eq, Structural)]
pub struct AnmShapeDefinition {
    pub id: i16,
    pub texture_index: i16,
    pub top: i16,
    pub left: i16,
    pub bottom: i16,
    pub right: i16,
    pub width: i16,
    pub height: i16,
    pub offset_x: u32,
    pub offset_y: u32,
}

impl View for AnmShapeDefinition {
    type V = AnmShapeDefinition;

    open spec fn view(&self) -> AnmShapeDefinition {
        *self
    }
}

/// Eight `i16` values (id, texture, top, left, bottom, right, width, height), then the two
/// float offsets.
pub open spec fn sp_shape_definition(d: Seq<u8>, p: nat, le: bool) -> Option<(AnmShapeDefinition, nat)> {
    match sp_many(8, p, crate::parse::i16_fn(d, le)) {
        Some((v, q)) => match sp_u32(d, q, le) {
            Some((ox, q1)) => match sp_u32(d, q1, le) {
                Some((oy, q2)) => Some(
                    (
                        AnmShapeDefinition {
                            id: v[0],
                            texture_index: v[1],
                            top: v[2],
                            left: v[3],
                            bottom: v[4],
                            right: v[5],
                            width: v[6],
                            height: v[7],
                            offset_x: ox,
                            offset_y: oy,
                        },
                        q2,
                    ),
                ),
                None => None,
            },
            None => None,
        },
        None => None,
    }
}

impl AnmShapeDefinition {
    pub fn read(buffer: &mut ByteBuffer) -> (r: Result<Self, ReadError>)
        ensures
            reads_as(*old(buffer), *final(buffer), r, sp_shape_definition(dat(*old(buffer)), pos(*old(buffer)), le(*old(buffer)))),
    {
        let v = crate::parse::read_i16s(buffer, 8)?;
        proof {
            crate::parse::lemma_many_len(8, pos(*old(buffer)), crate::parse::i16_fn(dat(*old(buffer)), le(*old(buffer))));
        }
        let offset_x = read_f32_bits(buffer)?;
        let offset_y = read_f32_bits(buffer)?;
        Ok(AnmShapeDefinition {
            id: v[0],
            texture_index: v[1],
            top: v[2],
            left: v[3],
            bottom: v[4],
            right: v[5],
            width: v[6],
            height: v[7],
            offset_x,
            offset_y,
        })
    }
}

/// An import: a sprite of another animation, by id, name and the name's hash.
#[derive(Clone, Debug)]
pub struct AnmImport {
    pub id: i16,
    pub name: Vec<u8>,
    pub crc: i32,
}

pub struct AnmImportView {
    pub id: i16,
    pub name: Seq<u8>,
    pub crc: i32,
}

impl View for AnmImport {
    type V = AnmImportView;

    open spec fn view(&self) -> AnmImportView {
        AnmImportView { id: self.id, name: self.name@, crc: self.crc }
    }
}

/// An import: its id as an `i16`, its name without a length, then an `i32` that is
/// skipped.
pub open spec fn sp_import(d: Seq<u8>, p: nat, le: bool) -> Option<(AnmImportView, nat)> {
    match sp_i16(d, p, le) {
        Some((id, q1)) => match sp_cstr(d, q1) {
            Some((name, q2)) => match sp_i32(d, q2, le) {
                Some((_skip, q3)) => Some((AnmImportView { id, name, crc: java_hash(name) }, q3)),
                None => None,
            },
            None => None,
        },
        None => None,
    }
}

impl AnmImport {
    /// A copy of the import.
    pub fn clone_import(&self) -> (r: Self)
        ensures
            r@ == self@,
    {
        AnmImport { id: self.id, name: copy_bytes(&self.name), crc: self.crc }
    }

    pub fn new() -> (r: Self)
        ensures
            r@ == (AnmImportView { id: 0, name: Seq::empty(), crc: 0 }),
    {
        AnmImport { id: 0, name: Vec::new(), crc: 0 }
    }

    /// Reads an import into this one. The import must be
    /// there in full.
    pub fn load(&mut self, buffer: &mut ByteBuffer)
        requires
            sp_import(dat(*old(buffer)), pos(*old(buffer)), le(*old(buffer))) is Some,
        ensures
            same_bytes(*old(buffer), *final(buffer)),
            bits_after(*old(buffer), *final(buffer)),
            sp_import(dat(*old(buffer)), pos(*old(buffer)), le(*old(buffer))) matches Some((v, q))
                && final(self)@ == v && pos(*final(buffer)) == q,
    {
        let _ = self.load_checked(buffer);
    }

    /// Reads an import like [`AnmImport::load`], on every input; `false` where
    /// [`sp_import`] is `None`.
    pub fn load_checked(&mut self, buffer: &mut ByteBuffer) -> (r: bool)
        ensures
            same_bytes(*old(buffer), *final(buffer)),
            match sp_import(dat(*old(buffer)), pos(*old(buffer)), le(*old(buffer))) {
                Some((v, q)) => r && final(self)@ == v && pos(*final(buffer)) == q
                    && bits_after(*old(buffer), *final(buffer)),
                None => !r,
            },
    {
        let id = match read_i16(buffer) {
            Ok(v) => v,
            Err(_) => return false,
        };
        let name = match read_cstr(buffer) {
            Ok(v) => v,
            Err(_) => return false,
        };
        match read_i32(buffer) {
            Ok(_) => {},
            Err(_) => return false,
        }
        self.id = id;
        self.crc = java_string_hashcode(&name);
        self.name = name;
        true
    }
}

/// The tables that the compact sprite definitions index into: colors, rotations and
/// translations (as the bits of 32-bit floats), and actions.
#[derive(Clone, Debug)]
pub struct AnmTransformDataTable {
    pub colors: Vec<u32>,
    pub rotations: Vec<u32>,
    pub translations: Vec<u32>,
    pub actions: Vec<AnmAction>,
}

pub struct AnmTransformDataTableView {
    pub colors: Seq<u32>,
    pub rotations: Seq<u32>,
    pub translations: Seq<u32>,
    pub actions: Seq<AnmActionView>,
}

impl View for AnmTransformDataTable {
    type V = AnmTransformDataTableView;

    open spec fn view(&self) -> AnmTransformDataTableView {
        AnmTransformDataTableView {
            colors: self.colors@,
            rotations: self.rotations@,
            translations: self.translations@,
            actions: self.actions@.map_values(|a: AnmAction| a@),
        }
    }
}

/// A list of floats: the count as an `i32`, then the floats. A negative count panics (room
/// would be reserved for that many).
pub open spec fn sp_floats(d: Seq<u8>, p: nat, le: bool) -> Parsed<Seq<u32>> {
    match sp_i32(d, p, le) {
        Some((n, q)) => if n < 0 {
            Parsed::Panics
        } else {
            lift(sp_many(n as nat, q, u32_fn(d, le)))
        },
        None => Parsed::Fails(ReadError::Incomplete),
    }
}

/// An action of the table: its kind and parameter count as `i8` values, then the action.
/// Reading panics when the two numbers are cut short.
pub open spec fn table_action_fn(d: Seq<u8>, le: bool) -> spec_fn(nat) -> Parsed<AnmActionView> {
    |p: nat| match sp_i8(d, p) {
        Some((id, q)) => match sp_i8(d, q) {
            Some((count, q2)) => sp_action(d, q2, le, id as u8, count),
            None => Parsed::Panics,
        },
        None => Parsed::Panics,
    }
}

/// The actions of the table: their count as an `i32`, then the actions. Reading panics
/// when the count is cut short or negative.
pub open spec fn sp_table_actions(d: Seq<u8>, p: nat, le: bool) -> Parsed<Seq<AnmActionView>> {
    match sp_i32(d, p, le) {
        Some((n, q)) => if n < 0 {
            Parsed::Panics
        } else {
            crate::parse::sp_many3(n as nat, q, table_action_fn(d, le))
        },
        None => Parsed::Panics,
    }
}

/// The table: colors, rotations and translations as lists of floats, then the actions.
pub open spec fn sp_table(d: Seq<u8>, p: nat, le: bool) -> Parsed<AnmTransformDataTableView> {
    match sp_floats(d, p, le) {
        Parsed::Done(colors, q1) => match sp_floats(d, q1, le) {
            Parsed::Done(rotations, q2) => match sp_floats(d, q2, le) {
                Parsed::Done(translations, q3) => match sp_table_actions(d, q3, le) {
                    Parsed::Done(actions, q4) => Parsed::Done(
                        AnmTransformDataTableView { colors, rotations, translations, actions },
                        q4,
                    ),
                    Parsed::Fails(e) => Parsed::Fails(e),
                    Parsed::Panics => Parsed::Panics,
                },
                Parsed::Fails(e) => Parsed::Fails(e),
                Parsed::Panics => Parsed::Panics,
            },
            Parsed::Fails(e) => Parsed::Fails(e),
            Parsed::Panics => Parsed::Panics,
        },
        Parsed::Fails(e) => Parsed::Fails(e),
        Parsed::Panics => Parsed::Panics,
    }
}

impl AnmTransformDataTable {
    pub fn default() -> (r: Self)
        ensures
            r@.colors.len() == 0,
            r@.rotations.len() == 0,
            r@.translations.len() == 0,
            r@.actions.len() == 0,
    {
        AnmTransformDataTable {
            colors: Vec::new(),
            rotations: Vec::new(),
            translations: Vec::new(),
            actions: Vec::new(),
        }
    }

    pub fn read(buffer: &mut ByteBuffer) -> (r: Result<Self, ReadError>)
        requires
            !(sp_table(dat(*old(buffer)), pos(*old(buffer)), le(*old(buffer))) is Panics),
        ensures
            parsed_as(*old(buffer), *final(buffer), r, sp_table(dat(*old(buffer)), pos(*old(buffer)), le(*old(buffer)))),
    {
        match Self::read_checked(buffer) {
            Some(r) => r,
            None => Err(ReadError::BadInput),
        }
    }

    /// Reads a table like [`AnmTransformDataTable::read`], on every input: `None` where
    /// [`sp_table`] panics.
    pub fn read_checked(buffer: &mut ByteBuffer) -> (r: Option<Result<Self, ReadError>>)
        ensures
            checked_as(*old(buffer), *final(buffer), r, sp_table(dat(*old(buffer)), pos(*old(buffer)), le(*old(buffer)))),
    {
        let colors = match AnmTransformDataTable::read_floats_checked(buffer) {
            Some(Ok(v)) => v,
            Some(Err(e)) => return Some(Err(e)),
            None => return None,
        };
        let rotations = match AnmTransformDataTable::read_floats_checked(buffer) {
            Some(Ok(v)) => v,
            Some(Err(e)) => return Some(Err(e)),
            None => return None,
        };
        let translations = match AnmTransformDataTable::read_floats_checked(buffer) {
            Some(Ok(v)) => v,
            Some(Err(e)) => return Some(Err(e)),
            None => return None,
        };
        let actions = match AnmTransformDataTable::read_actions_checked(buffer) {
            Some(Ok(v)) => v,
            Some(Err(e)) => return Some(Err(e)),
            None => return None,
        };
        Some(Ok(AnmTransformDataTable { colors, rotations, translations, actions }))
    }

    pub fn read_floats(buffer: &mut ByteBuffer) -> (r: Result<Vec<u32>, ReadError>)
        requires
            !(sp_floats(dat(*old(buffer)), pos(*old(buffer)), le(*old(buffer))) is Panics),
        ensures
            parsed_as(*old(buffer), *final(buffer), r, sp_floats(dat(*old(buffer)), pos(*old(buffer)), le(*old(buffer)))),
    {
        match Self::read_floats_checked(buffer) {
            Some(r) => r,
            None => Err(ReadError::BadInput),
        }
    }

    /// Reads a list of floats like [`AnmTransformDataTable::read_floats`], on every input:
    /// `None` where [`sp_floats`] panics.
    pub fn read_floats_checked(buffer: &mut ByteBuffer) -> (r: Option<Result<Vec<u32>, ReadError>>)
        ensures
            checked_as(*old(buffer), *final(buffer), r, sp_floats(dat(*old(buffer)), pos(*old(buffer)), le(*old(buffer)))),
    {
        let count = match read_i32(buffer) {
            Ok(v) => v,
            Err(e) => return Some(Err(e)),
        };
        if count < 0 {
            return None;
        }
        Some(read_u32s(buffer, count as usize))
    }

    pub fn read_actions(buffer: &mut ByteBuffer) -> (r: Result<Vec<AnmAction>, ReadError>)
        requires
            !(sp_table_actions(dat(*old(buffer)), pos(*old(buffer)), le(*old(buffer))) is Panics),
        ensures
            same_bytes(*old(buffer), *final(buffer)),
            match sp_table_actions(dat(*old(buffer)), pos(*old(buffer)), le(*old(buffer))) {
                Parsed::Done(v, q) => r matches Ok(x) && x@.map_values(|a: AnmAction| a@) == v
                    && pos(*final(buffer)) == q && bits_after(*old(buffer), *final(buffer)),
                Parsed::Fails(e) => r == Err::<Vec<AnmAction>, ReadError>(e),
                Parsed::Panics => false,
            },
    {
        match Self::read_actions_checked(buffer) {
            Some(r) => r,
            None => Err(ReadError::BadInput),
        }
    }

    /// Reads the actions like [`AnmTransformDataTable::read_actions`], on every input:
    /// `None` where [`sp_table_actions`] panics.
    pub fn read_actions_checked(buffer: &mut ByteBuffer) -> (r: Option<Result<Vec<AnmAction>, ReadError>>)
        ensures
            same_bytes(*old(buffer), *final(buffer)),
            match sp_table_actions(dat(*old(buffer)), pos(*old(buffer)), le(*old(buffer))) {
                Parsed::Done(v, q) => r matches Some(Ok(x)) && x@.map_values(|a: AnmAction| a@) == v
                    && pos(*final(buffer)) == q && bits_after(*old(buffer), *final(buffer)),
                Parsed::Fails(e) => r == Some(Err::<Vec<AnmAction>, ReadError>(e)),
                Parsed::Panics => r is None,
            },
    {
        let ghost d = dat(*buffer);
        let ghost l = le(*buffer);
        let count = match read_i32(buffer) {
            Ok(c) => c,
            Err(_) => return None,
        };
        if count < 0 {
            return None;
        }
        let ghost q0 = pos(*buffer);
        let ghost b0 = *buffer;
        let mut actions: Vec<AnmAction> = Vec::new();
        proof {
            assert(actions@.map_values(|a: AnmAction| a@) =~= Seq::<AnmActionView>::empty());
        }
        let mut i: i32 = 0;
        while i < count
            invariant
                same_bytes(*old(buffer), *buffer),
                d == dat(*old(buffer)),
                l == le(*old(buffer)),
                0 <= i <= count,
                sp_i32(d, pos(*old(buffer)), l) == Some((count, q0)),
                crate::parse::sp_many3(i as nat, q0, table_action_fn(d, l)) == Parsed::Done(
                    actions@.map_values(|a: AnmAction| a@),
                    pos(*buffer),
                ),
                bits_after(b0, *buffer),
                bits_after(*old(buffer), b0),
            decreases count - i,
        {
            let ghost before = *buffer;
            let ghost at = pos(*buffer);
            let action_id = match read_i8(buffer) {
                Ok(v) => v,
                Err(_) => {
                    proof {
                        assert(table_action_fn(d, l)(at) is Panics);
                        crate::parse::lemma_many3_stops((i + 1) as nat, count as nat, q0, table_action_fn(d, l));
                    }
                    return None;
                },
            };
            let parameters_count = match read_i8(buffer) {
                Ok(v) => v,
                Err(_) => {
                    proof {
                        assert(table_action_fn(d, l)(at) is Panics);
                        crate::parse::lemma_many3_stops((i + 1) as nat, count as nat, q0, table_action_fn(d, l));
                    }
                    return None;
                },
            };
            let action = match AnmAction::get_checked(action_id as u8, parameters_count, buffer) {
                Some(Ok(a)) => a,
                Some(Err(e)) => {
                    proof {
                        crate::parse::lemma_many3_stops((i + 1) as nat, count as nat, q0, table_action_fn(d, l));
                    }
                    return Some(Err(e));
                },
                None => {
                    proof {
                        crate::parse::lemma_many3_stops((i + 1) as nat, count as nat, q0, table_action_fn(d, l));
                    }
                    return None;
                },
            };
            let ghost old_seq = actions@.map_values(|a: AnmAction| a@);
            actions.push(action);
            proof {
                assert(actions@.map_values(|a: AnmAction| a@) =~= old_seq.push(action@));
            }
            i = i + 1;
        }
        Some(Ok(actions))
    }

    pub fn is_empty(&self) -> (r: bool)
        ensures
            r == (self@.colors.len() == 0 && self@.rotations.len() == 0 && self@.translations.len() == 0
                && self@.actions.len() == 0),
    {
        self.colors.len() == 0 && self.rotations.len() == 0 && self.translations.len() == 0
            && self.actions.len() == 0
    }
}

pub struct CanHidePartView {
    pub item_name: Seq<u8>,
    pub crc_key: i32,
}

impl View for CanHidePart {
    type V = CanHidePartView;

    open spec fn view(&self) -> CanHidePartView {
        CanHidePartView { item_name: self.item_name@, crc_key: self.crc_key }
    }
}

impl View for HiddingPart {
    type V = HiddingPart;

    open spec fn view(&self) -> HiddingPart {
        *self
    }
}

/// A hidden part: two `i32` values.
pub open spec fn hidden_fn(d: Seq<u8>, le: bool) -> spec_fn(nat) -> Option<(HiddingPart, nat)> {
    |p: nat| match sp_i32(d, p, le) {
        Some((a, q)) => match sp_i32(d, q, le) {
            Some((b, q2)) => Some((HiddingPart { crc_key: a, crc_to_hide: b }, q2)),
            None => None,
        },
        None => None,
    }
}

/// An item that hides parts: its name without a length, then its key as an `i32`.
pub open spec fn can_hide_fn(d: Seq<u8>, le: bool) -> spec_fn(nat) -> Option<(CanHidePartView, nat)> {
    |p: nat| match sp_cstr(d, p) {
        Some((n, q)) => match sp_i32(d, q, le) {
            Some((k, q2)) => Some((CanHidePartView { item_name: n, crc_key: k }, q2)),
            None => None,
        },
        None => None,
    }
}

pub open spec fn record_fn(d: Seq<u8>, le: bool) -> spec_fn(nat) -> Option<(AnmAnimationFileRecordView, nat)> {
    |p: nat| sp_file_record(d, p, le)
}

/// Reads `n` hidden parts.
pub fn read_hidden_parts(buffer: &mut ByteBuffer, n: usize) -> (r: Result<Vec<HiddingPart>, ReadError>)
    ensures
        reads_as(*old(buffer), *final(buffer), r, sp_many(n as nat, pos(*old(buffer)), hidden_fn(dat(*old(buffer)), le(*old(buffer))))),
{
    let ghost d = dat(*buffer);
    let ghost l = le(*buffer);
    let ghost p0 = pos(*buffer);
    let mut out: Vec<HiddingPart> = Vec::new();
    let mut i: usize = 0;
    while i < n
        invariant
            same_bytes(*old(buffer), *buffer),
            d == dat(*old(buffer)),
            l == le(*old(buffer)),
            p0 == pos(*old(buffer)),
            i <= n,
            sp_many(i as nat, p0, hidden_fn(d, l)) == Some((out@, pos(*buffer))),
            bits_after(*old(buffer), *buffer),
        decreases n - i,
    {
        let a = match read_i32(buffer) {
            Ok(v) => v,
            Err(e) => {
                proof {
                    lemma_many_fails((i + 1) as nat, n as nat, p0, hidden_fn(d, l));
                }
                return Err(e);
            },
        };
        let b = match read_i32(buffer) {
            Ok(v) => v,
            Err(e) => {
                proof {
                    lemma_many_fails((i + 1) as nat, n as nat, p0, hidden_fn(d, l));
                }
                return Err(e);
            },
        };
        out.push(HiddingPart { crc_key: a, crc_to_hide: b });
        i = i + 1;
    }
    Ok(out)
}

/// Reads `n` items that hide parts.
pub fn read_can_hide_parts(buffer: &mut ByteBuffer, n: usize) -> (r: Result<Vec<CanHidePart>, ReadError>)
    ensures
        same_bytes(*old(buffer), *final(buffer)),
        match sp_many(n as nat, pos(*old(buffer)), can_hide_fn(dat(*old(buffer)), le(*old(buffer)))) {
            Some((v, q)) => r matches Ok(x) && x@.map_values(|c: CanHidePart| c@) == v && pos(*final(buffer)) == q
                && bits_after(*old(buffer), *final(buffer)),
            None => r == Err::<Vec<CanHidePart>, ReadError>(ReadError::Incomplete),
        },
{
    let ghost d = dat(*buffer);
    let ghost l = le(*buffer);
    let ghost p0 = pos(*buffer);
    let mut out: Vec<CanHidePart> = Vec::new();
    proof {
        assert(out@.map_values(|c: CanHidePart| c@) =~= Seq::<CanHidePartView>::empty());
    }
    let mut i: usize = 0;
    while i < n
        invariant
            same_bytes(*old(buffer), *buffer),
            d == dat(*old(buffer)),
            l == le(*old(buffer)),
            p0 == pos(*old(buffer)),
            i <= n,
            sp_many(i as nat, p0, can_hide_fn(d, l)) == Some((out@.map_values(|c: CanHidePart| c@), pos(*buffer))),
            bits_after(*old(buffer), *buffer),
        decreases n - i,
    {
        let item_name = match read_cstr(buffer) {
            Ok(v) => v,
            Err(e) => {
                proof {
                    lemma_many_fails((i + 1) as nat, n as nat, p0, can_hide_fn(d, l));
                }
                return Err(e);
            },
        };
        let crc_key = match read_i32(buffer) {
            Ok(v) => v,
            Err(e) => {
                proof {
                    lemma_many_fails((i + 1) as nat, n as nat, p0, can_hide_fn(d, l));
                }
                return Err(e);
            },
        };
        let ghost before = out@.map_values(|c: CanHidePart| c@);
        let item = CanHidePart { item_name, crc_key };
        out.push(item);
        proof {
            assert(out@.map_values(|c: CanHidePart| c@) =~= before.push(item@));
        }
        i = i + 1;
    }
    Ok(out)
}

/// Reads `n` animation records.
pub fn read_file_records(buffer: &mut ByteBuffer, n: usize) -> (r: Result<Vec<AnmAnimationFileRecord>, ReadError>)
    ensures
        same_bytes(*old(buffer), *final(buffer)),
        match sp_many(n as nat, pos(*old(buffer)), record_fn(dat(*old(buffer)), le(*old(buffer)))) {
            Some((v, q)) => r matches Ok(x) && x@.map_values(|c: AnmAnimationFileRecord| c@) == v
                && pos(*final(buffer)) == q && bits_after(*old(buffer), *final(buffer)),
            None => r == Err::<Vec<AnmAnimationFileRecord>, ReadError>(ReadError::Incomplete),
        },
{
    let ghost d = dat(*buffer);
    let ghost l = le(*buffer);
    let ghost p0 = pos(*buffer);
    let mut out: Vec<AnmAnimationFileRecord> = Vec::new();
    proof {
        assert(out@.map_values(|c: AnmAnimationFileRecord| c@) =~= Seq::<AnmAnimationFileRecordView>::empty());
    }
    let mut i: usize = 0;
    while i < n
        invariant
            same_bytes(*old(buffer), *buffer),
            d == dat(*old(buffer)),
            l == le(*old(buffer)),
            p0 == pos(*old(buffer)),
            i <= n,
            sp_many(i as nat, p0, record_fn(d, l)) == Some(
                (out@.map_values(|c: AnmAnimationFileRecord| c@), pos(*buffer)),
            ),
            bits_after(*old(buffer), *buffer),
        decreases n - i,
    {
        let record = match AnmAnimationFileRecord::read(buffer) {
            Ok(v) => v,
            Err(e) => {
                proof {
                    lemma_many_fails((i + 1) as nat, n as nat, p0, record_fn(d, l));
                }
                return Err(e);
            },
        };
        let ghost before = out@.map_values(|c: AnmAnimationFileRecord| c@);
        out.push(record);
        proof {
            assert(out@.map_values(|c: AnmAnimationFileRecord| c@) =~= before.push(record@));
        }
        i = i + 1;
    }
    Ok(out)
}

/// The index of an animation file: its flags, scale and radius, the files it uses, the
/// parts items hide, an extension, and its animations.
///
/// The animations are looked up by name in the list, the last record of a name
/// winning, as in a map by name.
#[derive(Debug)]
pub struct AnimIndex {
    pub flags: i8,
    /// The bits of the 32-bit float scale (0 when absent).
    pub scale: u32,
    /// The bits of the 32-bit float render radius (0 when absent).
    pub render_radius: u32,
    pub file_names: Vec<Vec<u8>>,
    pub part_hidden_by_item: Vec<HiddingPart>,
    pub can_hide_part_item: Vec<CanHidePart>,
    pub extend: AnmIndexExtend,
    pub animation_file_records: Vec<AnmAnimationFileRecord>,
}

pub struct AnimIndexView {
    pub flags: i8,
    pub scale: u32,
    pub render_radius: u32,
    pub file_names: Seq<Seq<u8>>,
    pub part_hidden_by_item: Seq<HiddingPart>,
    pub can_hide_part_item: Seq<CanHidePartView>,
    pub extend: AnmIndexExtendView,
    pub animation_file_records: Seq<AnmAnimationFileRecordView>,
}

impl View for AnimIndex {
    type V = AnimIndexView;

    open spec fn view(&self) -> AnimIndexView {
        AnimIndexView {
            flags: self.flags,
            scale: self.scale,
            render_radius: self.render_radius,
            file_names: self.file_names.deep_view(),
            part_hidden_by_item: self.part_hidden_by_item@,
            can_hide_part_item: self.can_hide_part_item@.map_values(|c: CanHidePart| c@),
            extend: self.extend@,
            animation_file_records: self.animation_file_records@.map_values(|c: AnmAnimationFileRecord| c@),
        }
    }
}

/// A float that is there only when `on`: its bits, or 0.
pub open spec fn sp_f32_if(d: Seq<u8>, p: nat, le: bool, on: bool) -> Option<(u32, nat)> {
    if on {
        sp_u32(d, p, le)
    } else {
        Some((0, p))
    }
}

/// File names that are there only when `on`: a count as an `i16`, then the names.
pub open spec fn sp_file_names(d: Seq<u8>, p: nat, le: bool, on: bool) -> Option<(Seq<Seq<u8>>, nat)> {
    if on {
        match sp_i16(d, p, le) {
            Some((n, q)) => sp_many(loop_count(n as int), q, crate::parse::cstr_fn(d)),
            None => None,
        }
    } else {
        Some((Seq::empty(), p))
    }
}

/// Hidden parts that are there only when `on`: a count as an `i8`, then the parts.
pub open spec fn sp_hidden_parts(d: Seq<u8>, p: nat, le: bool, on: bool) -> Option<(Seq<HiddingPart>, nat)> {
    if on {
        match sp_i8(d, p) {
            Some((n, q)) => sp_many(loop_count(n as int), q, hidden_fn(d, le)),
            None => None,
        }
    } else {
        Some((Seq::empty(), p))
    }
}

/// Items that hide parts, there only when `on`: a count as an `i8`, then the items.
pub open spec fn sp_can_hide_parts(d: Seq<u8>, p: nat, le: bool, on: bool) -> Option<(Seq<CanHidePartView>, nat)> {
    if on {
        match sp_i8(d, p) {
            Some((n, q)) => sp_many(loop_count(n as int), q, can_hide_fn(d, le)),
            None => None,
        }
    } else {
        Some((Seq::empty(), p))
    }
}

/// An extension that is there only when `on` (an empty one otherwise).
pub open spec fn sp_extend_if(d: Seq<u8>, p: nat, le: bool, on: bool) -> Option<(AnmIndexExtendView, nat)> {
    if on {
        sp_index_extend(d, p, le)
    } else {
        Some((AnmIndexExtendView { heights: Map::empty(), high_light_color: Seq::empty() }, p))
    }
}

/// The records of the index: their count as an `i16`, then the records. A negative count
/// panics (room would be reserved for that many).
pub open spec fn sp_records(d: Seq<u8>, p: nat, le: bool) -> Parsed<Seq<AnmAnimationFileRecordView>> {
    match sp_i16(d, p, le) {
        Some((n, q)) => if n < 0 {
            Parsed::Panics
        } else {
            lift(sp_many(n as nat, q, record_fn(d, le)))
        },
        None => Parsed::Fails(ReadError::Incomplete),
    }
}

/// The start of the index: its flags as an `i8`; the scale with flag `0x1`; the radius
/// with flag `0x8`; file names with flag `0x2`.
pub open spec fn sp_index_start(d: Seq<u8>, p: nat, le: bool) -> Option<((i8, u32, u32, Seq<Seq<u8>>), nat)> {
    match sp_i8(d, p) {
        None => None,
        Some((flags, q0)) => match sp_f32_if(d, q0, le, (flags & 0x1) != 0) {
            None => None,
            Some((scale, q1)) => match sp_f32_if(d, q1, le, (flags & 0x8) != 0) {
                None => None,
                Some((render_radius, q2)) => match sp_file_names(d, q2, le, (flags & 0x2) != 0) {
                    None => None,
                    Some((file_names, q3)) => Some(((flags, scale, render_radius, file_names), q3)),
                },
            },
        },
    }
}

/// The parts of the index that `flags` announce after the file names: hidden parts with
/// flag `0x4`; items hiding parts with flag `0x40`; the extension with flag `0x80`.
pub open spec fn sp_index_parts(d: Seq<u8>, p: nat, le: bool, flags: i8) -> Option<
    ((Seq<HiddingPart>, Seq<CanHidePartView>, AnmIndexExtendView), nat),
> {
    match sp_hidden_parts(d, p, le, (flags & 0x4) != 0) {
        None => None,
        Some((hidden, q4)) => match sp_can_hide_parts(d, q4, le, (flags & 0x40) != 0) {
            None => None,
            Some((can_hide, q5)) => match sp_extend_if(d, q5, le, (flags as u8 & 0x80) != 0) {
                None => None,
                Some((extend, q6)) => Some(((hidden, can_hide, extend), q6)),
            },
        },
    }
}

/// The index: its start, the parts its flags announce, then the records.
pub open spec fn sp_anim_index(d: Seq<u8>, p: nat, le: bool) -> Parsed<AnimIndexView> {
    match sp_index_start(d, p, le) {
        None => Parsed::Fails(ReadError::Incomplete),
        Some(((flags, scale, render_radius, file_names), q3)) => match sp_index_parts(d, q3, le, flags) {
            None => Parsed::Fails(ReadError::Incomplete),
            Some(((hidden, can_hide, extend), q6)) => match sp_records(d, q6, le) {
                Parsed::Done(records, q7) => Parsed::Done(
                    AnimIndexView {
                        flags,
                        scale,
                        render_radius,
                        file_names,
                        part_hidden_by_item: hidden,
                        can_hide_part_item: can_hide,
                        extend,
                        animation_file_records: records,
                    },
                    q7,
                ),
                Parsed::Fails(e) => Parsed::Fails(e),
                Parsed::Panics => Parsed::Panics,
            },
        },
    }
}

/// The index of the last record named `name`.
pub open spec fn find_last(rs: Seq<AnmAnimationFileRecordView>, name: Seq<u8>) -> Option<int>
    decreases rs.len(),
{
    if rs.len() == 0 {
        None
    } else if rs.last().name == name {
        Some(rs.len() - 1)
    } else {
        find_last(rs.drop_last(), name)
    }
}

/// The bytes of `AnimStatique`.
pub open spec fn anim_statique() -> Seq<u8> {
    seq![65u8, 110, 105, 109, 83, 116, 97, 116, 105, 113, 117, 101]
}

/// Whether `needle` occurs in `hay`.
pub open spec fn contains_bytes(hay: Seq<u8>, needle: Seq<u8>) -> bool {
    exists|i: int| 0 <= i && i + needle.len() <= hay.len() && #[trigger] hay.subrange(i, i + needle.len()) == needle
}

/// The index of the last record whose name holds `AnimStatique`.
pub open spec fn find_last_statique(rs: Seq<AnmAnimationFileRecordView>) -> Option<int>
    decreases rs.len(),
{
    if rs.len() == 0 {
        None
    } else if contains_bytes(rs.last().name, anim_statique()) {
        Some(rs.len() - 1)
    } else {
        find_last_statique(rs.drop_last())
    }
}

/// A name cut before its second `_` (the whole name when it has only one); `None` for a
/// name without `_`. This is the name's first two `_`-separated parts joined by `_`.
pub open spec fn name_without_state(name: Seq<u8>) -> Option<Seq<u8>> {
    match find_byte(name, 0, 95) {
        None => None,
        Some(i) => Some(
            name.subrange(
                0,
                match find_byte(name, i + 1, 95) {
                    Some(j) => j,
                    None => name.len() as int,
                },
            ),
        ),
    }
}

/// Which record a name leads to: the record of that name; else, for a name with a `_`, the
/// record of its first two parts; else a record whose name holds `AnimStatique`.
pub open spec fn record_lookup(rs: Seq<AnmAnimationFileRecordView>, name: Seq<u8>) -> Option<int> {
    match find_last(rs, name) {
        Some(i) => Some(i),
        None => match name_without_state(name) {
            Some(n2) => match find_last(rs, n2) {
                Some(i) => Some(i),
                None => find_last_statique(rs),
            },
            None => find_last_statique(rs),
        },
    }
}

impl AnimIndex {
    pub fn default() -> (r: Self)
        ensures
            r@.flags == 0,
            r@.scale == 0,
            r@.render_radius == 0,
            r@.file_names.len() == 0,
            r@.part_hidden_by_item.len() == 0,
            r@.can_hide_part_item.len() == 0,
            r@.extend.heights == Map::<i32, i8>::empty(),
            r@.extend.high_light_color.len() == 0,
            r@.animation_file_records.len() == 0,
    {
        AnimIndex {
            flags: 0,
            scale: 0,
            render_radius: 0,
            file_names: Vec::new(),
            part_hidden_by_item: Vec::new(),
            can_hide_part_item: Vec::new(),
            extend: AnmIndexExtend::default(),
            animation_file_records: Vec::new(),
        }
    }

    pub fn read(buffer: &mut ByteBuffer) -> (r: Result<Self, ReadError>)
        requires
            !(sp_anim_index(dat(*old(buffer)), pos(*old(buffer)), le(*old(buffer))) is Panics),
        ensures
            parsed_as(*old(buffer), *final(buffer), r, sp_anim_index(dat(*old(buffer)), pos(*old(buffer)), le(*old(buffer)))),
    {
        match Self::read_checked(buffer) {
            Some(r) => r,
            None => Err(ReadError::BadInput),
        }
    }

    /// Reads an index like [`AnimIndex::read`], on every input: `None` where
    /// [`sp_anim_index`] panics.
    pub fn read_checked(buffer: &mut ByteBuffer) -> (r: Option<Result<Self, ReadError>>)
        ensures
            checked_as(*old(buffer), *final(buffer), r, sp_anim_index(dat(*old(buffer)), pos(*old(buffer)), le(*old(buffer)))),
    {
        let (flags, scale, render_radius, file_names) = match read_index_start(buffer) {
            Ok(v) => v,
            Err(e) => return Some(Err(e)),
        };
        let (part_hidden_by_item, can_hide_part_item, extend) = match read_index_parts(buffer, flags) {
            Ok(v) => v,
            Err(e) => return Some(Err(e)),
        };
        let num_records = match read_i16(buffer) {
            Ok(v) => v,
            Err(e) => return Some(Err(e)),
        };
        if num_records < 0 {
            return None;
        }
        let animation_file_records = match read_file_records(buffer, num_records as usize) {
            Ok(v) => v,
            Err(e) => return Some(Err(e)),
        };
        Some(Ok(AnimIndex {
            flags,
            scale,
            render_radius,
            file_names,
            part_hidden_by_item,
            can_hide_part_item,
            extend,
            animation_file_records,
        }))
    }

    /// Whether directions mirror each other: flag `0x10` is clear.
    pub fn use_flip(&self) -> (r: bool)
        ensures
            r == ((self.flags & 0x10) == 0),
    {
        (self.flags & 0x10) == 0
    }

    /// The record a name leads to (see [`record_lookup`]). A record must
    /// fit.
    pub fn get_animation_file_record(&self, anim_name: &Vec<u8>) -> (r: &AnmAnimationFileRecord)
        requires
            record_lookup(self@.animation_file_records, anim_name@) is Some,
        ensures
            r@ == self@.animation_file_records[record_lookup(self@.animation_file_records, anim_name@)->0],
    {
        let rs = &self.animation_file_records;
        let ghost v = rs@.map_values(|c: AnmAnimationFileRecord| c@);
        assert(v == self@.animation_file_records);
        match find_last_record(rs, anim_name) {
            Some(i) => {
                proof {
                    lemma_find_last_bound(v, anim_name@);
                    assert(v[i as int] == rs@[i as int]@);
                }
                return &rs[i];
            },
            None => {},
        }
        match name_without_state_of(anim_name) {
            Some(n2) => match find_last_record(rs, &n2) {
                Some(i) => {
                    proof {
                        lemma_find_last_bound(v, n2@);
                        assert(v[i as int] == rs@[i as int]@);
                    }
                    return &rs[i];
                },
                None => {},
            },
            None => {},
        }
        let i = find_last_statique_record(rs);
        proof {
            lemma_find_last_statique_bound(v);
        }
        let k = i.unwrap();
        proof {
            assert(v[k as int] == rs@[k as int]@);
        }
        &rs[k]
    }
    /// The record a name leads to (see [`record_lookup`]), or `None` where no record
    /// fits.
    pub fn find_animation_file_record(&self, anim_name: &Vec<u8>) -> (r: Option<&AnmAnimationFileRecord>)
        ensures
            match record_lookup(self@.animation_file_records, anim_name@) {
                Some(i) => r matches Some(x) && x@ == self@.animation_file_records[i],
                None => r is None,
            },
    {
        let rs = &self.animation_file_records;
        let ghost v = rs@.map_values(|c: AnmAnimationFileRecord| c@);
        assert(v == self@.animation_file_records);
        match find_last_record(rs, anim_name) {
            Some(i) => {
                proof {
                    lemma_find_last_bound(v, anim_name@);
                    assert(v[i as int] == rs@[i as int]@);
                }
                return Some(&rs[i]);
            },
            None => {},
        }
        match name_without_state_of(anim_name) {
            Some(n2) => match find_last_record(rs, &n2) {
                Some(i) => {
                    proof {
                        lemma_find_last_bound(v, n2@);
                        assert(v[i as int] == rs@[i as int]@);
                    }
                    return Some(&rs[i]);
                },
                None => {},
            },
            None => {},
        }
        match find_last_statique_record(rs) {
            Some(k) => {
                proof {
                    lemma_find_last_statique_bound(v);
                    assert(v[k as int] == rs@[k as int]@);
                }
                Some(&rs[k])
            },
            None => None,
        }
    }
}

/// Reads the start of an index (see [`sp_index_start`]).
fn read_index_start(buffer: &mut ByteBuffer) -> (r: Result<(i8, u32, u32, Vec<Vec<u8>>), ReadError>)
    ensures
        same_bytes(*old(buffer), *final(buffer)),
        match sp_index_start(dat(*old(buffer)), pos(*old(buffer)), le(*old(buffer))) {
            Some(((f, s, rr, names), q)) => r matches Ok((f2, s2, rr2, names2)) && f2 == f && s2 == s
                && rr2 == rr && names2.deep_view() == names && pos(*final(buffer)) == q
                && bits_after(*old(buffer), *final(buffer)),
            None => r == Err::<(i8, u32, u32, Vec<Vec<u8>>), ReadError>(ReadError::Incomplete),
        },
{
    let flags = read_i8(buffer)?;
    let scale = if (flags & 0x1) != 0 {
        read_f32_bits(buffer)?
    } else {
        0
    };
    let render_radius = if (flags & 0x8) != 0 {
        read_f32_bits(buffer)?
    } else {
        0
    };
    let file_names: Vec<Vec<u8>> = if (flags & 0x2) != 0 {
        let n = read_i16(buffer)?;
        read_cstrs(buffer, if n < 0 { 0 } else { n as usize })?
    } else {
        let v: Vec<Vec<u8>> = Vec::new();
        proof {
            assert(v.deep_view() =~= Seq::<Seq<u8>>::empty());
        }
        v
    };
    Ok((flags, scale, render_radius, file_names))
}

/// Reads the parts of an index that its flags announce (see [`sp_index_parts`]).
fn read_index_parts(buffer: &mut ByteBuffer, flags: i8) -> (r: Result<
    (Vec<HiddingPart>, Vec<CanHidePart>, AnmIndexExtend),
    ReadError,
>)
    ensures
        same_bytes(*old(buffer), *final(buffer)),
        match sp_index_parts(dat(*old(buffer)), pos(*old(buffer)), le(*old(buffer)), flags) {
            Some(((h, c, e), q)) => r matches Ok((h2, c2, e2)) && h2@ == h && c2@.map_values(
                |x: CanHidePart| x@,
            ) == c && e2@ == e && pos(*final(buffer)) == q && bits_after(*old(buffer), *final(buffer)),
            None => r == Err::<(Vec<HiddingPart>, Vec<CanHidePart>, AnmIndexExtend), ReadError>(
                ReadError::Incomplete,
            ),
        },
{
    let part_hidden_by_item = if (flags & 0x4) != 0 {
        let n = read_i8(buffer)?;
        read_hidden_parts(buffer, if n < 0 { 0 } else { n as usize })?
    } else {
        Vec::new()
    };
    let can_hide_part_item = if (flags & 0x40) != 0 {
        let n = read_i8(buffer)?;
        read_can_hide_parts(buffer, if n < 0 { 0 } else { n as usize })?
    } else {
        let v: Vec<CanHidePart> = Vec::new();
        proof {
            assert(v@.map_values(|c: CanHidePart| c@) =~= Seq::<CanHidePartView>::empty());
        }
        v
    };
    let extend = if (flags as u8 & 0x80) != 0 {
        AnmIndexExtend::read(buffer)?
    } else {
        AnmIndexExtend::default()
    };
    Ok((part_hidden_by_item, can_hide_part_item, extend))
}

proof fn lemma_find_last_bound(rs: Seq<AnmAnimationFileRecordView>, name: Seq<u8>)
    ensures
        find_last(rs, name) matches Some(i) ==> 0 <= i < rs.len() && rs[i].name == name && (forall|k|
            i < k < rs.len() ==> rs[k].name != name),
        find_last(rs, name) is None ==> forall|k| 0 <= k < rs.len() ==> rs[k].name != name,
    decreases rs.len(),
{
    if rs.len() > 0 {
        assert(forall|k| 0 <= k < rs.len() - 1 ==> rs.drop_last()[k] == rs[k]);
        lemma_find_last_bound(rs.drop_last(), name);
    }
}

proof fn lemma_find_last_statique_bound(rs: Seq<AnmAnimationFileRecordView>)
    ensures
        find_last_statique(rs) matches Some(i) ==> 0 <= i < rs.len() && contains_bytes(rs[i].name, anim_statique())
            && (forall|k| i < k < rs.len() ==> !contains_bytes(rs[k].name, anim_statique())),
        find_last_statique(rs) is None ==> forall|k| 0 <= k < rs.len() ==> !contains_bytes(rs[k].name, anim_statique()),
    decreases rs.len(),
{
    if rs.len() > 0 {
        assert(forall|k| 0 <= k < rs.len() - 1 ==> rs.drop_last()[k] == rs[k]);
        lemma_find_last_statique_bound(rs.drop_last());
    }
}

proof fn lemma_find_last_unique(rs: Seq<AnmAnimationFileRecordView>, name: Seq<u8>, i: int)
    requires
        0 <= i < rs.len(),
        rs[i].name == name,
        forall|k| i < k < rs.len() ==> rs[k].name != name,
    ensures
        find_last(rs, name) == Some(i),
    decreases rs.len(),
{
    if i < rs.len() - 1 {
        assert(forall|k| 0 <= k < rs.len() - 1 ==> rs.drop_last()[k] == rs[k]);
        lemma_find_last_unique(rs.drop_last(), name, i);
    }
}

proof fn lemma_find_last_none(rs: Seq<AnmAnimationFileRecordView>, name: Seq<u8>)
    requires
        forall|k| 0 <= k < rs.len() ==> rs[k].name != name,
    ensures
        find_last(rs, name) is None,
    decreases rs.len(),
{
    if rs.len() > 0 {
        assert(forall|k| 0 <= k < rs.len() - 1 ==> rs.drop_last()[k] == rs[k]);
        lemma_find_last_none(rs.drop_last(), name);
    }
}

proof fn lemma_find_last_statique_unique(rs: Seq<AnmAnimationFileRecordView>, i: int)
    requires
        0 <= i < rs.len(),
        contains_bytes(rs[i].name, anim_statique()),
        forall|k| i < k < rs.len() ==> !contains_bytes(rs[k].name, anim_statique()),
    ensures
        find_last_statique(rs) == Some(i),
    decreases rs.len(),
{
    if i < rs.len() - 1 {
        assert(forall|k| 0 <= k < rs.len() - 1 ==> rs.drop_last()[k] == rs[k]);
        lemma_find_last_statique_unique(rs.drop_last(), i);
    }
}

proof fn lemma_find_last_statique_none(rs: Seq<AnmAnimationFileRecordView>)
    requires
        forall|k| 0 <= k < rs.len() ==> !contains_bytes(rs[k].name, anim_statique()),
    ensures
        find_last_statique(rs) is None,
    decreases rs.len(),
{
    if rs.len() > 0 {
        assert(forall|k| 0 <= k < rs.len() - 1 ==> rs.drop_last()[k] == rs[k]);
        lemma_find_last_statique_none(rs.drop_last());
    }
}

/// Whether two byte vectors hold the same bytes.
pub fn bytes_eq(a: &Vec<u8>, b: &Vec<u8>) -> (r: bool)
    ensures
        r == (a@ == b@),
{
    if a.len() != b.len() {
        return false;
    }
    let mut i: usize = 0;
    while i < a.len()
        invariant
            a@.len() == b@.len(),
            i <= a@.len(),
            forall|k| 0 <= k < i ==> a@[k] == b@[k],
        decreases a@.len() - i,
    {
        if a[i] != b[i] {
            return false;
        }
        i = i + 1;
    }
    proof {
        assert(a@ =~= b@);
    }
    true
}

/// The index of the last record named `name`.
pub fn find_last_record(rs: &Vec<AnmAnimationFileRecord>, name: &Vec<u8>) -> (r: Option<usize>)
    ensures
        r matches Some(i) ==> find_last(rs@.map_values(|c: AnmAnimationFileRecord| c@), name@) == Some(i as int),
        r is None ==> find_last(rs@.map_values(|c: AnmAnimationFileRecord| c@), name@) is None,
{
    let ghost v = rs@.map_values(|c: AnmAnimationFileRecord| c@);
    let mut i: usize = rs.len();
    while i > 0
        invariant
            i <= rs@.len(),
            v == rs@.map_values(|c: AnmAnimationFileRecord| c@),
            forall|k| i <= k < v.len() ==> v[k].name != name@,
        decreases i,
    {
        i = i - 1;
        if bytes_eq(&rs[i].name, name) {
            proof {
                lemma_find_last_unique(v, name@, i as int);
            }
            return Some(i);
        }
    }
    proof {
        lemma_find_last_none(v, name@);
    }
    None
}

/// Whether `needle` occurs in `hay`.
pub fn contains_subslice(hay: &Vec<u8>, needle: &Vec<u8>) -> (r: bool)
    ensures
        r == contains_bytes(hay@, needle@),
{
    if needle.len() > hay.len() {
        proof {
            assert forall|i: int| 0 <= i && i + needle@.len() <= hay@.len() implies #[trigger] hay@.subrange(i, i + needle@.len()) != needle@ by {}
        }
        return false;
    }
    let mut i: usize = 0;
    while i <= hay.len() - needle.len()
        invariant
            needle@.len() <= hay@.len(),
            i <= hay@.len() - needle@.len() + 1,
            forall|k: int| 0 <= k < i ==> #[trigger] hay@.subrange(k, k + needle@.len()) != needle@,
        decreases hay@.len() - i,
    {
        let mut j: usize = 0;
        let mut same = true;
        while j < needle.len()
            invariant
                i + needle@.len() <= hay@.len(),
                j <= needle@.len(),
                same == (forall|k: int| 0 <= k < j ==> hay@[i + k] == needle@[k]),
            decreases needle@.len() - j,
        {
            assert(i + j < hay.len());
            if hay[i + j] != needle[j] {
                same = false;
            }
            j = j + 1;
        }
        if same {
            proof {
                assert(hay@.subrange(i as int, i + needle@.len()) =~= needle@);
            }
            return true;
        }
        proof {
            let k0 = choose|k: int| 0 <= k < needle@.len() && hay@[i + k] != needle@[k];
            assert(hay@.subrange(i as int, i + needle@.len())[k0] != needle@[k0]);
        }
        i = i + 1;
    }
    proof {
        assert forall|k: int| 0 <= k && k + needle@.len() <= hay@.len() implies #[trigger] hay@.subrange(k, k + needle@.len()) != needle@ by {
            assert(k < i);
        }
    }
    false
}

/// The bytes of `AnimStatique`.
pub fn anim_statique_bytes() -> (r: Vec<u8>)
    ensures
        r@ == anim_statique(),
{
    let r: Vec<u8> = vec![65u8, 110, 105, 109, 83, 116, 97, 116, 105, 113, 117, 101];
    proof {
        assert(r@ =~= anim_statique());
    }
    r
}

/// The index of the last record whose name holds `AnimStatique`.
pub fn find_last_statique_record(rs: &Vec<AnmAnimationFileRecord>) -> (r: Option<usize>)
    ensures
        r matches Some(i) ==> find_last_statique(rs@.map_values(|c: AnmAnimationFileRecord| c@)) == Some(i as int),
        r is None ==> find_last_statique(rs@.map_values(|c: AnmAnimationFileRecord| c@)) is None,
{
    let ghost v = rs@.map_values(|c: AnmAnimationFileRecord| c@);
    let needle = anim_statique_bytes();
    let mut i: usize = rs.len();
    while i > 0
        invariant
            i <= rs@.len(),
            v == rs@.map_values(|c: AnmAnimationFileRecord| c@),
            needle@ == anim_statique(),
            forall|k| i <= k < v.len() ==> !contains_bytes(v[k].name, anim_statique()),
        decreases i,
    {
        i = i - 1;
        if contains_subslice(&rs[i].name, &needle) {
            proof {
                lemma_find_last_statique_unique(v, i as int);
            }
            return Some(i);
        }
    }
    proof {
        lemma_find_last_statique_none(v);
    }
    None
}

/// The name cut before its second `_` (see [`name_without_state`]).
pub fn name_without_state_of(name: &Vec<u8>) -> (r: Option<Vec<u8>>)
    ensures
        r matches Some(x) ==> name_without_state(name@) == Some(x@),
        r is None ==> name_without_state(name@) is None,
{
    let first = crate::bytes::read_delimited(name.as_slice(), 0, 95);
    match first {
        None => {
            proof {
                lemma_find_byte(name@, 0, 95);
            }
            None
        },
        Some((head, after)) => {
            proof {
                lemma_find_byte(name@, 0, 95);
                lemma_find_byte(name@, after as int, 95);
            }
            let mut out = copy_bytes(&head);
            out.push(95);
            let mut j: usize = after;
            while j < name.len() && name[j] != 95
                invariant
                    after <= j <= name@.len(),
                    after >= 1,
                    name@[after - 1] == 95,
                    out@ == name@.subrange(0, j as int),
                    forall|k| after <= k < j ==> name@[k] != 95,
                decreases name@.len() - j,
            {
                out.push(name[j]);
                proof {
                    assert(out@ =~= name@.subrange(0, j + 1));
                }
                j = j + 1;
            }
            proof {
                assert(head@.push(95) =~= name@.subrange(0, after as int));
                if j < name@.len() {
                    assert(find_byte(name@, after as int, 95) == Some(j as int)) by {
                        let q = find_byte(name@, after as int, 95);
                        if q is Some {
                            let qq = q->0;
                            if qq < j {
                                assert(name@[qq] != 95);
                            }
                        }
                    }
                } else {
                    assert(find_byte(name@, after as int, 95) is None) by {
                        let q = find_byte(name@, after as int, 95);
                        if q is Some {
                            let qq = q->0;
                            assert(name@[qq] != 95);
                        }
                    }
                }
            }
            Some(out)
        },
    }
}

} // verus!
