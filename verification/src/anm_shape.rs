//! The shapes of an animation frame: a sprite id with the rotation, translation and
//! color changes it applies, stored in as many variants as there are combinations.
//!
//! Rotations are stored as 8.8 fixed point `i16` values (or `i8` scaled by 127 in the
//! compact variants), translations as 12.4 fixed point `i16` values, color additions as
//! `i16` scaled by 256 and color multipliers as `i8` scaled by 127.
use vstd::prelude::*;
use bytebuffer::ByteBuffer;
use crate::error::ReadError;
use crate::float_bits::{f32_times_16_as_i16, f32_bits_times_16_as_i16};
use crate::parse::{
    reads_as, dat, pos, le, sp_i8, sp_i16, sp_u32, sp_i16x2, sp_i16x4, sp_i8x2, sp_i8x4, read_i8,
    read_i16, read_f32_bits, read_i16x2, read_i16x4, read_i8x2, read_i8x4,
};

verus! {

/// A sprite drawn with its parent's transform.
#[derive(Clone, Copy, Debug, PartialEq, Eq, Structural)]
pub struct AnmShape {
    pub id: i16,
}

impl View for AnmShape {
    type V = AnmShape;

    open spec fn view(&self) -> AnmShape {
        *self
    }
}

impl AnmShape {
    pub fn load(_buffer: &mut ByteBuffer, id: i16) -> (r: Result<Self, ReadError>)
        ensures
            r == Ok::<Self, ReadError>(AnmShape { id }),
            *final(_buffer) == *old(_buffer),
    {
        Ok(AnmShape { id })
    }

    pub fn get_id(&self) -> (r: i16)
        ensures
            r == self.id,
    {
        self.id
    }
}

/// A sprite with its own rotation and skew.
#[derive(Clone, Copy, Debug, PartialEq, Eq, Structural)]
pub struct AnmShapeR {
    pub id: i16,
    pub rotation_skew_x0: i16,
    pub rotation_skew_y0: i16,
    pub rotation_skew_x1: i16,
    pub rotation_skew_y1: i16,
}

impl View for AnmShapeR {
    type V = AnmShapeR;

    open spec fn view(&self) -> AnmShapeR {
        *self
    }
}

pub open spec fn sp_shape_r(d: Seq<u8>, p: nat, le: bool, id: i16) -> Option<(AnmShapeR, nat)> {
    match sp_i16x4(d, p, le) {
        Some(((rotation_skew_x0, rotation_skew_y0, rotation_skew_x1, rotation_skew_y1), q)) => Some((AnmShapeR { id, rotation_skew_x0, rotation_skew_y0, rotation_skew_x1, rotation_skew_y1 }, q)),
        None => None,
    }
}

impl AnmShapeR {
    pub fn load(buffer: &mut ByteBuffer, id: i16) -> (r: Result<Self, ReadError>)
        ensures
            reads_as(*old(buffer), *final(buffer), r, sp_shape_r(dat(*old(buffer)), pos(*old(buffer)), le(*old(buffer)), id)),
    {
        let (rotation_skew_x0, rotation_skew_y0, rotation_skew_x1, rotation_skew_y1) = read_i16x4(buffer)?;
        Ok(AnmShapeR { id, rotation_skew_x0, rotation_skew_y0, rotation_skew_x1, rotation_skew_y1 })
    }

    pub fn get_id(&self) -> (r: i16)
        ensures
            r == self.id,
    {
        self.id
    }
}

/// A sprite with its own translation.
#[derive(Clone, Copy, Debug, PartialEq, Eq, Structural)]
pub struct AnmShapeT {
    pub id: i16,
    pub translation_x: i16,
    pub translation_y: i16,
}

impl View for AnmShapeT {
    type V = AnmShapeT;

    open spec fn view(&self) -> AnmShapeT {
        *self
    }
}

pub open spec fn sp_shape_t(d: Seq<u8>, p: nat, le: bool, id: i16) -> Option<(AnmShapeT, nat)> {
    match sp_i16x2(d, p, le) {
        Some(((translation_x, translation_y), q)) => Some((AnmShapeT { id, translation_x, translation_y }, q)),
        None => None,
    }
}

impl AnmShapeT {
    pub fn load(buffer: &mut ByteBuffer, id: i16) -> (r: Result<Self, ReadError>)
        ensures
            reads_as(*old(buffer), *final(buffer), r, sp_shape_t(dat(*old(buffer)), pos(*old(buffer)), le(*old(buffer)), id)),
    {
        let (translation_x, translation_y) = read_i16x2(buffer)?;
        Ok(AnmShapeT { id, translation_x, translation_y })
    }

    pub fn get_id(&self) -> (r: i16)
        ensures
            r == self.id,
    {
        self.id
    }
}

/// A sprite with its own translation, in the compact variant.
#[derive(Clone, Copy, Debug, PartialEq, Eq, Structural)]
pub struct AnmShapeCT {
    pub id: i16,
    pub translation_x: i16,
    pub translation_y: i16,
}

impl View for AnmShapeCT {
    type V = AnmShapeCT;

    open spec fn view(&self) -> AnmShapeCT {
        *self
    }
}

pub open spec fn sp_shape_ct(d: Seq<u8>, p: nat, le: bool, id: i16) -> Option<(AnmShapeCT, nat)> {
    match sp_i16x2(d, p, le) {
        Some(((translation_x, translation_y), q)) => Some((AnmShapeCT { id, translation_x, translation_y }, q)),
        None => None,
    }
}

impl AnmShapeCT {
    pub fn load(buffer: &mut ByteBuffer, id: i16) -> (r: Result<Self, ReadError>)
        ensures
            reads_as(*old(buffer), *final(buffer), r, sp_shape_ct(dat(*old(buffer)), pos(*old(buffer)), le(*old(buffer)), id)),
    {
        let (translation_x, translation_y) = read_i16x2(buffer)?;
        Ok(AnmShapeCT { id, translation_x, translation_y })
    }

    pub fn get_id(&self) -> (r: i16)
        ensures
            r == self.id,
    {
        self.id
    }
}

/// A sprite with color additions.
#[derive(Clone, Copy, Debug, PartialEq, Eq, Structural)]
pub struct AnmShapeA {
    pub id: i16,
    pub add_red: i16,
    pub add_green: i16,
    pub add_blue: i16,
    pub add_alpha: i16,
}

impl View for AnmShapeA {
    type V = AnmShapeA;

    open spec fn view(&self) -> AnmShapeA {
        *self
    }
}

pub open spec fn sp_shape_a(d: Seq<u8>, p: nat, le: bool, id: i16) -> Option<(AnmShapeA, nat)> {
    match sp_i16x4(d, p, le) {
        Some(((add_red, add_green, add_blue, add_alpha), q)) => Some((AnmShapeA { id, add_red, add_green, add_blue, add_alpha }, q)),
        None => None,
    }
}

impl AnmShapeA {
    pub fn load(buffer: &mut ByteBuffer, id: i16) -> (r: Result<Self, ReadError>)
        ensures
            reads_as(*old(buffer), *final(buffer), r, sp_shape_a(dat(*old(buffer)), pos(*old(buffer)), le(*old(buffer)), id)),
    {
        let (add_red, add_green, add_blue, add_alpha) = read_i16x4(buffer)?;
        Ok(AnmShapeA { id, add_red, add_green, add_blue, add_alpha })
    }

    pub fn get_id(&self) -> (r: i16)
        ensures
            r == self.id,
    {
        self.id
    }
}

/// A sprite with color multipliers.
#[derive(Clone, Copy, Debug, PartialEq, Eq, Structural)]
pub struct AnmShapeM {
    pub id: i16,
    pub mul_red: i8,
    pub mul_green: i8,
    pub mul_blue: i8,
    pub mul_alpha: i8,
}

impl View for AnmShapeM {
    type V = AnmShapeM;

    open spec fn view(&self) -> AnmShapeM {
        *self
    }
}

pub open spec fn sp_shape_m(d: Seq<u8>, p: nat, le: bool, id: i16) -> Option<(AnmShapeM, nat)> {
    match sp_i8x4(d, p) {
        Some(((mul_red, mul_green, mul_blue, mul_alpha), q)) => Some((AnmShapeM { id, mul_red, mul_green, mul_blue, mul_alpha }, q)),
        None => None,
    }
}

impl AnmShapeM {
    pub fn load(buffer: &mut ByteBuffer, id: i16) -> (r: Result<Self, ReadError>)
        ensures
            reads_as(*old(buffer), *final(buffer), r, sp_shape_m(dat(*old(buffer)), pos(*old(buffer)), le(*old(buffer)), id)),
    {
        let (mul_red, mul_green, mul_blue, mul_alpha) = read_i8x4(buffer)?;
        Ok(AnmShapeM { id, mul_red, mul_green, mul_blue, mul_alpha })
    }

    pub fn get_id(&self) -> (r: i16)
        ensures
            r == self.id,
    {
        self.id
    }
}

/// A sprite with its own rotation and skew, as `i8` values scaled by 127.
#[derive(Clone, Copy, Debug, PartialEq, Eq, Structural)]
pub struct AnmShapeCR {
    pub id: i16,
    pub rotation_skew_x0: i8,
    pub rotation_skew_y0: i8,
    pub rotation_skew_x1: i8,
    pub rotation_skew_y1: i8,
}

impl View for AnmShapeCR {
    type V = AnmShapeCR;

    open spec fn view(&self) -> AnmShapeCR {
        *self
    }
}

pub open spec fn sp_shape_cr(d: Seq<u8>, p: nat, le: bool, id: i16) -> Option<(AnmShapeCR, nat)> {
    match sp_i8x4(d, p) {
        Some(((rotation_skew_x0, rotation_skew_y0, rotation_skew_x1, rotation_skew_y1), q)) => Some((AnmShapeCR { id, rotation_skew_x0, rotation_skew_y0, rotation_skew_x1, rotation_skew_y1 }, q)),
        None => None,
    }
}

impl AnmShapeCR {
    pub fn load(buffer: &mut ByteBuffer, id: i16) -> (r: Result<Self, ReadError>)
        ensures
            reads_as(*old(buffer), *final(buffer), r, sp_shape_cr(dat(*old(buffer)), pos(*old(buffer)), le(*old(buffer)), id)),
    {
        let (rotation_skew_x0, rotation_skew_y0, rotation_skew_x1, rotation_skew_y1) = read_i8x4(buffer)?;
        Ok(AnmShapeCR { id, rotation_skew_x0, rotation_skew_y0, rotation_skew_x1, rotation_skew_y1 })
    }

    pub fn get_id(&self) -> (r: i16)
        ensures
            r == self.id,
    {
        self.id
    }
}

/// A sprite with its own rotation, skew and translation. The translation is stored as two
/// 32-bit floats and kept as `(f * 16.) as i16`.
#[derive(Clone, Copy, Debug, PartialEq, Eq, Structural)]
pub struct AnmShapeRT {
    pub shape_r: AnmShapeR,
    pub translation_x: i16,
    pub translation_y: i16,
}

impl View for AnmShapeRT {
    type V = AnmShapeRT;

    open spec fn view(&self) -> AnmShapeRT {
        *self
    }
}

pub open spec fn sp_shape_rt(d: Seq<u8>, p: nat, le: bool, id: i16) -> Option<(AnmShapeRT, nat)> {
    match sp_shape_r(d, p, le, id) {
        Some((inner, q)) => match sp_u32(d, q, le) {
            Some((x, q1)) => match sp_u32(d, q1, le) {
                Some((y, q2)) => Some(
                    (
                        AnmShapeRT {
                            shape_r: inner,
                            translation_x: f32_times_16_as_i16(x),
                            translation_y: f32_times_16_as_i16(y),
                        },
                        q2,
                    ),
                ),
                None => None,
            },
            None => None,
        },
        None => None,
    }
}

impl AnmShapeRT {
    pub fn load(buffer: &mut ByteBuffer, id: i16) -> (r: Result<Self, ReadError>)
        ensures
            reads_as(*old(buffer), *final(buffer), r, sp_shape_rt(dat(*old(buffer)), pos(*old(buffer)), le(*old(buffer)), id)),
    {
        let shape_r = AnmShapeR::load(buffer, id)?;
        let translation_x = f32_bits_times_16_as_i16(read_f32_bits(buffer)?);
        let translation_y = f32_bits_times_16_as_i16(read_f32_bits(buffer)?);
        Ok(AnmShapeRT { shape_r, translation_x, translation_y })
    }

    pub fn get_id(&self) -> (r: i16)
        ensures
            r == self.shape_r.id,
    {
        self.shape_r.id
    }
}

/// A rotated sprite with color additions.
#[derive(Clone, Copy, Debug, PartialEq, Eq, Structural)]
pub struct AnmShapeRA {
    pub shape_r: AnmShapeR,
    pub add_red: i16,
    pub add_green: i16,
    pub add_blue: i16,
    pub add_alpha: i16,
}

impl View for AnmShapeRA {
    type V = AnmShapeRA;

    open spec fn view(&self) -> AnmShapeRA {
        *self
    }
}

pub open spec fn sp_shape_ra(d: Seq<u8>, p: nat, le: bool, id: i16) -> Option<(AnmShapeRA, nat)> {
    match sp_shape_r(d, p, le, id) {
        Some((inner, q)) => match sp_i16x4(d, q, le) {
            Some(((add_red, add_green, add_blue, add_alpha), q2)) => Some((AnmShapeRA { shape_r: inner, add_red, add_green, add_blue, add_alpha }, q2)),
            None => None,
        },
        None => None,
    }
}

impl AnmShapeRA {
    pub fn load(buffer: &mut ByteBuffer, id: i16) -> (r: Result<Self, ReadError>)
        ensures
            reads_as(*old(buffer), *final(buffer), r, sp_shape_ra(dat(*old(buffer)), pos(*old(buffer)), le(*old(buffer)), id)),
    {
        let inner = AnmShapeR::load(buffer, id)?;
        let (add_red, add_green, add_blue, add_alpha) = read_i16x4(buffer)?;
        Ok(AnmShapeRA { shape_r: inner, add_red, add_green, add_blue, add_alpha })
    }

    pub fn get_id(&self) -> (r: i16)
        ensures
            r == self.shape_r.id,
    {
        self.shape_r.id
    }
}

/// A translated sprite with color additions.
#[derive(Clone, Copy, Debug, PartialEq, Eq, Structural)]
pub struct AnmShapeTA {
    pub shape_t: AnmShapeT,
    pub add_red: i16,
    pub add_green: i16,
    pub add_blue: i16,
    pub add_alpha: i16,
}

impl View for AnmShapeTA {
    type V = AnmShapeTA;

    open spec fn view(&self) -> AnmShapeTA {
        *self
    }
}

pub open spec fn sp_shape_ta(d: Seq<u8>, p: nat, le: bool, id: i16) -> Option<(AnmShapeTA, nat)> {
    match sp_shape_t(d, p, le, id) {
        Some((inner, q)) => match sp_i16x4(d, q, le) {
            Some(((add_red, add_green, add_blue, add_alpha), q2)) => Some((AnmShapeTA { shape_t: inner, add_red, add_green, add_blue, add_alpha }, q2)),
            None => None,
        },
        None => None,
    }
}

impl AnmShapeTA {
    pub fn load(buffer: &mut ByteBuffer, id: i16) -> (r: Result<Self, ReadError>)
        ensures
            reads_as(*old(buffer), *final(buffer), r, sp_shape_ta(dat(*old(buffer)), pos(*old(buffer)), le(*old(buffer)), id)),
    {
        let inner = AnmShapeT::load(buffer, id)?;
        let (add_red, add_green, add_blue, add_alpha) = read_i16x4(buffer)?;
        Ok(AnmShapeTA { shape_t: inner, add_red, add_green, add_blue, add_alpha })
    }

    pub fn get_id(&self) -> (r: i16)
        ensures
            r == self.shape_t.id,
    {
        self.shape_t.id
    }
}

/// A rotated and translated sprite with color additions.
#[derive(Clone, Copy, Debug, PartialEq, Eq, Structural)]
pub struct AnmShapeRTA {
    pub shape_rt: AnmShapeRT,
    pub add_red: i16,
    pub add_green: i16,
    pub add_blue: i16,
    pub add_alpha: i16,
}

impl View for AnmShapeRTA {
    type V = AnmShapeRTA;

    open spec fn view(&self) -> AnmShapeRTA {
        *self
    }
}

pub open spec fn sp_shape_rta(d: Seq<u8>, p: nat, le: bool, id: i16) -> Option<(AnmShapeRTA, nat)> {
    match sp_shape_rt(d, p, le, id) {
        Some((inner, q)) => match sp_i16x4(d, q, le) {
            Some(((add_red, add_green, add_blue, add_alpha), q2)) => Some((AnmShapeRTA { shape_rt: inner, add_red, add_green, add_blue, add_alpha }, q2)),
            None => None,
        },
        None => None,
    }
}

impl AnmShapeRTA {
    pub fn load(buffer: &mut ByteBuffer, id: i16) -> (r: Result<Self, ReadError>)
        ensures
            reads_as(*old(buffer), *final(buffer), r, sp_shape_rta(dat(*old(buffer)), pos(*old(buffer)), le(*old(buffer)), id)),
    {
        let inner = AnmShapeRT::load(buffer, id)?;
        let (add_red, add_green, add_blue, add_alpha) = read_i16x4(buffer)?;
        Ok(AnmShapeRTA { shape_rt: inner, add_red, add_green, add_blue, add_alpha })
    }

    pub fn get_id(&self) -> (r: i16)
        ensures
            r == self.shape_rt.shape_r.id,
    {
        self.shape_rt.shape_r.id
    }
}

/// A rotated sprite with color multipliers.
#[derive(Clone, Copy, Debug, PartialEq, Eq, Structural)]
pub struct AnmShapeRM {
    pub shape_r: AnmShapeR,
    pub mul_red: i8,
    pub mul_green: i8,
    pub mul_blue: i8,
    pub mul_alpha: i8,
}

impl View for AnmShapeRM {
    type V = AnmShapeRM;

    open spec fn view(&self) -> AnmShapeRM {
        *self
    }
}

pub open spec fn sp_shape_rm(d: Seq<u8>, p: nat, le: bool, id: i16) -> Option<(AnmShapeRM, nat)> {
    match sp_shape_r(d, p, le, id) {
        Some((inner, q)) => match sp_i8x4(d, q) {
            Some(((mul_red, mul_green, mul_blue, mul_alpha), q2)) => Some((AnmShapeRM { shape_r: inner, mul_red, mul_green, mul_blue, mul_alpha }, q2)),
            None => None,
        },
        None => None,
    }
}

impl AnmShapeRM {
    pub fn load(buffer: &mut ByteBuffer, id: i16) -> (r: Result<Self, ReadError>)
        ensures
            reads_as(*old(buffer), *final(buffer), r, sp_shape_rm(dat(*old(buffer)), pos(*old(buffer)), le(*old(buffer)), id)),
    {
        let inner = AnmShapeR::load(buffer, id)?;
        let (mul_red, mul_green, mul_blue, mul_alpha) = read_i8x4(buffer)?;
        Ok(AnmShapeRM { shape_r: inner, mul_red, mul_green, mul_blue, mul_alpha })
    }

    pub fn get_id(&self) -> (r: i16)
        ensures
            r == self.shape_r.id,
    {
        self.shape_r.id
    }
}

/// A translated sprite with color multipliers.
#[derive(Clone, Copy, Debug, PartialEq, Eq, Structural)]
pub struct AnmShapeTM {
    pub shape_t: AnmShapeT,
    pub mul_red: i8,
    pub mul_green: i8,
    pub mul_blue: i8,
    pub mul_alpha: i8,
}

impl View for AnmShapeTM {
    type V = AnmShapeTM;

    open spec fn view(&self) -> AnmShapeTM {
        *self
    }
}

pub open spec fn sp_shape_tm(d: Seq<u8>, p: nat, le: bool, id: i16) -> Option<(AnmShapeTM, nat)> {
    match sp_shape_t(d, p, le, id) {
        Some((inner, q)) => match sp_i8x4(d, q) {
            Some(((mul_red, mul_green, mul_blue, mul_alpha), q2)) => Some((AnmShapeTM { shape_t: inner, mul_red, mul_green, mul_blue, mul_alpha }, q2)),
            None => None,
        },
        None => None,
    }
}

impl AnmShapeTM {
    pub fn load(buffer: &mut ByteBuffer, id: i16) -> (r: Result<Self, ReadError>)
        ensures
            reads_as(*old(buffer), *final(buffer), r, sp_shape_tm(dat(*old(buffer)), pos(*old(buffer)), le(*old(buffer)), id)),
    {
        let inner = AnmShapeT::load(buffer, id)?;
        let (mul_red, mul_green, mul_blue, mul_alpha) = read_i8x4(buffer)?;
        Ok(AnmShapeTM { shape_t: inner, mul_red, mul_green, mul_blue, mul_alpha })
    }

    pub fn get_id(&self) -> (r: i16)
        ensures
            r == self.shape_t.id,
    {
        self.shape_t.id
    }
}

/// A sprite with color additions and multipliers.
#[derive(Clone, Copy, Debug, PartialEq, Eq, Structural)]
pub struct AnmShapeAM {
    pub shape_a: AnmShapeA,
    pub mul_red: i8,
    pub mul_green: i8,
    pub mul_blue: i8,
    pub mul_alpha: i8,
}

impl View for AnmShapeAM {
    type V = AnmShapeAM;

    open spec fn view(&self) -> AnmShapeAM {
        *self
    }
}

pub open spec fn sp_shape_am(d: Seq<u8>, p: nat, le: bool, id: i16) -> Option<(AnmShapeAM, nat)> {
    match sp_shape_a(d, p, le, id) {
        Some((inner, q)) => match sp_i8x4(d, q) {
            Some(((mul_red, mul_green, mul_blue, mul_alpha), q2)) => Some((AnmShapeAM { shape_a: inner, mul_red, mul_green, mul_blue, mul_alpha }, q2)),
            None => None,
        },
        None => None,
    }
}

impl AnmShapeAM {
    pub fn load(buffer: &mut ByteBuffer, id: i16) -> (r: Result<Self, ReadError>)
        ensures
            reads_as(*old(buffer), *final(buffer), r, sp_shape_am(dat(*old(buffer)), pos(*old(buffer)), le(*old(buffer)), id)),
    {
        let inner = AnmShapeA::load(buffer, id)?;
        let (mul_red, mul_green, mul_blue, mul_alpha) = read_i8x4(buffer)?;
        Ok(AnmShapeAM { shape_a: inner, mul_red, mul_green, mul_blue, mul_alpha })
    }

    pub fn get_id(&self) -> (r: i16)
        ensures
            r == self.shape_a.id,
    {
        self.shape_a.id
    }
}

/// A rotated and translated sprite with color multipliers.
#[derive(Clone, Copy, Debug, PartialEq, Eq, Structural)]
pub struct AnmShapeRTM {
    pub shape_rt: AnmShapeRT,
    pub mul_red: i8,
    pub mul_green: i8,
    pub mul_blue: i8,
    pub mul_alpha: i8,
}

impl View for AnmShapeRTM {
    type V = AnmShapeRTM;

    open spec fn view(&self) -> AnmShapeRTM {
        *self
    }
}

pub open spec fn sp_shape_rtm(d: Seq<u8>, p: nat, le: bool, id: i16) -> Option<(AnmShapeRTM, nat)> {
    match sp_shape_rt(d, p, le, id) {
        Some((inner, q)) => match sp_i8x4(d, q) {
            Some(((mul_red, mul_green, mul_blue, mul_alpha), q2)) => Some((AnmShapeRTM { shape_rt: inner, mul_red, mul_green, mul_blue, mul_alpha }, q2)),
            None => None,
        },
        None => None,
    }
}

impl AnmShapeRTM {
    pub fn load(buffer: &mut ByteBuffer, id: i16) -> (r: Result<Self, ReadError>)
        ensures
            reads_as(*old(buffer), *final(buffer), r, sp_shape_rtm(dat(*old(buffer)), pos(*old(buffer)), le(*old(buffer)), id)),
    {
        let inner = AnmShapeRT::load(buffer, id)?;
        let (mul_red, mul_green, mul_blue, mul_alpha) = read_i8x4(buffer)?;
        Ok(AnmShapeRTM { shape_rt: inner, mul_red, mul_green, mul_blue, mul_alpha })
    }

    pub fn get_id(&self) -> (r: i16)
        ensures
            r == self.shape_rt.shape_r.id,
    {
        self.shape_rt.shape_r.id
    }
}

/// A rotated sprite with color additions and multipliers.
#[derive(Clone, Copy, Debug, PartialEq, Eq, Structural)]
pub struct AnmShapeRAM {
    pub shape_ra: AnmShapeRA,
    pub mul_red: i8,
    pub mul_green: i8,
    pub mul_blue: i8,
    pub mul_alpha: i8,
}

impl View for AnmShapeRAM {
    type V = AnmShapeRAM;

    open spec fn view(&self) -> AnmShapeRAM {
        *self
    }
}

pub open spec fn sp_shape_ram(d: Seq<u8>, p: nat, le: bool, id: i16) -> Option<(AnmShapeRAM, nat)> {
    match sp_shape_ra(d, p, le, id) {
        Some((inner, q)) => match sp_i8x4(d, q) {
            Some(((mul_red, mul_green, mul_blue, mul_alpha), q2)) => Some((AnmShapeRAM { shape_ra: inner, mul_red, mul_green, mul_blue, mul_alpha }, q2)),
            None => None,
        },
        None => None,
    }
}

impl AnmShapeRAM {
    pub fn load(buffer: &mut ByteBuffer, id: i16) -> (r: Result<Self, ReadError>)
        ensures
            reads_as(*old(buffer), *final(buffer), r, sp_shape_ram(dat(*old(buffer)), pos(*old(buffer)), le(*old(buffer)), id)),
    {
        let inner = AnmShapeRA::load(buffer, id)?;
        let (mul_red, mul_green, mul_blue, mul_alpha) = read_i8x4(buffer)?;
        Ok(AnmShapeRAM { shape_ra: inner, mul_red, mul_green, mul_blue, mul_alpha })
    }

    pub fn get_id(&self) -> (r: i16)
        ensures
            r == self.shape_ra.shape_r.id,
    {
        self.shape_ra.shape_r.id
    }
}

/// A translated sprite with color additions and multipliers.
#[derive(Clone, Copy, Debug, PartialEq, Eq, Structural)]
pub struct AnmShapeTAM {
    pub shape_ta: AnmShapeTA,
    pub mul_red: i8,
    pub mul_green: i8,
    pub mul_blue: i8,
    pub mul_alpha: i8,
}

impl View for AnmShapeTAM {
    type V = AnmShapeTAM;

    open spec fn view(&self) -> AnmShapeTAM {
        *self
    }
}

pub open spec fn sp_shape_tam(d: Seq<u8>, p: nat, le: bool, id: i16) -> Option<(AnmShapeTAM, nat)> {
    match sp_shape_ta(d, p, le, id) {
        Some((inner, q)) => match sp_i8x4(d, q) {
            Some(((mul_red, mul_green, mul_blue, mul_alpha), q2)) => Some((AnmShapeTAM { shape_ta: inner, mul_red, mul_green, mul_blue, mul_alpha }, q2)),
            None => None,
        },
        None => None,
    }
}

impl AnmShapeTAM {
    pub fn load(buffer: &mut ByteBuffer, id: i16) -> (r: Result<Self, ReadError>)
        ensures
            reads_as(*old(buffer), *final(buffer), r, sp_shape_tam(dat(*old(buffer)), pos(*old(buffer)), le(*old(buffer)), id)),
    {
        let inner = AnmShapeTA::load(buffer, id)?;
        let (mul_red, mul_green, mul_blue, mul_alpha) = read_i8x4(buffer)?;
        Ok(AnmShapeTAM { shape_ta: inner, mul_red, mul_green, mul_blue, mul_alpha })
    }

    pub fn get_id(&self) -> (r: i16)
        ensures
            r == self.shape_ta.shape_t.id,
    {
        self.shape_ta.shape_t.id
    }
}

/// A rotated and translated sprite with color additions and multipliers.
#[derive(Clone, Copy, Debug, PartialEq, Eq, Structural)]
pub struct AnmShapeRTAM {
    pub shape_rta: AnmShapeRTA,
    pub mul_red: i8,
    pub mul_green: i8,
    pub mul_blue: i8,
    pub mul_alpha: i8,
}

impl View for AnmShapeRTAM {
    type V = AnmShapeRTAM;

    open spec fn view(&self) -> AnmShapeRTAM {
        *self
    }
}

pub open spec fn sp_shape_rtam(d: Seq<u8>, p: nat, le: bool, id: i16) -> Option<(AnmShapeRTAM, nat)> {
    match sp_shape_rta(d, p, le, id) {
        Some((inner, q)) => match sp_i8x4(d, q) {
            Some(((mul_red, mul_green, mul_blue, mul_alpha), q2)) => Some((AnmShapeRTAM { shape_rta: inner, mul_red, mul_green, mul_blue, mul_alpha }, q2)),
            None => None,
        },
        None => None,
    }
}

impl AnmShapeRTAM {
    pub fn load(buffer: &mut ByteBuffer, id: i16) -> (r: Result<Self, ReadError>)
        ensures
            reads_as(*old(buffer), *final(buffer), r, sp_shape_rtam(dat(*old(buffer)), pos(*old(buffer)), le(*old(buffer)), id)),
    {
        let inner = AnmShapeRTA::load(buffer, id)?;
        let (mul_red, mul_green, mul_blue, mul_alpha) = read_i8x4(buffer)?;
        Ok(AnmShapeRTAM { shape_rta: inner, mul_red, mul_green, mul_blue, mul_alpha })
    }

    pub fn get_id(&self) -> (r: i16)
        ensures
            r == self.shape_rta.shape_rt.shape_r.id,
    {
        self.shape_rta.shape_rt.shape_r.id
    }
}

/// A sprite with its own rotation, skew and translation, in the compact variant.
#[derive(Clone, Copy, Debug, PartialEq, Eq, Structural)]
pub struct AnmShapeCRT {
    pub shape_cr: AnmShapeCR,
    pub translation_x: i8,
    pub translation_y: i8,
}

impl View for AnmShapeCRT {
    type V = AnmShapeCRT;

    open spec fn view(&self) -> AnmShapeCRT {
        *self
    }
}

pub open spec fn sp_shape_crt(d: Seq<u8>, p: nat, le: bool, id: i16) -> Option<(AnmShapeCRT, nat)> {
    match sp_shape_cr(d, p, le, id) {
        Some((inner, q)) => match sp_i8x2(d, q) {
            Some(((translation_x, translation_y), q2)) => Some((AnmShapeCRT { shape_cr: inner, translation_x, translation_y }, q2)),
            None => None,
        },
        None => None,
    }
}

impl AnmShapeCRT {
    pub fn load(buffer: &mut ByteBuffer, id: i16) -> (r: Result<Self, ReadError>)
        ensures
            reads_as(*old(buffer), *final(buffer), r, sp_shape_crt(dat(*old(buffer)), pos(*old(buffer)), le(*old(buffer)), id)),
    {
        let inner = AnmShapeCR::load(buffer, id)?;
        let (translation_x, translation_y) = read_i8x2(buffer)?;
        Ok(AnmShapeCRT { shape_cr: inner, translation_x, translation_y })
    }

    pub fn get_id(&self) -> (r: i16)
        ensures
            r == self.shape_cr.id,
    {
        self.shape_cr.id
    }
}

/// A shape of one of the variants the format defines.
#[derive(Clone, Copy, Debug, PartialEq, Eq, Structural)]
pub enum AnmShapeKind {
    Shape(AnmShape),
    R(AnmShapeR),
    T(AnmShapeT),
    RT(AnmShapeRT),
    A(AnmShapeA),
    RA(AnmShapeRA),
    TA(AnmShapeTA),
    RTA(AnmShapeRTA),
    M(AnmShapeM),
    RM(AnmShapeRM),
    TM(AnmShapeTM),
    AM(AnmShapeAM),
    RTM(AnmShapeRTM),
    RAM(AnmShapeRAM),
    TAM(AnmShapeTAM),
    RTAM(AnmShapeRTAM),
    CR(AnmShapeCR),
    CT(AnmShapeCT),
    CRT(AnmShapeCRT),
}

impl View for AnmShapeKind {
    type V = AnmShapeKind;

    open spec fn view(&self) -> AnmShapeKind {
        *self
    }
}

/// The sprite id of a shape.
pub open spec fn shape_id(s: AnmShapeKind) -> i16 {
    match s {
        AnmShapeKind::Shape(x) => x.id,
        AnmShapeKind::R(x) => x.id,
        AnmShapeKind::T(x) => x.id,
        AnmShapeKind::RT(x) => x.shape_r.id,
        AnmShapeKind::A(x) => x.id,
        AnmShapeKind::RA(x) => x.shape_r.id,
        AnmShapeKind::TA(x) => x.shape_t.id,
        AnmShapeKind::RTA(x) => x.shape_rt.shape_r.id,
        AnmShapeKind::M(x) => x.id,
        AnmShapeKind::RM(x) => x.shape_r.id,
        AnmShapeKind::TM(x) => x.shape_t.id,
        AnmShapeKind::AM(x) => x.shape_a.id,
        AnmShapeKind::RTM(x) => x.shape_rt.shape_r.id,
        AnmShapeKind::RAM(x) => x.shape_ra.shape_r.id,
        AnmShapeKind::TAM(x) => x.shape_ta.shape_t.id,
        AnmShapeKind::RTAM(x) => x.shape_rta.shape_rt.shape_r.id,
        AnmShapeKind::CR(x) => x.id,
        AnmShapeKind::CT(x) => x.id,
        AnmShapeKind::CRT(x) => x.shape_cr.id,
    }
}

impl AnmShapeKind {
    pub fn get_id(&self) -> (r: i16)
        ensures
            r == shape_id(*self),
    {
        match self {
            AnmShapeKind::Shape(x) => x.get_id(),
            AnmShapeKind::R(x) => x.get_id(),
            AnmShapeKind::T(x) => x.get_id(),
            AnmShapeKind::RT(x) => x.get_id(),
            AnmShapeKind::A(x) => x.get_id(),
            AnmShapeKind::RA(x) => x.get_id(),
            AnmShapeKind::TA(x) => x.get_id(),
            AnmShapeKind::RTA(x) => x.get_id(),
            AnmShapeKind::M(x) => x.get_id(),
            AnmShapeKind::RM(x) => x.get_id(),
            AnmShapeKind::TM(x) => x.get_id(),
            AnmShapeKind::AM(x) => x.get_id(),
            AnmShapeKind::RTM(x) => x.get_id(),
            AnmShapeKind::RAM(x) => x.get_id(),
            AnmShapeKind::TAM(x) => x.get_id(),
            AnmShapeKind::RTAM(x) => x.get_id(),
            AnmShapeKind::CR(x) => x.get_id(),
            AnmShapeKind::CT(x) => x.get_id(),
            AnmShapeKind::CRT(x) => x.get_id(),
        }
    }
}

/// A shape from its variant number on, given its sprite id (the id and the variant
/// number come first in the data).
pub open spec fn sp_shape_body(d: Seq<u8>, p: nat, le: bool, id: i16, desc: i8) -> Option<Option<(AnmShapeKind, nat)>> {
    if desc == 0 {
        Some(Some((AnmShapeKind::Shape(AnmShape { id }), p)))
    } else if desc == 1 {
        Some(match sp_shape_r(d, p, le, id) {
            Some((x, q)) => Some((AnmShapeKind::R(x), q)),
            None => None,
        })
    } else if desc == 2 {
        Some(match sp_shape_t(d, p, le, id) {
            Some((x, q)) => Some((AnmShapeKind::T(x), q)),
            None => None,
        })
    } else if desc == 3 {
        Some(match sp_shape_rt(d, p, le, id) {
            Some((x, q)) => Some((AnmShapeKind::RT(x), q)),
            None => None,
        })
    } else if desc == 4 {
        Some(match sp_shape_a(d, p, le, id) {
            Some((x, q)) => Some((AnmShapeKind::A(x), q)),
            None => None,
        })
    } else if desc == 5 {
        Some(match sp_shape_ra(d, p, le, id) {
            Some((x, q)) => Some((AnmShapeKind::RA(x), q)),
            None => None,
        })
    } else if desc == 6 {
        Some(match sp_shape_ta(d, p, le, id) {
            Some((x, q)) => Some((AnmShapeKind::TA(x), q)),
            None => None,
        })
    } else if desc == 7 {
        Some(match sp_shape_rta(d, p, le, id) {
            Some((x, q)) => Some((AnmShapeKind::RTA(x), q)),
            None => None,
        })
    } else if desc == 8 {
        Some(match sp_shape_m(d, p, le, id) {
            Some((x, q)) => Some((AnmShapeKind::M(x), q)),
            None => None,
        })
    } else if desc == 9 {
        Some(match sp_shape_rm(d, p, le, id) {
            Some((x, q)) => Some((AnmShapeKind::RM(x), q)),
            None => None,
        })
    } else if desc == 10 {
        Some(match sp_shape_tm(d, p, le, id) {
            Some((x, q)) => Some((AnmShapeKind::TM(x), q)),
            None => None,
        })
    } else if desc == 12 {
        Some(match sp_shape_am(d, p, le, id) {
            Some((x, q)) => Some((AnmShapeKind::AM(x), q)),
            None => None,
        })
    } else if desc == 11 {
        Some(match sp_shape_rtm(d, p, le, id) {
            Some((x, q)) => Some((AnmShapeKind::RTM(x), q)),
            None => None,
        })
    } else if desc == 13 {
        Some(match sp_shape_ram(d, p, le, id) {
            Some((x, q)) => Some((AnmShapeKind::RAM(x), q)),
            None => None,
        })
    } else if desc == 14 {
        Some(match sp_shape_tam(d, p, le, id) {
            Some((x, q)) => Some((AnmShapeKind::TAM(x), q)),
            None => None,
        })
    } else if desc == 15 {
        Some(match sp_shape_rtam(d, p, le, id) {
            Some((x, q)) => Some((AnmShapeKind::RTAM(x), q)),
            None => None,
        })
    } else if desc == 49 {
        Some(match sp_shape_cr(d, p, le, id) {
            Some((x, q)) => Some((AnmShapeKind::CR(x), q)),
            None => None,
        })
    } else if desc == 82 {
        Some(match sp_shape_ct(d, p, le, id) {
            Some((x, q)) => Some((AnmShapeKind::CT(x), q)),
            None => None,
        })
    } else if desc == -77 {
        Some(match sp_shape_crt(d, p, le, id) {
            Some((x, q)) => Some((AnmShapeKind::CRT(x), q)),
            None => None,
        })
    } else {
        None
    }
}

/// A shape: its sprite id as an `i16`, its variant number as an `i8`, then the variant's
/// data. `Err(IndexNotFound)` for a variant number the format does not define.
pub open spec fn sp_shape_outcome(d: Seq<u8>, p: nat, le: bool) -> Option<Result<(AnmShapeKind, nat), ReadError>> {
    match sp_i16(d, p, le) {
        Some((id, q)) => match sp_i8(d, q) {
            Some((desc, q2)) => match sp_shape_body(d, q2, le, id, desc) {
                Some(Some((s, q3))) => Some(Ok((s, q3))),
                Some(None) => Some(Err(ReadError::Incomplete)),
                None => Some(Err(ReadError::IndexNotFound)),
            },
            None => None,
        },
        None => None,
    }
}

/// Builds the shapes of an animation frame.
pub struct AnmShapeFactory;

impl AnmShapeFactory {
    /// Reads a shape. The sprite id and the variant number must be there.
    pub fn create_shape(buffer: &mut ByteBuffer) -> (r: Result<AnmShapeKind, ReadError>)
        requires
            sp_shape_outcome(dat(*old(buffer)), pos(*old(buffer)), le(*old(buffer))) is Some,
        ensures
            crate::buffer::same_bytes(*old(buffer), *final(buffer)),
            match sp_shape_outcome(dat(*old(buffer)), pos(*old(buffer)), le(*old(buffer))) {
                Some(Ok((s, q))) => r == Ok::<AnmShapeKind, ReadError>(s) && pos(*final(buffer)) == q
                    && crate::parse::bits_after(*old(buffer), *final(buffer)),
                Some(Err(e)) => r == Err::<AnmShapeKind, ReadError>(e),
                None => false,
            },
    {
        match Self::create_shape_checked(buffer) {
            Some(r) => r,
            None => Err(ReadError::BadInput),
        }
    }

    /// Reads a shape like [`AnmShapeFactory::create_shape`], on every input: `None` where
    /// the sprite id or the variant number is missing.
    pub fn create_shape_checked(buffer: &mut ByteBuffer) -> (r: Option<Result<AnmShapeKind, ReadError>>)
        ensures
            crate::buffer::same_bytes(*old(buffer), *final(buffer)),
            match sp_shape_outcome(dat(*old(buffer)), pos(*old(buffer)), le(*old(buffer))) {
                Some(Ok((s, q))) => r == Some(Ok::<AnmShapeKind, ReadError>(s)) && pos(*final(buffer)) == q
                    && crate::parse::bits_after(*old(buffer), *final(buffer)),
                Some(Err(e)) => r == Some(Err::<AnmShapeKind, ReadError>(e)),
                None => r is None,
            },
    {
        let id = match read_i16(buffer) {
            Ok(v) => v,
            Err(_) => return None,
        };
        let data_descriptor = match read_i8(buffer) {
            Ok(v) => v,
            Err(_) => return None,
        };
        Some(Self::shape_body(buffer, id, data_descriptor))
    }

    /// Reads the data of variant `data_descriptor` of a shape with sprite `id`.
    fn shape_body(buffer: &mut ByteBuffer, id: i16, data_descriptor: i8) -> (r: Result<AnmShapeKind, ReadError>)
        ensures
            crate::buffer::same_bytes(*old(buffer), *final(buffer)),
            match sp_shape_body(dat(*old(buffer)), pos(*old(buffer)), le(*old(buffer)), id, data_descriptor) {
                Some(Some((s, q))) => r == Ok::<AnmShapeKind, ReadError>(s) && pos(*final(buffer)) == q
                    && crate::parse::bits_after(*old(buffer), *final(buffer)),
                Some(None) => r == Err::<AnmShapeKind, ReadError>(ReadError::Incomplete),
                None => r == Err::<AnmShapeKind, ReadError>(ReadError::IndexNotFound),
            },
    {
        match data_descriptor {
            0 => Ok(AnmShapeKind::Shape(AnmShape::load(buffer, id)?)),
            1 => Ok(AnmShapeKind::R(AnmShapeR::load(buffer, id)?)),
            2 => Ok(AnmShapeKind::T(AnmShapeT::load(buffer, id)?)),
            3 => Ok(AnmShapeKind::RT(AnmShapeRT::load(buffer, id)?)),
            4 => Ok(AnmShapeKind::A(AnmShapeA::load(buffer, id)?)),
            5 => Ok(AnmShapeKind::RA(AnmShapeRA::load(buffer, id)?)),
            6 => Ok(AnmShapeKind::TA(AnmShapeTA::load(buffer, id)?)),
            7 => Ok(AnmShapeKind::RTA(AnmShapeRTA::load(buffer, id)?)),
            8 => Ok(AnmShapeKind::M(AnmShapeM::load(buffer, id)?)),
            9 => Ok(AnmShapeKind::RM(AnmShapeRM::load(buffer, id)?)),
            10 => Ok(AnmShapeKind::TM(AnmShapeTM::load(buffer, id)?)),
            12 => Ok(AnmShapeKind::AM(AnmShapeAM::load(buffer, id)?)),
            11 => Ok(AnmShapeKind::RTM(AnmShapeRTM::load(buffer, id)?)),
            13 => Ok(AnmShapeKind::RAM(AnmShapeRAM::load(buffer, id)?)),
            14 => Ok(AnmShapeKind::TAM(AnmShapeTAM::load(buffer, id)?)),
            15 => Ok(AnmShapeKind::RTAM(AnmShapeRTAM::load(buffer, id)?)),
            49 => Ok(AnmShapeKind::CR(AnmShapeCR::load(buffer, id)?)),
            82 => Ok(AnmShapeKind::CT(AnmShapeCT::load(buffer, id)?)),
            -77 => Ok(AnmShapeKind::CRT(AnmShapeCRT::load(buffer, id)?)),
            _ => Err(ReadError::IndexNotFound),
        }
    }
}

} // verus!
