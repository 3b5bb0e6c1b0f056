//! The sprites of a map: animated, dynamic and particle sprites, and the map sprite that
//! places one of them on a cell.
use vstd::prelude::*;
use crate::utils::{decimal_text, push_all, push_decimal};

verus! {

/// An animated element of the map.
#[derive(Clone, Copy, Debug, PartialEq, Eq, Structural)]
pub struct AnmSprite {
    pub gfx_id: i32,
    pub direction: i8,
    pub activation_pattern: i16,
    pub state: i16,
}

impl AnmSprite {
    pub fn new(gfx_id: i32, direction: i8, activation_pattern: i16, state: i16) -> (r: Self)
        ensures
            r == (AnmSprite { gfx_id, direction, activation_pattern, state }),
    {
        AnmSprite { gfx_id, direction, activation_pattern, state }
    }
}

/// A dynamic element of the map, played from a base animation.
#[derive(Clone, Debug)]
pub struct DynamicSprite {
    pub gfx_id: i32,
    pub direction: i8,
    pub base_anm: Vec<u8>,
}

impl DynamicSprite {
    pub fn new(gfx_id: i32, direction: i8, base_anm: Vec<u8>) -> (r: Self)
        ensures
            r.gfx_id == gfx_id,
            r.direction == direction,
            r.base_anm@ == base_anm@,
    {
        DynamicSprite { gfx_id, direction, base_anm }
    }
}

/// A particle system placed on the map.
#[derive(Clone, Copy, Debug, PartialEq, Eq, Structural)]
pub struct ParticleSprite {
    pub system_id: i32,
    pub level: i8,
    pub offset_x: i8,
    pub offset_y: i8,
    pub offset_z: i8,
}

impl ParticleSprite {
    pub fn new(system_id: i32, level: i8, offset_x: i8, offset_y: i8, offset_z: i8) -> (r: Self)
        ensures
            r == (ParticleSprite { system_id, level, offset_x, offset_y, offset_z }),
    {
        ParticleSprite { system_id, level, offset_x, offset_y, offset_z }
    }
}

/// The layers a map is drawn in, from the ground up.
#[derive(Clone, Copy, Debug, PartialEq, Eq, Structural)]
pub enum LayerOrder {
    Ground,
    InteractiveElement,
    DynamicElement,
    Particle,
}

/// The position of a layer in the drawing order.
pub open spec fn layer_index(l: LayerOrder) -> u8 {
    match l {
        LayerOrder::Ground => 0,
        LayerOrder::InteractiveElement => 1,
        LayerOrder::DynamicElement => 2,
        LayerOrder::Particle => 3,
    }
}

impl LayerOrder {
    pub fn get_index(&self) -> (r: u8)
        ensures
            r == layer_index(*self),
    {
        match self {
            LayerOrder::Ground => 0,
            LayerOrder::InteractiveElement => 1,
            LayerOrder::DynamicElement => 2,
            LayerOrder::Particle => 3,
        }
    }
}

/// A sprite placed on a cell of the map. The color is kept as the bits of its four
/// 32-bit float channels (red, green, blue, alpha).
#[derive(Clone, Debug)]
pub struct MapSprite {
    pub cell_x: i32,
    pub cell_y: i32,
    pub cell_z: i16,
    pub height: i8,
    pub altitude_order: u8,
    pub tag: u8,
    pub element_id: i32,
    pub group_key: i32,
    pub group_id: i32,
    pub layer: u8,
    pub color: [u32; 4],
    pub anm_sprite: Option<AnmSprite>,
    pub dyn_sprite: Option<DynamicSprite>,
    pub particle_sprite: Option<ParticleSprite>,
}

/// The sort key of a sprite: the cell's `y` and `x` shifted by 8192 and kept to 14 bits,
/// at bits 34 and 19, the altitude order at bit 6, then `delta_z`.
pub open spec fn sprite_hash(cell_x: i32, cell_y: i32, altitude_order: u8, delta_z: u8) -> i64 {
    (((cell_y as i64 + 8192) as i64 & 0x3FFF) << 34u64) | (((cell_x as i64 + 8192) as i64 & 0x3FFF)
        << 19u64) | ((altitude_order as i64 & 0x1FFF) << 6u64) | (delta_z as i64)
}

impl MapSprite {
    /// The sort key of the sprite (see [`sprite_hash`]).
    pub fn hashcode(&self, delta_z: u8) -> (r: i64)
        ensures
            r == sprite_hash(self.cell_x, self.cell_y, self.altitude_order, delta_z),
    {
        ((self.cell_y as i64 + 8192) & 0x3FFF) << 34u64 | ((self.cell_x as i64 + 8192) & 0x3FFF) << 19u64
            | (self.altitude_order as i64 & 0x1FFF) << 6u64 | delta_z as i64
    }
}

/// For `delta_z` below 64, the sort key keeps each of its parts apart: the low 14 bits of
/// the shifted `y` and `x`, the altitude order and `delta_z` can all be read back from it.
pub proof fn sprite_hash_parts(cell_x: i32, cell_y: i32, altitude_order: u8, delta_z: u8)
    requires
        delta_z < 64,
    ensures
        (sprite_hash(cell_x, cell_y, altitude_order, delta_z) >> 34u64) & 0x3FFF == (cell_y as i64 + 8192) as i64
            & 0x3FFF,
        (sprite_hash(cell_x, cell_y, altitude_order, delta_z) >> 19u64) & 0x3FFF == (cell_x as i64 + 8192) as i64
            & 0x3FFF,
        (sprite_hash(cell_x, cell_y, altitude_order, delta_z) >> 6u64) & 0x1FFF == altitude_order as i64,
        sprite_hash(cell_x, cell_y, altitude_order, delta_z) & 0x3F == delta_z as i64,
{
    let a = (cell_y as i64 + 8192) as i64;
    let b = (cell_x as i64 + 8192) as i64;
    let c = altitude_order as i64;
    let d = delta_z as i64;
    assert(0 <= c < 256 && 0 <= d < 64);
    assert((((a & 0x3FFF) << 34u64) | ((b & 0x3FFF) << 19u64) | ((c & 0x1FFF) << 6u64) | d) >> 34u64 & 0x3FFF
        == a & 0x3FFF) by (bit_vector)
        requires
            0 <= c < 256,
            0 <= d < 64,
    ;
    assert((((a & 0x3FFF) << 34u64) | ((b & 0x3FFF) << 19u64) | ((c & 0x1FFF) << 6u64) | d) >> 19u64 & 0x3FFF
        == b & 0x3FFF) by (bit_vector)
        requires
            0 <= c < 256,
            0 <= d < 64,
    ;
    assert((((a & 0x3FFF) << 34u64) | ((b & 0x3FFF) << 19u64) | ((c & 0x1FFF) << 6u64) | d) >> 6u64 & 0x1FFF
        == c) by (bit_vector)
        requires
            0 <= c < 256,
            0 <= d < 64,
    ;
    assert((((a & 0x3FFF) << 34u64) | ((b & 0x3FFF) << 19u64) | ((c & 0x1FFF) << 6u64) | d) & 0x3F == d)
        by (bit_vector)
        requires
            0 <= c < 256,
            0 <= d < 64,
    ;
}

/// `_AnimStatique_`.
pub open spec fn statique_infix() -> Seq<u8> {
    seq![95u8, 65, 110, 105, 109, 83, 116, 97, 116, 105, 113, 117, 101, 95]
}

/// The name of the still animation of an animated sprite: its direction in decimal,
/// `_AnimStatique_`, then its state in decimal.
pub open spec fn statique_name(direction: i8, state: i16) -> Seq<u8> {
    decimal_text(direction as int) + statique_infix() + decimal_text(state as int)
}

/// The name of a dynamic sprite's animation: its direction in decimal, `_`, then its
/// base animation.
pub open spec fn dynamic_name(direction: i8, base: Seq<u8>) -> Seq<u8> {
    decimal_text(direction as int) + seq![95u8] + base
}

/// The name of the still animation of an animated sprite (see [`statique_name`]).
pub fn statique_animation_name(direction: i8, state: i16) -> (r: Vec<u8>)
    ensures
        r@ == statique_name(direction, state),
{
    let mut out: Vec<u8> = Vec::new();
    push_decimal(&mut out, direction as i32);
    let infix: [u8; 14] = [95, 65, 110, 105, 109, 83, 116, 97, 116, 105, 113, 117, 101, 95];
    proof {
        assert(infix@ =~= statique_infix());
    }
    push_all(&mut out, &infix);
    push_decimal(&mut out, state as i32);
    proof {
        assert(out@ =~= statique_name(direction, state));
    }
    out
}

/// The name of a dynamic sprite's animation (see [`dynamic_name`]).
pub fn dynamic_animation_name(direction: i8, base: &Vec<u8>) -> (r: Vec<u8>)
    ensures
        r@ == dynamic_name(direction, base@),
{
    let mut out: Vec<u8> = Vec::new();
    push_decimal(&mut out, direction as i32);
    out.push(95);
    push_all(&mut out, base.as_slice());
    proof {
        assert(out@ =~= dynamic_name(direction, base@));
    }
    out
}

} // verus!
