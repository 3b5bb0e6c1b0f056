//! The decisions of playing an animation: which frame of a definition to draw, which
//! direction a mirrored animation is read from, and what a sprite id stands for.
//!
//! The transforms and the drawing itself are float work done by the caller.
use vstd::prelude::*;
use crate::anm::{AnmShapeDefinition, AnmImport, AnmImportView};
use crate::interactive_anim::{InteractiveAnim, InteractiveAnimView, maps_in_range};
use crate::sprite_definition::{SpriteDefinition, SpriteDefinitionKindView, definition_frame_count, definition_header};
use crate::sprite_def::flags_loop;

verus! {

/// The frame of a definition to draw for frame `frame_index` of the animation: the frame
/// itself while the definition has it; past its end, the frame modulo the count for a
/// looping definition and the last frame otherwise.
pub open spec fn real_frame_index(frame_index: i32, frame_count: i32, looping: bool) -> int {
    if frame_index < frame_count {
        frame_index as int
    } else if looping {
        (frame_index % frame_count) as int
    } else {
        frame_count - 1
    }
}

/// Whether the frame can be found: a looping definition past its end must have frames.
pub open spec fn real_frame_ok(frame_index: i32, frame_count: i32, looping: bool) -> bool {
    frame_index >= frame_count ==> (if looping {
        frame_count > 0
    } else {
        frame_count > i32::MIN
    })
}

/// For a definition that has frames, the frame drawn for a frame number that is not
/// negative is one of the definition's frames.
pub proof fn real_frame_within_definition(frame_index: i32, frame_count: i32, looping: bool)
    requires
        0 <= frame_index,
        0 < frame_count,
    ensures
        0 <= real_frame_index(frame_index, frame_count, looping) < frame_count,
{
}

/// The frame of `animation` to draw for frame `frame_index` (see [`real_frame_index`]).
/// A looping definition without frames has no frame to give, so it is not asked for one.
pub fn get_real_frame_index(frame_index: i32, animation: &SpriteDefinition) -> (r: i32)
    requires
        real_frame_ok(frame_index, definition_frame_count(animation@), flags_loop(definition_header(animation@).flags)),
    ensures
        r == real_frame_index(frame_index, definition_frame_count(animation@), flags_loop(definition_header(animation@).flags)),
{
    let frame_count = animation.get_frame_count();
    if frame_index < frame_count {
        return frame_index;
    }
    if animation.get_sprite_def().is_loop() {
        return frame_index % frame_count;
    }
    frame_count - 1
}

/// The name a mirrored direction is read from: with flipping on, a name starting with `4`,
/// `3` or `7` starts with `0`, `1` or `5` instead; any other name is kept.
pub open spec fn flipped_name(use_flip: bool, name: Seq<u8>) -> Seq<u8> {
    if use_flip && name[0] == 52 {
        seq![48u8] + name.subrange(1, name.len() as int)
    } else if use_flip && name[0] == 51 {
        seq![49u8] + name.subrange(1, name.len() as int)
    } else if use_flip && name[0] == 55 {
        seq![53u8] + name.subrange(1, name.len() as int)
    } else {
        name
    }
}

/// Flipping keeps the length of a name and all of it but its first character, and a
/// flipped name flips to itself.
pub proof fn flipped_name_settles(use_flip: bool, name: Seq<u8>)
    requires
        name.len() > 0,
    ensures
        flipped_name(use_flip, name).len() == name.len(),
        flipped_name(use_flip, name).subrange(1, name.len() as int) == name.subrange(1, name.len() as int),
        flipped_name(use_flip, flipped_name(use_flip, name)) == flipped_name(use_flip, name),
{
    let f = flipped_name(use_flip, name);
    assert(f.subrange(1, name.len() as int) =~= name.subrange(1, name.len() as int));
    assert(flipped_name(use_flip, f) =~= f);
}

/// The name a mirrored direction is read from (see [`flipped_name`]). With flipping on, the
/// name must not be empty and its first character must be a single byte.
pub fn get_flipped_anim_name(use_flip: bool, anim_name: &Vec<u8>) -> (r: Vec<u8>)
    requires
        use_flip ==> anim_name@.len() > 0 && anim_name@[0] < 0x80,
    ensures
        r@ == flipped_name(use_flip, anim_name@),
{
    if use_flip {
        let direction = anim_name[0];
        let replacement: u8 = if direction == 52 {
            48
        } else if direction == 51 {
            49
        } else if direction == 55 {
            53
        } else {
            return crate::anm::copy_bytes(anim_name);
        };
        let mut out: Vec<u8> = Vec::new();
        out.push(replacement);
        let mut i: usize = 1;
        while i < anim_name.len()
            invariant
                1 <= i <= anim_name@.len(),
                out@ == seq![replacement] + anim_name@.subrange(1, i as int),
            decreases anim_name@.len() - i,
        {
            out.push(anim_name[i]);
            proof {
                assert(out@ =~= seq![replacement] + anim_name@.subrange(1, i + 1));
            }
            i = i + 1;
        }
        return out;
    }
    crate::anm::copy_bytes(anim_name)
}

/// What a sprite id of a frame stands for.
#[derive(Clone, Debug)]
pub enum SpriteTarget {
    /// An import: the definition of that name hash in the root animation is drawn.
    Import(AnmImport),
    /// A sprite definition, at this position, drawn on the next level.
    Definition(usize),
    /// An atlas shape, drawn as a quad.
    Shape(AnmShapeDefinition),
    /// Nothing.
    Nothing,
}

pub enum SpriteTargetView {
    Import(AnmImportView),
    Definition(usize),
    Shape(AnmShapeDefinition),
    Nothing,
}

impl View for SpriteTarget {
    type V = SpriteTargetView;

    open spec fn view(&self) -> SpriteTargetView {
        match self {
            SpriteTarget::Import(i) => SpriteTargetView::Import(i@),
            SpriteTarget::Definition(i) => SpriteTargetView::Definition(*i),
            SpriteTarget::Shape(s) => SpriteTargetView::Shape(*s),
            SpriteTarget::Nothing => SpriteTargetView::Nothing,
        }
    }
}

/// What sprite `id` of animation `a` stands for: its import first; then its sprite
/// definition; then its atlas shape.
pub open spec fn sprite_target(a: InteractiveAnimView, id: i16) -> SpriteTargetView {
    if a.imports_by_id.contains_key(id) {
        SpriteTargetView::Import(a.imports_by_id[id])
    } else if a.sprite_definitions_by_id.contains_key(id) {
        SpriteTargetView::Definition(a.sprite_definitions_by_id[id])
    } else if a.shape_definitions_by_id.contains_key(id) {
        SpriteTargetView::Shape(a.shape_definitions_by_id[id])
    } else {
        SpriteTargetView::Nothing
    }
}

/// What sprite `id` of `anim` stands for (see [`sprite_target`]).
pub fn resolve_sprite(anim: &InteractiveAnim, id: i16) -> (r: SpriteTarget)
    requires
        maps_in_range(anim@),
    ensures
        r@ == sprite_target(anim@, id),
{
    match anim.get_import(id) {
        Some(i) => return SpriteTarget::Import(i.clone_import()),
        None => {},
    }
    match anim.sprite_definitions_by_id.get(&id) {
        Some(i) => return SpriteTarget::Definition(*i),
        None => {},
    }
    match anim.shape_definitions_by_id.get(&id) {
        Some(s) => SpriteTarget::Shape(*s),
        None => SpriteTarget::Nothing,
    }
}

/// Whether a definition can be drawn on the next level: it must not use a custom color
/// slot, nor be one of the two named definitions that are not drawn.
pub open spec fn sprite_supported(k: SpriteDefinitionKindView) -> bool {
    let h = definition_header(k);
    &&& (h.flags & 0x3F) == 0
    &&& (h.name.len() != 0 ==> h.base_name_crc != 1272524161 && h.base_name_crc != 1003439990)
}

/// Whether a definition can be drawn on the next level (see [`sprite_supported`]).
pub fn is_sprite_supported(def: &SpriteDefinition) -> (r: bool)
    ensures
        r == sprite_supported(def@),
{
    let sd = def.get_sprite_def();
    if sd.get_color_index() != 0 {
        return false;
    }
    if sd.name.len() != 0 {
        if sd.base_name_crc == 1272524161 || sd.base_name_crc == 1003439990 {
            return false;
        }
    }
    true
}

} // verus!
