//! The compact sprite definitions, which keep a sprite's transforms as offsets into the
//! animation's tables, and the empty definition.
//!
//! Processing a sprite gives the step that the caller applies to the parent's transform
//! with the table's values (see [`crate::anm_frame_processor`]).
use vstd::prelude::*;
use bytebuffer::ByteBuffer;
use crate::buffer::same_bytes;
use crate::parse::{Parsed, sp_i16, sp_many, dat, pos, le, bits_after, i16_fn, i32_fn, read_i16, read_i16s, read_i32s};
use crate::anm_frame::loop_count;
use crate::anm_frame_data::{
    AnmFrameData, DataContainer, DataContainerView, sp_frame_data, data_begin, data_can_read,
    data_next, data_after_read,
};
use crate::anm_frame_processor::{TransformStep, read_and_process, step_of, step_reads, data_can_read_n, data_skip};
use crate::sprite_def::{SpriteDef, SpriteDefView, SpriteDefHeader, empty_sprite_def, sp_sprite_def_header, sprite_def_loaded};
use crate::anm::AnmTransformDataTable;
use crate::anm_sprite_definition::{
    AnmSpriteDefinition, AnmSpriteDefinitionView, sp_anm_sprite_definition, anm_sprite_definition_loaded, frames_view,
};
use crate::anm_shape::AnmShapeKind;
use crate::error::ReadError;

verus! {

/// Frame data that reads without error; `None` where reading panics.
pub open spec fn sp_frame_data_ok(d: Seq<u8>, p: nat, le: bool) -> Option<(DataContainerView, nat)> {
    match sp_frame_data(d, p, le) {
        Parsed::Done(c, q) => Some((c, q)),
        _ => None,
    }
}

/// `i16` values counted by an `i16`; `None` where reading panics: when the count is
/// negative (room would be reserved for that many) or the values are cut short.
pub open spec fn sp_i16s_reserved(d: Seq<u8>, p: nat, le: bool) -> Option<(Seq<i16>, nat)> {
    match sp_i16(d, p, le) {
        Some((n, q)) => if n < 0 {
            None
        } else {
            sp_many(n as nat, q, i16_fn(d, le))
        },
        None => None,
    }
}

/// `i32` values counted by an `i16`, with the same failures as [`sp_i16s_reserved`].
pub open spec fn sp_i32s_reserved(d: Seq<u8>, p: nat, le: bool) -> Option<(Seq<i32>, nat)> {
    match sp_i16(d, p, le) {
        Some((n, q)) => if n < 0 {
            None
        } else {
            sp_many(n as nat, q, i32_fn(d, le))
        },
        None => None,
    }
}

/// `i16` values counted by an `i16`, none for a negative count.
pub open spec fn sp_i16s_counted(d: Seq<u8>, p: nat, le: bool) -> Option<(Seq<i16>, nat)> {
    match sp_i16(d, p, le) {
        Some((n, q)) => sp_many(loop_count(n as int), q, i16_fn(d, le)),
        None => None,
    }
}

/// Whether the next value of the frame data, a transform type, and the offsets that type
/// needs can all be read.
pub open spec fn can_process(c: DataContainerView) -> bool {
    &&& data_can_read(c)
    &&& data_can_read_n(data_after_read(c), step_reads(data_next(c)))
}

/// The step that the next transform of the frame data gives.
pub open spec fn next_step(c: DataContainerView) -> TransformStep {
    step_of(data_next(c), data_after_read(c))
}

/// The frame data after the next transform.
pub open spec fn after_step(c: DataContainerView) -> DataContainerView {
    data_skip(data_after_read(c), step_reads(data_next(c)))
}

/// Reads the next transform type and its offsets.
pub fn process_next(frame_data: &mut DataContainer) -> (r: TransformStep)
    requires
        can_process(old(frame_data)@),
    ensures
        r == next_step(old(frame_data)@),
        final(frame_data)@ == after_step(old(frame_data)@),
{
    let fp_type = frame_data.read();
    read_and_process(fp_type, frame_data)
}

/// Reads `i16` values counted by an `i16` (see [`sp_i16s_reserved`]); `None` where it does not read.
fn read_i16s_reserved(buffer: &mut ByteBuffer) -> (r: Option<Vec<i16>>)
    ensures
        same_bytes(*old(buffer), *final(buffer)),
        match sp_i16s_reserved(dat(*old(buffer)), pos(*old(buffer)), le(*old(buffer))) {
            Some((v, q)) => r matches Some(x) && x@ == v && pos(*final(buffer)) == q
                && bits_after(*old(buffer), *final(buffer)),
            None => r is None,
        },
{
    let n = match read_i16(buffer) {
        Ok(n) => n,
        Err(_) => return None,
    };
    if n < 0 {
        return None;
    }
    match read_i16s(buffer, n as usize) {
        Ok(v) => Some(v),
        Err(_) => None,
    }
}

/// Reads `i32` values counted by an `i16` (see [`sp_i32s_reserved`]); `None` where it does not read.
fn read_i32s_reserved(buffer: &mut ByteBuffer) -> (r: Option<Vec<i32>>)
    ensures
        same_bytes(*old(buffer), *final(buffer)),
        match sp_i32s_reserved(dat(*old(buffer)), pos(*old(buffer)), le(*old(buffer))) {
            Some((v, q)) => r matches Some(x) && x@ == v && pos(*final(buffer)) == q
                && bits_after(*old(buffer), *final(buffer)),
            None => r is None,
        },
{
    let n = match read_i16(buffer) {
        Ok(n) => n,
        Err(_) => return None,
    };
    if n < 0 {
        return None;
    }
    match read_i32s(buffer, n as usize) {
        Ok(v) => Some(v),
        Err(_) => None,
    }
}

/// Reads the frame data (see [`sp_frame_data_ok`]); `None` where it does not read.
fn read_frame_data(buffer: &mut ByteBuffer) -> (r: Option<DataContainer>)
    ensures
        same_bytes(*old(buffer), *final(buffer)),
        match sp_frame_data_ok(dat(*old(buffer)), pos(*old(buffer)), le(*old(buffer))) {
            Some((c, q)) => r matches Some(x) && x@ == c && pos(*final(buffer)) == q
                && bits_after(*old(buffer), *final(buffer)),
            None => r is None,
        },
{
    match AnmFrameData::create_checked(buffer) {
        Some(Ok(c)) => Some(c),
        _ => None,
    }
}

/// A definition with nothing in it.
#[derive(Clone, Debug)]
pub struct EmptySpriteDef {
    pub sprite_def: SpriteDef,
}

impl EmptySpriteDef {
    pub fn new(_table: &AnmTransformDataTable, _optimized: bool) -> (r: Self)
        ensures
            r.sprite_def@ == empty_sprite_def(),
    {
        EmptySpriteDef { sprite_def: SpriteDef::new() }
    }

    pub fn load(&mut self, _buffer: &mut ByteBuffer)
        ensures
            final(self).sprite_def@ == old(self).sprite_def@,
            *final(_buffer) == *old(_buffer),
    {
    }

    pub fn get_frame_count(&self) -> (r: i32)
        ensures
            r == 0,
    {
        0
    }

    pub fn get_sprite_def(&self) -> (r: &SpriteDef)
        ensures
            r@ == self.sprite_def@,
    {
        &self.sprite_def
    }

    pub fn begin_process_frame(&mut self, _index: i32) -> (r: i32)
        ensures
            r == 0,
            final(self).sprite_def@ == old(self).sprite_def@,
    {
        0
    }

    pub fn next_sprite(&mut self)
        ensures
            final(self).sprite_def@ == old(self).sprite_def@,
    {
    }
}

/// A definition of one sprite on one frame, without actions.
#[derive(Clone, Debug)]
pub struct AnmSpriteDefinitionSingleNoAction {
    pub sprite_def: SpriteDef,
    pub sprite_id: i16,
    pub frame_data: DataContainer,
}

pub struct SingleNoActionView {
    pub sprite_def: SpriteDefView,
    pub sprite_id: i16,
    pub frame_data: DataContainerView,
}

impl View for AnmSpriteDefinitionSingleNoAction {
    type V = SingleNoActionView;

    open spec fn view(&self) -> SingleNoActionView {
        SingleNoActionView { sprite_def: self.sprite_def@, sprite_id: self.sprite_id, frame_data: self.frame_data@ }
    }
}

/// The header, the sprite id as an `i16`, then the frame data. `None` where reading
/// panics.
pub open spec fn sp_single_no_action(d: Seq<u8>, p: nat, le: bool) -> Option<((SpriteDefHeader, i16, DataContainerView), nat)> {
    match sp_sprite_def_header(d, p, le) {
        Some((h, q1)) => match sp_i16(d, q1, le) {
            Some((id, q2)) => match sp_frame_data_ok(d, q2, le) {
                Some((c, q3)) => Some(((h, id, c), q3)),
                None => None,
            },
            None => None,
        },
        None => None,
    }
}

impl AnmSpriteDefinitionSingleNoAction {
    pub fn new(_table: &AnmTransformDataTable, _optimized: bool) -> (r: Self)
        ensures
            r@ == (SingleNoActionView { sprite_def: empty_sprite_def(), sprite_id: 0, frame_data: DataContainerView::Empty }),
    {
        AnmSpriteDefinitionSingleNoAction { sprite_def: SpriteDef::new(), sprite_id: 0, frame_data: DataContainer::Empty }
    }

    /// Reads the definition; its sprite count becomes 1. The definition must
    /// read without error.
    pub fn load(&mut self, buffer: &mut ByteBuffer)
        requires
            sp_single_no_action(dat(*old(buffer)), pos(*old(buffer)), le(*old(buffer))) is Some,
        ensures
            same_bytes(*old(buffer), *final(buffer)),
            bits_after(*old(buffer), *final(buffer)),
            sp_single_no_action(dat(*old(buffer)), pos(*old(buffer)), le(*old(buffer))) matches Some(
                ((h, id, c), q),
            ) && pos(*final(buffer)) == q && final(self)@ == (SingleNoActionView {
                sprite_def: SpriteDefView { max_sprite_count: 1, ..sprite_def_loaded(old(self)@.sprite_def, h) },
                sprite_id: id,
                frame_data: c,
            }),
    {
        let _ = self.load_checked(buffer);
    }

    /// Reads the definition like [`AnmSpriteDefinitionSingleNoAction::load`], on every
    /// input; `false` where [`sp_single_no_action`] is `None`.
    pub fn load_checked(&mut self, buffer: &mut ByteBuffer) -> (r: bool)
        ensures
            same_bytes(*old(buffer), *final(buffer)),
            match sp_single_no_action(dat(*old(buffer)), pos(*old(buffer)), le(*old(buffer))) {
                Some(((h, id, c), q)) => r && pos(*final(buffer)) == q && final(self)@ == (SingleNoActionView {
                    sprite_def: SpriteDefView { max_sprite_count: 1, ..sprite_def_loaded(old(self)@.sprite_def, h) },
                    sprite_id: id,
                    frame_data: c,
                }) && bits_after(*old(buffer), *final(buffer)),
                None => !r,
            },
    {
        if !self.sprite_def.load_checked(buffer) {
            return false;
        }
        self.sprite_id = match read_i16(buffer) {
            Ok(v) => v,
            Err(_) => return false,
        };
        self.frame_data = match read_frame_data(buffer) {
            Some(c) => c,
            None => return false,
        };
        self.sprite_def.max_sprite_count = 1;
        true
    }

    pub fn get_frame_count(&self) -> (r: i32)
        ensures
            r == 1,
    {
        1
    }

    pub fn get_sprite_def(&self) -> (r: &SpriteDef)
        ensures
            r@ == self@.sprite_def,
    {
        &self.sprite_def
    }

    /// Starts the frame data over and says how many sprites the frame has: one.
    pub fn begin_process_frame(&mut self, _index: i32) -> (r: i32)
        ensures
            r == 1,
            final(self)@ == (SingleNoActionView { frame_data: data_begin(old(self)@.frame_data, 0), ..old(self)@ }),
    {
        self.frame_data.begin(0);
        1
    }

    pub fn next_sprite(&mut self)
        ensures
            final(self)@ == old(self)@,
    {
    }

    /// The next sprite's step and its id.
    pub fn process(&mut self) -> (r: (TransformStep, i16))
        requires
            can_process(old(self)@.frame_data),
        ensures
            r == (next_step(old(self)@.frame_data), old(self)@.sprite_id),
            final(self)@ == (SingleNoActionView { frame_data: after_step(old(self)@.frame_data), ..old(self)@ }),
    {
        let step = process_next(&mut self.frame_data);
        (step, self.sprite_id)
    }
}

/// A definition of several sprites on one frame.
#[derive(Clone, Debug)]
pub struct AnmSpriteDefinitionSingleFrame {
    pub sprite_def: SpriteDef,
    pub sprite_ids: Vec<i16>,
    pub action_info: Vec<i16>,
    pub frame_data: DataContainer,
    pub current_sprite: i32,
}

pub struct SingleFrameView {
    pub sprite_def: SpriteDefView,
    pub sprite_ids: Seq<i16>,
    pub action_info: Seq<i16>,
    pub frame_data: DataContainerView,
    pub current_sprite: i32,
}

impl View for AnmSpriteDefinitionSingleFrame {
    type V = SingleFrameView;

    open spec fn view(&self) -> SingleFrameView {
        SingleFrameView {
            sprite_def: self.sprite_def@,
            sprite_ids: self.sprite_ids@,
            action_info: self.action_info@,
            frame_data: self.frame_data@,
            current_sprite: self.current_sprite,
        }
    }
}

/// The header, the sprite ids and the action offsets (each counted by an `i16`), then the
/// frame data. `None` where reading panics.
pub open spec fn sp_single_frame(d: Seq<u8>, p: nat, le: bool) -> Option<
    ((SpriteDefHeader, Seq<i16>, Seq<i16>, DataContainerView), nat),
> {
    match sp_sprite_def_header(d, p, le) {
        Some((h, q1)) => match sp_i16s_reserved(d, q1, le) {
            Some((ids, q2)) => match sp_i16s_reserved(d, q2, le) {
                Some((actions, q3)) => match sp_frame_data_ok(d, q3, le) {
                    Some((c, q4)) => Some(((h, ids, actions, c), q4)),
                    None => None,
                },
                None => None,
            },
            None => None,
        },
        None => None,
    }
}

/// The header of a single-frame definition once read: its sprite count is the number of
/// sprites, and a frame with actions but no sprites is an animation node.
pub open spec fn single_frame_def(s: SpriteDefView, h: SpriteDefHeader, ids: Seq<i16>, actions: Seq<i16>) -> SpriteDefView {
    let loaded = sprite_def_loaded(s, h);
    SpriteDefView {
        max_sprite_count: ids.len() as i32,
        is_animation_node: if ids.len() == 0 && actions.len() != 0 {
            true
        } else {
            loaded.is_animation_node
        },
        ..loaded
    }
}

impl AnmSpriteDefinitionSingleFrame {
    pub fn new(_table: &AnmTransformDataTable, _optimized: bool) -> (r: Self)
        ensures
            r@ == (SingleFrameView {
                sprite_def: empty_sprite_def(),
                sprite_ids: Seq::empty(),
                action_info: Seq::empty(),
                frame_data: DataContainerView::Empty,
                current_sprite: 0,
            }),
    {
        AnmSpriteDefinitionSingleFrame {
            sprite_def: SpriteDef::new(),
            sprite_ids: Vec::new(),
            action_info: Vec::new(),
            frame_data: DataContainer::Empty,
            current_sprite: 0,
        }
    }

    /// Reads the definition. The definition must read without error.
    pub fn load(&mut self, buffer: &mut ByteBuffer)
        requires
            sp_single_frame(dat(*old(buffer)), pos(*old(buffer)), le(*old(buffer))) is Some,
        ensures
            same_bytes(*old(buffer), *final(buffer)),
            bits_after(*old(buffer), *final(buffer)),
            sp_single_frame(dat(*old(buffer)), pos(*old(buffer)), le(*old(buffer))) matches Some(
                ((h, ids, actions, c), q),
            ) && pos(*final(buffer)) == q && final(self)@ == (SingleFrameView {
                sprite_def: single_frame_def(old(self)@.sprite_def, h, ids, actions),
                sprite_ids: ids,
                action_info: actions,
                frame_data: c,
                current_sprite: old(self)@.current_sprite,
            }),
    {
        let _ = self.load_checked(buffer);
    }

    /// Reads the definition like [`AnmSpriteDefinitionSingleFrame::load`], on every
    /// input; `false` where [`sp_single_frame`] is `None`.
    pub fn load_checked(&mut self, buffer: &mut ByteBuffer) -> (r: bool)
        ensures
            same_bytes(*old(buffer), *final(buffer)),
            match sp_single_frame(dat(*old(buffer)), pos(*old(buffer)), le(*old(buffer))) {
                Some(((h, ids, actions, c), q)) => r && pos(*final(buffer)) == q && final(self)@ == (SingleFrameView {
                    sprite_def: single_frame_def(old(self)@.sprite_def, h, ids, actions),
                    sprite_ids: ids,
                    action_info: actions,
                    frame_data: c,
                    current_sprite: old(self)@.current_sprite,
                }) && bits_after(*old(buffer), *final(buffer)),
                None => !r,
            },
    {
        if !self.sprite_def.load_checked(buffer) {
            return false;
        }
        let sprite_ids = match read_i16s_reserved(buffer) {
            Some(v) => v,
            None => return false,
        };
        let action_info = match read_i16s_reserved(buffer) {
            Some(v) => v,
            None => return false,
        };
        self.frame_data = match read_frame_data(buffer) {
            Some(c) => c,
            None => return false,
        };
        if sprite_ids.len() == 0 && action_info.len() != 0 {
            self.sprite_def.is_animation_node = true;
        }
        self.sprite_def.max_sprite_count = sprite_ids.len() as i32;
        self.sprite_ids = sprite_ids;
        self.action_info = action_info;
        true
    }

    pub fn get_frame_count(&self) -> (r: i32)
        ensures
            r == 1,
    {
        1
    }

    pub fn get_sprite_def(&self) -> (r: &SpriteDef)
        ensures
            r@ == self@.sprite_def,
    {
        &self.sprite_def
    }

    /// Starts the frame data over, before the first sprite, and says how many sprites the
    /// frame has.
    pub fn begin_process_frame(&mut self, _index: i32) -> (r: i32)
        ensures
            r == old(self)@.sprite_ids.len() as i32,
            final(self)@ == (SingleFrameView {
                frame_data: data_begin(old(self)@.frame_data, 0),
                current_sprite: -1i32,
                ..old(self)@
            }),
    {
        self.frame_data.begin(0);
        self.current_sprite = -1;
        self.sprite_ids.len() as i32
    }

    /// Moves to the next sprite.
    pub fn next_sprite(&mut self)
        requires
            old(self)@.current_sprite < i32::MAX,
        ensures
            final(self)@ == (SingleFrameView { current_sprite: (old(self)@.current_sprite + 1) as i32, ..old(self)@ }),
    {
        self.current_sprite = self.current_sprite + 1;
    }

    /// The current sprite's step and its id.
    pub fn process(&mut self) -> (r: (TransformStep, i16))
        requires
            can_process(old(self)@.frame_data),
            0 <= old(self)@.current_sprite < old(self)@.sprite_ids.len(),
        ensures
            r == (next_step(old(self)@.frame_data), old(self)@.sprite_ids[old(self)@.current_sprite as int]),
            final(self)@ == (SingleFrameView { frame_data: after_step(old(self)@.frame_data), ..old(self)@ }),
    {
        let step = process_next(&mut self.frame_data);
        (step, self.sprite_ids[self.current_sprite as usize])
    }
}

/// The largest of `m` and the values of `s`, taken one after the other.
pub open spec fn max_fold(m: i32, s: Seq<i16>) -> i32
    decreases s.len(),
{
    if s.len() == 0 {
        m
    } else {
        let m2 = max_fold(m, s.drop_last());
        if s.last() as i32 > m2 {
            s.last() as i32
        } else {
            m2
        }
    }
}

/// A definition of several frames whose sprites and actions are found through an index.
#[derive(Clone, Debug)]
pub struct AnmSpriteDefinitionIndexed {
    pub sprite_def: SpriteDef,
    pub current_sprite: i32,
    pub frame_pos: Vec<i32>,
    pub sprite_info: Vec<i16>,
    pub action_info: Vec<i16>,
    pub frame_data: DataContainer,
}

pub struct IndexedView {
    pub sprite_def: SpriteDefView,
    pub current_sprite: i32,
    pub frame_pos: Seq<i32>,
    pub sprite_info: Seq<i16>,
    pub action_info: Seq<i16>,
    pub frame_data: DataContainerView,
}

impl View for AnmSpriteDefinitionIndexed {
    type V = IndexedView;

    open spec fn view(&self) -> IndexedView {
        IndexedView {
            sprite_def: self.sprite_def@,
            current_sprite: self.current_sprite,
            frame_pos: self.frame_pos@,
            sprite_info: self.sprite_info@,
            action_info: self.action_info@,
            frame_data: self.frame_data@,
        }
    }
}

/// The header; the frame positions as `i32` values and the sprite counts as `i16` values,
/// each counted by an `i16` (a negative count panics); action offsets counted
/// by an `i16` (none for a negative count); then the frame data. `None` where reading
/// panics.
pub open spec fn sp_indexed(d: Seq<u8>, p: nat, le: bool) -> Option<
    ((SpriteDefHeader, Seq<i32>, Seq<i16>, Seq<i16>, DataContainerView), nat),
> {
    match sp_sprite_def_header(d, p, le) {
        Some((h, q1)) => match sp_i32s_reserved(d, q1, le) {
            Some((fp, q2)) => match sp_i16s_reserved(d, q2, le) {
                Some((si, q3)) => match sp_i16s_counted(d, q3, le) {
                    Some((ai, q4)) => match sp_frame_data_ok(d, q4, le) {
                        Some((c, q5)) => Some(((h, fp, si, ai, c), q5)),
                        None => None,
                    },
                    None => None,
                },
                None => None,
            },
            None => None,
        },
        None => None,
    }
}

/// Where the entries of frame `index` start in the frame positions: two per frame, or
/// three when there are actions.
pub open spec fn indexed_entry(v: IndexedView, index: i32) -> int {
    if v.action_info.len() == 0 {
        index * 2
    } else {
        index * 3
    }
}

impl AnmSpriteDefinitionIndexed {
    pub fn new(_table: &AnmTransformDataTable, _optimized: bool) -> (r: Self)
        ensures
            r@ == (IndexedView {
                sprite_def: empty_sprite_def(),
                current_sprite: -1i32,
                frame_pos: Seq::empty(),
                sprite_info: Seq::empty(),
                action_info: Seq::empty(),
                frame_data: DataContainerView::Empty,
            }),
    {
        AnmSpriteDefinitionIndexed {
            sprite_def: SpriteDef::new(),
            current_sprite: -1,
            frame_pos: Vec::new(),
            sprite_info: Vec::new(),
            action_info: Vec::new(),
            frame_data: DataContainer::Empty,
        }
    }

    /// Reads the definition: the action offsets are added to those already held, and the
    /// sprite count becomes the largest of the old count and the sprite counts read. The
    /// definition must read without error.
    pub fn load(&mut self, buffer: &mut ByteBuffer)
        requires
            sp_indexed(dat(*old(buffer)), pos(*old(buffer)), le(*old(buffer))) is Some,
        ensures
            same_bytes(*old(buffer), *final(buffer)),
            bits_after(*old(buffer), *final(buffer)),
            sp_indexed(dat(*old(buffer)), pos(*old(buffer)), le(*old(buffer))) matches Some(
                ((h, fp, si, ai, c), q),
            ) && pos(*final(buffer)) == q && final(self)@ == (IndexedView {
                sprite_def: SpriteDefView {
                    max_sprite_count: max_fold(old(self)@.sprite_def.max_sprite_count, si),
                    ..sprite_def_loaded(old(self)@.sprite_def, h)
                },
                current_sprite: old(self)@.current_sprite,
                frame_pos: fp,
                sprite_info: si,
                action_info: old(self)@.action_info + ai,
                frame_data: c,
            }),
    {
        let _ = self.load_checked(buffer);
    }

    /// Reads the definition like [`AnmSpriteDefinitionIndexed::load`], on every input;
    /// `false` where [`sp_indexed`] is `None`.
    pub fn load_checked(&mut self, buffer: &mut ByteBuffer) -> (r: bool)
        ensures
            same_bytes(*old(buffer), *final(buffer)),
            match sp_indexed(dat(*old(buffer)), pos(*old(buffer)), le(*old(buffer))) {
                Some(((h, fp, si, ai, c), q)) => r && pos(*final(buffer)) == q && final(self)@ == (IndexedView {
                    sprite_def: SpriteDefView {
                        max_sprite_count: max_fold(old(self)@.sprite_def.max_sprite_count, si),
                        ..sprite_def_loaded(old(self)@.sprite_def, h)
                    },
                    current_sprite: old(self)@.current_sprite,
                    frame_pos: fp,
                    sprite_info: si,
                    action_info: old(self)@.action_info + ai,
                    frame_data: c,
                }) && bits_after(*old(buffer), *final(buffer)),
                None => !r,
            },
    {
        if !self.sprite_def.load_checked(buffer) {
            return false;
        }
        self.frame_pos = match read_i32s_reserved(buffer) {
            Some(v) => v,
            None => return false,
        };
        self.sprite_info = match read_i16s_reserved(buffer) {
            Some(v) => v,
            None => return false,
        };
        let count = match read_i16(buffer) {
            Ok(n) => n,
            Err(_) => return false,
        };
        let mut extra = match read_i16s(buffer, if count < 0 { 0 } else { count as usize }) {
            Ok(v) => v,
            Err(_) => return false,
        };
        self.action_info.append(&mut extra);
        self.frame_data = match read_frame_data(buffer) {
            Some(c) => c,
            None => return false,
        };
        let mut m = self.sprite_def.max_sprite_count;
        let ghost m0 = m;
        let mut i: usize = 0;
        while i < self.sprite_info.len()
            invariant
                i <= self.sprite_info@.len(),
                m == max_fold(m0, self.sprite_info@.subrange(0, i as int)),
            decreases self.sprite_info@.len() - i,
        {
            proof {
                assert(self.sprite_info@.subrange(0, i + 1).drop_last() =~= self.sprite_info@.subrange(0, i as int));
            }
            if self.sprite_info[i] as i32 > m {
                m = self.sprite_info[i] as i32;
            }
            i = i + 1;
        }
        proof {
            assert(self.sprite_info@.subrange(0, self.sprite_info@.len() as int) =~= self.sprite_info@);
        }
        self.sprite_def.max_sprite_count = m;
        true
    }

    /// The number of frames: the frame positions hold two entries per frame, or three when
    /// there are actions.
    pub fn get_frame_count(&self) -> (r: i32)
        ensures
            r == (if self@.action_info.len() == 0 {
                (self@.frame_pos.len() / 2) as i32
            } else {
                (self@.frame_pos.len() / 3) as i32
            }),
    {
        if self.action_info.len() == 0 {
            return (self.frame_pos.len() / 2) as i32;
        }
        (self.frame_pos.len() / 3) as i32
    }

    pub fn get_sprite_def(&self) -> (r: &SpriteDef)
        ensures
            r@ == self@.sprite_def,
    {
        &self.sprite_def
    }

    /// Moves the frame data to where frame `index` starts and the sprite to the frame's
    /// first one, and says how many sprites that one has. The entries
    /// must be there.
    pub fn begin_process_frame(&mut self, index: i32) -> (r: i32)
        requires
            0 <= indexed_entry(old(self)@, index),
            indexed_entry(old(self)@, index) + 1 < old(self)@.frame_pos.len(),
            0 <= old(self)@.frame_pos[indexed_entry(old(self)@, index) + 1] < old(self)@.sprite_info.len(),
        ensures
            final(self)@ == (IndexedView {
                frame_data: data_begin(old(self)@.frame_data, old(self)@.frame_pos[indexed_entry(old(self)@, index)]),
                current_sprite: old(self)@.frame_pos[indexed_entry(old(self)@, index) + 1],
                ..old(self)@
            }),
            r == old(self)@.sprite_info[old(self)@.frame_pos[indexed_entry(old(self)@, index) + 1] as int] as i32,
    {
        let n = self.frame_pos.len();
        assert(n == old(self)@.frame_pos.len());
        let i: usize = if self.action_info.len() == 0 {
            (index as usize) * 2
        } else {
            (index as usize) * 3
        };
        assert(i as int == indexed_entry(old(self)@, index));
        self.frame_data.begin(self.frame_pos[i]);
        self.current_sprite = self.frame_pos[i + 1];
        self.sprite_info[self.current_sprite as usize] as i32
    }

    /// Moves to the next sprite.
    pub fn next_sprite(&mut self)
        requires
            old(self)@.current_sprite < i32::MAX,
        ensures
            final(self)@ == (IndexedView { current_sprite: (old(self)@.current_sprite + 1) as i32, ..old(self)@ }),
    {
        self.current_sprite = self.current_sprite + 1;
    }

    /// The current sprite's step and its id.
    pub fn process(&mut self) -> (r: (TransformStep, i16))
        requires
            can_process(old(self)@.frame_data),
            0 <= old(self)@.current_sprite < old(self)@.sprite_info.len(),
        ensures
            r == (next_step(old(self)@.frame_data), old(self)@.sprite_info[old(self)@.current_sprite as int]),
            final(self)@ == (IndexedView { frame_data: after_step(old(self)@.frame_data), ..old(self)@ }),
    {
        let step = process_next(&mut self.frame_data);
        (step, self.sprite_info[self.current_sprite as usize])
    }
}

/// A sprite definition of one of the kinds the format defines.
#[derive(Clone, Debug)]
pub enum SpriteDefinitionKind {
    Empty(EmptySpriteDef),
    Anm(AnmSpriteDefinition),
    SingleNoAction(AnmSpriteDefinitionSingleNoAction),
    SingleFrame(AnmSpriteDefinitionSingleFrame),
    Indexed(AnmSpriteDefinitionIndexed),
}

pub enum SpriteDefinitionKindView {
    Empty(SpriteDefView),
    Anm(AnmSpriteDefinitionView),
    SingleNoAction(SingleNoActionView),
    SingleFrame(SingleFrameView),
    Indexed(IndexedView),
}

impl View for SpriteDefinitionKind {
    type V = SpriteDefinitionKindView;

    open spec fn view(&self) -> SpriteDefinitionKindView {
        match self {
            SpriteDefinitionKind::Empty(x) => SpriteDefinitionKindView::Empty(x.sprite_def@),
            SpriteDefinitionKind::Anm(x) => SpriteDefinitionKindView::Anm(x@),
            SpriteDefinitionKind::SingleNoAction(x) => SpriteDefinitionKindView::SingleNoAction(x@),
            SpriteDefinitionKind::SingleFrame(x) => SpriteDefinitionKindView::SingleFrame(x@),
            SpriteDefinitionKind::Indexed(x) => SpriteDefinitionKindView::Indexed(x@),
        }
    }
}

/// A sprite definition.
#[derive(Clone, Debug)]
pub struct SpriteDefinition {
    pub sprite_def: SpriteDefinitionKind,
}

impl View for SpriteDefinition {
    type V = SpriteDefinitionKindView;

    open spec fn view(&self) -> SpriteDefinitionKindView {
        self.sprite_def@
    }
}

/// The header of a definition.
pub open spec fn definition_header(k: SpriteDefinitionKindView) -> SpriteDefView {
    match k {
        SpriteDefinitionKindView::Empty(s) => s,
        SpriteDefinitionKindView::Anm(x) => x.sprite_def,
        SpriteDefinitionKindView::SingleNoAction(x) => x.sprite_def,
        SpriteDefinitionKindView::SingleFrame(x) => x.sprite_def,
        SpriteDefinitionKindView::Indexed(x) => x.sprite_def,
    }
}

/// The number of frames of a definition.
pub open spec fn definition_frame_count(k: SpriteDefinitionKindView) -> i32 {
    match k {
        SpriteDefinitionKindView::Empty(_) => 0,
        SpriteDefinitionKindView::Anm(x) => x.frames.len() as i32,
        SpriteDefinitionKindView::SingleNoAction(_) => 1,
        SpriteDefinitionKindView::SingleFrame(_) => 1,
        SpriteDefinitionKindView::Indexed(x) => if x.action_info.len() == 0 {
            (x.frame_pos.len() / 2) as i32
        } else {
            (x.frame_pos.len() / 3) as i32
        },
    }
}

/// A definition after reading its stored form from `p`, and the position after it; `None`
/// where reading panics. The empty definition reads nothing.
pub open spec fn sp_definition_load(k: SpriteDefinitionKindView, d: Seq<u8>, p: nat, le: bool) -> Option<
    (SpriteDefinitionKindView, nat),
> {
    match k {
        SpriteDefinitionKindView::Empty(s) => Some((k, p)),
        SpriteDefinitionKindView::Anm(x) => match sp_anm_sprite_definition(d, p, le, x.optimized, x.sprite_def.max_sprite_count) {
            Some((ld, q)) => Some((SpriteDefinitionKindView::Anm(anm_sprite_definition_loaded(x, ld)), q)),
            None => None,
        },
        SpriteDefinitionKindView::SingleNoAction(x) => match sp_single_no_action(d, p, le) {
            Some(((h, id, c), q)) => Some(
                (
                    SpriteDefinitionKindView::SingleNoAction(
                        SingleNoActionView {
                            sprite_def: SpriteDefView { max_sprite_count: 1, ..sprite_def_loaded(x.sprite_def, h) },
                            sprite_id: id,
                            frame_data: c,
                        },
                    ),
                    q,
                ),
            ),
            None => None,
        },
        SpriteDefinitionKindView::SingleFrame(x) => match sp_single_frame(d, p, le) {
            Some(((h, ids, actions, c), q)) => Some(
                (
                    SpriteDefinitionKindView::SingleFrame(
                        SingleFrameView {
                            sprite_def: single_frame_def(x.sprite_def, h, ids, actions),
                            sprite_ids: ids,
                            action_info: actions,
                            frame_data: c,
                            current_sprite: x.current_sprite,
                        },
                    ),
                    q,
                ),
            ),
            None => None,
        },
        SpriteDefinitionKindView::Indexed(x) => match sp_indexed(d, p, le) {
            Some(((h, fp, si, ai, c), q)) => Some(
                (
                    SpriteDefinitionKindView::Indexed(
                        IndexedView {
                            sprite_def: SpriteDefView {
                                max_sprite_count: max_fold(x.sprite_def.max_sprite_count, si),
                                ..sprite_def_loaded(x.sprite_def, h)
                            },
                            current_sprite: x.current_sprite,
                            frame_pos: fp,
                            sprite_info: si,
                            action_info: x.action_info + ai,
                            frame_data: c,
                        },
                    ),
                    q,
                ),
            ),
            None => None,
        },
    }
}

/// A new definition of the given kind: 2 without actions, 3 single frame, 4 indexed.
pub open spec fn new_definition(kind: i8, optimized: bool) -> Result<SpriteDefinitionKindView, ReadError> {
    if kind == 2 {
        Ok(SpriteDefinitionKindView::SingleNoAction(
            SingleNoActionView { sprite_def: empty_sprite_def(), sprite_id: 0, frame_data: DataContainerView::Empty },
        ))
    } else if kind == 3 {
        Ok(SpriteDefinitionKindView::SingleFrame(
            SingleFrameView {
                sprite_def: empty_sprite_def(),
                sprite_ids: Seq::empty(),
                action_info: Seq::empty(),
                frame_data: DataContainerView::Empty,
                current_sprite: 0,
            },
        ))
    } else if kind == 4 {
        Ok(SpriteDefinitionKindView::Indexed(
            IndexedView {
                sprite_def: empty_sprite_def(),
                current_sprite: -1i32,
                frame_pos: Seq::empty(),
                sprite_info: Seq::empty(),
                action_info: Seq::empty(),
                frame_data: DataContainerView::Empty,
            },
        ))
    } else if kind == 1 {
        Err(ReadError::Unsupported)
    } else {
        Err(ReadError::IndexNotFound)
    }
}

/// A full definition that has not been read.
pub open spec fn new_anm_definition(optimized: bool) -> SpriteDefinitionKindView {
    SpriteDefinitionKindView::Anm(
        AnmSpriteDefinitionView {
            sprite_def: empty_sprite_def(),
            current_sprite: -1i32,
            optimized,
            frames: Seq::empty(),
            current_frame_index: 0,
        },
    )
}

/// What processing the current sprite gives.
#[derive(Clone, Copy, Debug, PartialEq, Eq, Structural)]
pub enum ProcessOutcome {
    /// The empty definition: nothing, and sprite id 0.
    Nothing,
    /// A compact definition: the step to apply with the table's values, and the sprite id.
    Step(TransformStep, i16),
    /// A full definition: the shape to apply; its id is the sprite's.
    Shape(AnmShapeKind),
}

impl SpriteDefinition {
    /// The empty definition.
    pub fn default() -> (r: Self)
        ensures
            r@ == SpriteDefinitionKindView::Empty(empty_sprite_def()),
    {
        SpriteDefinition { sprite_def: SpriteDefinitionKind::Empty(EmptySpriteDef { sprite_def: SpriteDef::new() }) }
    }

    /// Makes a definition: without a table, a full one, reading nothing; with one, of the
    /// kind that the next `i8` names (see [`new_definition`]). Kind 1, whose layout is not
    /// known here, is refused with `Unsupported`.
    pub fn create_from(table: &Option<AnmTransformDataTable>, buffer: &mut ByteBuffer, optimized: bool) -> (r: Result<Self, ReadError>)
        ensures
            same_bytes(*old(buffer), *final(buffer)),
            table is None ==> (r matches Ok(x) && x@ == new_anm_definition(optimized) && *final(buffer) == *old(buffer)),
            table is Some ==> match crate::parse::sp_i8(dat(*old(buffer)), pos(*old(buffer))) {
                Some((kind, q)) => match new_definition(kind, optimized) {
                    Ok(v) => r matches Ok(x) && x@ == v && pos(*final(buffer)) == q && bits_after(*old(buffer), *final(buffer)),
                    Err(e) => r == Err::<Self, ReadError>(e),
                },
                None => r == Err::<Self, ReadError>(ReadError::Incomplete),
            },
    {
        match table {
            None => {
                let empty = AnmTransformDataTable::default();
                return Ok(SpriteDefinition { sprite_def: SpriteDefinitionKind::Anm(AnmSpriteDefinition::new(&empty, optimized)) });
            },
            Some(t) => {
                let m_type = crate::parse::read_i8(buffer)?;
                let def = match m_type {
                    1 => return Err(ReadError::Unsupported),
                    2 => SpriteDefinitionKind::SingleNoAction(AnmSpriteDefinitionSingleNoAction::new(t, optimized)),
                    3 => SpriteDefinitionKind::SingleFrame(AnmSpriteDefinitionSingleFrame::new(t, optimized)),
                    4 => SpriteDefinitionKind::Indexed(AnmSpriteDefinitionIndexed::new(t, optimized)),
                    _ => return Err(ReadError::IndexNotFound),
                };
                Ok(SpriteDefinition { sprite_def: def })
            },
        }
    }

    /// Reads the definition's stored form. It must read without
    /// error.
    pub fn load(&mut self, buffer: &mut ByteBuffer)
        requires
            sp_definition_load(old(self)@, dat(*old(buffer)), pos(*old(buffer)), le(*old(buffer))) is Some,
        ensures
            same_bytes(*old(buffer), *final(buffer)),
            bits_after(*old(buffer), *final(buffer)),
            sp_definition_load(old(self)@, dat(*old(buffer)), pos(*old(buffer)), le(*old(buffer))) == Some(
                (final(self)@, pos(*final(buffer))),
            ),
    {
        let _ = self.load_checked(buffer);
    }

    /// Reads the definition's stored form like [`SpriteDefinition::load`], on every input;
    /// `false` where [`sp_definition_load`] is `None`.
    pub fn load_checked(&mut self, buffer: &mut ByteBuffer) -> (r: bool)
        ensures
            same_bytes(*old(buffer), *final(buffer)),
            match sp_definition_load(old(self)@, dat(*old(buffer)), pos(*old(buffer)), le(*old(buffer))) {
                Some((v, q)) => r && final(self)@ == v && pos(*final(buffer)) == q
                    && bits_after(*old(buffer), *final(buffer)),
                None => !r,
            },
    {
        match &mut self.sprite_def {
            SpriteDefinitionKind::Empty(x) => {
                x.load(buffer);
                true
            },
            SpriteDefinitionKind::Anm(x) => x.load_checked(buffer),
            SpriteDefinitionKind::SingleNoAction(x) => x.load_checked(buffer),
            SpriteDefinitionKind::SingleFrame(x) => x.load_checked(buffer),
            SpriteDefinitionKind::Indexed(x) => x.load_checked(buffer),
        }
    }

    /// Whether frame `index` can be started (see [`can_begin`]).
    pub fn can_begin_frame(&self, index: i32) -> (r: bool)
        ensures
            r == can_begin(self@, index),
    {
        match &self.sprite_def {
            SpriteDefinitionKind::Anm(x) => 0 <= index && (index as usize) < x.frames.len(),
            SpriteDefinitionKind::Indexed(x) => {
                let e: i64 = if x.action_info.len() == 0 {
                    index as i64 * 2
                } else {
                    index as i64 * 3
                };
                if e < 0 || (e + 1) as u64 >= x.frame_pos.len() as u64 {
                    return false;
                }
                assert(e == indexed_entry(x@, index));
                let p = x.frame_pos[(e + 1) as usize];
                0 <= p && (p as usize) < x.sprite_info.len()
            },
            _ => true,
        }
    }

    /// Whether the sprite cursor can move on (see [`can_step`]).
    pub fn can_move_on(&self) -> (r: bool)
        ensures
            r == can_step(self@),
    {
        match &self.sprite_def {
            SpriteDefinitionKind::Anm(x) => x.current_sprite < i32::MAX,
            SpriteDefinitionKind::SingleFrame(x) => x.current_sprite < i32::MAX,
            SpriteDefinitionKind::Indexed(x) => x.current_sprite < i32::MAX,
            _ => true,
        }
    }

    /// Whether the current sprite can be processed (see [`can_process_sprite`]).
    pub fn can_process_current(&self) -> (r: bool)
        ensures
            r == can_process_sprite(self@),
    {
        match &self.sprite_def {
            SpriteDefinitionKind::Empty(_) => true,
            SpriteDefinitionKind::Anm(x) => {
                if x.current_frame_index < 0 || x.current_frame_index as usize >= x.frames.len() {
                    return false;
                }
                proof {
                    assert(frames_view(x.frames@)[x.current_frame_index as int] == x.frames@[x.current_frame_index as int]@);
                }
                0 <= x.current_sprite && (x.current_sprite as usize) < x.frames[x.current_frame_index as usize].sprites.len()
            },
            SpriteDefinitionKind::SingleNoAction(x) => frame_data_can_process(&x.frame_data),
            SpriteDefinitionKind::SingleFrame(x) => frame_data_can_process(&x.frame_data) && 0 <= x.current_sprite
                && (x.current_sprite as usize) < x.sprite_ids.len(),
            SpriteDefinitionKind::Indexed(x) => frame_data_can_process(&x.frame_data) && 0 <= x.current_sprite
                && (x.current_sprite as usize) < x.sprite_info.len(),
        }
    }

    pub fn get_frame_count(&self) -> (r: i32)
        ensures
            r == definition_frame_count(self@),
    {
        match &self.sprite_def {
            SpriteDefinitionKind::Empty(x) => x.get_frame_count(),
            SpriteDefinitionKind::Anm(x) => x.get_frame_count(),
            SpriteDefinitionKind::SingleNoAction(x) => x.get_frame_count(),
            SpriteDefinitionKind::SingleFrame(x) => x.get_frame_count(),
            SpriteDefinitionKind::Indexed(x) => x.get_frame_count(),
        }
    }

    pub fn get_sprite_def(&self) -> (r: &SpriteDef)
        ensures
            r@ == definition_header(self@),
    {
        match &self.sprite_def {
            SpriteDefinitionKind::Empty(x) => x.get_sprite_def(),
            SpriteDefinitionKind::Anm(x) => x.get_sprite_def(),
            SpriteDefinitionKind::SingleNoAction(x) => x.get_sprite_def(),
            SpriteDefinitionKind::SingleFrame(x) => x.get_sprite_def(),
            SpriteDefinitionKind::Indexed(x) => x.get_sprite_def(),
        }
    }

    /// Moves to frame `index` and says how many sprites it has (see
    /// [`definition_begin`]). The frame must be one it can find.
    pub fn begin_process_frame(&mut self, index: i32) -> (r: i32)
        requires
            can_begin(old(self)@, index),
        ensures
            (final(self)@, r) == definition_begin(old(self)@, index),
    {
        match &mut self.sprite_def {
            SpriteDefinitionKind::Empty(x) => x.begin_process_frame(index),
            SpriteDefinitionKind::Anm(x) => x.begin_process_frame(index),
            SpriteDefinitionKind::SingleNoAction(x) => x.begin_process_frame(index),
            SpriteDefinitionKind::SingleFrame(x) => x.begin_process_frame(index),
            SpriteDefinitionKind::Indexed(x) => x.begin_process_frame(index),
        }
    }

    /// Moves to the next sprite.
    pub fn next_sprite(&mut self)
        requires
            can_step(old(self)@),
        ensures
            final(self)@ == definition_next(old(self)@),
    {
        match &mut self.sprite_def {
            SpriteDefinitionKind::Empty(x) => x.next_sprite(),
            SpriteDefinitionKind::Anm(x) => x.next_sprite(),
            SpriteDefinitionKind::SingleNoAction(x) => x.next_sprite(),
            SpriteDefinitionKind::SingleFrame(x) => x.next_sprite(),
            SpriteDefinitionKind::Indexed(x) => x.next_sprite(),
        }
    }

    /// Processes the current sprite (see [`definition_process`]). The sprite and its
    /// data must be there.
    pub fn process(&mut self) -> (r: ProcessOutcome)
        requires
            can_process_sprite(old(self)@),
        ensures
            (final(self)@, r) == definition_process(old(self)@),
    {
        match &mut self.sprite_def {
            SpriteDefinitionKind::Empty(_) => ProcessOutcome::Nothing,
            SpriteDefinitionKind::Anm(x) => ProcessOutcome::Shape(x.process()),
            SpriteDefinitionKind::SingleNoAction(x) => {
                let (step, id) = x.process();
                ProcessOutcome::Step(step, id)
            },
            SpriteDefinitionKind::SingleFrame(x) => {
                let (step, id) = x.process();
                ProcessOutcome::Step(step, id)
            },
            SpriteDefinitionKind::Indexed(x) => {
                let (step, id) = x.process();
                ProcessOutcome::Step(step, id)
            },
        }
    }
}

/// How many offsets type `t` reads after it (see [`step_reads`]).
fn step_reads_count(t: i32) -> (r: i64)
    ensures
        r == step_reads(t),
{
    if t < 0 || t > 15 {
        return 0;
    }
    let color: i64 = if t & 12 == 4 {
        1
    } else if t & 12 == 8 {
        1
    } else if t & 12 == 12 {
        2
    } else {
        0
    };
    let rotation: i64 = if t & 1 != 0 { 1 } else { 0 };
    let translation: i64 = if t & 2 != 0 { 1 } else { 0 };
    color + rotation + translation
}

/// Whether `n` more values follow the one at `cur` in `len` values: the cursor reads one,
/// then `n` (see [`can_process`]).
fn room_after(cur: i32, len: usize, n: i64) -> (r: bool)
    requires
        0 <= n <= 4,
    ensures
        r == (0 <= cur < len && cur < i32::MAX && 0 <= cur + 1 && cur + 1 + n <= len && cur + 1 + n <= i32::MAX),
{
    if cur < 0 || cur as usize >= len || cur == i32::MAX {
        return false;
    }
    let end: i64 = cur as i64 + 1 + n;
    end <= i32::MAX as i64 && (end as u64) <= len as u64
}

/// Whether the next transform of the frame data can be processed (see [`can_process`]).
pub fn frame_data_can_process(c: &DataContainer) -> (r: bool)
    ensures
        r == can_process(c@),
{
    match c {
        DataContainer::Empty => true,
        DataContainer::I8(x) => {
            if x.cur < 0 || x.cur as usize >= x.data.len() {
                return false;
            }
            let n = step_reads_count(x.data[x.cur as usize] as i32);
            room_after(x.cur, x.data.len(), n)
        },
        DataContainer::I16(x) => {
            if x.cur < 0 || x.cur as usize >= x.data.len() {
                return false;
            }
            let n = step_reads_count(x.data[x.cur as usize] as i32);
            room_after(x.cur, x.data.len(), n)
        },
        DataContainer::I32(x) => {
            if x.cur < 0 || x.cur as usize >= x.data.len() {
                return false;
            }
            let n = step_reads_count(x.data[x.cur as usize]);
            room_after(x.cur, x.data.len(), n)
        },
    }
}

/// Whether frame `index` can be started: a full definition must have the frame, an
/// indexed one its entries.
pub open spec fn can_begin(k: SpriteDefinitionKindView, index: i32) -> bool {
    match k {
        SpriteDefinitionKindView::Anm(x) => 0 <= index < x.frames.len(),
        SpriteDefinitionKindView::Indexed(x) => {
            &&& 0 <= indexed_entry(x, index)
            &&& indexed_entry(x, index) + 1 < x.frame_pos.len()
            &&& 0 <= x.frame_pos[indexed_entry(x, index) + 1] < x.sprite_info.len()
        },
        _ => true,
    }
}

/// A definition after starting frame `index`, and the number of sprites of the frame.
pub open spec fn definition_begin(k: SpriteDefinitionKindView, index: i32) -> (SpriteDefinitionKindView, i32) {
    match k {
        SpriteDefinitionKindView::Empty(_) => (k, 0),
        SpriteDefinitionKindView::Anm(x) => (
            SpriteDefinitionKindView::Anm(AnmSpriteDefinitionView { current_sprite: -1i32, current_frame_index: index, ..x }),
            x.frames[index as int].sprites.len() as i32,
        ),
        SpriteDefinitionKindView::SingleNoAction(x) => (
            SpriteDefinitionKindView::SingleNoAction(SingleNoActionView { frame_data: data_begin(x.frame_data, 0), ..x }),
            1,
        ),
        SpriteDefinitionKindView::SingleFrame(x) => (
            SpriteDefinitionKindView::SingleFrame(
                SingleFrameView { frame_data: data_begin(x.frame_data, 0), current_sprite: -1i32, ..x },
            ),
            x.sprite_ids.len() as i32,
        ),
        SpriteDefinitionKindView::Indexed(x) => (
            SpriteDefinitionKindView::Indexed(
                IndexedView {
                    frame_data: data_begin(x.frame_data, x.frame_pos[indexed_entry(x, index)]),
                    current_sprite: x.frame_pos[indexed_entry(x, index) + 1],
                    ..x
                },
            ),
            x.sprite_info[x.frame_pos[indexed_entry(x, index) + 1] as int] as i32,
        ),
    }
}

/// Whether the sprite cursor can move on.
pub open spec fn can_step(k: SpriteDefinitionKindView) -> bool {
    match k {
        SpriteDefinitionKindView::Anm(x) => x.current_sprite < i32::MAX,
        SpriteDefinitionKindView::SingleFrame(x) => x.current_sprite < i32::MAX,
        SpriteDefinitionKindView::Indexed(x) => x.current_sprite < i32::MAX,
        _ => true,
    }
}

/// A definition with its sprite cursor one step further (the definitions of one sprite
/// have no cursor).
pub open spec fn definition_next(k: SpriteDefinitionKindView) -> SpriteDefinitionKindView {
    match k {
        SpriteDefinitionKindView::Anm(x) => SpriteDefinitionKindView::Anm(
            AnmSpriteDefinitionView { current_sprite: (x.current_sprite + 1) as i32, ..x },
        ),
        SpriteDefinitionKindView::SingleFrame(x) => SpriteDefinitionKindView::SingleFrame(
            SingleFrameView { current_sprite: (x.current_sprite + 1) as i32, ..x },
        ),
        SpriteDefinitionKindView::Indexed(x) => SpriteDefinitionKindView::Indexed(
            IndexedView { current_sprite: (x.current_sprite + 1) as i32, ..x },
        ),
        _ => k,
    }
}

/// Whether the current sprite can be processed.
pub open spec fn can_process_sprite(k: SpriteDefinitionKindView) -> bool {
    match k {
        SpriteDefinitionKindView::Empty(_) => true,
        SpriteDefinitionKindView::Anm(x) => 0 <= x.current_frame_index < x.frames.len() && 0 <= x.current_sprite
            < x.frames[x.current_frame_index as int].sprites.len(),
        SpriteDefinitionKindView::SingleNoAction(x) => can_process(x.frame_data),
        SpriteDefinitionKindView::SingleFrame(x) => can_process(x.frame_data) && 0 <= x.current_sprite
            < x.sprite_ids.len(),
        SpriteDefinitionKindView::Indexed(x) => can_process(x.frame_data) && 0 <= x.current_sprite
            < x.sprite_info.len(),
    }
}

/// A definition after processing its current sprite, and what that gives: the shape of a
/// full definition; the next step of the frame data and the sprite id of a compact one.
pub open spec fn definition_process(k: SpriteDefinitionKindView) -> (SpriteDefinitionKindView, ProcessOutcome) {
    match k {
        SpriteDefinitionKindView::Empty(_) => (k, ProcessOutcome::Nothing),
        SpriteDefinitionKindView::Anm(x) => (
            k,
            ProcessOutcome::Shape(x.frames[x.current_frame_index as int].sprites[x.current_sprite as int]),
        ),
        SpriteDefinitionKindView::SingleNoAction(x) => (
            SpriteDefinitionKindView::SingleNoAction(SingleNoActionView { frame_data: after_step(x.frame_data), ..x }),
            ProcessOutcome::Step(next_step(x.frame_data), x.sprite_id),
        ),
        SpriteDefinitionKindView::SingleFrame(x) => (
            SpriteDefinitionKindView::SingleFrame(SingleFrameView { frame_data: after_step(x.frame_data), ..x }),
            ProcessOutcome::Step(next_step(x.frame_data), x.sprite_ids[x.current_sprite as int]),
        ),
        SpriteDefinitionKindView::Indexed(x) => (
            SpriteDefinitionKindView::Indexed(IndexedView { frame_data: after_step(x.frame_data), ..x }),
            ProcessOutcome::Step(next_step(x.frame_data), x.sprite_info[x.current_sprite as int]),
        ),
    }
}

/// The definition after moving its sprite cursor on `n` times.
pub open spec fn next_times(k: SpriteDefinitionKindView, n: nat) -> SpriteDefinitionKindView
    decreases n,
{
    if n == 0 {
        k
    } else {
        definition_next(next_times(k, (n - 1) as nat))
    }
}

proof fn lemma_full_cursor(x: AnmSpriteDefinitionView, index: i32, j: nat)
    requires
        j <= i32::MAX,
    ensures
        next_times(
            SpriteDefinitionKindView::Anm(AnmSpriteDefinitionView { current_sprite: -1i32, current_frame_index: index, ..x }),
            j,
        ) == SpriteDefinitionKindView::Anm(
            AnmSpriteDefinitionView { current_sprite: (j - 1) as i32, current_frame_index: index, ..x },
        ),
    decreases j,
{
    if j > 0 {
        lemma_full_cursor(x, index, (j - 1) as nat);
    }
}

/// A full definition walks a frame shape by shape: starting frame `index` says how many
/// shapes it has, and after moving on `k + 1` times (each move allowed) the current
/// sprite can be processed and gives shape `k` of the frame.
pub proof fn full_definition_walks_frame(x: AnmSpriteDefinitionView, index: i32, k: nat)
    requires
        0 <= index < x.frames.len(),
        k < x.frames[index as int].sprites.len(),
        x.frames[index as int].sprites.len() <= i32::MAX,
    ensures
        definition_begin(SpriteDefinitionKindView::Anm(x), index).1 == x.frames[index as int].sprites.len(),
        forall|j: nat| j <= k ==> can_step(#[trigger] next_times(definition_begin(SpriteDefinitionKindView::Anm(x), index).0, j)),
        can_process_sprite(next_times(definition_begin(SpriteDefinitionKindView::Anm(x), index).0, k + 1)),
        definition_process(next_times(definition_begin(SpriteDefinitionKindView::Anm(x), index).0, k + 1)).1
            == ProcessOutcome::Shape(x.frames[index as int].sprites[k as int]),
{
    lemma_full_cursor(x, index, k + 1);
    assert forall|j: nat| j <= k implies can_step(#[trigger] next_times(definition_begin(SpriteDefinitionKindView::Anm(x), index).0, j)) by {
        lemma_full_cursor(x, index, j);
    }
}

} // verus!
