//! How the compact sprite definitions encode a sprite's transform: a type number read
//! from the frame data says which of color, rotation and translation the sprite changes,
//! and offsets into the animation's tables, read next, say with which values.
use vstd::prelude::*;
use crate::anm_frame_data::{
    DataContainer, DataContainerView, ContainerView, data_can_read, data_next, data_after_read,
};

verus! {

/// What a sprite does to its parent's color.
#[derive(Clone, Copy, Debug, PartialEq, Eq, Structural)]
pub enum ColorStep {
    /// Keeps the parent's color.
    Keep,
    /// Adds the four table values from this offset.
    Add(i32),
    /// Multiplies by the four table values from this offset.
    Mult(i32),
    /// Multiplies by the values at the second offset, then adds those at the first.
    MultAdd(i32, i32),
}

/// What a sprite does to its parent's rotation and skew.
#[derive(Clone, Copy, Debug, PartialEq, Eq, Structural)]
pub enum RotationStep {
    Keep,
    /// Applies the four table values from this offset.
    Rotate(i32),
}

/// What a sprite does to its parent's translation.
#[derive(Clone, Copy, Debug, PartialEq, Eq, Structural)]
pub enum TranslationStep {
    Keep,
    /// Applies the two table values from this offset.
    Translate(i32),
}

/// The transform of a sprite, relative to its parent's.
#[derive(Clone, Copy, Debug, PartialEq, Eq, Structural)]
pub enum TransformStep {
    /// A type number outside 0 to 15: the transform is left as it was.
    Skip,
    Apply(ColorStep, RotationStep, TranslationStep),
}

/// The data with its cursor `k` steps further (unchanged for no data).
pub open spec fn data_skip(c: DataContainerView, k: int) -> DataContainerView {
    match c {
        DataContainerView::Empty => DataContainerView::Empty,
        DataContainerView::I8(x) => DataContainerView::I8(ContainerView { cur: (x.cur + k) as i32, ..x }),
        DataContainerView::I16(x) => DataContainerView::I16(ContainerView { cur: (x.cur + k) as i32, ..x }),
        DataContainerView::I32(x) => DataContainerView::I32(ContainerView { cur: (x.cur + k) as i32, ..x }),
    }
}

/// The value `k` steps after the cursor (0 for no data).
pub open spec fn data_value_at(c: DataContainerView, k: int) -> i32 {
    match c {
        DataContainerView::Empty => 0,
        DataContainerView::I8(x) => x.data[x.cur + k] as i32,
        DataContainerView::I16(x) => x.data[x.cur + k] as i32,
        DataContainerView::I32(x) => x.data[x.cur + k],
    }
}

/// Whether `n` values can be read from the cursor on.
pub open spec fn data_can_read_n(c: DataContainerView, n: int) -> bool {
    match c {
        DataContainerView::Empty => true,
        DataContainerView::I8(x) => 0 <= x.cur && x.cur + n <= x.data.len() && x.cur + n <= i32::MAX,
        DataContainerView::I16(x) => 0 <= x.cur && x.cur + n <= x.data.len() && x.cur + n <= i32::MAX,
        DataContainerView::I32(x) => 0 <= x.cur && x.cur + n <= x.data.len() && x.cur + n <= i32::MAX,
    }
}

/// How many values the color part of type `t` reads.
pub open spec fn color_reads(t: i32) -> int {
    if t & 12 == 4 {
        1
    } else if t & 12 == 8 {
        1
    } else if t & 12 == 12 {
        2
    } else {
        0
    }
}

/// How many offsets type `t` reads after it: one per changed part, two for a color that
/// is multiplied and added; none for a type outside 0 to 15.
pub open spec fn step_reads(t: i32) -> int {
    if 0 <= t <= 15 {
        color_reads(t) + (if t & 1 != 0 { 1int } else { 0int }) + (if t & 2 != 0 { 1int } else { 0int })
    } else {
        0
    }
}

/// The transform of type `t` whose offsets are the values from the cursor of `c` on:
/// bits 2 and 3 of `t` give the color (4 multiplies, 8 adds, 12 does both), bit 0 the
/// rotation and bit 1 the translation, read in that order.
pub open spec fn step_of(t: i32, c: DataContainerView) -> TransformStep {
    if 0 <= t <= 15 {
        let color = if t & 12 == 4 {
            ColorStep::Mult(data_value_at(c, 0))
        } else if t & 12 == 8 {
            ColorStep::Add(data_value_at(c, 0))
        } else if t & 12 == 12 {
            ColorStep::MultAdd(data_value_at(c, 0), data_value_at(c, 1))
        } else {
            ColorStep::Keep
        };
        let k = color_reads(t);
        let rotation = if t & 1 != 0 {
            RotationStep::Rotate(data_value_at(c, k))
        } else {
            RotationStep::Keep
        };
        let k2 = k + (if t & 1 != 0 { 1int } else { 0int });
        let translation = if t & 2 != 0 {
            TranslationStep::Translate(data_value_at(c, k2))
        } else {
            TranslationStep::Keep
        };
        TransformStep::Apply(color, rotation, translation)
    } else {
        TransformStep::Skip
    }
}

proof fn lemma_read_at(c: DataContainerView, n: int, k: int)
    requires
        data_can_read_n(c, n),
        0 <= k < n,
    ensures
        data_can_read(data_skip(c, k)),
        data_next(data_skip(c, k)) == data_value_at(c, k),
        data_after_read(data_skip(c, k)) == data_skip(c, k + 1),
{
}

proof fn lemma_skip_zero(c: DataContainerView)
    ensures
        data_skip(c, 0) == c,
{
    match c {
        DataContainerView::Empty => {},
        DataContainerView::I8(x) => assert(ContainerView { cur: (x.cur + 0) as i32, ..x } == x),
        DataContainerView::I16(x) => assert(ContainerView { cur: (x.cur + 0) as i32, ..x } == x),
        DataContainerView::I32(x) => assert(ContainerView { cur: (x.cur + 0) as i32, ..x } == x),
    }
}

/// Reads the offsets that type `fp_type` needs from the frame data and says what the
/// sprite does to its parent's transform; the caller applies it with the table's values.
pub fn read_and_process(fp_type: i32, frame_data: &mut DataContainer) -> (r: TransformStep)
    requires
        data_can_read_n(old(frame_data)@, step_reads(fp_type)),
    ensures
        r == step_of(fp_type, old(frame_data)@),
        final(frame_data)@ == data_skip(old(frame_data)@, step_reads(fp_type)),
{
    let ghost c = frame_data@;
    let ghost n = step_reads(fp_type);
    proof {
        lemma_skip_zero(c);
    }
    if fp_type < 0 || fp_type > 15 {
        return TransformStep::Skip;
    }
    let color = if fp_type & 12 == 4 {
        proof { lemma_read_at(c, n, 0); }
        ColorStep::Mult(frame_data.read())
    } else if fp_type & 12 == 8 {
        proof { lemma_read_at(c, n, 0); }
        ColorStep::Add(frame_data.read())
    } else if fp_type & 12 == 12 {
        proof { lemma_read_at(c, n, 0); }
        let a = frame_data.read();
        proof { lemma_read_at(c, n, 1); }
        let m = frame_data.read();
        ColorStep::MultAdd(a, m)
    } else {
        ColorStep::Keep
    };
    let ghost k = color_reads(fp_type);
    assert(frame_data@ == data_skip(c, k));
    let rotation = if fp_type & 1 != 0 {
        proof { lemma_read_at(c, n, k); }
        RotationStep::Rotate(frame_data.read())
    } else {
        RotationStep::Keep
    };
    let ghost k2 = k + (if fp_type & 1 != 0 { 1int } else { 0int });
    assert(frame_data@ == data_skip(c, k2));
    let translation = if fp_type & 2 != 0 {
        proof { lemma_read_at(c, n, k2); }
        TranslationStep::Translate(frame_data.read())
    } else {
        TranslationStep::Keep
    };
    TransformStep::Apply(color, rotation, translation)
}

} // verus!
