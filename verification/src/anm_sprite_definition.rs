//! The full sprite definition: frames of shapes and actions, where a frame may say that
//! copies of it without its actions come before it.
use vstd::prelude::*;
use bytebuffer::ByteBuffer;
use crate::buffer::same_bytes;
use crate::parse::{sp_i8, sp_i16, sp_many, lemma_many_fails, dat, pos, le, bits_after, read_i8, read_i16};
use crate::anm_frame::{AnmFrame, AnmFrameView, sp_frame, shape_fn, loop_count, without_actions};
use crate::anm_shape::{AnmShapeKind, AnmShapeFactory};
use crate::anm_action::{AnmActionKind, AnmActionKindView};
use crate::sprite_def::{SpriteDef, SpriteDefView, SpriteDefHeader, empty_sprite_def, sp_sprite_def_header, sprite_def_loaded};
use crate::anm::AnmTransformDataTable;

verus! {

/// A definition of several frames of shapes.
#[derive(Clone, Debug)]
pub struct AnmSpriteDefinition {
    pub sprite_def: SpriteDef,
    pub current_sprite: i32,
    pub optimized: bool,
    pub frames: Vec<AnmFrame>,
    pub current_frame_index: i32,
}

pub struct AnmSpriteDefinitionView {
    pub sprite_def: SpriteDefView,
    pub current_sprite: i32,
    pub optimized: bool,
    pub frames: Seq<AnmFrameView>,
    pub current_frame_index: i32,
}

/// The views of a list of frames.
pub open spec fn frames_view(v: Seq<AnmFrame>) -> Seq<AnmFrameView> {
    v.map_values(|f: AnmFrame| f@)
}

impl View for AnmSpriteDefinition {
    type V = AnmSpriteDefinitionView;

    open spec fn view(&self) -> AnmSpriteDefinitionView {
        AnmSpriteDefinitionView {
            sprite_def: self.sprite_def@,
            current_sprite: self.current_sprite,
            optimized: self.optimized,
            frames: frames_view(self.frames@),
            current_frame_index: self.current_frame_index,
        }
    }
}

/// Shapes that an unoptimized definition stores and that are read and dropped: their count
/// as an `i8` (none for a negative count), then the shapes, which must read. The position
/// after them.
pub open spec fn sp_skipped_shapes(d: Seq<u8>, p: nat, le: bool) -> Option<nat> {
    match sp_i8(d, p) {
        Some((n, q)) => match sp_many(loop_count(n as int), q, shape_fn(d, le)) {
            Some((_s, q2)) => Some(q2),
            None => None,
        },
        None => None,
    }
}

/// `fs` with `c` copies of frame `i` without its actions put before it (none when `c` is
/// not positive).
pub open spec fn with_copies(fs: Seq<AnmFrameView>, i: int, c: i32) -> Seq<AnmFrameView> {
    if c > 0 {
        fs.take(i) + Seq::new(c as nat, |_k: int| without_actions(fs[i])) + fs.skip(i)
    } else {
        fs
    }
}

/// The sprite count after frame `i` of `fs`: the frame's shape count when it exceeds the
/// count taken as an unsigned number, the count otherwise.
pub open spec fn count_after(fs: Seq<AnmFrameView>, i: int, m: i32) -> i32 {
    if fs[i].sprites.len() > (m as usize) as int {
        fs[i].sprites.len() as i32
    } else {
        m
    }
}

/// The frames after reading `n` of them from `p`, with the sprite count that started at
/// `m`, and the position after them: frame `i` is added at the end, its copies are put
/// before the frame that then stands at `i`, and the count is updated from the frame at
/// `i`. `None` where reading panics.
pub open spec fn frames_after(d: Seq<u8>, le: bool, n: nat, p: nat, m: i32) -> Option<(Seq<AnmFrameView>, i32, nat)>
    decreases n,
{
    if n == 0 {
        Some((Seq::empty(), m, p))
    } else {
        match frames_after(d, le, (n - 1) as nat, p, m) {
            Some((fs, m1, q)) => match sp_frame(d, q, le, (n - 1) as i32) {
                Some(((f, c), q2)) => {
                    let fs2 = with_copies(fs.push(f), n - 1, c);
                    Some((fs2, count_after(fs2, n - 1, m1), q2))
                },
                None => None,
            },
            None => None,
        }
    }
}

/// What a definition holds once read: the header, the frames and the sprite count.
pub struct AnmSpriteDefinitionLoad {
    pub header: SpriteDefHeader,
    pub frames: Seq<AnmFrameView>,
    pub max_sprite_count: i32,
}

/// The definition: the header; when not optimized, two lists of shapes that are dropped;
/// the frame count as an `i16` (a negative count panics); then the frames.
/// `None` where reading panics.
pub open spec fn sp_anm_sprite_definition(d: Seq<u8>, p: nat, le: bool, optimized: bool, m: i32) -> Option<
    (AnmSpriteDefinitionLoad, nat),
> {
    match sp_sprite_def_header(d, p, le) {
        Some((h, q1)) => {
            let skipped: Option<nat> = if optimized {
                Some(q1)
            } else {
                match sp_skipped_shapes(d, q1, le) {
                    Some(q2) => sp_skipped_shapes(d, q2, le),
                    None => None,
                }
            };
            match skipped {
                Some(q3) => match sp_i16(d, q3, le) {
                    Some((n, q4)) => if n < 0 {
                        None
                    } else {
                        match frames_after(d, le, n as nat, q4, m) {
                            Some((fs, m2, q5)) => Some(
                                (AnmSpriteDefinitionLoad { header: h, frames: fs, max_sprite_count: m2 }, q5),
                            ),
                            None => None,
                        }
                    },
                    None => None,
                },
                None => None,
            }
        },
        None => None,
    }
}

/// Whether a lone frame returns to the static animation, which makes the definition an
/// animation node.
pub open spec fn lone_frame_goes_static(fs: Seq<AnmFrameView>) -> bool {
    fs.len() == 1 && exists|k: int|
        0 <= k < fs[0].actions.len() && #[trigger] fs[0].actions[k].action == AnmActionKindView::GoToStaticAnimation
}

/// The definition after reading `ld` into `s`.
pub open spec fn anm_sprite_definition_loaded(s: AnmSpriteDefinitionView, ld: AnmSpriteDefinitionLoad) -> AnmSpriteDefinitionView {
    let h = sprite_def_loaded(s.sprite_def, ld.header);
    AnmSpriteDefinitionView {
        sprite_def: SpriteDefView {
            max_sprite_count: ld.max_sprite_count,
            is_animation_node: if lone_frame_goes_static(ld.frames) {
                true
            } else {
                h.is_animation_node
            },
            ..h
        },
        frames: ld.frames,
        ..s
    }
}

proof fn lemma_frames_len(d: Seq<u8>, le: bool, n: nat, p: nat, m: i32)
    requires
        frames_after(d, le, n, p, m) is Some,
    ensures
        frames_after(d, le, n, p, m) matches Some((fs, _m, _q)) && fs.len() >= n,
    decreases n,
{
    if n > 0 {
        lemma_frames_len(d, le, (n - 1) as nat, p, m);
    }
}

proof fn lemma_frames_fail(d: Seq<u8>, le: bool, i: nat, n: nat, p: nat, m: i32)
    requires
        i <= n,
        frames_after(d, le, i, p, m) is None,
    ensures
        frames_after(d, le, n, p, m) is None,
    decreases n,
{
    if n > i {
        lemma_frames_fail(d, le, i, (n - 1) as nat, p, m);
    }
}

/// Reads and drops a list of shapes (see [`sp_skipped_shapes`]); `false` where it does
/// not read.
fn skip_shapes(buffer: &mut ByteBuffer) -> (r: bool)
    ensures
        same_bytes(*old(buffer), *final(buffer)),
        match sp_skipped_shapes(dat(*old(buffer)), pos(*old(buffer)), le(*old(buffer))) {
            Some(q) => r && pos(*final(buffer)) == q && bits_after(*old(buffer), *final(buffer)),
            None => !r,
        },
{
    let ghost d = dat(*buffer);
    let ghost l = le(*buffer);
    let n = match read_i8(buffer) {
        Ok(n) => n,
        Err(_) => return false,
    };
    let ghost q0 = pos(*buffer);
    let ghost b0 = *buffer;
    let ghost mut shapes: Seq<AnmShapeKind> = Seq::empty();
    let mut i: i8 = 0;
    while i < n
        invariant
            same_bytes(*old(buffer), *buffer),
            d == dat(*old(buffer)),
            l == le(*old(buffer)),
            0 <= i,
            n >= 0 ==> i <= n,
            n < 0 ==> i == 0,
            sp_i8(d, pos(*old(buffer))) == Some((n, q0)),
            sp_many(i as nat, q0, shape_fn(d, l)) == Some((shapes, pos(*buffer))),
            bits_after(b0, *buffer),
            bits_after(*old(buffer), b0),
        decreases n - i,
    {
        let s = match AnmShapeFactory::create_shape_checked(buffer) {
            Some(Ok(s)) => s,
            _ => {
                proof {
                    lemma_many_fails((i + 1) as nat, loop_count(n as int), q0, shape_fn(d, l));
                }
                return false;
            },
        };
        proof {
            shapes = shapes.push(s);
        }
        i = i + 1;
    }
    proof {
        assert(loop_count(n as int) == i as nat);
    }
    true
}

/// Puts `count` copies of frame `i` without its actions before it.
fn insert_copies(frames: &mut Vec<AnmFrame>, i: usize, count: i32)
    requires
        i < old(frames)@.len(),
    ensures
        frames_view(final(frames)@) == with_copies(frames_view(old(frames)@), i as int, count),
        final(frames)@.len() >= old(frames)@.len(),
{
    let ghost fs = frames_view(frames@);
    let ghost w = without_actions(fs[i as int]);
    let mut k: i32 = 0;
    proof {
        assert(fs.take(i as int) + Seq::new(0, |_k: int| w) + fs.skip(i as int) =~= fs);
    }
    while k < count
        invariant
            0 <= i < fs.len(),
            0 <= k,
            count > 0 ==> k <= count,
            count <= 0 ==> k == 0,
            w == without_actions(fs[i as int]),
            frames@.len() == fs.len() + k,
            frames_view(frames@) == fs.take(i as int) + Seq::new(k as nat, |_k: int| w) + fs.skip(i as int),
        decreases count - k,
    {
        let ghost before = frames_view(frames@);
        proof {
            assert(before[i as int] == frames@[i as int]@);
            if k == 0 {
                assert(before[i as int] == fs[i as int]);
            } else {
                assert(before[i as int] == w);
            }
        }
        let copy = frames[i].copy_without_action();
        frames.insert(i, copy);
        proof {
            assert(copy@ == w);
            assert(frames_view(frames@) =~= before.insert(i as int, copy@));
            assert(before.insert(i as int, w) =~= fs.take(i as int) + Seq::new((k + 1) as nat, |_k: int| w)
                + fs.skip(i as int));
        }
        k = k + 1;
    }
    proof {
        if count <= 0 {
            assert(frames_view(frames@) =~= fs);
        }
    }
}

/// Reads `n` frames (see [`frames_after`]) with the sprite count that starts at `m`;
/// `None` where they do not read.
#[verifier::rlimit(80)]
fn read_frames(buffer: &mut ByteBuffer, n: i16, m: i32) -> (r: Option<(Vec<AnmFrame>, i32)>)
    requires
        n >= 0,
    ensures
        same_bytes(*old(buffer), *final(buffer)),
        match frames_after(dat(*old(buffer)), le(*old(buffer)), n as nat, pos(*old(buffer)), m) {
            Some((fs, mc, q)) => r matches Some((x, c)) && frames_view(x@) == fs && c == mc && pos(*final(buffer)) == q
                && bits_after(*old(buffer), *final(buffer)),
            None => r is None,
        },
{
    let ghost d = dat(*buffer);
    let ghost l = le(*buffer);
    let ghost q4 = pos(*buffer);
    let mut frames: Vec<AnmFrame> = Vec::new();
    let mut mc = m;
    proof {
        assert(frames_view(frames@) =~= Seq::<AnmFrameView>::empty());
    }
    let mut i: i16 = 0;
    while i < n
        invariant
            same_bytes(*old(buffer), *buffer),
            d == dat(*old(buffer)),
            l == le(*old(buffer)),
            q4 == pos(*old(buffer)),
            0 <= i <= n,
            frames_after(d, l, i as nat, q4, m) == Some((frames_view(frames@), mc, pos(*buffer))),
            bits_after(*old(buffer), *buffer),
        decreases n - i,
    {
        proof {
            lemma_frames_len(d, l, i as nat, q4, m);
        }
        let mut f = AnmFrame::new();
        let count = match f.load_checked(buffer, i as i32) {
            Some(c) => c,
            None => {
                proof {
                    lemma_frames_fail(d, l, (i + 1) as nat, n as nat, q4, m);
                }
                return None;
            },
        };
        let ghost fs = frames_view(frames@).push(f@);
        frames.push(f);
        proof {
            assert(frames_view(frames@) =~= fs);
        }
        insert_copies(&mut frames, i as usize, count);
        proof {
            assert(frames_view(frames@)[i as int] == frames@[i as int]@);
        }
        let sprite_count = frames[i as usize].sprites.len();
        if sprite_count > mc as usize {
            mc = sprite_count as i32;
        }
        i = i + 1;
    }
    Some((frames, mc))
}

/// Whether a lone frame returns to the static animation (see [`lone_frame_goes_static`]).
fn lone_frame_static(frames: &Vec<AnmFrame>) -> (r: bool)
    ensures
        r == lone_frame_goes_static(frames_view(frames@)),
{
    if frames.len() != 1 {
        return false;
    }
    let ghost acts = frames_view(frames@)[0].actions;
    proof {
        assert(acts == frames@[0].actions@.map_values(|a: crate::anm_action::AnmAction| a@));
    }
    let mut k: usize = 0;
    while k < frames[0].actions.len()
        invariant
            frames@.len() == 1,
            acts == frames@[0].actions@.map_values(|a: crate::anm_action::AnmAction| a@),
            k <= acts.len(),
            forall|j: int| 0 <= j < k ==> acts[j].action != AnmActionKindView::GoToStaticAnimation,
        decreases acts.len() - k,
    {
        proof {
            assert(acts[k as int] == frames@[0].actions@[k as int]@);
        }
        match &frames[0].actions[k].action {
            AnmActionKind::GoToStaticAnimation(_) => {
                proof {
                    assert(acts[k as int].action == AnmActionKindView::GoToStaticAnimation);
                }
                return true;
            },
            _ => {},
        }
        k = k + 1;
    }
    false
}

impl AnmSpriteDefinition {
    pub fn new(_table: &AnmTransformDataTable, optimized: bool) -> (r: Self)
        ensures
            r@ == (AnmSpriteDefinitionView {
                sprite_def: empty_sprite_def(),
                current_sprite: -1i32,
                optimized,
                frames: Seq::empty(),
                current_frame_index: 0,
            }),
    {
        let r = AnmSpriteDefinition {
            sprite_def: SpriteDef::new(),
            current_sprite: -1,
            optimized,
            frames: Vec::new(),
            current_frame_index: 0,
        };
        proof {
            assert(frames_view(r.frames@) =~= Seq::<AnmFrameView>::empty());
        }
        r
    }

    /// Reads the definition (see [`sp_anm_sprite_definition`] and
    /// [`anm_sprite_definition_loaded`]). The definition must read
    /// without error.
    pub fn load(&mut self, buffer: &mut ByteBuffer)
        requires
            sp_anm_sprite_definition(
                dat(*old(buffer)),
                pos(*old(buffer)),
                le(*old(buffer)),
                old(self).optimized,
                old(self).sprite_def.max_sprite_count,
            ) is Some,
        ensures
            same_bytes(*old(buffer), *final(buffer)),
            bits_after(*old(buffer), *final(buffer)),
            sp_anm_sprite_definition(
                dat(*old(buffer)),
                pos(*old(buffer)),
                le(*old(buffer)),
                old(self).optimized,
                old(self).sprite_def.max_sprite_count,
            ) matches Some((ld, q)) && pos(*final(buffer)) == q && final(self)@ == anm_sprite_definition_loaded(
                old(self)@,
                ld,
            ),
    {
        let _ = self.load_checked(buffer);
    }

    /// Reads the definition like [`AnmSpriteDefinition::load`], on every input; `false`
    /// where [`sp_anm_sprite_definition`] is `None`.
    pub fn load_checked(&mut self, buffer: &mut ByteBuffer) -> (r: bool)
        ensures
            same_bytes(*old(buffer), *final(buffer)),
            match sp_anm_sprite_definition(
                dat(*old(buffer)),
                pos(*old(buffer)),
                le(*old(buffer)),
                old(self).optimized,
                old(self).sprite_def.max_sprite_count,
            ) {
                Some((ld, q)) => r && pos(*final(buffer)) == q && final(self)@ == anm_sprite_definition_loaded(
                    old(self)@,
                    ld,
                ) && bits_after(*old(buffer), *final(buffer)),
                None => !r,
            },
    {
        let ghost d = dat(*buffer);
        let ghost l = le(*buffer);
        if !self.sprite_def.load_checked(buffer) {
            return false;
        }
        if !self.optimized {
            if !skip_shapes(buffer) {
                return false;
            }
            if !skip_shapes(buffer) {
                return false;
            }
        }
        let num_frames = match read_i16(buffer) {
            Ok(n) => n,
            Err(_) => return false,
        };
        if num_frames < 0 {
            return false;
        }
        let (frames, m) = match read_frames(buffer, num_frames, self.sprite_def.max_sprite_count) {
            Some(v) => v,
            None => return false,
        };
        self.frames = frames;
        self.sprite_def.max_sprite_count = m;
        if lone_frame_static(&self.frames) {
            self.sprite_def.is_animation_node = true;
        }
        true
    }

    pub fn get_frame_count(&self) -> (r: i32)
        ensures
            r == self@.frames.len() as i32,
    {
        self.frames.len() as i32
    }

    pub fn get_sprite_def(&self) -> (r: &SpriteDef)
        ensures
            r@ == self@.sprite_def,
    {
        &self.sprite_def
    }

    /// Moves to frame `index`, before its first shape, and says how many shapes it has.
    /// The frame must be one the definition has.
    pub fn begin_process_frame(&mut self, index: i32) -> (r: i32)
        requires
            0 <= index < old(self)@.frames.len(),
        ensures
            r == old(self)@.frames[index as int].sprites.len() as i32,
            final(self)@ == (AnmSpriteDefinitionView {
                current_sprite: -1i32,
                current_frame_index: index,
                ..old(self)@
            }),
    {
        self.current_sprite = -1;
        self.current_frame_index = index;
        proof {
            assert(self@.frames[index as int] == self.frames@[index as int]@);
        }
        self.frames[index as usize].sprites.len() as i32
    }

    /// Moves to the next shape.
    pub fn next_sprite(&mut self)
        requires
            old(self)@.current_sprite < i32::MAX,
        ensures
            final(self)@ == (AnmSpriteDefinitionView {
                current_sprite: (old(self)@.current_sprite + 1) as i32,
                ..old(self)@
            }),
    {
        self.current_sprite = self.current_sprite + 1;
    }

    /// The current shape of the current frame; the caller applies it to the parent's
    /// transform, and its id is the sprite's.
    pub fn process(&self) -> (r: AnmShapeKind)
        requires
            0 <= self@.current_frame_index < self@.frames.len(),
            0 <= self@.current_sprite < self@.frames[self@.current_frame_index as int].sprites.len(),
        ensures
            r == self@.frames[self@.current_frame_index as int].sprites[self@.current_sprite as int],
    {
        proof {
            assert(self@.frames[self.current_frame_index as int] == self.frames@[self.current_frame_index as int]@);
        }
        self.frames[self.current_frame_index as usize].sprites[self.current_sprite as usize]
    }
}

} // verus!
