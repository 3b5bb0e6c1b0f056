//! One frame of a full sprite definition: its shapes and its actions.
use vstd::prelude::*;
use bytebuffer::ByteBuffer;
use crate::buffer::same_bytes;
use crate::parse::{sp_i8, sp_i16, sp_many, lemma_many_fails, dat, pos, le, bits_after, read_i8, read_i16};
use crate::anm_shape::{AnmShapeKind, AnmShapeFactory, sp_shape_outcome};
use crate::anm_action::{AnmAction, AnmActionView, sp_action};
use crate::parse::Parsed;

verus! {

/// A frame: the shapes it draws and the actions it fires.
#[derive(Clone, Debug)]
pub struct AnmFrame {
    pub sprites: Vec<AnmShapeKind>,
    pub actions: Vec<AnmAction>,
}

pub struct AnmFrameView {
    pub sprites: Seq<AnmShapeKind>,
    pub actions: Seq<AnmActionView>,
}

impl View for AnmFrame {
    type V = AnmFrameView;

    open spec fn view(&self) -> AnmFrameView {
        AnmFrameView { sprites: self.sprites@, actions: self.actions@.map_values(|a: AnmAction| a@) }
    }
}

/// A shape that reads without error, as a function of the position; a shape that fails
/// panics.
pub open spec fn shape_fn(d: Seq<u8>, le: bool) -> spec_fn(nat) -> Option<(AnmShapeKind, nat)> {
    |p: nat| match sp_shape_outcome(d, p, le) {
        Some(Ok((s, q))) => Some((s, q)),
        _ => None,
    }
}

/// An action of a frame: its kind as an `i8`, its parameter count as an `i8`, then the
/// action, which is attached to frame `index`. `None` where reading panics.
pub open spec fn frame_action_fn(d: Seq<u8>, le: bool, index: i32) -> spec_fn(nat) -> Option<
    (AnmActionView, nat),
> {
    |p: nat| match sp_i8(d, p) {
        Some((id, q)) => match sp_i8(d, q) {
            Some((count, q2)) => match sp_action(d, q2, le, id as u8, count) {
                Parsed::Done(a, q3) => Some((AnmActionView { frame_index: index, ..a }, q3)),
                _ => None,
            },
            None => None,
        },
        None => None,
    }
}

/// The number of times a count read as a signed number runs a loop: none when negative.
pub open spec fn loop_count(n: int) -> nat {
    if n < 0 {
        0
    } else {
        n as nat
    }
}

/// The actions of frame `index`: their count as an `i8`, then the actions. A negative
/// count panics (room would be reserved for that many).
pub open spec fn sp_frame_actions(d: Seq<u8>, p: nat, le: bool, index: i32) -> Option<(Seq<AnmActionView>, nat)> {
    match sp_i8(d, p) {
        Some((n, q)) => if n < 0 {
            None
        } else {
            sp_many(n as nat, q, frame_action_fn(d, le, index))
        },
        None => None,
    }
}

/// A stored frame: the shape count as an `i16` and the shapes, the actions, then an `i16`
/// that says how many copies of the frame without its actions come before it. `None`
/// where reading panics.
#[verifier::opaque]
pub open spec fn sp_frame(d: Seq<u8>, p: nat, le: bool, index: i32) -> Option<((AnmFrameView, i32), nat)> {
    match sp_i16(d, p, le) {
        Some((n, q)) => match sp_many(loop_count(n as int), q, shape_fn(d, le)) {
            Some((sprites, q2)) => match sp_frame_actions(d, q2, le, index) {
                Some((actions, q3)) => match sp_i16(d, q3, le) {
                    Some((count, q4)) => Some(
                        ((AnmFrameView { sprites, actions }, count as i32), q4),
                    ),
                    None => None,
                },
                None => None,
            },
            None => None,
        },
        None => None,
    }
}

/// A frame's view without its actions.
pub open spec fn without_actions(f: AnmFrameView) -> AnmFrameView {
    AnmFrameView { sprites: f.sprites, actions: Seq::empty() }
}

impl AnmFrame {
    pub fn new() -> (r: Self)
        ensures
            r@.sprites == Seq::<AnmShapeKind>::empty(),
            r@.actions == Seq::<AnmActionView>::empty(),
    {
        let r = AnmFrame { sprites: Vec::new(), actions: Vec::new() };
        proof {
            assert(r@.actions =~= Seq::<AnmActionView>::empty());
        }
        r
    }

    /// Reads a stored frame whose actions belong to frame `index`, and returns how many
    /// copies of it without actions come before it. The frame must
    /// read without error.
    pub fn load(&mut self, buffer: &mut ByteBuffer, index: i32) -> (r: i32)
        requires
            sp_frame(dat(*old(buffer)), pos(*old(buffer)), le(*old(buffer)), index) is Some,
        ensures
            same_bytes(*old(buffer), *final(buffer)),
            bits_after(*old(buffer), *final(buffer)),
            sp_frame(dat(*old(buffer)), pos(*old(buffer)), le(*old(buffer)), index) matches Some(
                ((f, c), q),
            ) && r == c && final(self)@ == f && pos(*final(buffer)) == q,
    {
        match self.load_checked(buffer, index) {
            Some(c) => c,
            None => 0,
        }
    }

    /// Reads a frame like [`AnmFrame::load`], on every input: `None` where [`sp_frame`]
    /// is `None`.
    #[verifier::rlimit(30)]
    pub fn load_checked(&mut self, buffer: &mut ByteBuffer, index: i32) -> (r: Option<i32>)
        ensures
            same_bytes(*old(buffer), *final(buffer)),
            match sp_frame(dat(*old(buffer)), pos(*old(buffer)), le(*old(buffer)), index) {
                Some(((f, c), q)) => r == Some(c) && final(self)@ == f && pos(*final(buffer)) == q
                    && bits_after(*old(buffer), *final(buffer)),
                None => r is None,
            },
    {
        proof {
            reveal(sp_frame);
        }
        let ghost d = dat(*buffer);
        let ghost l = le(*buffer);
        let num_sprites = match read_i16(buffer) {
            Ok(v) => v,
            Err(_) => return None,
        };
        let ghost q0 = pos(*buffer);
        let ghost b0 = *buffer;
        let mut sprites: Vec<AnmShapeKind> = Vec::new();
        let mut i: i16 = 0;
        while i < num_sprites
            invariant
                same_bytes(*old(buffer), *buffer),
                d == dat(*old(buffer)),
                l == le(*old(buffer)),
                0 <= i,
                num_sprites >= 0 ==> i <= num_sprites,
                num_sprites < 0 ==> i == 0,
                sp_i16(d, pos(*old(buffer)), l) == Some((num_sprites, q0)),
                sp_many(i as nat, q0, shape_fn(d, l)) == Some((sprites@, pos(*buffer))),
                bits_after(b0, *buffer),
                bits_after(*old(buffer), b0),
            decreases num_sprites - i,
        {
            let s = match AnmShapeFactory::create_shape_checked(buffer) {
                Some(Ok(s)) => s,
                _ => {
                    proof {
                        reveal(sp_frame);
                        lemma_many_fails((i + 1) as nat, loop_count(num_sprites as int), q0, shape_fn(d, l));
                    }
                    return None;
                },
            };
            sprites.push(s);
            i = i + 1;
        }
        proof {
            assert(loop_count(num_sprites as int) == i as nat);
            assert(sp_many(loop_count(num_sprites as int), q0, shape_fn(d, l)) == Some(
                (sprites@, pos(*buffer)),
            ));
        }
        self.sprites = sprites;
        self.load_actions(buffer, index)
    }

    /// Reads the actions of frame `index`, then the count of copies that follows them;
    /// `None` where they do not read.
    fn load_actions(&mut self, buffer: &mut ByteBuffer, index: i32) -> (r: Option<i32>)
        ensures
            same_bytes(*old(buffer), *final(buffer)),
            final(self).sprites@ == old(self).sprites@,
            match sp_frame_actions(dat(*old(buffer)), pos(*old(buffer)), le(*old(buffer)), index) {
                Some((a, q)) => match sp_i16(dat(*old(buffer)), q, le(*old(buffer))) {
                    Some((c, q2)) => r == Some(c as i32) && final(self)@.actions == a && pos(*final(buffer)) == q2
                        && bits_after(*old(buffer), *final(buffer)),
                    None => r is None,
                },
                None => r is None,
            },
    {
        let ghost d = dat(*buffer);
        let ghost l = le(*buffer);
        let num_actions = match read_i8(buffer) {
            Ok(v) => v,
            Err(_) => return None,
        };
        if num_actions < 0 {
            return None;
        }
        let ghost q0 = pos(*buffer);
        let ghost b0 = *buffer;
        let mut actions: Vec<AnmAction> = Vec::new();
        let mut i: i8 = 0;
        while i < num_actions
            invariant
                same_bytes(*old(buffer), *buffer),
                d == dat(*old(buffer)),
                l == le(*old(buffer)),
                0 <= i <= num_actions,
                sp_i8(d, pos(*old(buffer))) == Some((num_actions, q0)),
                sp_many(i as nat, q0, frame_action_fn(d, l, index)) == Some(
                    (actions@.map_values(|a: AnmAction| a@), pos(*buffer)),
                ),
                bits_after(b0, *buffer),
                bits_after(*old(buffer), b0),
            decreases num_actions - i,
        {
            let ghost at = pos(*buffer);
            let action_id = match read_i8(buffer) {
                Ok(v) => v,
                Err(_) => {
                    proof {
                        assert(frame_action_fn(d, l, index)(at) is None);
                        lemma_many_fails((i + 1) as nat, num_actions as nat, q0, frame_action_fn(d, l, index));
                    }
                    return None;
                },
            };
            let parameters_count = match read_i8(buffer) {
                Ok(v) => v,
                Err(_) => {
                    proof {
                        assert(frame_action_fn(d, l, index)(at) is None);
                        lemma_many_fails((i + 1) as nat, num_actions as nat, q0, frame_action_fn(d, l, index));
                    }
                    return None;
                },
            };
            let mut anm_action = match AnmAction::get_checked(action_id as u8, parameters_count, buffer) {
                Some(Ok(a)) => a,
                _ => {
                    proof {
                        assert(frame_action_fn(d, l, index)(at) is None);
                        lemma_many_fails((i + 1) as nat, num_actions as nat, q0, frame_action_fn(d, l, index));
                    }
                    return None;
                },
            };
            anm_action.set_frame_index(index);
            let ghost before = actions@.map_values(|a: AnmAction| a@);
            actions.push(anm_action);
            proof {
                assert(actions@.map_values(|a: AnmAction| a@) =~= before.push(anm_action@));
            }
            i = i + 1;
        }
        self.actions = actions;
        match read_i16(buffer) {
            Ok(v) => Some(v as i32),
            Err(_) => None,
        }
    }

    /// The frame's shapes without its actions.
    pub fn copy_without_action(&self) -> (r: Self)
        ensures
            r@ == without_actions(self@),
    {
        let mut sprites: Vec<AnmShapeKind> = Vec::new();
        let mut i: usize = 0;
        while i < self.sprites.len()
            invariant
                i <= self.sprites@.len(),
                sprites@ == self.sprites@.subrange(0, i as int),
            decreases self.sprites@.len() - i,
        {
            sprites.push(self.sprites[i]);
            proof {
                assert(sprites@ =~= self.sprites@.subrange(0, i + 1));
            }
            i = i + 1;
        }
        let r = AnmFrame { sprites, actions: Vec::new() };
        proof {
            assert(sprites@ =~= self.sprites@);
            assert(r@.actions =~= Seq::<AnmActionView>::empty());
        }
        r
    }

    /// The frame's shapes.
    pub fn get_sprite(&self) -> (r: &Vec<AnmShapeKind>)
        ensures
            r@ == self@.sprites,
    {
        &self.sprites
    }
}

} // verus!
