//! Frame actions of an animation: jumps to other animations, scripts, hits, particles.
//!
//! An action is stored as its kind number and a parameter count, followed by parameters
//! whose layout depends on both.
use vstd::prelude::*;
use bytebuffer::ByteBuffer;
use crate::buffer::same_bytes;
use crate::error::ReadError;
use crate::parse::{
    Parsed, sp_i8, sp_i16, sp_i32, sp_cstr, sp_many, lift, parsed_as, checked_as, reads_as, dat, pos, le,
    cstr_fn, i8_fn, read_i8, read_i16, read_i32, read_cstr, read_cstrs, read_i8s,
};
use crate::utils::{parsed_i64, parse_i64, parsed_i8_trimmed, parse_i8_trimmed};

verus! {

/// Whether `s` is the marker string `#optimized`.
pub open spec fn is_optimized_marker(s: Seq<u8>) -> bool {
    s == seq![35u8, 111, 112, 116, 105, 109, 105, 122, 101, 100]
}

/// Plays another animation, with a percentage when two parameters are given.
#[derive(Clone, Debug)]
pub struct AnmActionGoToAnimation {
    pub animation_name: Vec<u8>,
    pub percent: i8,
}

pub struct GoToAnimationView {
    pub animation_name: Seq<u8>,
    pub percent: i8,
}

impl View for AnmActionGoToAnimation {
    type V = GoToAnimationView;

    open spec fn view(&self) -> GoToAnimationView {
        GoToAnimationView { animation_name: self.animation_name@, percent: self.percent }
    }
}

/// The name, then the percentage as an `i8` when there are two parameters (0 otherwise).
pub open spec fn sp_go_to_animation(d: Seq<u8>, p: nat, params: i8) -> Option<
    (GoToAnimationView, nat),
> {
    match sp_cstr(d, p) {
        Some((name, q)) => if params == 2 {
            match sp_i8(d, q) {
                Some((percent, q2)) => Some(
                    (GoToAnimationView { animation_name: name, percent }, q2),
                ),
                None => None,
            }
        } else {
            Some((GoToAnimationView { animation_name: name, percent: 0 }, q))
        },
        None => None,
    }
}

impl AnmActionGoToAnimation {
    pub fn load(parameters_count: i8, buffer: &mut ByteBuffer) -> (r: Result<Self, ReadError>)
        ensures
            reads_as(
                *old(buffer),
                *final(buffer),
                r,
                sp_go_to_animation(dat(*old(buffer)), pos(*old(buffer)), parameters_count),
            ),
    {
        let animation_name = read_cstr(buffer)?;
        let percent = if parameters_count == 2 {
            read_i8(buffer)?
        } else {
            0
        };
        Ok(AnmActionGoToAnimation { animation_name, percent })
    }

    pub fn get_type(&self) -> (t: &'static str)
        ensures
            t@ == "GO_TO_ANIMATION"@,
    {
        "GO_TO_ANIMATION"
    }
}

/// Returns to the static animation. It has no parameters.
#[derive(Clone, Copy, Debug, PartialEq, Eq, Structural)]
pub struct AnmActionGoToStaticAnimation;

impl View for AnmActionGoToStaticAnimation {
    type V = AnmActionGoToStaticAnimation;

    open spec fn view(&self) -> AnmActionGoToStaticAnimation {
        *self
    }
}

/// Hits the target. It has no parameters.
#[derive(Clone, Copy, Debug, PartialEq, Eq, Structural)]
pub struct AnmActionHit;

impl View for AnmActionHit {
    type V = AnmActionHit;

    open spec fn view(&self) -> AnmActionHit {
        *self
    }
}

/// Deletes the element. It has no parameters.
#[derive(Clone, Copy, Debug, PartialEq, Eq, Structural)]
pub struct AnmActionDelete;

impl View for AnmActionDelete {
    type V = AnmActionDelete;

    open spec fn view(&self) -> AnmActionDelete {
        *self
    }
}

/// Ends the animation. It has no parameters.
#[derive(Clone, Copy, Debug, PartialEq, Eq, Structural)]
pub struct AnmActionEnd;

impl View for AnmActionEnd {
    type V = AnmActionEnd;

    open spec fn view(&self) -> AnmActionEnd {
        *self
    }
}

impl AnmActionGoToStaticAnimation {
    pub fn load(_parameters_count: i8, _buffer: &mut ByteBuffer) -> (r: Result<Self, ReadError>)
        ensures
            r == Ok::<Self, ReadError>(AnmActionGoToStaticAnimation),
            *final(_buffer) == *old(_buffer),
    {
        Ok(AnmActionGoToStaticAnimation)
    }

    pub fn get_type(&self) -> (t: &'static str)
        ensures
            t@ == "GO_TO_STATIC_ANIMATION"@,
    {
        "GO_TO_STATIC_ANIMATION"
    }
}

impl AnmActionHit {
    pub fn load(_parameters_count: i8, _buffer: &mut ByteBuffer) -> (r: Result<Self, ReadError>)
        ensures
            r == Ok::<Self, ReadError>(AnmActionHit),
            *final(_buffer) == *old(_buffer),
    {
        Ok(AnmActionHit)
    }

    pub fn get_type(&self) -> (t: &'static str)
        ensures
            t@ == "HIT"@,
    {
        "HIT"
    }
}

impl AnmActionDelete {
    pub fn load(_parameters_count: i8, _buffer: &mut ByteBuffer) -> (r: Result<Self, ReadError>)
        ensures
            r == Ok::<Self, ReadError>(AnmActionDelete),
            *final(_buffer) == *old(_buffer),
    {
        Ok(AnmActionDelete)
    }

    pub fn get_type(&self) -> (t: &'static str)
        ensures
            t@ == "DELETE"@,
    {
        "DELETE"
    }
}

impl AnmActionEnd {
    pub fn load(_parameters_count: i8, _buffer: &mut ByteBuffer) -> (r: Result<Self, ReadError>)
        ensures
            r == Ok::<Self, ReadError>(AnmActionEnd),
            *final(_buffer) == *old(_buffer),
    {
        Ok(AnmActionEnd)
    }

    pub fn get_type(&self) -> (t: &'static str)
        ensures
            t@ == "END"@,
    {
        "END"
    }
}

/// Runs a script, named by its number written as text (-1 when the text is no number).
#[derive(Clone, Copy, Debug, PartialEq, Eq, Structural)]
pub struct AnmActionRunScript {
    pub script_id: i64,
}

impl View for AnmActionRunScript {
    type V = AnmActionRunScript;

    open spec fn view(&self) -> AnmActionRunScript {
        *self
    }
}

/// The script number written as text; -1 when the text does not read as an `i64`.
pub open spec fn sp_run_script(d: Seq<u8>, p: nat) -> Option<(AnmActionRunScript, nat)> {
    match sp_cstr(d, p) {
        Some((text, q)) => Some(
            (
                AnmActionRunScript {
                    script_id: match parsed_i64(text) {
                        Some(v) => v,
                        None => -1i64,
                    },
                },
                q,
            ),
        ),
        None => None,
    }
}

impl AnmActionRunScript {
    pub fn load(_parameters_count: i8, buffer: &mut ByteBuffer) -> (r: Result<Self, ReadError>)
        ensures
            reads_as(*old(buffer), *final(buffer), r, sp_run_script(dat(*old(buffer)), pos(*old(buffer)))),
    {
        let str_script_id = read_cstr(buffer)?;
        let mut script_id: i64 = -1;
        if let Some(id) = parse_i64(&str_script_id) {
            script_id = id;
        }
        Ok(AnmActionRunScript { script_id })
    }

    pub fn get_type(&self) -> (t: &'static str)
        ensures
            t@ == "RUN_SCRIPT"@,
    {
        "RUN_SCRIPT"
    }
}

/// Sets the element's radius.
#[derive(Clone, Copy, Debug, PartialEq, Eq, Structural)]
pub struct AnmActionSetRadius {
    pub radius: i8,
}

impl View for AnmActionSetRadius {
    type V = AnmActionSetRadius;

    open spec fn view(&self) -> AnmActionSetRadius {
        *self
    }
}

/// The radius as an `i8`.
pub open spec fn sp_set_radius(d: Seq<u8>, p: nat) -> Option<(AnmActionSetRadius, nat)> {
    match sp_i8(d, p) {
        Some((radius, q)) => Some((AnmActionSetRadius { radius }, q)),
        None => None,
    }
}

impl AnmActionSetRadius {
    pub fn load(_parameters_count: i8, buffer: &mut ByteBuffer) -> (r: Result<Self, ReadError>)
        ensures
            reads_as(*old(buffer), *final(buffer), r, sp_set_radius(dat(*old(buffer)), pos(*old(buffer)))),
    {
        let radius = read_i8(buffer)?;
        Ok(AnmActionSetRadius { radius })
    }

    pub fn get_type(&self) -> (t: &'static str)
        ensures
            t@ == "SET_RADIUS"@,
    {
        "SET_RADIUS"
    }
}

/// Starts a particle system, at an offset when three or four parameters are given.
#[derive(Clone, Copy, Debug, PartialEq, Eq, Structural)]
pub struct AnmActionAddParticle {
    pub particle_id: i32,
    pub offset_x: i16,
    pub offset_y: i16,
    pub offset_z: i16,
}

impl View for AnmActionAddParticle {
    type V = AnmActionAddParticle;

    open spec fn view(&self) -> AnmActionAddParticle {
        *self
    }
}

/// The particle system as an `i32`; with three parameters two `i16` offsets (x, y) follow,
/// with four three (x, y, z); missing offsets are 0.
pub open spec fn sp_add_particle(d: Seq<u8>, p: nat, le: bool, params: i8) -> Option<
    (AnmActionAddParticle, nat),
> {
    match sp_i32(d, p, le) {
        Some((particle_id, q)) => if params == 3 || params == 4 {
            match sp_i16(d, q, le) {
                Some((offset_x, q1)) => match sp_i16(d, q1, le) {
                    Some((offset_y, q2)) => if params == 4 {
                        match sp_i16(d, q2, le) {
                            Some((offset_z, q3)) => Some(
                                (AnmActionAddParticle { particle_id, offset_x, offset_y, offset_z }, q3),
                            ),
                            None => None,
                        }
                    } else {
                        Some(
                            (AnmActionAddParticle { particle_id, offset_x, offset_y, offset_z: 0 }, q2),
                        )
                    },
                    None => None,
                },
                None => None,
            }
        } else {
            Some((AnmActionAddParticle { particle_id, offset_x: 0, offset_y: 0, offset_z: 0 }, q))
        },
        None => None,
    }
}

impl AnmActionAddParticle {
    pub fn load(parameters_count: i8, buffer: &mut ByteBuffer) -> (r: Result<Self, ReadError>)
        ensures
            reads_as(
                *old(buffer),
                *final(buffer),
                r,
                sp_add_particle(dat(*old(buffer)), pos(*old(buffer)), le(*old(buffer)), parameters_count),
            ),
    {
        let particle_id = read_i32(buffer)?;
        if parameters_count == 3 {
            let offset_x = read_i16(buffer)?;
            let offset_y = read_i16(buffer)?;
            return Ok(AnmActionAddParticle { particle_id, offset_x, offset_y, offset_z: 0 });
        } else if parameters_count == 4 {
            let offset_x = read_i16(buffer)?;
            let offset_y = read_i16(buffer)?;
            let offset_z = read_i16(buffer)?;
            return Ok(AnmActionAddParticle { particle_id, offset_x, offset_y, offset_z });
        }
        Ok(AnmActionAddParticle { particle_id, offset_x: 0, offset_y: 0, offset_z: 0 })
    }

    pub fn get_type(&self) -> (t: &'static str)
        ensures
            t@ == "ADD_PARTICLE"@,
    {
        "ADD_PARTICLE"
    }
}

/// Plays, depending on the previously played animation, the animation paired with it, or
/// else a default animation.
#[derive(Clone, Debug)]
pub struct AnmActionGoToIfPreviousAnimation {
    pub previous_animations: Vec<Vec<u8>>,
    pub next_animations: Vec<Vec<u8>>,
    pub default_animation: Vec<u8>,
}

pub struct GoToIfPreviousAnimationView {
    pub previous_animations: Seq<Seq<u8>>,
    pub next_animations: Seq<Seq<u8>>,
    pub default_animation: Seq<u8>,
}

impl View for AnmActionGoToIfPreviousAnimation {
    type V = GoToIfPreviousAnimationView;

    open spec fn view(&self) -> GoToIfPreviousAnimationView {
        GoToIfPreviousAnimationView {
            previous_animations: self.previous_animations.deep_view(),
            next_animations: self.next_animations.deep_view(),
            default_animation: self.default_animation@,
        }
    }
}

/// A previous animation and the animation it leads to.
pub open spec fn sp_name_pair(d: Seq<u8>, p: nat) -> Option<((Seq<u8>, Seq<u8>), nat)> {
    match sp_cstr(d, p) {
        Some((prev, q)) => match sp_cstr(d, q) {
            Some((next, q2)) => Some(((prev, next), q2)),
            None => None,
        },
        None => None,
    }
}

/// Reading a pair of animation names from `d`, as a function of the position.
pub open spec fn name_pair_fn(d: Seq<u8>) -> spec_fn(nat) -> Option<((Seq<u8>, Seq<u8>), nat)> {
    |p: nat| sp_name_pair(d, p)
}

/// `(count - 1) / 2` pairs of names (previous, next); with an odd count a default name
/// follows (empty otherwise). A negative count panics: room would be reserved for a
/// negative number of pairs.
pub open spec fn sp_go_to_if_previous(d: Seq<u8>, p: nat, params: i8) -> Parsed<
    GoToIfPreviousAnimationView,
> {
    if params < 0 {
        Parsed::Panics
    } else {
        let if_count: nat = if params >= 1 {
            ((params - 1) / 2) as nat
        } else {
            0
        };
        match sp_many(if_count, p, name_pair_fn(d)) {
            Some((pairs, q)) => {
                let prev = pairs.map_values(|x: (Seq<u8>, Seq<u8>)| x.0);
                let next = pairs.map_values(|x: (Seq<u8>, Seq<u8>)| x.1);
                if params % 2 == 1 {
                    match sp_cstr(d, q) {
                        Some((default, q2)) => Parsed::Done(
                            GoToIfPreviousAnimationView {
                                previous_animations: prev,
                                next_animations: next,
                                default_animation: default,
                            },
                            q2,
                        ),
                        None => Parsed::Fails(ReadError::Incomplete),
                    }
                } else {
                    Parsed::Done(
                        GoToIfPreviousAnimationView {
                            previous_animations: prev,
                            next_animations: next,
                            default_animation: Seq::empty(),
                        },
                        q,
                    )
                }
            },
            None => Parsed::Fails(ReadError::Incomplete),
        }
    }
}

impl AnmActionGoToIfPreviousAnimation {
    pub fn load(parameters_count: i8, buffer: &mut ByteBuffer) -> (r: Result<Self, ReadError>)
        requires
            !(sp_go_to_if_previous(dat(*old(buffer)), pos(*old(buffer)), parameters_count) is Panics),
        ensures
            parsed_as(
                *old(buffer),
                *final(buffer),
                r,
                sp_go_to_if_previous(dat(*old(buffer)), pos(*old(buffer)), parameters_count),
            ),
    {
        match Self::load_checked(parameters_count, buffer) {
            Some(r) => r,
            None => Err(ReadError::BadInput),
        }
    }

    /// Reads the action like [`AnmActionGoToIfPreviousAnimation::load`], on every input:
    /// `None` where [`sp_go_to_if_previous`] panics.
    pub fn load_checked(parameters_count: i8, buffer: &mut ByteBuffer) -> (r: Option<Result<Self, ReadError>>)
        ensures
            checked_as(
                *old(buffer),
                *final(buffer),
                r,
                sp_go_to_if_previous(dat(*old(buffer)), pos(*old(buffer)), parameters_count),
            ),
    {
        if parameters_count < 0 {
            return None;
        }
        let ghost d = dat(*buffer);
        let ghost p0 = pos(*buffer);
        let if_count: i8 = if parameters_count >= 1 {
            (parameters_count - 1) / 2
        } else {
            0
        };
        assert(if_count as nat == (if parameters_count >= 1 {
            ((parameters_count - 1) / 2) as nat
        } else {
            0nat
        }));
        let mut previous_animations: Vec<Vec<u8>> = Vec::new();
        let mut next_animations: Vec<Vec<u8>> = Vec::new();
        let mut i: i8 = 0;
        while i < if_count
            invariant
                same_bytes(*old(buffer), *buffer),
                d == dat(*old(buffer)),
                p0 == pos(*old(buffer)),
                0 <= i <= if_count,
                parameters_count >= 0,
                if_count as nat == (if parameters_count >= 1 {
                    ((parameters_count - 1) / 2) as nat
                } else {
                    0nat
                }),
                sp_many(i as nat, p0, name_pair_fn(d)) matches Some((pairs, q)) && q == pos(*buffer)
                    && previous_animations.deep_view() == pairs.map_values(
                    |x: (Seq<u8>, Seq<u8>)| x.0,
                ) && next_animations.deep_view() == pairs.map_values(|x: (Seq<u8>, Seq<u8>)| x.1),
                crate::parse::bits_after(*old(buffer), *buffer),
            decreases if_count - i,
        {
            let ghost pairs = match sp_many(i as nat, p0, name_pair_fn(d)) {
                Some((s, _)) => s,
                None => Seq::empty(),
            };
            let ghost q = pos(*buffer);
            let prev = match read_cstr(buffer) {
                Ok(s) => s,
                Err(e) => {
                    proof {
                        assert(sp_cstr(d, q) is None);
                        assert(sp_name_pair(d, q) is None);
                        assert(sp_many((i + 1) as nat, p0, name_pair_fn(d)) is None);
                        crate::parse::lemma_many_fails((i + 1) as nat, if_count as nat, p0, name_pair_fn(d));
                    }
                    return Some(Err(e));
                },
            };
            let ghost q1 = pos(*buffer);
            let next = match read_cstr(buffer) {
                Ok(s) => s,
                Err(e) => {
                    proof {
                        assert(sp_cstr(d, q1) is None);
                        assert(sp_name_pair(d, q) is None);
                        assert(sp_many((i + 1) as nat, p0, name_pair_fn(d)) is None);
                        crate::parse::lemma_many_fails((i + 1) as nat, if_count as nat, p0, name_pair_fn(d));
                    }
                    return Some(Err(e));
                },
            };
            proof {
                assert(prev.deep_view() =~= prev@);
                assert(next.deep_view() =~= next@);
            }
            let ghost old_prev = previous_animations.deep_view();
            let ghost old_next = next_animations.deep_view();
            previous_animations.push(prev);
            next_animations.push(next);
            proof {
                assert(previous_animations.deep_view() =~= old_prev.push(prev@));
                assert(next_animations.deep_view() =~= old_next.push(next@));
                let np = pairs.push((prev@, next@));
                assert(previous_animations.deep_view() =~= np.map_values(|x: (Seq<u8>, Seq<u8>)| x.0));
                assert(next_animations.deep_view() =~= np.map_values(|x: (Seq<u8>, Seq<u8>)| x.1));
            }
            i = i + 1;
        }
        let default_animation = if parameters_count % 2 == 1 {
            match read_cstr(buffer) {
                Ok(v) => v,
                Err(e) => return Some(Err(e)),
            }
        } else {
            Vec::new()
        };
        proof {
            if parameters_count % 2 != 1 {
                assert(default_animation@ =~= Seq::<u8>::empty());
            }
        }
        Some(Ok(AnmActionGoToIfPreviousAnimation { previous_animations, next_animations, default_animation }))
    }

    pub fn get_type(&self) -> (t: &'static str)
        ensures
            t@ == "GO_TO_IF_PREVIOUS_ANIMATION"@,
    {
        "GO_TO_IF_PREVIOUS_ANIMATION"
    }
}

/// Plays one of several animations, each with a percentage of chance.
#[derive(Clone, Debug)]
pub struct AnmActionGoToRandomAnimation {
    pub animation_names: Vec<Vec<u8>>,
    pub percents: Vec<i8>,
}

pub struct GoToRandomAnimationView {
    pub animation_names: Seq<Seq<u8>>,
    pub percents: Seq<i8>,
}

impl View for AnmActionGoToRandomAnimation {
    type V = GoToRandomAnimationView;

    open spec fn view(&self) -> GoToRandomAnimationView {
        GoToRandomAnimationView {
            animation_names: self.animation_names.deep_view(),
            percents: self.percents@,
        }
    }
}

/// The action with no animation.
pub open spec fn empty_random_animation() -> GoToRandomAnimationView {
    GoToRandomAnimationView { animation_names: Seq::empty(), percents: Seq::empty() }
}

/// Whether a random animation parameter reads as a percentage.
pub open spec fn parses_as_i8(s: Seq<u8>) -> bool {
    parsed_i8_trimmed(s) is Some
}

/// `fill_animations` stops with a panic on every input. A parameter that does not read as
/// an `i8` is an animation name, looked up in the names seen so far with
/// `position(..).unwrap()`; that list is only extended in a branch that the failed lookup
/// never reaches, so the first name panics. When every parameter reads as an `i8`, no
/// percentage is recorded (a percentage is recorded only after a name), and sharing out
/// the rest of the hundred divides by the number of percentages, zero.
pub open spec fn fill_animations_panics(parameters: Seq<Seq<u8>>) -> bool {
    ||| exists|i| 0 <= i < parameters.len() && !parses_as_i8(#[trigger] parameters[i])
    ||| forall|i| 0 <= i < parameters.len() ==> parses_as_i8(#[trigger] parameters[i])
}

/// With no parameters, no animation. Otherwise a string comes first. When it is
/// `#optimized`, `(count - 1) / 2` names follow, then as many `i8` percentages; otherwise
/// `count - 1` more strings follow and all of them go to `fill_animations`, which panics.
/// A negative count panics: room would be reserved for a negative number of values
/// (and `count - 1` overflows at -128).
pub open spec fn sp_go_to_random(d: Seq<u8>, p: nat, params: i8) -> Parsed<GoToRandomAnimationView> {
    if params == 0 {
        Parsed::Done(empty_random_animation(), p)
    } else {
        match sp_cstr(d, p) {
            None => Parsed::Fails(ReadError::Incomplete),
            Some((first, q)) => if params < 0 {
                Parsed::Panics
            } else if is_optimized_marker(first) {
                let count = ((params - 1) / 2) as nat;
                match sp_many(count, q, cstr_fn(d)) {
                    None => Parsed::Fails(ReadError::Incomplete),
                    Some((names, q2)) => match sp_many(count, q2, i8_fn(d)) {
                        None => Parsed::Fails(ReadError::Incomplete),
                        Some((percents, q3)) => Parsed::Done(
                            GoToRandomAnimationView { animation_names: names, percents },
                            q3,
                        ),
                    },
                }
            } else {
                match sp_many((params - 1) as nat, q, cstr_fn(d)) {
                    None => Parsed::Fails(ReadError::Incomplete),
                    Some((_, _)) => Parsed::Panics,
                }
            },
        }
    }
}

impl AnmActionGoToRandomAnimation {
    pub fn default() -> (r: Self)
        ensures
            r@ == empty_random_animation(),
    {
        let r = AnmActionGoToRandomAnimation { animation_names: Vec::new(), percents: Vec::new() };
        proof {
            assert(r.animation_names.deep_view() =~= Seq::<Seq<u8>>::empty());
        }
        r
    }

    pub fn load(parameters_count: i8, buffer: &mut ByteBuffer) -> (r: Result<Self, ReadError>)
        requires
            !(sp_go_to_random(dat(*old(buffer)), pos(*old(buffer)), parameters_count) is Panics),
        ensures
            parsed_as(
                *old(buffer),
                *final(buffer),
                r,
                sp_go_to_random(dat(*old(buffer)), pos(*old(buffer)), parameters_count),
            ),
    {
        match Self::load_checked(parameters_count, buffer) {
            Some(r) => r,
            None => Err(ReadError::BadInput),
        }
    }

    /// Reads the action like [`AnmActionGoToRandomAnimation::load`], on every input: `None`
    /// where [`sp_go_to_random`] panics, which it does for every list of parameters that
    /// is not optimized.
    pub fn load_checked(parameters_count: i8, buffer: &mut ByteBuffer) -> (r: Option<Result<Self, ReadError>>)
        ensures
            checked_as(
                *old(buffer),
                *final(buffer),
                r,
                sp_go_to_random(dat(*old(buffer)), pos(*old(buffer)), parameters_count),
            ),
    {
        if parameters_count == 0 {
            return Some(Ok(AnmActionGoToRandomAnimation::default()));
        }
        let first = match read_cstr(buffer) {
            Ok(v) => v,
            Err(e) => return Some(Err(e)),
        };
        if parameters_count < 0 {
            return None;
        }
        if first.len() == 10 && first[0] == 35 && first[1] == 111 && first[2] == 112 && first[3]
            == 116 && first[4] == 105 && first[5] == 109 && first[6] == 105 && first[7] == 122
            && first[8] == 101 && first[9] == 100 {
            proof {
                assert(first@ =~= seq![35u8, 111, 112, 116, 105, 109, 105, 122, 101, 100]);
            }
            let count = ((parameters_count - 1) / 2) as usize;
            let animation_names = match read_cstrs(buffer, count) {
                Ok(v) => v,
                Err(e) => return Some(Err(e)),
            };
            let percents = match read_i8s(buffer, count) {
                Ok(v) => v,
                Err(e) => return Some(Err(e)),
            };
            return Some(Ok(AnmActionGoToRandomAnimation { animation_names, percents }));
        }
        proof {
            if first@.len() == 10 {
                assert(!is_optimized_marker(first@)) by {
                    if is_optimized_marker(first@) {
                        assert(first@[0] == 35 && first@[1] == 111 && first@[2] == 112 && first@[3]
                            == 116 && first@[4] == 105 && first@[5] == 109 && first@[6] == 105
                            && first@[7] == 122 && first@[8] == 101 && first@[9] == 100);
                    }
                }
            }
        }
        match read_cstrs(buffer, (parameters_count - 1) as usize) {
            Ok(_) => None,
            Err(e) => Some(Err(e)),
        }
    }

    pub fn get_type(&self) -> (t: &'static str)
        ensures
            t@ == "GO_TO_RANDOM_ANIMATION"@,
    {
        "GO_TO_RANDOM_ANIMATION"
    }

    /// Turns the parameters of a random animation (names, each followed by percentages)
    /// into names and percentages that add up to 100. It panics on every input, see
    /// [`fill_animations_panics`].
    pub fn fill_animations(parameters: &Vec<Vec<u8>>) -> (r: Result<
        AnmActionGoToRandomAnimation,
        ReadError,
    >)
        requires
            !fill_animations_panics(parameters.deep_view()),
    {
        let mut anim_read = false;
        let mut anims: Vec<Vec<u8>> = Vec::new();
        let mut values: Vec<i8> = Vec::new();
        let mut last: usize = 0;
        let mut i: usize = 0;
        while i < parameters.len()
            invariant
                i <= parameters@.len(),
                !fill_animations_panics(parameters.deep_view()),
                forall|k| 0 <= k < i ==> parses_as_i8(#[trigger] parameters.deep_view()[k]),
                anims@.len() == 0,
                values@.len() == 0,
                !anim_read,
            decreases parameters@.len() - i,
        {
            let param = &parameters[i];
            proof {
                assert(parameters.deep_view()[i as int] == param@);
            }
            match parse_i8_trimmed(param) {
                Some(percent) => {
                    if anim_read {
                        if values.len() > last {
                            let cur = values[last];
                            values.insert(last, cur + percent);
                        } else {
                            while values.len() < anims.len()
                                invariant
                                    values@.len() <= anims@.len(),
                                decreases anims@.len() - values@.len(),
                            {
                                values.push(0);
                            }
                            values.push(percent);
                        }
                        anim_read = false;
                    }
                },
                None => {
                    // A name: it is looked up with `position(..).unwrap()` among
                    // the names seen so far, none, and panics; the precondition rules
                    // this out.
                    proof {
                        assert(!parses_as_i8(parameters.deep_view()[i as int]));
                    }
                    anim_read = true;
                    last = anims.len();
                },
            }
            i = i + 1;
        }
        // Every parameter is a percentage, none was recorded: sharing out the remaining
        // percentage divides by zero.
        proof {
            assert(forall|k| 0 <= k < parameters.deep_view().len() ==> parses_as_i8(
                #[trigger] parameters.deep_view()[k],
            ));
        }
        Err(ReadError::BadTotalPercentage)
    }
}

/// An action of one of the kinds the format defines.
#[derive(Clone, Debug)]
pub enum AnmActionKind {
    GoToAnimation(AnmActionGoToAnimation),
    GoToStaticAnimation(AnmActionGoToStaticAnimation),
    RunScript(AnmActionRunScript),
    GoToRandomAnimation(AnmActionGoToRandomAnimation),
    Hit(AnmActionHit),
    Delete(AnmActionDelete),
    End(AnmActionEnd),
    GoToIfPreviousAnimation(AnmActionGoToIfPreviousAnimation),
    AddParticle(AnmActionAddParticle),
    SetRadius(AnmActionSetRadius),
}

pub enum AnmActionKindView {
    GoToAnimation(GoToAnimationView),
    GoToStaticAnimation,
    RunScript(AnmActionRunScript),
    GoToRandomAnimation(GoToRandomAnimationView),
    Hit,
    Delete,
    End,
    GoToIfPreviousAnimation(GoToIfPreviousAnimationView),
    AddParticle(AnmActionAddParticle),
    SetRadius(AnmActionSetRadius),
}

impl View for AnmActionKind {
    type V = AnmActionKindView;

    open spec fn view(&self) -> AnmActionKindView {
        match self {
            AnmActionKind::GoToAnimation(a) => AnmActionKindView::GoToAnimation(a@),
            AnmActionKind::GoToStaticAnimation(_) => AnmActionKindView::GoToStaticAnimation,
            AnmActionKind::RunScript(a) => AnmActionKindView::RunScript(*a),
            AnmActionKind::GoToRandomAnimation(a) => AnmActionKindView::GoToRandomAnimation(a@),
            AnmActionKind::Hit(_) => AnmActionKindView::Hit,
            AnmActionKind::Delete(_) => AnmActionKindView::Delete,
            AnmActionKind::End(_) => AnmActionKindView::End,
            AnmActionKind::GoToIfPreviousAnimation(a) => AnmActionKindView::GoToIfPreviousAnimation(a@),
            AnmActionKind::AddParticle(a) => AnmActionKindView::AddParticle(*a),
            AnmActionKind::SetRadius(a) => AnmActionKindView::SetRadius(*a),
        }
    }
}

/// The name of a kind of action.
pub open spec fn action_type_name(a: AnmActionKindView) -> Seq<char> {
    match a {
        AnmActionKindView::GoToAnimation(_) => "GO_TO_ANIMATION"@,
        AnmActionKindView::GoToStaticAnimation => "GO_TO_STATIC_ANIMATION"@,
        AnmActionKindView::RunScript(_) => "RUN_SCRIPT"@,
        AnmActionKindView::GoToRandomAnimation(_) => "GO_TO_RANDOM_ANIMATION"@,
        AnmActionKindView::Hit => "HIT"@,
        AnmActionKindView::Delete => "DELETE"@,
        AnmActionKindView::End => "END"@,
        AnmActionKindView::GoToIfPreviousAnimation(_) => "GO_TO_IF_PREVIOUS_ANIMATION"@,
        AnmActionKindView::AddParticle(_) => "ADD_PARTICLE"@,
        AnmActionKindView::SetRadius(_) => "SET_RADIUS"@,
    }
}

impl AnmActionKind {
    pub fn get_type(&self) -> (t: &'static str)
        ensures
            t@ == action_type_name(self@),
    {
        match self {
            AnmActionKind::GoToAnimation(a) => a.get_type(),
            AnmActionKind::GoToStaticAnimation(a) => a.get_type(),
            AnmActionKind::RunScript(a) => a.get_type(),
            AnmActionKind::GoToRandomAnimation(a) => a.get_type(),
            AnmActionKind::Hit(a) => a.get_type(),
            AnmActionKind::Delete(a) => a.get_type(),
            AnmActionKind::End(a) => a.get_type(),
            AnmActionKind::GoToIfPreviousAnimation(a) => a.get_type(),
            AnmActionKind::AddParticle(a) => a.get_type(),
            AnmActionKind::SetRadius(a) => a.get_type(),
        }
    }
}

/// An action and the frame it belongs to.
#[derive(Clone, Debug)]
pub struct AnmAction {
    pub action: AnmActionKind,
    pub frame_index: i32,
}

pub struct AnmActionView {
    pub action: AnmActionKindView,
    pub frame_index: i32,
}

impl View for AnmAction {
    type V = AnmActionView;

    open spec fn view(&self) -> AnmActionView {
        AnmActionView { action: self.action@, frame_index: self.frame_index }
    }
}

/// A parse result of one kind of action turned into an action of frame 0.
pub open spec fn as_action<T>(o: Parsed<T>, f: spec_fn(T) -> AnmActionKindView) -> Parsed<AnmActionView> {
    match o {
        Parsed::Done(v, q) => Parsed::Done(AnmActionView { action: f(v), frame_index: 0 }, q),
        Parsed::Fails(e) => Parsed::Fails(e),
        Parsed::Panics => Parsed::Panics,
    }
}

/// An action of kind `index` (1 to 10) with `params` parameters, attached to frame 0; any
/// other kind fails.
pub open spec fn sp_action(d: Seq<u8>, p: nat, le: bool, index: u8, params: i8) -> Parsed<AnmActionView> {
    if index == 1 {
        as_action(lift(sp_go_to_animation(d, p, params)), |v| AnmActionKindView::GoToAnimation(v))
    } else if index == 2 {
        Parsed::Done(AnmActionView { action: AnmActionKindView::GoToStaticAnimation, frame_index: 0 }, p)
    } else if index == 3 {
        as_action(lift(sp_run_script(d, p)), |v| AnmActionKindView::RunScript(v))
    } else if index == 4 {
        as_action(sp_go_to_random(d, p, params), |v| AnmActionKindView::GoToRandomAnimation(v))
    } else if index == 5 {
        Parsed::Done(AnmActionView { action: AnmActionKindView::Hit, frame_index: 0 }, p)
    } else if index == 6 {
        Parsed::Done(AnmActionView { action: AnmActionKindView::Delete, frame_index: 0 }, p)
    } else if index == 7 {
        Parsed::Done(AnmActionView { action: AnmActionKindView::End, frame_index: 0 }, p)
    } else if index == 8 {
        as_action(sp_go_to_if_previous(d, p, params), |v| AnmActionKindView::GoToIfPreviousAnimation(v))
    } else if index == 9 {
        as_action(lift(sp_add_particle(d, p, le, params)), |v| AnmActionKindView::AddParticle(v))
    } else if index == 10 {
        as_action(lift(sp_set_radius(d, p)), |v| AnmActionKindView::SetRadius(v))
    } else {
        Parsed::Fails(ReadError::IndexNotFound)
    }
}

impl AnmAction {
    /// Reads an action of kind `index` with `parameters_count` parameters.
    pub fn get(index: u8, parameters_count: i8, buffer: &mut ByteBuffer) -> (r: Result<Self, ReadError>)
        requires
            !(sp_action(dat(*old(buffer)), pos(*old(buffer)), le(*old(buffer)), index, parameters_count) is Panics),
        ensures
            parsed_as(
                *old(buffer),
                *final(buffer),
                r,
                sp_action(dat(*old(buffer)), pos(*old(buffer)), le(*old(buffer)), index, parameters_count),
            ),
    {
        match Self::get_checked(index, parameters_count, buffer) {
            Some(r) => r,
            None => Err(ReadError::BadInput),
        }
    }

    /// Reads an action like [`AnmAction::get`], on every input: `None` where
    /// [`sp_action`] panics.
    pub fn get_checked(index: u8, parameters_count: i8, buffer: &mut ByteBuffer) -> (r: Option<Result<Self, ReadError>>)
        ensures
            checked_as(
                *old(buffer),
                *final(buffer),
                r,
                sp_action(dat(*old(buffer)), pos(*old(buffer)), le(*old(buffer)), index, parameters_count),
            ),
    {
        let action = match index {
            4 => match AnmActionGoToRandomAnimation::load_checked(parameters_count, buffer) {
                Some(Ok(a)) => AnmActionKind::GoToRandomAnimation(a),
                Some(Err(e)) => return Some(Err(e)),
                None => return None,
            },
            8 => match AnmActionGoToIfPreviousAnimation::load_checked(parameters_count, buffer) {
                Some(Ok(a)) => AnmActionKind::GoToIfPreviousAnimation(a),
                Some(Err(e)) => return Some(Err(e)),
                None => return None,
            },
            _ => match Self::get_plain(index, parameters_count, buffer) {
                Ok(a) => a,
                Err(e) => return Some(Err(e)),
            },
        };
        Some(Ok(AnmAction { action, frame_index: 0 }))
    }

    /// Reads an action of a kind other than 4 and 8, whose reading never panics.
    fn get_plain(index: u8, parameters_count: i8, buffer: &mut ByteBuffer) -> (r: Result<AnmActionKind, ReadError>)
        requires
            index != 4 && index != 8,
        ensures
            match sp_action(dat(*old(buffer)), pos(*old(buffer)), le(*old(buffer)), index, parameters_count) {
                Parsed::Done(v, q) => r matches Ok(x) && x@ == v.action && pos(*final(buffer)) == q
                    && same_bytes(*old(buffer), *final(buffer)) && crate::parse::bits_after(*old(buffer), *final(buffer)),
                Parsed::Fails(e) => r == Err::<AnmActionKind, ReadError>(e) && same_bytes(*old(buffer), *final(buffer)),
                Parsed::Panics => false,
            },
    {
        let action = match index {
            1 => AnmActionKind::GoToAnimation(AnmActionGoToAnimation::load(parameters_count, buffer)?),
            2 => AnmActionKind::GoToStaticAnimation(AnmActionGoToStaticAnimation::load(parameters_count, buffer)?),
            3 => AnmActionKind::RunScript(AnmActionRunScript::load(parameters_count, buffer)?),
            5 => AnmActionKind::Hit(AnmActionHit::load(parameters_count, buffer)?),
            6 => AnmActionKind::Delete(AnmActionDelete::load(parameters_count, buffer)?),
            7 => AnmActionKind::End(AnmActionEnd::load(parameters_count, buffer)?),
            9 => AnmActionKind::AddParticle(AnmActionAddParticle::load(parameters_count, buffer)?),
            10 => AnmActionKind::SetRadius(AnmActionSetRadius::load(parameters_count, buffer)?),
            _ => return Err(ReadError::IndexNotFound),
        };
        Ok(action)
    }

    pub fn set_frame_index(&mut self, frame_index: i32)
        ensures
            final(self).action@ == old(self).action@,
            final(self).frame_index == frame_index,
    {
        self.frame_index = frame_index;
    }
}

} // verus!
