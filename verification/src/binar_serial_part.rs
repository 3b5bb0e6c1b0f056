//! The serialized parts of an interactive element: global data (its actions), specific
//! data (where it stands and how it is shown), and synchronization data.
//!
//! Each part is read from a buffer of its own, in the buffer's byte order.
use vstd::prelude::*;
use bytebuffer::ByteBuffer;
use vstd::utf8::valid_utf8;
use crate::error::ReadError;
use crate::bytes::is_utf8;
use crate::parse::{sp_i8, sp_i16, sp_i32, sp_bytes, sp_many, lemma_many_fails, dat, pos, le, read_i8, read_i16, read_i32, read_bytes};

verus! {

/// An action of an element: its id and the script it runs.
#[derive(Clone, Copy, Debug, PartialEq, Eq, Structural)]
pub struct Action {
    pub action_id: i16,
    pub script_id: i32,
}

/// The global data of an element: its actions.
#[derive(Clone, Debug)]
pub struct GlobalDataPart {
    pub actions: Vec<Action>,
}

pub open spec fn action_fn(d: Seq<u8>, le: bool) -> spec_fn(nat) -> Option<(Action, nat)> {
    |p: nat| match sp_i16(d, p, le) {
        Some((a, q)) => match sp_i32(d, q, le) {
            Some((s, q2)) => Some((Action { action_id: a, script_id: s }, q2)),
            None => None,
        },
        None => None,
    }
}

/// The actions: their count as an `i8`, then each action's id as an `i16` and script as an
/// `i32`. `None` where reading panics: a negative count (room would be reserved for that
/// many) or data cut short.
pub open spec fn sp_global_part(d: Seq<u8>, p: nat, le: bool) -> Option<Seq<Action>> {
    match sp_i8(d, p) {
        Some((n, q)) => if n < 0 {
            None
        } else {
            match sp_many(n as nat, q, action_fn(d, le)) {
                Some((s, _q2)) => Some(s),
                None => None,
            }
        },
        None => None,
    }
}

impl GlobalDataPart {
    /// Reads the global data (see [`sp_global_part`]).
    pub fn unserialize(buffer: ByteBuffer, version: i32) -> (r: Self)
        requires
            sp_global_part(dat(buffer), pos(buffer), le(buffer)) is Some,
        ensures
            sp_global_part(dat(buffer), pos(buffer), le(buffer)) == Some(r.actions@),
    {
        match Self::unserialize_checked(buffer, version) {
            Some(g) => g,
            None => GlobalDataPart { actions: Vec::new() },
        }
    }

    /// Reads the global data like [`GlobalDataPart::unserialize`], on every input: `None`
    /// where [`sp_global_part`] is `None`.
    pub fn unserialize_checked(bytes: ByteBuffer, _version: i32) -> (r: Option<Self>)
        ensures
            match sp_global_part(dat(bytes), pos(bytes), le(bytes)) {
                Some(a) => r matches Some(g) && g.actions@ == a,
                None => r is None,
            },
    {
        let mut buffer = bytes;
        let ghost d = dat(buffer);
        let ghost l = le(buffer);
        let n = match read_i8(&mut buffer) {
            Ok(n) => n,
            Err(_) => return None,
        };
        if n < 0 {
            return None;
        }
        let ghost q0 = pos(buffer);
        let mut actions: Vec<Action> = Vec::new();
        let mut i: i8 = 0;
        while i < n
            invariant
                d == dat(bytes),
                l == le(bytes),
                sp_i8(d, pos(bytes)) == Some((n, q0)),
                d == dat(buffer),
                l == le(buffer),
                0 <= i <= n,
                sp_many(i as nat, q0, action_fn(d, l)) == Some((actions@, pos(buffer))),
            decreases n - i,
        {
            let ghost at = pos(buffer);
            let action_id = match read_i16(&mut buffer) {
                Ok(v) => v,
                Err(_) => {
                    proof {
                        assert(action_fn(d, l)(at) is None);
                        lemma_many_fails((i + 1) as nat, n as nat, q0, action_fn(d, l));
                    }
                    return None;
                },
            };
            let script_id = match read_i32(&mut buffer) {
                Ok(v) => v,
                Err(_) => {
                    proof {
                        assert(action_fn(d, l)(at) is None);
                        lemma_many_fails((i + 1) as nat, n as nat, q0, action_fn(d, l));
                    }
                    return None;
                },
            };
            actions.push(Action { action_id, script_id });
            i = i + 1;
        }
        Some(GlobalDataPart { actions })
    }
}

/// The position of a trigger: its cell as two `i32` and an `i16` (they are whole
/// numbers stored in floats).
#[derive(Clone, Copy, Debug, PartialEq, Eq, Structural)]
pub struct TriggerPosition {
    pub x: i32,
    pub y: i32,
    pub z: i16,
}

/// The bytes of `Element de Challenge`.
pub open spec fn challenge_label() -> Seq<u8> {
    seq![69u8, 108, 101, 109, 101, 110, 116, 32, 100, 101, 32, 67, 104, 97, 108, 108, 101, 110, 103, 101]
}

/// The bytes of `Element d'almanach ` (with its trailing space).
pub open spec fn almanach_label() -> Seq<u8> {
    seq![69u8, 108, 101, 109, 101, 110, 116, 32, 100, 39, 97, 108, 109, 97, 110, 97, 99, 104, 32]
}

/// The label of a property: the challenge label for 0, the almanach label otherwise.
pub open spec fn property_label(id: i8) -> Seq<u8> {
    if id == 0 {
        challenge_label()
    } else {
        almanach_label()
    }
}

/// The label of a property (see [`property_label`]).
pub fn property_name(id: i8) -> (r: Vec<u8>)
    ensures
        r@ == property_label(id),
{
    if id == 0 {
        let r: Vec<u8> = vec![69u8, 108, 101, 109, 101, 110, 116, 32, 100, 101, 32, 67, 104, 97, 108, 108, 101, 110, 103, 101];
        proof {
            assert(r@ =~= challenge_label());
        }
        r
    } else {
        let r: Vec<u8> = vec![69u8, 108, 101, 109, 101, 110, 116, 32, 100, 39, 97, 108, 109, 97, 110, 97, 99, 104, 32];
        proof {
            assert(r@ =~= almanach_label());
        }
        r
    }
}

/// Where an element stands and how it is shown.
#[derive(Clone, Debug)]
pub struct SpecificDataPart {
    pub world: i16,
    pub x: i32,
    pub y: i32,
    pub z: i16,
    pub state: i16,
    pub visible: bool,
    pub usable: bool,
    pub direction: i8,
    pub activation_pattern: i16,
    pub positions_trigger: Vec<TriggerPosition>,
    pub parameter: Vec<u8>,
    pub properties: Vec<Vec<u8>>,
}

/// The fields of a specific data part.
pub struct SpecificDataPartView {
    pub world: i16,
    pub x: i32,
    pub y: i32,
    pub z: i16,
    pub state: i16,
    pub visible: bool,
    pub usable: bool,
    pub direction: i8,
    pub activation_pattern: i16,
    pub positions_trigger: Seq<TriggerPosition>,
    pub parameter: Seq<u8>,
    pub properties: Seq<Seq<u8>>,
}

impl View for SpecificDataPart {
    type V = SpecificDataPartView;

    open spec fn view(&self) -> SpecificDataPartView {
        SpecificDataPartView {
            world: self.world,
            x: self.x,
            y: self.y,
            z: self.z,
            state: self.state,
            visible: self.visible,
            usable: self.usable,
            direction: self.direction,
            activation_pattern: self.activation_pattern,
            positions_trigger: self.positions_trigger@,
            parameter: self.parameter@,
            properties: self.properties.deep_view(),
        }
    }
}

pub open spec fn trigger_fn(d: Seq<u8>, le: bool) -> spec_fn(nat) -> Option<(TriggerPosition, nat)> {
    |p: nat| match sp_i32(d, p, le) {
        Some((x, q1)) => match sp_i32(d, q1, le) {
            Some((y, q2)) => match sp_i16(d, q2, le) {
                Some((z, q3)) => Some((TriggerPosition { x, y, z }, q3)),
                None => None,
            },
            None => None,
        },
        None => None,
    }
}

pub open spec fn property_fn(d: Seq<u8>) -> spec_fn(nat) -> Option<(Seq<u8>, nat)> {
    |p: nat| match sp_i8(d, p) {
        Some((id, q)) => Some((property_label(id), q)),
        None => None,
    }
}

/// The head of a specific data part: world (`i16`), x and y (`i32`), z and state (`i16`),
/// visible and usable flags and direction (`i8`), and the activation pattern (`i16`).
pub open spec fn sp_specific_head(d: Seq<u8>, p: nat, le: bool) -> Option<((i16, i32, i32, i16, i16, bool, bool, i8, i16), nat)> {
    match sp_i16(d, p, le) {
        Some((world, q1)) => match sp_i32(d, q1, le) {
            Some((x, q2)) => match sp_i32(d, q2, le) {
                Some((y, q3)) => match sp_i16(d, q3, le) {
                    Some((z, q4)) => match sp_i16(d, q4, le) {
                        Some((state, q5)) => match sp_i8(d, q5) {
                            Some((visible, q6)) => match sp_i8(d, q6) {
                                Some((usable, q7)) => match sp_i8(d, q7) {
                                    Some((direction, q8)) => match sp_i16(d, q8, le) {
                                        Some((pattern, q9)) => Some(
                                            ((world, x, y, z, state, visible != 0, usable != 0, direction, pattern), q9),
                                        ),
                                        None => None,
                                    },
                                    None => None,
                                },
                                None => None,
                            },
                            None => None,
                        },
                        None => None,
                    },
                    None => None,
                },
                None => None,
            },
            None => None,
        },
        None => None,
    }
}

/// The tail of a specific data part: the trigger positions counted by an `i16`; the
/// parameter as bytes counted by an `i16`, which must be UTF-8; the properties counted by
/// an `i8`, each an `i8` id; then an `i32` that is skipped. `None` where reading
/// panics: a negative count, a parameter that is not UTF-8, or data cut short.
pub open spec fn sp_specific_tail(d: Seq<u8>, p: nat, le: bool) -> Option<(Seq<TriggerPosition>, Seq<u8>, Seq<Seq<u8>>)> {
    match sp_i16(d, p, le) {
        Some((nt, q1)) => if nt < 0 {
            None
        } else {
            match sp_many(nt as nat, q1, trigger_fn(d, le)) {
                Some((triggers, q2)) => match sp_i16(d, q2, le) {
                    Some((size, q3)) => if size < 0 {
                        None
                    } else {
                        match sp_bytes(d, q3, size as nat) {
                            Some((parameter, q4)) => if !valid_utf8(parameter) {
                                None
                            } else {
                                match sp_i8(d, q4) {
                                    Some((np, q5)) => if np < 0 {
                                        None
                                    } else {
                                        match sp_many(np as nat, q5, property_fn(d)) {
                                            Some((props, q6)) => match sp_i32(d, q6, le) {
                                                Some((_skip, _q7)) => Some((triggers, parameter, props)),
                                                None => None,
                                            },
                                            None => None,
                                        }
                                    },
                                    None => None,
                                }
                            },
                            None => None,
                        }
                    },
                    None => None,
                },
                None => None,
            }
        },
        None => None,
    }
}

/// A specific data part: its head, then its tail.
pub open spec fn sp_specific_part(d: Seq<u8>, p: nat, le: bool) -> Option<SpecificDataPartView> {
    match sp_specific_head(d, p, le) {
        Some(((world, x, y, z, state, visible, usable, direction, pattern), q)) => match sp_specific_tail(d, q, le) {
            Some((triggers, parameter, properties)) => Some(
                SpecificDataPartView {
                    world,
                    x,
                    y,
                    z,
                    state,
                    visible,
                    usable,
                    direction,
                    activation_pattern: pattern,
                    positions_trigger: triggers,
                    parameter,
                    properties,
                },
            ),
            None => None,
        },
        None => None,
    }
}

/// Reads the trigger positions, counted by an `i16`; `None` where they are cut short.
fn read_triggers(buffer: &mut ByteBuffer, n: i16) -> (r: Option<Vec<TriggerPosition>>)
    requires
        n >= 0,
    ensures
        crate::buffer::same_bytes(*old(buffer), *final(buffer)),
        match sp_many(n as nat, pos(*old(buffer)), trigger_fn(dat(*old(buffer)), le(*old(buffer)))) {
            Some((v, q)) => r matches Some(x) && x@ == v && pos(*final(buffer)) == q,
            None => r is None,
        },
{
    let ghost d = dat(*buffer);
    let ghost l = le(*buffer);
    let ghost q0 = pos(*buffer);
    let mut out: Vec<TriggerPosition> = Vec::new();
    let mut i: i16 = 0;
    while i < n
        invariant
            crate::buffer::same_bytes(*old(buffer), *buffer),
            d == dat(*old(buffer)),
            l == le(*old(buffer)),
            q0 == pos(*old(buffer)),
            0 <= i <= n,
            sp_many(i as nat, q0, trigger_fn(d, l)) == Some((out@, pos(*buffer))),
        decreases n - i,
    {
        let ghost at = pos(*buffer);
        let x = match read_i32(buffer) {
            Ok(v) => v,
            Err(_) => {
                proof {
                    assert(trigger_fn(d, l)(at) is None);
                    lemma_many_fails((i + 1) as nat, n as nat, q0, trigger_fn(d, l));
                }
                return None;
            },
        };
        let y = match read_i32(buffer) {
            Ok(v) => v,
            Err(_) => {
                proof {
                    assert(trigger_fn(d, l)(at) is None);
                    lemma_many_fails((i + 1) as nat, n as nat, q0, trigger_fn(d, l));
                }
                return None;
            },
        };
        let z = match read_i16(buffer) {
            Ok(v) => v,
            Err(_) => {
                proof {
                    assert(trigger_fn(d, l)(at) is None);
                    lemma_many_fails((i + 1) as nat, n as nat, q0, trigger_fn(d, l));
                }
                return None;
            },
        };
        out.push(TriggerPosition { x, y, z });
        i = i + 1;
    }
    Some(out)
}

/// Reads the property labels, counted by an `i8`; `None` where they are cut short.
fn read_properties(buffer: &mut ByteBuffer, n: i8) -> (r: Option<Vec<Vec<u8>>>)
    requires
        n >= 0,
    ensures
        crate::buffer::same_bytes(*old(buffer), *final(buffer)),
        match sp_many(n as nat, pos(*old(buffer)), property_fn(dat(*old(buffer)))) {
            Some((v, q)) => r matches Some(x) && x.deep_view() == v && pos(*final(buffer)) == q,
            None => r is None,
        },
{
    let ghost d = dat(*buffer);
    let ghost q0 = pos(*buffer);
    let mut out: Vec<Vec<u8>> = Vec::new();
    proof {
        assert(out.deep_view() =~= Seq::<Seq<u8>>::empty());
    }
    let mut i: i8 = 0;
    while i < n
        invariant
            crate::buffer::same_bytes(*old(buffer), *buffer),
            d == dat(*old(buffer)),
            q0 == pos(*old(buffer)),
            0 <= i <= n,
            sp_many(i as nat, q0, property_fn(d)) == Some((out.deep_view(), pos(*buffer))),
        decreases n - i,
    {
        let ghost at = pos(*buffer);
        let id = match read_i8(buffer) {
            Ok(v) => v,
            Err(_) => {
                proof {
                    assert(property_fn(d)(at) is None);
                    lemma_many_fails((i + 1) as nat, n as nat, q0, property_fn(d));
                }
                return None;
            },
        };
        let label = property_name(id);
        proof {
            assert(label.deep_view() =~= label@);
        }
        let ghost before = out.deep_view();
        out.push(label);
        proof {
            assert(out.deep_view() =~= before.push(label@));
        }
        i = i + 1;
    }
    Some(out)
}

impl SpecificDataPart {
    /// Reads the specific data (see [`sp_specific_part`]).
    pub fn unserialize(buffer: ByteBuffer, version: i32) -> (r: Self)
        requires
            sp_specific_part(dat(buffer), pos(buffer), le(buffer)) is Some,
        ensures
            sp_specific_part(dat(buffer), pos(buffer), le(buffer)) == Some(r@),
    {
        match Self::unserialize_checked(buffer, version) {
            Some(s) => s,
            None => SpecificDataPart {
                world: 0,
                x: 0,
                y: 0,
                z: 0,
                state: 0,
                visible: false,
                usable: false,
                direction: 0,
                activation_pattern: 0,
                positions_trigger: Vec::new(),
                parameter: Vec::new(),
                properties: Vec::new(),
            },
        }
    }

    /// Reads the specific data like [`SpecificDataPart::unserialize`], on every input:
    /// `None` where [`sp_specific_part`] is `None`.
    pub fn unserialize_checked(bytes: ByteBuffer, _version: i32) -> (r: Option<Self>)
        ensures
            match sp_specific_part(dat(bytes), pos(bytes), le(bytes)) {
                Some(v) => r matches Some(s) && s@ == v,
                None => r is None,
            },
    {
        let mut buffer = bytes;
        let (world, x, y, z, state, visible, usable, direction, activation_pattern) = match read_specific_head(&mut buffer) {
            Some(h) => h,
            None => return None,
        };
        let ghost d = dat(buffer);
        let ghost l = le(buffer);
        let ghost q = pos(buffer);
        let nt = match read_i16(&mut buffer) {
            Ok(v) => v,
            Err(_) => return None,
        };
        if nt < 0 {
            return None;
        }
        let positions_trigger = match read_triggers(&mut buffer, nt) {
            Some(v) => v,
            None => return None,
        };
        let size = match read_i16(&mut buffer) {
            Ok(v) => v,
            Err(_) => return None,
        };
        if size < 0 {
            return None;
        }
        let len = crate::buffer::buffer_len(&buffer);
        let at = crate::buffer::buffer_get_rpos(&buffer);
        if at > len || len - at < size as usize {
            return None;
        }
        let parameter = match read_bytes(&mut buffer, size as usize) {
            Ok(v) => v,
            Err(_) => return None,
        };
        if !is_utf8(parameter.as_slice()) {
            return None;
        }
        let np = match read_i8(&mut buffer) {
            Ok(v) => v,
            Err(_) => return None,
        };
        if np < 0 {
            return None;
        }
        let properties = match read_properties(&mut buffer, np) {
            Some(v) => v,
            None => return None,
        };
        match read_i32(&mut buffer) {
            Ok(_) => {},
            Err(_) => return None,
        }
        proof {
            assert(sp_specific_tail(d, q, l) == Some((positions_trigger@, parameter@, properties.deep_view())));
        }
        Some(SpecificDataPart {
            world,
            x,
            y,
            z,
            state,
            visible,
            usable,
            direction,
            activation_pattern,
            positions_trigger,
            parameter,
            properties,
        })
    }
}

/// Reads the head of a specific data part (see [`sp_specific_head`]); `None` where it is
/// cut short.
fn read_specific_head(buffer: &mut ByteBuffer) -> (r: Option<(i16, i32, i32, i16, i16, bool, bool, i8, i16)>)
    ensures
        crate::buffer::same_bytes(*old(buffer), *final(buffer)),
        !crate::buffer::buffer_bit_pending(*final(buffer)) || r is None,
        match sp_specific_head(dat(*old(buffer)), pos(*old(buffer)), le(*old(buffer))) {
            Some((v, q)) => r == Some(v) && pos(*final(buffer)) == q,
            None => r is None,
        },
{
    let world = match read_i16(buffer) { Ok(v) => v, Err(_) => return None };
    let x = match read_i32(buffer) { Ok(v) => v, Err(_) => return None };
    let y = match read_i32(buffer) { Ok(v) => v, Err(_) => return None };
    let z = match read_i16(buffer) { Ok(v) => v, Err(_) => return None };
    let state = match read_i16(buffer) { Ok(v) => v, Err(_) => return None };
    let visible = match read_i8(buffer) { Ok(v) => v, Err(_) => return None } != 0;
    let usable = match read_i8(buffer) { Ok(v) => v, Err(_) => return None } != 0;
    let direction = match read_i8(buffer) { Ok(v) => v, Err(_) => return None };
    let pattern = match read_i16(buffer) { Ok(v) => v, Err(_) => return None };
    Some((world, x, y, z, state, visible, usable, direction, pattern))
}

/// Synchronization data; nothing of it is kept.
#[derive(Clone, Copy, Debug, PartialEq, Eq, Structural)]
pub struct SynchronizationPart;

/// Synchronization data: state (`i16`), five `i8` flags, a property count as an `i32`,
/// then, when it is positive, that many `i8` property ids. `None` where the data is cut
/// short (reading panics there).
pub open spec fn sp_sync_part(d: Seq<u8>, p: nat, le: bool) -> Option<nat> {
    match sp_i16(d, p, le) {
        Some((_state, q1)) => match sp_many(5, q1, crate::parse::i8_fn(d)) {
            Some((_flags, q2)) => match sp_i32(d, q2, le) {
                Some((n, q3)) => if n > 0 {
                    match sp_many(n as nat, q3, crate::parse::i8_fn(d)) {
                        Some((_ids, q4)) => Some(q4),
                        None => None,
                    }
                } else {
                    Some(q3)
                },
                None => None,
            },
            None => None,
        },
        None => None,
    }
}

impl SynchronizationPart {
    /// Reads and drops the synchronization data (see [`sp_sync_part`]).
    pub fn unserialize(buffer: ByteBuffer, version: i32) -> (r: Self)
        requires
            sp_sync_part(dat(buffer), pos(buffer), le(buffer)) is Some,
        ensures
            r == SynchronizationPart,
    {
        let _ = Self::unserialize_checked(buffer, version);
        SynchronizationPart
    }

    /// Reads and drops the synchronization data like [`SynchronizationPart::unserialize`],
    /// on every input: `None` where [`sp_sync_part`] is `None`.
    pub fn unserialize_checked(bytes: ByteBuffer, _version: i32) -> (r: Option<Self>)
        ensures
            match sp_sync_part(dat(bytes), pos(bytes), le(bytes)) {
                Some(_q) => r == Some(SynchronizationPart),
                None => r is None,
            },
    {
        let mut buffer = bytes;
        match read_i16(&mut buffer) {
            Ok(_) => {},
            Err(_) => return None,
        }
        match crate::parse::read_i8s(&mut buffer, 5) {
            Ok(_) => {},
            Err(_) => return None,
        }
        let n = match read_i32(&mut buffer) {
            Ok(v) => v,
            Err(_) => return None,
        };
        if n > 0 {
            match crate::parse::read_i8s(&mut buffer, n as usize) {
                Ok(_) => {},
                Err(_) => return None,
            }
        }
        Some(SynchronizationPart)
    }
}

/// Synchronization data specific to an element; nothing is read.
#[derive(Clone, Copy, Debug, PartialEq, Eq, Structural)]
pub struct SynchronizationSpecificPart;

/// Persistence data; nothing is read.
#[derive(Clone, Copy, Debug, PartialEq, Eq, Structural)]
pub struct PersistancePart;

/// Additional persistence data; nothing is read.
#[derive(Clone, Copy, Debug, PartialEq, Eq, Structural)]
pub struct AdditionalPersistancePart;

impl SynchronizationSpecificPart {
    pub fn unserialize(_buffer: ByteBuffer, _version: i32) -> (r: Self)
        ensures
            r == SynchronizationSpecificPart,
    {
        SynchronizationSpecificPart
    }
}

impl PersistancePart {
    pub fn unserialize(_buffer: ByteBuffer, _version: i32) -> (r: Self)
        ensures
            r == PersistancePart,
    {
        PersistancePart
    }
}

impl AdditionalPersistancePart {
    pub fn unserialize(_buffer: ByteBuffer, _version: i32) -> (r: Self)
        ensures
            r == AdditionalPersistancePart,
    {
        AdditionalPersistancePart
    }
}

/// A part of one of the six kinds.
#[derive(Clone, Debug)]
pub enum BinarSerialPartsEnum {
    GlobalDataPart(GlobalDataPart),
    SpecificDataPart(SpecificDataPart),
    SynchronizationPart(SynchronizationPart),
    SynchronizationSpecificPart(SynchronizationSpecificPart),
    PersistancePart(PersistancePart),
    AdditionalPersistancePart(AdditionalPersistancePart),
}

pub enum PartView {
    Global(Seq<Action>),
    Specific(SpecificDataPartView),
    Synchronization,
    SynchronizationSpecific,
    Persistance,
    AdditionalPersistance,
}

impl View for BinarSerialPartsEnum {
    type V = PartView;

    open spec fn view(&self) -> PartView {
        match self {
            BinarSerialPartsEnum::GlobalDataPart(g) => PartView::Global(g.actions@),
            BinarSerialPartsEnum::SpecificDataPart(s) => PartView::Specific(s@),
            BinarSerialPartsEnum::SynchronizationPart(_) => PartView::Synchronization,
            BinarSerialPartsEnum::SynchronizationSpecificPart(_) => PartView::SynchronizationSpecific,
            BinarSerialPartsEnum::PersistancePart(_) => PartView::Persistance,
            BinarSerialPartsEnum::AdditionalPersistancePart(_) => PartView::AdditionalPersistance,
        }
    }
}

/// A part of kind `index` read from `d` at `p`: `Some(Ok(..))` for a kind from 0 to 5 that
/// reads, `Some(Err(IndexNotFound))` for another kind, `None` where reading panics.
pub open spec fn sp_part(index: u8, d: Seq<u8>, p: nat, le: bool) -> Option<Result<PartView, ReadError>> {
    if index == 0 {
        match sp_global_part(d, p, le) {
            Some(a) => Some(Ok(PartView::Global(a))),
            None => None,
        }
    } else if index == 1 {
        match sp_specific_part(d, p, le) {
            Some(s) => Some(Ok(PartView::Specific(s))),
            None => None,
        }
    } else if index == 2 {
        match sp_sync_part(d, p, le) {
            Some(_q) => Some(Ok(PartView::Synchronization)),
            None => None,
        }
    } else if index == 3 {
        Some(Ok(PartView::SynchronizationSpecific))
    } else if index == 4 {
        Some(Ok(PartView::Persistance))
    } else if index == 5 {
        Some(Ok(PartView::AdditionalPersistance))
    } else {
        Some(Err(ReadError::IndexNotFound))
    }
}

/// Reads the parts of interactive elements.
pub struct BinarSerialParts;

impl BinarSerialParts {
    /// Reads a part of kind `index` (see [`sp_part`]).
    pub fn unserialize(index: u8, buffer: ByteBuffer, version: i32) -> (r: Result<BinarSerialPartsEnum, ReadError>)
        requires
            sp_part(index, dat(buffer), pos(buffer), le(buffer)) is Some,
        ensures
            match sp_part(index, dat(buffer), pos(buffer), le(buffer)) {
                Some(Ok(v)) => r matches Ok(x) && x@ == v,
                Some(Err(e)) => r == Err::<BinarSerialPartsEnum, ReadError>(e),
                None => false,
            },
    {
        match Self::unserialize_checked(index, buffer, version) {
            Some(r) => r,
            None => Err(ReadError::BadInput),
        }
    }

    /// Reads a part of kind `index` like [`BinarSerialParts::unserialize`], on every
    /// input: `None` where [`sp_part`] is `None`.
    pub fn unserialize_checked(index: u8, bytes: ByteBuffer, version: i32) -> (r: Option<Result<BinarSerialPartsEnum, ReadError>>)
        ensures
            match sp_part(index, dat(bytes), pos(bytes), le(bytes)) {
                Some(Ok(v)) => r matches Some(Ok(x)) && x@ == v,
                Some(Err(e)) => r == Some(Err::<BinarSerialPartsEnum, ReadError>(e)),
                None => r is None,
            },
    {
        match index {
            0 => match GlobalDataPart::unserialize_checked(bytes, version) {
                Some(g) => Some(Ok(BinarSerialPartsEnum::GlobalDataPart(g))),
                None => None,
            },
            1 => match SpecificDataPart::unserialize_checked(bytes, version) {
                Some(s) => Some(Ok(BinarSerialPartsEnum::SpecificDataPart(s))),
                None => None,
            },
            2 => match SynchronizationPart::unserialize_checked(bytes, version) {
                Some(s) => Some(Ok(BinarSerialPartsEnum::SynchronizationPart(s))),
                None => None,
            },
            3 => Some(Ok(BinarSerialPartsEnum::SynchronizationSpecificPart(SynchronizationSpecificPart::unserialize(bytes, version)))),
            4 => Some(Ok(BinarSerialPartsEnum::PersistancePart(PersistancePart::unserialize(bytes, version)))),
            5 => Some(Ok(BinarSerialPartsEnum::AdditionalPersistancePart(AdditionalPersistancePart::unserialize(bytes, version)))),
            _ => Some(Err(ReadError::IndexNotFound)),
        }
    }
}

} // verus!
