//! Records of two binary data tables: the models of interactive elements, and the
//! destinations of teleporters.
use vstd::prelude::*;
use std::collections::HashMap;
use crate::binary_document::{BinaryDocument, Entry};
use crate::random_byte_buffer_reader::{
    RandomByteBufferReader, RandomReaderView, rr_byte, rr_short, rr_int, rr_bool, rr_utf8,
};

verus! {

/// The reader moved to the record of `e`: at its position (taken as an unsigned number, at
/// most the end of the data) with its seed.
pub open spec fn positioned(v: RandomReaderView, e: Entry) -> RandomReaderView {
    RandomReaderView {
        seed: e.seed,
        pos: ((if (e.position as usize) <= v.data.len() {
            (e.position as usize) as int
        } else {
            v.data.len() as int
        }) + (if v.pending { 1int } else { 0int })) as nat,
        ..v
    }
}

/// The model of an interactive element.
#[derive(Clone, Copy, Debug, PartialEq, Eq, Structural)]
pub struct InteractiveElementModelBinaryData {
    pub view_model_id: i32,
    pub view_type_id: i16,
    pub gfx: i32,
    pub color: i32,
    pub height: i8,
    pub particle_id: i32,
    pub particle_offset_z: i32,
}

/// A model: its id, type (`i16`), graphics, color, height (`i8`), particle and particle
/// offset, all obfuscated.
pub open spec fn rr_model(v: RandomReaderView) -> Option<(InteractiveElementModelBinaryData, RandomReaderView)> {
    match rr_int(v) {
        Some((a, v1)) => match rr_short(v1) {
            Some((b, v2)) => match rr_int(v2) {
                Some((c, v3)) => match rr_int(v3) {
                    Some((e, v4)) => match rr_byte(v4) {
                        Some((f, v5)) => match rr_int(v5) {
                            Some((g, v6)) => match rr_int(v6) {
                                Some((h, v7)) => Some(
                                    (
                                        InteractiveElementModelBinaryData {
                                            view_model_id: a,
                                            view_type_id: b,
                                            gfx: c,
                                            color: e,
                                            height: f,
                                            particle_id: g,
                                            particle_offset_z: h,
                                        },
                                        v7,
                                    ),
                                ),
                                None => None,
                            },
                            None => None,
                        },
                        None => None,
                    },
                    None => None,
                },
                None => None,
            },
            None => None,
        },
        None => None,
    }
}

/// The models of the first `n` entries, each registered by its id (a later one replacing
/// an earlier), and the reader after them.
pub open spec fn models_fold(v: RandomReaderView, es: Seq<Entry>, n: nat) -> Option<
    (Map<i32, InteractiveElementModelBinaryData>, RandomReaderView),
>
    decreases n,
{
    if n == 0 {
        Some((Map::empty(), v))
    } else {
        match models_fold(v, es, (n - 1) as nat) {
            Some((m, v1)) => match rr_model(positioned(v1, es[n - 1])) {
                Some((x, v2)) => Some((m.insert(x.view_model_id, x), v2)),
                None => None,
            },
            None => None,
        }
    }
}

proof fn lemma_models_fail(v: RandomReaderView, es: Seq<Entry>, i: nat, n: nat)
    requires
        i <= n,
        models_fold(v, es, i) is None,
    ensures
        models_fold(v, es, n) is None,
    decreases n,
{
    if n > i {
        lemma_models_fail(v, es, i, (n - 1) as nat);
    }
}

impl InteractiveElementModelBinaryData {
    /// Reads the model of every entry of the table (see [`models_fold`]). Every record
    /// must read.
    pub fn read(document: &mut BinaryDocument) -> (r: HashMap<i32, InteractiveElementModelBinaryData>)
        requires
            models_fold(old(document).buffer@, old(document).entries@, old(document).entries@.len()) is Some,
        ensures
            models_fold(old(document).buffer@, old(document).entries@, old(document).entries@.len()) == Some(
                (r@, final(document).buffer@),
            ),
            final(document).entries@ == old(document).entries@,
    {
        match Self::read_checked(document) {
            Some(m) => m,
            None => HashMap::new(),
        }
    }

    /// Reads the models like [`InteractiveElementModelBinaryData::read`], on every input:
    /// `None` where [`models_fold`] is `None`.
    pub fn read_checked(document: &mut BinaryDocument) -> (r: Option<HashMap<i32, InteractiveElementModelBinaryData>>)
        ensures
            match models_fold(old(document).buffer@, old(document).entries@, old(document).entries@.len()) {
                Some((m, w)) => r matches Some(x) && x@ == m && final(document).buffer@ == w,
                None => r is None,
            },
            final(document).entries@ == old(document).entries@,
    {
        let mut iem: HashMap<i32, InteractiveElementModelBinaryData> = HashMap::new();
        let ghost v0 = document.buffer@;
        let ghost es = document.entries@;
        let mut i: usize = 0;
        while i < document.entries.len()
            invariant
                es == document.entries@,
                es == old(document).entries@,
                v0 == old(document).buffer@,
                i <= es.len(),
                models_fold(v0, es, i as nat) == Some((iem@, document.buffer@)),
            decreases es.len() - i,
        {
            let entry = document.entries[i];
            document.buffer.position(entry.position, entry.seed);
            let view_model_id = document.buffer.try_get_int();
            let view_type_id = document.buffer.try_get_short();
            let gfx = document.buffer.try_get_int();
            let color = document.buffer.try_get_int();
            let height = document.buffer.try_get_byte();
            let particle_id = document.buffer.try_get_int();
            let particle_offset_z = document.buffer.try_get_int();
            let result = match (view_model_id, view_type_id, gfx, color, height, particle_id, particle_offset_z) {
                (Some(a), Some(b), Some(c), Some(e), Some(f), Some(g), Some(h)) => InteractiveElementModelBinaryData {
                    view_model_id: a,
                    view_type_id: b,
                    gfx: c,
                    color: e,
                    height: f,
                    particle_id: g,
                    particle_offset_z: h,
                },
                _ => {
                    proof {
                        lemma_models_fail(v0, es, (i + 1) as nat, es.len());
                    }
                    return None;
                },
            };
            iem.insert(result.view_model_id, result);
            i = i + 1;
        }
        Some(iem)
    }
}

/// A destination of a teleporter.
#[derive(Clone, Debug)]
pub struct Destination {
    pub destination_id: i32,
    pub x: i32,
    pub y: i32,
    pub z: i32,
    pub world_id: i32,
    pub direction: i8,
    pub criteria: Vec<u8>,
    pub visual_id: i32,
    pub aps_id: i32,
    pub delay: i16,
    pub item_consumed: i32,
    pub item_quantity: i16,
    pub kama_cost: i16,
    pub do_consume_item: bool,
    pub is_invisible: bool,
    pub unknown: i32,
    pub loading_animation_name: Vec<u8>,
    pub loading_min_duration: i32,
    pub loading_fade_in_duration: i32,
    pub loading_fade_out_duration: i32,
}

/// The fields of a destination.
pub struct DestinationView {
    pub ints: Seq<i32>,
    pub direction: i8,
    pub criteria: Seq<u8>,
    pub shorts: Seq<i16>,
    pub flags: Seq<bool>,
    pub loading_animation_name: Seq<u8>,
}

impl View for Destination {
    type V = DestinationView;

    /// The `i32` fields in their stored order (destination, x, y, z, world, visual, aps,
    /// item consumed, unknown, the three loading durations); the `i16` fields (delay, item
    /// quantity, kama cost); the two flags.
    open spec fn view(&self) -> DestinationView {
        DestinationView {
            ints: seq![
                self.destination_id,
                self.x,
                self.y,
                self.z,
                self.world_id,
                self.visual_id,
                self.aps_id,
                self.item_consumed,
                self.unknown,
                self.loading_min_duration,
                self.loading_fade_in_duration,
                self.loading_fade_out_duration,
            ],
            direction: self.direction,
            criteria: self.criteria@,
            shorts: seq![self.delay, self.item_quantity, self.kama_cost],
            flags: seq![self.do_consume_item, self.is_invisible],
            loading_animation_name: self.loading_animation_name@,
        }
    }
}

/// Five obfuscated `i32` values.
pub open spec fn rr_int5(v: RandomReaderView) -> Option<(Seq<i32>, RandomReaderView)> {
    match rr_int(v) {
        Some((a, v1)) => match rr_int(v1) {
            Some((b, v2)) => match rr_int(v2) {
                Some((c, v3)) => match rr_int(v3) {
                    Some((d, v4)) => match rr_int(v4) {
                        Some((e, v5)) => Some((seq![a, b, c, d, e], v5)),
                        None => None,
                    },
                    None => None,
                },
                None => None,
            },
            None => None,
        },
        None => None,
    }
}

/// The middle of a destination: visual and aps ids, delay, item consumed, item quantity,
/// kama cost, then the two flags.
pub open spec fn rr_destination_middle(v: RandomReaderView) -> Option<((Seq<i32>, Seq<i16>, Seq<bool>), RandomReaderView)> {
    match rr_int(v) {
        Some((visual, v1)) => match rr_int(v1) {
            Some((aps, v2)) => match rr_short(v2) {
                Some((delay, v3)) => match rr_int(v3) {
                    Some((item, v4)) => match rr_short(v4) {
                        Some((quantity, v5)) => match rr_short(v5) {
                            Some((cost, v6)) => match rr_bool(v6) {
                                Some((consume, v7)) => match rr_bool(v7) {
                                    Some((invisible, v8)) => Some(
                                        (
                                            (seq![visual, aps, item], seq![delay, quantity, cost], seq![consume, invisible]),
                                            v8,
                                        ),
                                    ),
                                    None => None,
                                },
                                None => None,
                            },
                            None => None,
                        },
                        None => None,
                    },
                    None => None,
                },
                None => None,
            },
            None => None,
        },
        None => None,
    }
}

/// A destination: five `i32` values (id, x, y, z, world), the direction (`i8`), the
/// criteria string, the middle part, an `i32`, the loading animation's name and three
/// `i32` durations; everything obfuscated.
pub open spec fn rr_destination(v: RandomReaderView) -> Option<(DestinationView, RandomReaderView)> {
    match rr_int5(v) {
        Some((head, v1)) => match rr_byte(v1) {
            Some((direction, v2)) => match rr_utf8(v2) {
                Some((criteria, v3)) => match rr_destination_middle(v3) {
                    Some(((mids, shorts, flags), v4)) => match rr_destination_tail(v4) {
                        Some(((unknown, name, d1, d2, d3), v9)) => Some(
                            (
                                DestinationView {
                                    ints: head + mids + seq![unknown, d1, d2, d3],
                                    direction,
                                    criteria,
                                    shorts,
                                    flags,
                                    loading_animation_name: name,
                                },
                                v9,
                            ),
                        ),
                        None => None,
                    },
                    None => None,
                },
                None => None,
            },
            None => None,
        },
        None => None,
    }
}

/// Reads five obfuscated `i32` values (see [`rr_int5`]); `None` where they are cut short.
fn read_int5(buffer: &mut RandomByteBufferReader) -> (r: Option<(i32, i32, i32, i32, i32)>)
    ensures
        match rr_int5(old(buffer)@) {
            Some((s, v)) => r matches Some(x) && s == seq![x.0, x.1, x.2, x.3, x.4] && final(buffer)@ == v,
            None => r is None,
        },
{
    let a = match buffer.try_get_int() { Some(v) => v, None => return None };
    let b = match buffer.try_get_int() { Some(v) => v, None => return None };
    let c = match buffer.try_get_int() { Some(v) => v, None => return None };
    let d = match buffer.try_get_int() { Some(v) => v, None => return None };
    let e = match buffer.try_get_int() { Some(v) => v, None => return None };
    Some((a, b, c, d, e))
}

/// Reads the middle of a destination (see [`rr_destination_middle`]); `None` where it is
/// cut short.
fn read_middle(buffer: &mut RandomByteBufferReader) -> (r: Option<(i32, i32, i16, i32, i16, i16, bool, bool)>)
    ensures
        match rr_destination_middle(old(buffer)@) {
            Some((s, v)) => r matches Some(x) && s == (seq![x.0, x.1, x.3], seq![x.2, x.4, x.5], seq![x.6, x.7])
                && final(buffer)@ == v,
            None => r is None,
        },
{
    let visual_id = match buffer.try_get_int() { Some(v) => v, None => return None };
    let aps_id = match buffer.try_get_int() { Some(v) => v, None => return None };
    let delay = match buffer.try_get_short() { Some(v) => v, None => return None };
    let item_consumed = match buffer.try_get_int() { Some(v) => v, None => return None };
    let item_quantity = match buffer.try_get_short() { Some(v) => v, None => return None };
    let kama_cost = match buffer.try_get_short() { Some(v) => v, None => return None };
    let do_consume_item = match buffer.try_read_boolean() { Some(v) => v, None => return None };
    let is_invisible = match buffer.try_read_boolean() { Some(v) => v, None => return None };
    Some((visual_id, aps_id, delay, item_consumed, item_quantity, kama_cost, do_consume_item, is_invisible))
}

/// The end of a destination: an `i32`, the loading animation's name, then three `i32`
/// durations.
pub open spec fn rr_destination_tail(v: RandomReaderView) -> Option<((i32, Seq<u8>, i32, i32, i32), RandomReaderView)> {
    match rr_int(v) {
        Some((unknown, v5)) => match rr_utf8(v5) {
            Some((name, v6)) => match rr_int(v6) {
                Some((d1, v7)) => match rr_int(v7) {
                    Some((d2, v8)) => match rr_int(v8) {
                        Some((d3, v9)) => Some(((unknown, name, d1, d2, d3), v9)),
                        None => None,
                    },
                    None => None,
                },
                None => None,
            },
            None => None,
        },
        None => None,
    }
}

/// Reads the end of a destination (see [`rr_destination_tail`]); `None` where it is cut
/// short.
fn read_tail(buffer: &mut RandomByteBufferReader) -> (r: Option<(i32, Vec<u8>, i32, i32, i32)>)
    ensures
        match rr_destination_tail(old(buffer)@) {
            Some(((a, s, b, c, e), v)) => r matches Some(x) && x.0 == a && x.1@ == s && x.2 == b && x.3 == c
                && x.4 == e && final(buffer)@ == v,
            None => r is None,
        },
{
    let unknown = match buffer.try_get_int() { Some(v) => v, None => return None };
    let name = match buffer.try_read_utf8() { Some(v) => v, None => return None };
    let d1 = match buffer.try_get_int() { Some(v) => v, None => return None };
    let d2 = match buffer.try_get_int() { Some(v) => v, None => return None };
    let d3 = match buffer.try_get_int() { Some(v) => v, None => return None };
    Some((unknown, name, d1, d2, d3))
}

impl Destination {
    /// Reads a destination (see [`rr_destination`]). It must read
    /// without error.
    pub fn read(document: &mut BinaryDocument) -> (r: Destination)
        requires
            rr_destination(old(document).buffer@) is Some,
        ensures
            rr_destination(old(document).buffer@) == Some((r@, final(document).buffer@)),
            final(document).entries@ == old(document).entries@,
    {
        match Self::read_checked(document) {
            Some(d) => d,
            None => Destination {
                destination_id: 0,
                x: 0,
                y: 0,
                z: 0,
                world_id: 0,
                direction: 0,
                criteria: Vec::new(),
                visual_id: 0,
                aps_id: 0,
                delay: 0,
                item_consumed: 0,
                item_quantity: 0,
                kama_cost: 0,
                do_consume_item: false,
                is_invisible: false,
                unknown: 0,
                loading_animation_name: Vec::new(),
                loading_min_duration: 0,
                loading_fade_in_duration: 0,
                loading_fade_out_duration: 0,
            },
        }
    }

    /// Reads a destination like [`Destination::read`], on every input: `None` where
    /// [`rr_destination`] is `None`.
    pub fn read_checked(document: &mut BinaryDocument) -> (r: Option<Destination>)
        ensures
            match rr_destination(old(document).buffer@) {
                Some((v, w)) => r matches Some(d) && d@ == v && final(document).buffer@ == w,
                None => r is None,
            },
            final(document).entries@ == old(document).entries@,
    {
        let (destination_id, x, y, z, world_id) = match read_int5(&mut document.buffer) {
            Some(v) => v,
            None => return None,
        };
        let direction = match document.buffer.try_get_byte() {
            Some(v) => v,
            None => return None,
        };
        let criteria = match document.buffer.try_read_utf8() {
            Some(v) => v,
            None => return None,
        };
        let (visual_id, aps_id, delay, item_consumed, item_quantity, kama_cost, do_consume_item, is_invisible) =
            match read_middle(&mut document.buffer) {
            Some(v) => v,
            None => return None,
        };
        let (unknown, loading_animation_name, loading_min_duration, loading_fade_in_duration, loading_fade_out_duration) =
            match read_tail(&mut document.buffer) {
            Some(v) => v,
            None => return None,
        };
        let r = Destination {
            destination_id,
            x,
            y,
            z,
            world_id,
            direction,
            criteria,
            visual_id,
            aps_id,
            delay,
            item_consumed,
            item_quantity,
            kama_cost,
            do_consume_item,
            is_invisible,
            unknown,
            loading_animation_name,
            loading_min_duration,
            loading_fade_in_duration,
            loading_fade_out_duration,
        };
        proof {
            assert(r@.ints =~= seq![destination_id, x, y, z, world_id] + seq![visual_id, aps_id, item_consumed]
                + seq![unknown, loading_min_duration, loading_fade_in_duration, loading_fade_out_duration]);
        }
        Some(r)
    }
}

/// The views of a list of destinations.
pub open spec fn destinations_view(v: Seq<Destination>) -> Seq<DestinationView> {
    v.map_values(|d: Destination| d@)
}

/// `n` destinations.
pub open spec fn rr_destinations(v: RandomReaderView, n: nat) -> Option<(Seq<DestinationView>, RandomReaderView)>
    decreases n,
{
    if n == 0 {
        Some((Seq::empty(), v))
    } else {
        match rr_destinations(v, (n - 1) as nat) {
            Some((s, v1)) => match rr_destination(v1) {
                Some((x, v2)) => Some((s.push(x), v2)),
                None => None,
            },
            None => None,
        }
    }
}

/// A teleporter: its id and its destination count as obfuscated `i32` values (a negative
/// count panics), then the destinations.
pub open spec fn rr_teleporter(v: RandomReaderView) -> Option<((i32, Seq<DestinationView>), RandomReaderView)> {
    match rr_int(v) {
        Some((id, v1)) => match rr_int(v1) {
            Some((n, v2)) => if n < 0 {
                None
            } else {
                match rr_destinations(v2, n as nat) {
                    Some((ds, v3)) => Some(((id, ds), v3)),
                    None => None,
                }
            },
            None => None,
        },
        None => None,
    }
}

/// The teleporters of the first `n` entries, each registered by its id (a later one
/// replacing an earlier), and the reader after them.
pub open spec fn teleporters_fold(v: RandomReaderView, es: Seq<Entry>, n: nat) -> Option<
    (Map<i32, Seq<DestinationView>>, RandomReaderView),
>
    decreases n,
{
    if n == 0 {
        Some((Map::empty(), v))
    } else {
        match teleporters_fold(v, es, (n - 1) as nat) {
            Some((m, v1)) => match rr_teleporter(positioned(v1, es[n - 1])) {
                Some(((id, ds), v2)) => Some((m.insert(id, ds), v2)),
                None => None,
            },
            None => None,
        }
    }
}

proof fn lemma_destinations_fail(v: RandomReaderView, i: nat, n: nat)
    requires
        i <= n,
        rr_destinations(v, i) is None,
    ensures
        rr_destinations(v, n) is None,
    decreases n,
{
    if n > i {
        lemma_destinations_fail(v, i, (n - 1) as nat);
    }
}

proof fn lemma_teleporters_fail(v: RandomReaderView, es: Seq<Entry>, i: nat, n: nat)
    requires
        i <= n,
        teleporters_fold(v, es, i) is None,
    ensures
        teleporters_fold(v, es, n) is None,
    decreases n,
{
    if n > i {
        lemma_teleporters_fail(v, es, i, (n - 1) as nat);
    }
}

/// Reads `n` destinations (see [`rr_destinations`]); `None` where they are cut short.
fn read_destinations(document: &mut BinaryDocument, n: i32) -> (r: Option<Vec<Destination>>)
    requires
        n >= 0,
    ensures
        match rr_destinations(old(document).buffer@, n as nat) {
            Some((s, w)) => r matches Some(x) && destinations_view(x@) == s && final(document).buffer@ == w,
            None => r is None,
        },
        final(document).entries@ == old(document).entries@,
{
    let ghost w = document.buffer@;
    let mut destinations: Vec<Destination> = Vec::new();
    proof {
        assert(destinations_view(destinations@) =~= Seq::<DestinationView>::empty());
    }
    let mut k: i32 = 0;
    while k < n
        invariant
            document.entries@ == old(document).entries@,
            w == old(document).buffer@,
            0 <= k <= n,
            rr_destinations(w, k as nat) == Some((destinations_view(destinations@), document.buffer@)),
        decreases n - k,
    {
        let d = match Destination::read_checked(document) {
            Some(d) => d,
            None => {
                proof {
                    lemma_destinations_fail(w, (k + 1) as nat, n as nat);
                }
                return None;
            },
        };
        let ghost before = destinations_view(destinations@);
        destinations.push(d);
        proof {
            assert(destinations_view(destinations@) =~= before.push(d@));
        }
        k = k + 1;
    }
    Some(destinations)
}

/// The teleporters of a table.
pub struct TeleporterBinaryData;

/// The views of a map of destination lists.
pub open spec fn teleporters_view(m: Map<i32, Vec<Destination>>) -> Map<i32, Seq<DestinationView>> {
    m.map_values(|v: Vec<Destination>| destinations_view(v@))
}

impl TeleporterBinaryData {
    /// Reads the teleporter of every entry of the table (see [`teleporters_fold`]). Every
    /// record must read.
    pub fn read(document: &mut BinaryDocument) -> (r: HashMap<i32, Vec<Destination>>)
        requires
            teleporters_fold(old(document).buffer@, old(document).entries@, old(document).entries@.len()) is Some,
        ensures
            teleporters_fold(old(document).buffer@, old(document).entries@, old(document).entries@.len()) == Some(
                (teleporters_view(r@), final(document).buffer@),
            ),
    {
        match Self::read_checked(document) {
            Some(m) => m,
            None => HashMap::new(),
        }
    }

    /// Reads the teleporters like [`TeleporterBinaryData::read`], on every input: `None`
    /// where [`teleporters_fold`] is `None`.
    pub fn read_checked(document: &mut BinaryDocument) -> (r: Option<HashMap<i32, Vec<Destination>>>)
        ensures
            match teleporters_fold(old(document).buffer@, old(document).entries@, old(document).entries@.len()) {
                Some((m, w)) => r matches Some(x) && teleporters_view(x@) == m && final(document).buffer@ == w,
                None => r is None,
            },
    {
        let mut teleporters: HashMap<i32, Vec<Destination>> = HashMap::new();
        let ghost v0 = document.buffer@;
        let ghost es = document.entries@;
        proof {
            assert(teleporters_view(teleporters@) =~= Map::<i32, Seq<DestinationView>>::empty());
        }
        let mut i: usize = 0;
        while i < document.entries.len()
            invariant
                es == document.entries@,
                v0 == old(document).buffer@,
                es == old(document).entries@,
                i <= es.len(),
                teleporters_fold(v0, es, i as nat) == Some((teleporters_view(teleporters@), document.buffer@)),
            decreases es.len() - i,
        {
            let entry = document.entries[i];
            document.buffer.position(entry.position, entry.seed);
            let teleporter_id = match document.buffer.try_get_int() {
                Some(v) => v,
                None => {
                    proof {
                        lemma_teleporters_fail(v0, es, (i + 1) as nat, es.len());
                    }
                    return None;
                },
            };
            let destination_count = match document.buffer.try_get_int() {
                Some(v) => v,
                None => {
                    proof {
                        lemma_teleporters_fail(v0, es, (i + 1) as nat, es.len());
                    }
                    return None;
                },
            };
            if destination_count < 0 {
                proof {
                    lemma_teleporters_fail(v0, es, (i + 1) as nat, es.len());
                }
                return None;
            }
            let destinations = match read_destinations(document, destination_count) {
                Some(v) => v,
                None => {
                    proof {
                        lemma_teleporters_fail(v0, es, (i + 1) as nat, es.len());
                    }
                    return None;
                },
            };
            let ghost before_map = teleporters_view(teleporters@);
            let ghost ds = destinations_view(destinations@);
            teleporters.insert(teleporter_id, destinations);
            proof {
                assert(teleporters_view(teleporters@) =~= before_map.insert(teleporter_id, ds));
            }
            i = i + 1;
        }
        Some(teleporters)
    }
}

/// A model keeps its fields in the order they are stored: the id is the first obfuscated
/// `i32` read, the type the `i16` after it, then the graphics, the color, the height (an
/// `i8`), the particle and its offset, each read after the one before.
pub proof fn model_fields_in_stored_order(v: RandomReaderView)
    requires
        rr_model(v) is Some,
    ensures
        rr_int(v) matches Some((id, v1)) && rr_short(v1) matches Some((kind, v2)) && rr_int(v2) matches Some(
            (gfx, v3),
        ) && rr_int(v3) matches Some((color, v4)) && rr_byte(v4) matches Some((height, v5)) && rr_int(v5) matches Some(
            (particle, v6),
        ) && rr_int(v6) matches Some((offset, v7)) && rr_model(v) matches Some((m, w)) && m.view_model_id == id
            && m.view_type_id == kind && m.gfx == gfx && m.color == color && m.height == height && m.particle_id
            == particle && m.particle_offset_z == offset && w == v7,
{
}

/// Every model of the table is found under its own id.
pub proof fn models_found_by_their_id(v: RandomReaderView, es: Seq<Entry>, n: nat)
    requires
        models_fold(v, es, n) is Some,
    ensures
        models_fold(v, es, n) matches Some((m, _)) && forall|k: i32| #[trigger] m.contains_key(k) ==> m[k].view_model_id
            == k,
    decreases n,
{
    if n > 0 {
        models_found_by_their_id(v, es, (n - 1) as nat);
    }
}

/// A destination keeps its five leading `i32` values in the order they are stored: the
/// destination id is the first obfuscated `i32` read, then x, y, z, and the world (the
/// map the teleporter leads to) is the fifth.
pub proof fn destination_keeps_leading_ints(v: RandomReaderView, dest: Destination)
    requires
        rr_destination(v) matches Some((w, _)) && dest@ == w,
    ensures
        rr_int(v) matches Some((a, v1)) && rr_int(v1) matches Some((b, v2)) && rr_int(v2) matches Some((c, v3))
            && rr_int(v3) matches Some((e, v4)) && rr_int(v4) matches Some((f, _)) && dest.destination_id == a
            && dest.x == b && dest.y == c && dest.z == e && dest.world_id == f,
{
    let (w, _) = rr_destination(v).unwrap();
    assert(dest@.ints[0] == dest.destination_id);
    assert(dest@.ints[4] == dest.world_id);
}

} // verus!
