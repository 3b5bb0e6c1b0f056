//! The light of a map chunk: light definitions, and which definition lights each cell of
//! each layer.
//!
//! Numbers are little-endian.
use vstd::prelude::*;
use std::collections::HashMap;
use crate::buffer::{i8_of, i16_of, i32_of};
use crate::bytes::{
    le_at, fits, lemma_le_at_2, read_u16, read_i16, read_i8, read_i32, find_byte, lemma_find_byte,
    read_delimited,
};
use crate::utils::{parsed_i32, parse_i32};
use crate::error::{LoadError, ReadError};
use crate::archive::{zip_bytes, zip_count, zip_entry_bytes, zip_entry_count, zip_entry_name, zip_name};
use crate::environment::{environment_entry_name, EnvironmentChunk};
use vstd::utf8::encode_utf8;
use crate::parse::Parsed;
use vstd::arithmetic::div_mod::lemma_fundamental_div_mod_converse;

verus! {

/// The light of a cell: the red, green and blue bytes of its ambiance colour. Each is
/// worth twice its share of 255 (`2 * red / 255` and so on).
#[derive(Debug, Clone, Copy, PartialEq, Eq, Structural)]
pub struct CellLightDef {
    pub red: u8,
    pub green: u8,
    pub blue: u8,
}

/// The light made from an ambiance colour `0x??BBGGRR`.
pub open spec fn light_of(ambiance: i32) -> CellLightDef {
    CellLightDef {
        red: (ambiance & 0xFF) as u8,
        green: ((ambiance >> 8) & 0xFF) as u8,
        blue: ((ambiance >> 16) & 0xFF) as u8,
    }
}

impl CellLightDef {
    /// No light: every channel 0.
    pub fn default() -> (r: CellLightDef)
        ensures
            r == (CellLightDef { red: 0, green: 0, blue: 0 }),
    {
        CellLightDef { red: 0, green: 0, blue: 0 }
    }

    /// The light of the ambiance colour `ambiance`; the shadow, the light and the outdoor
    /// flag play no part.
    pub fn new(ambiance: i32, _shadow: i32, _light: i32, _allow_out_door_lighting: bool) -> (r: CellLightDef)
        ensures
            r == light_of(ambiance),
    {
        CellLightDef {
            red: (ambiance & 0xFF) as u8,
            green: ((ambiance >> 8) & 0xFF) as u8,
            blue: ((ambiance >> 16) & 0xFF) as u8,
        }
    }
}

/// The light of a map chunk: its corner in cells, and the light of each cell and layer by
/// the key of [`light_key`].
#[derive(Debug)]
pub struct MapLightChunk {
    pub x: i16,
    pub y: i16,
    pub layer_colors: HashMap<u16, CellLightDef>,
}

/// What a chunk's light holds.
pub struct MapLightChunkView {
    pub x: i16,
    pub y: i16,
    pub layer_colors: Map<u16, CellLightDef>,
}

impl View for MapLightChunk {
    type V = MapLightChunkView;

    open spec fn view(&self) -> MapLightChunkView {
        MapLightChunkView { x: self.x, y: self.y, layer_colors: self.layer_colors@ }
    }
}

/// The light definition held by the 13 bytes at `p`: an outdoor flag as an `i8`, then the
/// ambiance, shadow and light as `i32`.
pub open spec fn def_val(d: Seq<u8>, p: int) -> CellLightDef {
    light_of(i32_of(le_at(d, p + 1, 4) as int) as i32)
}

/// The `n` light definitions from `p` on.
pub open spec fn defs_at(d: Seq<u8>, p: int, n: nat) -> Seq<CellLightDef> {
    Seq::new(n, |k: int| def_val(d, p + 13 * k))
}

/// The lights of the cells after the first `n` entries from `p` on: an entry is a key
/// and the index of a definition in `defs`, both `u16`; a later entry for a key replaces
/// an earlier one. An index past the definitions panics.
pub open spec fn layers_fold(d: Seq<u8>, defs: Seq<CellLightDef>, p: int, n: nat) -> Parsed<Map<u16, CellLightDef>>
    decreases n,
{
    if n == 0 {
        Parsed::Done(Map::empty(), 0)
    } else {
        match layers_fold(d, defs, p, (n - 1) as nat) {
            Parsed::Done(m, _) => {
                let q = p + 4 * (n - 1);
                if !fits(d, q, 4) {
                    Parsed::Fails(ReadError::Incomplete)
                } else if le_at(d, q + 2, 2) >= defs.len() {
                    Parsed::Panics
                } else {
                    Parsed::Done(m.insert(le_at(d, q, 2) as u16, defs[le_at(d, q + 2, 2) as int]), 0)
                }
            },
            other => other,
        }
    }
}

/// Whether `v * 18` fits in an `i16`.
pub open spec fn times18_fits(v: i16) -> bool {
    i16::MIN <= v * 18 <= i16::MAX
}

/// The light of a chunk at the start of `d`: its corner in maps as two `i16` (multiplied
/// by 18 into cells; a product past `i16` panics), the number of definitions
/// as a `u16` and the definitions (see [`def_val`]), the number of layers and the number
/// of entries as `i16`, then the entries (see [`layers_fold`]; none for a negative
/// number).
pub open spec fn sp_light_chunk(d: Seq<u8>) -> Parsed<MapLightChunkView> {
    if !fits(d, 0, 2) {
        Parsed::Fails(ReadError::Incomplete)
    } else if !times18_fits(i16_of(le_at(d, 0, 2) as int) as i16) {
        Parsed::Panics
    } else if !fits(d, 2, 2) {
        Parsed::Fails(ReadError::Incomplete)
    } else if !times18_fits(i16_of(le_at(d, 2, 2) as int) as i16) {
        Parsed::Panics
    } else if !fits(d, 4, 2) {
        Parsed::Fails(ReadError::Incomplete)
    } else {
        let n = le_at(d, 4, 2);
        let q = 6 + 13 * n as int;
        if !fits(d, 6, 13 * n as int) || !fits(d, q, 4) {
            Parsed::Fails(ReadError::Incomplete)
        } else {
            let cnt = i16_of(le_at(d, q + 2, 2) as int);
            let entries = if cnt < 0 {
                0
            } else {
                cnt
            };
            match layers_fold(d, defs_at(d, 6, n), q + 4, entries as nat) {
                Parsed::Done(m, _) => Parsed::Done(
                    MapLightChunkView {
                        x: (i16_of(le_at(d, 0, 2) as int) * 18) as i16,
                        y: (i16_of(le_at(d, 2, 2) as int) * 18) as i16,
                        layer_colors: m,
                    },
                    (q + 4 + 4 * entries) as nat,
                ),
                Parsed::Fails(e) => Parsed::Fails(e),
                Parsed::Panics => Parsed::Panics,
            }
        }
    }
}

proof fn lemma_layers_stop(d: Seq<u8>, defs: Seq<CellLightDef>, p: int, i: nat, n: nat)
    requires
        i <= n,
        !(layers_fold(d, defs, p, i) is Done),
    ensures
        layers_fold(d, defs, p, n) == layers_fold(d, defs, p, i),
    decreases n,
{
    if n > i {
        lemma_layers_stop(d, defs, p, i, (n - 1) as nat);
    }
}

/// The key under which the light of cell `(x, y)` of `layer` is kept, for a chunk whose
/// corner is `(cx, cy)`: `x - cx + (y - cy + 18 * layer) * 18`, cut to 16 bits.
pub open spec fn light_key(cx: i16, cy: i16, x: i32, y: i32, layer: i32) -> u16 {
    (x - cx + (y - cy + layer * 18) * 18) as u16
}

/// Whether each step of [`light_key`] fits in an `i32`, as it is computed (the
/// computation panics otherwise).
pub open spec fn light_key_fits(cx: i16, cy: i16, x: i32, y: i32, layer: i32) -> bool {
    let a = x - cx;
    let b = y - cy;
    let c = layer * 18;
    let e = (b + c) * 18;
    &&& i32::MIN <= a <= i32::MAX
    &&& i32::MIN <= b <= i32::MAX
    &&& i32::MIN <= c <= i32::MAX
    &&& i32::MIN <= b + c <= i32::MAX
    &&& i32::MIN <= e <= i32::MAX
    &&& i32::MIN <= a + e <= i32::MAX
}

/// Whether cell `(x, y)` of `layer` lies in the chunk whose corner is `(cx, cy)`, on a
/// layer whose key does not wrap past 16 bits: `0 <= x - cx < 18`, `0 <= y - cy < 18` and
/// `0 <= layer <= 201`.
pub open spec fn cell_in_chunk(cx: i16, cy: i16, x: i32, y: i32, layer: i32) -> bool {
    0 <= x - cx < 18 && 0 <= y - cy < 18 && 0 <= layer <= 201
}

/// Within a chunk, no two cells or layers share a key: the key spells the column, the
/// row and the layer in base 18.
pub proof fn light_keys_distinct(cx: i16, cy: i16, x1: i32, y1: i32, l1: i32, x2: i32, y2: i32, l2: i32)
    requires
        cell_in_chunk(cx, cy, x1, y1, l1),
        cell_in_chunk(cx, cy, x2, y2, l2),
        light_key(cx, cy, x1, y1, l1) == light_key(cx, cy, x2, y2, l2),
    ensures
        x1 == x2 && y1 == y2 && l1 == l2,
{
    let a1 = x1 - cx;
    let b1 = y1 - cy;
    let a2 = x2 - cx;
    let b2 = y2 - cy;
    let k1 = a1 + (b1 + l1 * 18) * 18;
    let k2 = a2 + (b2 + l2 * 18) * 18;
    assert(0 <= k1 < 0x10000) by (nonlinear_arith)
        requires
            k1 == a1 + (b1 + l1 * 18) * 18,
            0 <= a1 < 18,
            0 <= b1 < 18,
            0 <= l1 <= 201,
    ;
    assert(0 <= k2 < 0x10000) by (nonlinear_arith)
        requires
            k2 == a2 + (b2 + l2 * 18) * 18,
            0 <= a2 < 18,
            0 <= b2 < 18,
            0 <= l2 <= 201,
    ;
    assert(k1 == k2) by {
        assert(k1 as u16 == k1);
        assert(k2 as u16 == k2);
    }
    lemma_fundamental_div_mod_converse(k1, 18, b1 + l1 * 18, a1);
    lemma_fundamental_div_mod_converse(k2, 18, b2 + l2 * 18, a2);
    lemma_fundamental_div_mod_converse(b1 + l1 * 18, 18, l1 as int, b1);
    lemma_fundamental_div_mod_converse(b2 + l2 * 18, 18, l2 as int, b2);
}

impl MapLightChunk {
    /// Reads the light of a chunk at the start of `bytes` (see [`sp_light_chunk`]), with
    /// its size, on the inputs where [`sp_light_chunk`] does not panic.
    pub fn try_read(bytes: &[u8]) -> (r: Result<(MapLightChunk, usize), ReadError>)
        requires
            !(sp_light_chunk(bytes@) is Panics),
        ensures
            match sp_light_chunk(bytes@) {
                Parsed::Done(v, q) => r matches Ok((c, n)) && c@ == v && n == q,
                Parsed::Fails(e) => r == Err::<(MapLightChunk, usize), ReadError>(e),
                Parsed::Panics => false,
            },
    {
        match Self::read_checked(bytes) {
            Some(r) => r,
            None => Err(ReadError::BadInput),
        }
    }

    /// Reads the light of a chunk like [`MapLightChunk::try_read`], on every input: `None`
    /// where [`sp_light_chunk`] panics.
    pub fn read_checked(bytes: &[u8]) -> (r: Option<Result<(MapLightChunk, usize), ReadError>>)
        ensures
            match sp_light_chunk(bytes@) {
                Parsed::Done(v, q) => r matches Some(Ok((c, n))) && c@ == v && n == q,
                Parsed::Fails(e) => r == Some(Err::<(MapLightChunk, usize), ReadError>(e)),
                Parsed::Panics => r is None,
            },
    {
        let ghost d = bytes@;
        let (xr, o) = match read_i16(bytes, 0) {
            Some(v) => v,
            None => return Some(Err(ReadError::Incomplete)),
        };
        proof {
            lemma_le_at_2(d, 0);
        }
        if xr < -1820 || xr > 1820 {
            return None;
        }
        let x = xr * 18;
        let (yr, o) = match read_i16(bytes, o) {
            Some(v) => v,
            None => return Some(Err(ReadError::Incomplete)),
        };
        proof {
            lemma_le_at_2(d, 2);
        }
        assert(o == 4);
        if yr < -1820 || yr > 1820 {
            return None;
        }
        let y = yr * 18;
        match Self::load_layers(bytes, o) {
            Some(Ok((layer_colors, o))) => Some(Ok((MapLightChunk { x, y, layer_colors }, o))),
            Some(Err(e)) => Some(Err(e)),
            None => None,
        }
    }

    /// Reads the definitions and then the entries from `off` on; `None` where an entry
    /// names a definition past the last.
    fn load_layers(bytes: &[u8], off: usize) -> (r: Option<Result<(HashMap<u16, CellLightDef>, usize), ReadError>>)
        requires
            off == 4,
            fits(bytes@, 0, 4),
            times18_fits(i16_of(le_at(bytes@, 0, 2) as int) as i16),
            times18_fits(i16_of(le_at(bytes@, 2, 2) as int) as i16),
        ensures
            match sp_light_chunk(bytes@) {
                Parsed::Done(v, q) => r matches Some(Ok((m, o))) && m@ == v.layer_colors && o == q,
                Parsed::Fails(e) => r == Some(Err::<(HashMap<u16, CellLightDef>, usize), ReadError>(e)),
                Parsed::Panics => r is None,
            },
    {
        let (cell_light_def, o) = match Self::read_definition(bytes, off) {
            Ok(v) => v,
            Err(e) => return Some(Err(e)),
        };
        Self::read_layers(&cell_light_def, bytes, o)
    }

    /// Reads the number of definitions and the definitions at `off`, with the offset
    /// after them.
    fn read_definition(bytes: &[u8], off: usize) -> (r: Result<(Vec<CellLightDef>, usize), ReadError>)
        ensures
            match r {
                Ok((defs, o)) => fits(bytes@, off as int, 2) && fits(bytes@, off + 2, 13 * le_at(bytes@, off as int, 2) as int)
                    && defs@ == defs_at(bytes@, off + 2, le_at(bytes@, off as int, 2))
                    && o == off + 2 + 13 * le_at(bytes@, off as int, 2),
                Err(e) => e == ReadError::Incomplete && !(fits(bytes@, off as int, 2) && fits(bytes@, off + 2, 13 * le_at(bytes@, off as int, 2) as int)),
            },
    {
        let ghost d = bytes@;
        let (def_count, o) = match read_u16(bytes, off) {
            Some(v) => v,
            None => return Err(ReadError::Incomplete),
        };
        proof {
            lemma_le_at_2(d, off as int);
        }
        assert(off + 2 <= bytes.len());
        let mut cell_light_def: Vec<CellLightDef> = Vec::new();
        let mut o = o;
        let mut i: u16 = 0;
        while i < def_count
            invariant
                fits(d, off as int, 2),
                def_count == le_at(d, off as int, 2),
                d == bytes@,
                i <= def_count,
                o == off + 2 + 13 * i,
                o <= d.len(),
                cell_light_def@ == defs_at(d, off + 2, i as nat),
            decreases def_count - i,
        {
            if !(o <= bytes.len() && bytes.len() - o >= 13) {
                return Err(ReadError::Incomplete);
            }
            let (flag, o1) = match read_i8(bytes, o) {
                Some(v) => v,
                None => return Err(ReadError::Incomplete),
            };
            let allow_out_door_lighting = flag != 0;
            let (ambiance, o2) = match read_i32(bytes, o1) {
                Some(v) => v,
                None => return Err(ReadError::Incomplete),
            };
            let (shadow, o3) = match read_i32(bytes, o2) {
                Some(v) => v,
                None => return Err(ReadError::Incomplete),
            };
            let (light, o4) = match read_i32(bytes, o3) {
                Some(v) => v,
                None => return Err(ReadError::Incomplete),
            };
            let def = CellLightDef::new(ambiance, shadow, light, allow_out_door_lighting);
            cell_light_def.push(def);
            proof {
                assert(cell_light_def@ =~= defs_at(d, off + 2, (i + 1) as nat));
            }
            o = o4;
            i = i + 1;
        }
        Ok((cell_light_def, o))
    }

    /// Reads the number of layers, the number of entries and the entries at `off`, each
    /// entry naming a definition of `cell_light_def`; `None` where one names a definition
    /// past the last.
    fn read_layers(cell_light_def: &Vec<CellLightDef>, bytes: &[u8], off: usize) -> (r: Option<Result<(HashMap<u16, CellLightDef>, usize), ReadError>>)
        requires
            off <= bytes@.len(),
        ensures
            !fits(bytes@, off as int, 4) ==> r == Some(Err::<(HashMap<u16, CellLightDef>, usize), ReadError>(
                ReadError::Incomplete,
            )),
            fits(bytes@, off as int, 4) ==> {
                let cnt = i16_of(le_at(bytes@, off + 2, 2) as int);
                let entries = if cnt < 0 {
                    0
                } else {
                    cnt
                };
                match layers_fold(bytes@, cell_light_def@, off + 4, entries as nat) {
                    Parsed::Done(m, _) => r matches Some(Ok((h, o))) && h@ == m && o == off + 4 + 4 * entries,
                    Parsed::Fails(e) => r == Some(Err::<(HashMap<u16, CellLightDef>, usize), ReadError>(e)),
                    Parsed::Panics => r is None,
                }
            },
    {
        let ghost d = bytes@;
        let ghost defs = cell_light_def@;
        if !(off <= bytes.len() && bytes.len() - off >= 4) {
            return Some(Err(ReadError::Incomplete));
        }
        let (_layer_count, o) = match read_i16(bytes, off) {
            Some(v) => v,
            None => return Some(Err(ReadError::Incomplete)),
        };
        let (count, o) = match read_i16(bytes, o) {
            Some(v) => v,
            None => return Some(Err(ReadError::Incomplete)),
        };
        proof {
            lemma_le_at_2(d, off + 2);
        }
        assert(o == off + 4);
        assert(count == i16_of(le_at(d, off + 2, 2) as int));
        let ghost entries: nat = if count < 0 {
            0
        } else {
            count as nat
        };
        let ghost p = off + 4;
        let mut layer_colors: HashMap<u16, CellLightDef> = HashMap::new();
        let mut o = o;
        let mut i: i16 = 0;
        while i < count
            invariant
                d == bytes@,
                defs == cell_light_def@,
                p == off + 4,
                fits(d, off as int, 4),
                count == i16_of(le_at(d, off + 2, 2) as int),
                0 <= i,
                count >= 0 ==> i <= count,
                count < 0 ==> i == 0,
                entries == (if count < 0 {
                    0
                } else {
                    count as nat
                }),
                o == p + 4 * i,
                o <= d.len(),
                layers_fold(d, defs, p, i as nat) == Parsed::Done(layer_colors@, 0),
            decreases count - i,
        {
            proof {
                if !(layers_fold(d, defs, p, (i + 1) as nat) is Done) {
                    lemma_layers_stop(d, defs, p, (i + 1) as nat, entries);
                }
            }
            if !(o <= bytes.len() && bytes.len() - o >= 4) {
                return Some(Err(ReadError::Incomplete));
            }
            let (k, o1) = match read_u16(bytes, o) {
                Some(v) => v,
                None => return Some(Err(ReadError::Incomplete)),
            };
            let (idx, o2) = match read_u16(bytes, o1) {
                Some(v) => v,
                None => return Some(Err(ReadError::Incomplete)),
            };
            proof {
                lemma_le_at_2(d, o as int);
                lemma_le_at_2(d, o + 2);
            }
            if idx as usize >= cell_light_def.len() {
                proof {
                    lemma_layers_stop(d, defs, p, (i + 1) as nat, entries);
                }
                return None;
            }
            let def = cell_light_def[idx as usize];
            layer_colors.insert(k, def);
            o = o2;
            i = i + 1;
        }
        Some(Ok((layer_colors, o)))
    }

    /// Whether the key of cell `(x, y)` of `layer` can be computed in this chunk (see
    /// [`light_key_fits`]).
    pub fn key_fits(&self, x: i32, y: i32, layer: i32) -> (r: bool)
        ensures
            r == light_key_fits(self.x, self.y, x, y, layer),
    {
        let a: i64 = x as i64 - self.x as i64;
        let b: i64 = y as i64 - self.y as i64;
        let c: i64 = layer as i64 * 18;
        let bc: i64 = b + c;
        let e: i64 = bc * 18;
        let ae: i64 = a + e;
        let lo: i64 = i32::MIN as i64;
        let hi: i64 = i32::MAX as i64;
        lo <= a && a <= hi && lo <= b && b <= hi && lo <= c && c <= hi && lo <= bc && bc <= hi
            && lo <= e && e <= hi && lo <= ae && ae <= hi
    }

    /// The key of cell `(x, y)` of `layer` in this chunk (see [`light_key`]).
    pub fn get_hashcode(&self, x: i32, y: i32, layer: i32) -> (r: u16)
        requires
            light_key_fits(self.x, self.y, x, y, layer),
        ensures
            r == light_key(self.x, self.y, x, y, layer),
    {
        (x - self.x as i32 + (y - self.y as i32 + layer * 18) * 18) as u16
    }

    /// The light of cell `(x, y)` of `layer`; `NotFound` when the chunk has none for it.
    pub fn get_light_info(&self, x: i32, y: i32, layer: i32) -> (r: Result<&CellLightDef, ReadError>)
        requires
            light_key_fits(self.x, self.y, x, y, layer),
        ensures
            match self@.layer_colors.contains_key(light_key(self.x, self.y, x, y, layer)) {
                true => r matches Ok(c) && *c == self@.layer_colors[light_key(self.x, self.y, x, y, layer)],
                false => r == Err::<&CellLightDef, ReadError>(ReadError::NotFound),
            },
    {
        let key = self.get_hashcode(x, y, layer);
        match self.layer_colors.get(&key) {
            Some(res) => Ok(res),
            None => Err(ReadError::NotFound),
        }
    }
}

/// The two parts of a chunk entry's name that give its coordinates: the text before the
/// first `_`, and the text from there to the next `_` or to the end.
pub open spec fn chunk_name_parts(name: Seq<u8>, q: int) -> (Seq<u8>, Seq<u8>) {
    (
        name.subrange(0, q),
        match find_byte(name, q + 1, 95) {
            Some(r) => name.subrange(q + 1, r),
            None => name.subrange(q + 1, name.len() as int),
        },
    )
}

/// The coordinates, in maps, of the chunk whose light an archive entry holds, from the
/// entry's name: the two parts of [`chunk_name_parts`] around its first `_`, each read as
/// an `i32`; `BadInput` when either does not read as one.
pub open spec fn chunk_coords_of(name: Seq<u8>) -> Result<(i32, i32), ReadError> {
    match find_byte(name, 0, 95) {
        Some(q) => {
            let (a, b) = chunk_name_parts(name, q);
            match (parsed_i32(a), parsed_i32(b)) {
                (Some(x), Some(y)) => Ok((x, y)),
                _ => Err(ReadError::BadInput),
            }
        },
        None => Err(ReadError::BadInput),
    }
}

/// The coordinates of the chunk whose light an archive entry holds, from the entry's name
/// (see [`chunk_coords_of`]). The name must hold a `_`, as the name of every such entry
/// does.
pub fn chunk_coords(name: &[u8]) -> (r: Result<(i32, i32), ReadError>)
    requires
        find_byte(name@, 0, 95) is Some,
    ensures
        r == chunk_coords_of(name@),
{
    proof {
        lemma_find_byte(name@, 0, 95);
    }
    let (first, o) = match read_delimited(name, 0, 95) {
        Some(v) => v,
        None => return Err(ReadError::BadInput),
    };
    let ghost q = o - 1;
    let second = match read_delimited(name, o, 95) {
        Some((s, _)) => s,
        None => {
            let mut s: Vec<u8> = Vec::new();
            let mut i = o;
            while i < name.len()
                invariant
                    o <= i <= name@.len(),
                    s@ == name@.subrange(o as int, i as int),
                decreases name@.len() - i,
            {
                s.push(name[i]);
                i = i + 1;
            }
            s
        },
    };
    proof {
        assert(second@ == chunk_name_parts(name@, q).1);
    }
    match (parse_i32(&first), parse_i32(&second)) {
        (Some(x), Some(y)) => Ok((x, y)),
        _ => Err(ReadError::BadInput),
    }
}

/// Whether `name` holds a `_`.
fn has_underscore(name: &[u8]) -> (r: bool)
    ensures
        r == (find_byte(name@, 0, 95) is Some),
{
    proof {
        lemma_find_byte(name@, 0, 95);
    }
    let mut i: usize = 0;
    while i < name.len()
        invariant
            i <= name@.len(),
            forall|k: int| 0 <= k < i ==> name@[k] != 95,
        decreases name@.len() - i,
    {
        if name[i] == 95 {
            proof {
                lemma_find_byte(name@, 0, 95);
            }
            return true;
        }
        i = i + 1;
    }
    false
}

/// The views of a list of chunks with their coordinates.
pub open spec fn light_chunks_view(v: Seq<(i32, i32, MapLightChunk)>) -> Seq<(i32, i32, MapLightChunkView)> {
    v.map_values(|c: (i32, i32, MapLightChunk)| (c.0, c.1, c.2@))
}

/// What loading the light gives from entry `i` on of `archive`, which has `n` entries,
/// `acc` holding the chunks read before: each entry whose name is an environment entry's
/// (see [`environment_entry_name`]) gives the coordinates its name spells (see
/// [`chunk_coords_of`], over the name's UTF-8 bytes) and its chunk (see
/// [`sp_light_chunk`]). `Unzip` at the first entry whose name, or whose contents when
/// they are read, cannot be had; `Read` at the first name or chunk that does not read;
/// `None` where reading panics, a name without `_` among them.
pub open spec fn light_scan(
    archive: Seq<u8>,
    i: int,
    n: int,
    acc: Seq<(i32, i32, MapLightChunkView)>,
) -> Option<Result<Seq<(i32, i32, MapLightChunkView)>, LoadError>>
    decreases n - i,
{
    if i >= n {
        Some(Ok(acc))
    } else {
        match zip_entry_name(archive, i) {
            None => Some(Err(LoadError::Unzip)),
            Some(name) => if environment_entry_name(name) {
                let nb = encode_utf8(name);
                if find_byte(nb, 0, 95) is None {
                    None
                } else {
                    match chunk_coords_of(nb) {
                        Err(e) => Some(Err(LoadError::Read(e))),
                        Ok((x, y)) => match zip_entry_bytes(archive, i) {
                            None => Some(Err(LoadError::Unzip)),
                            Some(b) => match sp_light_chunk(b) {
                                Parsed::Done(v, _) => light_scan(archive, i + 1, n, acc.push((x, y, v))),
                                Parsed::Fails(e) => Some(Err(LoadError::Read(e))),
                                Parsed::Panics => None,
                            },
                        },
                    }
                }
            } else {
                light_scan(archive, i + 1, n, acc)
            },
        }
    }
}

/// What loading the light of the zip archive `archive` gives (see [`light_scan`]):
/// `Unzip` when the archive cannot be opened.
pub open spec fn light_load(archive: Seq<u8>) -> Option<Result<Seq<(i32, i32, MapLightChunkView)>, LoadError>> {
    match zip_entry_count(archive) {
        None => Some(Err(LoadError::Unzip)),
        Some(n) => light_scan(archive, 0, n as int, Seq::empty()),
    }
}

/// Loads the light of each chunk of a map from its zip archive, each chunk with the
/// coordinates its entry's name gives (see [`light_load`]); `None` where reading panics.
pub fn load_light_chunks(archive: &[u8]) -> (r: Option<Result<Vec<(i32, i32, MapLightChunk)>, LoadError>>)
    ensures
        match light_load(archive@) {
            None => r is None,
            Some(Ok(v)) => r matches Some(Ok(c)) && light_chunks_view(c@) == v,
            Some(Err(e)) => r matches Some(Err(e2)) && e2 == e,
        },
{
    let n = match zip_count(archive) {
        Some(n) => n,
        None => return Some(Err(LoadError::Unzip)),
    };
    let mut chunks: Vec<(i32, i32, MapLightChunk)> = Vec::new();
    let mut i: usize = 0;
    proof {
        assert(light_chunks_view(chunks@) =~= Seq::<(i32, i32, MapLightChunkView)>::empty());
    }
    while i < n
        invariant
            i <= n,
            zip_entry_count(archive@) == Some(n),
            light_scan(archive@, i as int, n as int, light_chunks_view(chunks@)) == light_load(archive@),
        decreases n - i,
    {
        let name = match zip_name(archive, i) {
            Some(s) => s,
            None => return Some(Err(LoadError::Unzip)),
        };
        if EnvironmentChunk::is_environment_entry(name.as_str()) {
            let name_bytes = name.as_str().as_bytes();
            if !has_underscore(name_bytes) {
                return None;
            }
            let (x, y) = match chunk_coords(name_bytes) {
                Ok(c) => c,
                Err(e) => return Some(Err(LoadError::Read(e))),
            };
            let bytes = match zip_bytes(archive, i) {
                Some(b) => b,
                None => return Some(Err(LoadError::Unzip)),
            };
            match MapLightChunk::read_checked(&bytes) {
                None => return None,
                Some(Err(e)) => return Some(Err(LoadError::Read(e))),
                Some(Ok((chunk, _))) => {
                    let ghost before = chunks@;
                    let ghost cv = chunk@;
                    chunks.push((x, y, chunk));
                    proof {
                        assert(light_chunks_view(chunks@) =~= light_chunks_view(before).push((x, y, cv)));
                    }
                },
            }
        }
        i = i + 1;
    }
    Some(Ok(chunks))
}

} // verus!
