//! A whole animation file read into memory: its header, index, atlas shapes, transform
//! table, sprite definitions and imports.
//!
//! The definitions are kept in reading order; the maps by id and by name hash hold their
//! positions in that list.
use vstd::prelude::*;
use bytebuffer::ByteBuffer;
use std::collections::HashMap;
use crate::buffer::same_bytes;
use crate::parse::{
    Parsed, sp_i8, sp_i16, sp_i32, sp_cstr, sp_many, lemma_many_fails, dat, pos, le, bits_after,
    read_i16, read_i32, read_cstr,
};
use crate::anm_frame::loop_count;
use crate::anm::{
    AnimHeader, AnimIndex, AnimIndexView, AnmShapeDefinition, AnmTransformDataTable,
    AnmTransformDataTableView, AnmImport, AnmImportView, sp_anim_header, sp_anim_index,
    sp_shape_definition, sp_table, sp_import,
};
use crate::sprite_def::{SpriteDefView, empty_sprite_def};
use crate::sprite_definition::{
    SpriteDefinition, SpriteDefinitionKindView, definition_frame_count, definition_header,
    sp_definition_load, new_definition, new_anm_definition,
};

verus! {

/// An animation file in memory.
#[derive(Debug)]
pub struct InteractiveAnim {
    pub max_sprite_count: i32,
    pub index: AnimIndex,
    pub header: AnimHeader,
    pub sprite_definitions: Vec<SpriteDefinition>,
    pub shape_definitions_by_id: HashMap<i16, AnmShapeDefinition>,
    /// The position in `sprite_definitions` of the definition of each id.
    pub sprite_definitions_by_id: HashMap<i16, usize>,
    /// The position in `sprite_definitions` of the definition of each name hash.
    pub sprite_definitions_by_crc: HashMap<i32, usize>,
    pub imports_by_id: HashMap<i16, AnmImport>,
    pub texture_crc: i64,
    pub use_perfect_hit_test: bool,
    pub texture_name: Vec<u8>,
    pub table: Option<AnmTransformDataTable>,
}

/// The definitions part of an animation: the list, the sprite count and the two maps.
pub struct DefsState {
    pub defs: Seq<SpriteDefinitionKindView>,
    pub max: i32,
    pub by_id: Map<i16, usize>,
    pub by_crc: Map<i32, usize>,
}

pub struct InteractiveAnimView {
    pub max_sprite_count: i32,
    pub index: AnimIndexView,
    pub header: AnimHeader,
    pub sprite_definitions: Seq<SpriteDefinitionKindView>,
    pub shape_definitions_by_id: Map<i16, AnmShapeDefinition>,
    pub sprite_definitions_by_id: Map<i16, usize>,
    pub sprite_definitions_by_crc: Map<i32, usize>,
    pub imports_by_id: Map<i16, AnmImportView>,
    pub use_perfect_hit_test: bool,
    pub texture_name: Seq<u8>,
    pub table: Option<AnmTransformDataTableView>,
}

/// The views of a list of definitions.
pub open spec fn defs_view(v: Seq<SpriteDefinition>) -> Seq<SpriteDefinitionKindView> {
    v.map_values(|x: SpriteDefinition| x@)
}

pub open spec fn table_view(t: Option<AnmTransformDataTable>) -> Option<AnmTransformDataTableView> {
    match t {
        Some(x) => Some(x@),
        None => None,
    }
}

impl View for InteractiveAnim {
    type V = InteractiveAnimView;

    open spec fn view(&self) -> InteractiveAnimView {
        InteractiveAnimView {
            max_sprite_count: self.max_sprite_count,
            index: self.index@,
            header: self.header,
            sprite_definitions: defs_view(self.sprite_definitions@),
            shape_definitions_by_id: self.shape_definitions_by_id@,
            sprite_definitions_by_id: self.sprite_definitions_by_id@,
            sprite_definitions_by_crc: self.sprite_definitions_by_crc@,
            imports_by_id: self.imports_by_id@.map_values(|v: AnmImport| v@),
            use_perfect_hit_test: self.use_perfect_hit_test,
            texture_name: self.texture_name@,
            table: table_view(self.table),
        }
    }
}

/// Every position held by the two maps names a definition.
pub open spec fn maps_in_range(v: InteractiveAnimView) -> bool {
    &&& forall|k: i16| #[trigger] v.sprite_definitions_by_id.contains_key(k) ==> v.sprite_definitions_by_id[k]
        < v.sprite_definitions.len()
    &&& forall|k: i32| #[trigger] v.sprite_definitions_by_crc.contains_key(k) ==> v.sprite_definitions_by_crc[k]
        < v.sprite_definitions.len()
}

/// Whether an animation name is one of the directions that mirror others: it must start
/// with `_Anim` and its first character must be `3`, `4` or `7`, which a name starting
/// with `_` never has.
pub open spec fn is_flippable(name: Seq<u8>) -> bool {
    &&& name.len() != 0
    &&& name.len() >= 5 && name.subrange(0, 5) == seq![95u8, 65, 110, 105, 109]
    &&& (name[0] == 51 || name[0] == 52 || name[0] == 55)
}

/// A definition as made and read: without a table, a full one; with one, of the kind that
/// the next `i8` names; then its stored form. `None` where reading panics.
pub open spec fn sp_definition(d: Seq<u8>, p: nat, le: bool, has_table: bool, optimized: bool) -> Option<
    (SpriteDefinitionKindView, nat),
> {
    let created: Option<(SpriteDefinitionKindView, nat)> = if !has_table {
        Some((new_anm_definition(optimized), p))
    } else {
        match sp_i8(d, p) {
            Some((kind, q)) => match new_definition(kind, optimized) {
                Ok(v) => Some((v, q)),
                Err(_) => None,
            },
            None => None,
        }
    };
    match created {
        Some((v, q)) => sp_definition_load(v, d, q, le),
        None => None,
    }
}

/// The definitions part after adding definition `k`: a definition with frames raises the
/// sprite count to its own; it is then registered by id and name hash, unless it mirrors
/// another direction, in which case an empty definition takes its place.
pub open spec fn defs_step(s: DefsState, k: SpriteDefinitionKindView, use_flip: bool) -> DefsState {
    let h = definition_header(k);
    if definition_frame_count(k) != 0 {
        let max2 = if h.max_sprite_count > s.max {
            h.max_sprite_count
        } else {
            s.max
        };
        if use_flip && is_flippable(h.name) {
            DefsState { defs: s.defs.push(SpriteDefinitionKindView::Empty(empty_sprite_def())), max: max2, ..s }
        } else {
            DefsState {
                defs: s.defs.push(k),
                max: max2,
                by_id: s.by_id.insert(h.id, s.defs.len() as usize),
                by_crc: s.by_crc.insert(h.name_crc, s.defs.len() as usize),
            }
        }
    } else {
        DefsState { defs: s.defs.push(k), ..s }
    }
}

/// The definitions part after reading `n` definitions from `p`. `None` where reading
/// panics.
pub open spec fn defs_fold(
    d: Seq<u8>,
    le: bool,
    n: nat,
    p: nat,
    has_table: bool,
    optimized: bool,
    use_flip: bool,
    s: DefsState,
) -> Option<(DefsState, nat)>
    decreases n,
{
    if n == 0 {
        Some((s, p))
    } else {
        match defs_fold(d, le, (n - 1) as nat, p, has_table, optimized, use_flip, s) {
            Some((s1, q)) => match sp_definition(d, q, le, has_table, optimized) {
                Some((k, q2)) => Some((defs_step(s1, k, use_flip), q2)),
                None => None,
            },
            None => None,
        }
    }
}

/// The atlas shapes: their count as an `i16` (none for a negative count), then the shapes,
/// which must read; each is registered by its id, a later one replacing an earlier.
pub open spec fn shapes_fold(d: Seq<u8>, le: bool, n: nat, p: nat, m: Map<i16, AnmShapeDefinition>) -> Option<
    (Map<i16, AnmShapeDefinition>, nat),
>
    decreases n,
{
    if n == 0 {
        Some((m, p))
    } else {
        match shapes_fold(d, le, (n - 1) as nat, p, m) {
            Some((m1, q)) => match sp_shape_definition(d, q, le) {
                Some((s, q2)) => Some((m1.insert(s.id, s), q2)),
                None => None,
            },
            None => None,
        }
    }
}

/// The imports, each registered by its id, a later one replacing an earlier.
pub open spec fn imports_fold(d: Seq<u8>, le: bool, n: nat, p: nat, m: Map<i16, AnmImportView>) -> Option<
    (Map<i16, AnmImportView>, nat),
>
    decreases n,
{
    if n == 0 {
        Some((m, p))
    } else {
        match imports_fold(d, le, (n - 1) as nat, p, m) {
            Some((m1, q)) => match sp_import(d, q, le) {
                Some((x, q2)) => Some((m1.insert(x.id, x), q2)),
                None => None,
            },
            None => None,
        }
    }
}

/// The texture part: a count as an `i16`; when it is 1, the texture's name without a
/// length and an `i32` that is skipped.
pub open spec fn sp_texture(d: Seq<u8>, p: nat, le: bool) -> Option<(Option<Seq<u8>>, nat)> {
    match sp_i16(d, p, le) {
        Some((n, q)) => if n == 1 {
            match sp_cstr(d, q) {
                Some((name, q2)) => match sp_i32(d, q2, le) {
                    Some((_skip, q3)) => Some((Some(name), q3)),
                    None => None,
                },
                None => None,
            }
        } else {
            Some((None, q))
        },
        None => None,
    }
}

/// The table part: a table when version flag `0x10` is set, which must read.
pub open spec fn sp_table_if(d: Seq<u8>, p: nat, le: bool, on: bool) -> Option<(Option<AnmTransformDataTableView>, nat)> {
    if on {
        match sp_table(d, p, le) {
            Parsed::Done(t, q) => Some((Some(t), q)),
            _ => None,
        }
    } else {
        Some((None, p))
    }
}

/// An animation after reading its body (everything after the header, whose version is
/// `version`) from `p` into `s`. `None` where reading panics.
pub open spec fn sp_anim_body(s: InteractiveAnimView, d: Seq<u8>, p: nat, le: bool, version: i8) -> Option<InteractiveAnimView> {
    let optimized = (version & 0x8) == 0x8;
    match sp_anim_index(d, p, le) {
        Parsed::Done(index, q1) => match sp_texture(d, q1, le) {
            Some((tex, q2)) => match sp_i16(d, q2, le) {
                Some((ns, q3)) => match shapes_fold(d, le, loop_count(ns as int), q3, s.shape_definitions_by_id) {
                    Some((shapes, q4)) => match sp_table_if(d, q4, le, (version & 0x10) == 0x10) {
                        Some((table, q5)) => match sp_i16(d, q5, le) {
                            Some((nd, q6)) => match defs_fold(
                                d,
                                le,
                                loop_count(nd as int),
                                q6,
                                table is Some,
                                optimized,
                                (index.flags & 0x10) == 0,
                                DefsState {
                                    defs: s.sprite_definitions,
                                    max: s.max_sprite_count,
                                    by_id: s.sprite_definitions_by_id,
                                    by_crc: s.sprite_definitions_by_crc,
                                },
                            ) {
                                Some((ds, q7)) => match sp_i16(d, q7, le) {
                                    Some((ni, q8)) => match imports_fold(d, le, loop_count(ni as int), q8, s.imports_by_id) {
                                        Some((imports, q9)) => if !optimized && sp_i16(d, q9, le) is None {
                                            None
                                        } else {
                                            Some(
                                                InteractiveAnimView {
                                                    max_sprite_count: ds.max,
                                                    index,
                                                    header: s.header,
                                                    sprite_definitions: ds.defs,
                                                    shape_definitions_by_id: shapes,
                                                    sprite_definitions_by_id: ds.by_id,
                                                    sprite_definitions_by_crc: ds.by_crc,
                                                    imports_by_id: imports,
                                                    use_perfect_hit_test: (version & 0x4) == 0x4,
                                                    texture_name: match tex {
                                                        Some(n) => n,
                                                        None => s.texture_name,
                                                    },
                                                    table,
                                                },
                                            )
                                        },
                                        None => None,
                                    },
                                    None => None,
                                },
                                None => None,
                            },
                            None => None,
                        },
                        None => None,
                    },
                    None => None,
                },
                None => None,
            },
            None => None,
        },
        _ => None,
    }
}

/// Whether the two maps of a definitions part point into its list.
pub open spec fn defs_in_range(s: DefsState) -> bool {
    &&& forall|k: i16| #[trigger] s.by_id.contains_key(k) ==> s.by_id[k] < s.defs.len()
    &&& forall|k: i32| #[trigger] s.by_crc.contains_key(k) ==> s.by_crc[k] < s.defs.len()
}

proof fn lemma_defs_fold_in_range(
    d: Seq<u8>,
    le: bool,
    n: nat,
    p: nat,
    has_table: bool,
    optimized: bool,
    use_flip: bool,
    s: DefsState,
)
    requires
        defs_in_range(s),
        s.defs.len() + n <= usize::MAX,
    ensures
        defs_fold(d, le, n, p, has_table, optimized, use_flip, s) matches Some((s2, _q)) ==> defs_in_range(s2)
            && s2.defs.len() == s.defs.len() + n,
    decreases n,
{
    if n > 0 {
        lemma_defs_fold_in_range(d, le, (n - 1) as nat, p, has_table, optimized, use_flip, s);
        if let Some((s1, q)) = defs_fold(d, le, (n - 1) as nat, p, has_table, optimized, use_flip, s) {
            if let Some((k, _q2)) = sp_definition(d, q, le, has_table, optimized) {
                let s2 = defs_step(s1, k, use_flip);
                assert(s1.defs.len() as usize == s1.defs.len());
                assert forall|j: i16| #[trigger] s2.by_id.contains_key(j) implies s2.by_id[j] < s2.defs.len() by {
                    if s1.by_id.contains_key(j) && s2.by_id[j] == s1.by_id[j] {
                    }
                }
                assert forall|j: i32| #[trigger] s2.by_crc.contains_key(j) implies s2.by_crc[j] < s2.defs.len() by {
                    if s1.by_crc.contains_key(j) && s2.by_crc[j] == s1.by_crc[j] {
                    }
                }
            }
        }
    }
}

/// Reading an animation keeps each sprite definition that its maps name within its list
/// of definitions, as long as the list can take the definitions a file holds.
pub proof fn read_keeps_maps_in_range(s: InteractiveAnimView, d: Seq<u8>, p: nat, le: bool)
    requires
        maps_in_range(s),
        s.sprite_definitions.len() + 0x8000 <= usize::MAX,
    ensures
        sp_anim_read(s, d, p, le) matches Some(s2) ==> maps_in_range(s2),
{
    if let Some((h, q)) = sp_anim_header(d, p, le) {
        let s1 = InteractiveAnimView { header: h, ..s };
        if (h.version_number & 0x2) != 0 {
            if let Parsed::Done(index, q1) = sp_anim_index(d, q, le) {
                if let Some((tex, q2)) = sp_texture(d, q1, le) {
                    if let Some((ns, q3)) = sp_i16(d, q2, le) {
                        if let Some((shapes, q4)) = shapes_fold(d, le, loop_count(ns as int), q3, s1.shape_definitions_by_id) {
                            if let Some((table, q5)) = sp_table_if(d, q4, le, (h.version_number & 0x10) == 0x10) {
                                if let Some((nd, q6)) = sp_i16(d, q5, le) {
                                    lemma_defs_fold_in_range(
                                        d,
                                        le,
                                        loop_count(nd as int),
                                        q6,
                                        table is Some,
                                        (h.version_number & 0x8) == 0x8,
                                        (index.flags & 0x10) == 0,
                                        DefsState {
                                            defs: s1.sprite_definitions,
                                            max: s1.max_sprite_count,
                                            by_id: s1.sprite_definitions_by_id,
                                            by_crc: s1.sprite_definitions_by_crc,
                                        },
                                    );
                                }
                            }
                        }
                    }
                }
            }
        }
    }
}

/// An animation after reading a file from `p` into `s`: the header replaces the old one;
/// a file without version flag `0x2` stops there; otherwise the body is read (see
/// [`sp_anim_body`]). `None` where reading panics.
pub open spec fn sp_anim_read(s: InteractiveAnimView, d: Seq<u8>, p: nat, le: bool) -> Option<InteractiveAnimView> {
    match sp_anim_header(d, p, le) {
        Some((h, q)) => {
            let s1 = InteractiveAnimView { header: h, ..s };
            if (h.version_number & 0x2) == 0 {
                Some(s1)
            } else {
                sp_anim_body(s1, d, q, le, h.version_number)
            }
        },
        None => None,
    }
}

/// Adding a definition never lowers the animation's sprite count, and one with frames
/// raises it to at least its own: the count after is the larger of the two.
pub proof fn sprite_count_keeps_the_largest(s: DefsState, k: SpriteDefinitionKindView, use_flip: bool)
    ensures
        defs_step(s, k, use_flip).max >= s.max,
        definition_frame_count(k) != 0 ==> defs_step(s, k, use_flip).max >= definition_header(k).max_sprite_count,
        defs_step(s, k, use_flip).max == s.max || defs_step(s, k, use_flip).max == definition_header(
            k,
        ).max_sprite_count,
{
}

proof fn lemma_sprite_count_rises(
    d: Seq<u8>,
    le: bool,
    i: nat,
    n: nat,
    p: nat,
    has_table: bool,
    optimized: bool,
    use_flip: bool,
    s: DefsState,
)
    requires
        i <= n,
        defs_fold(d, le, n, p, has_table, optimized, use_flip, s) is Some,
    ensures
        defs_fold(d, le, i, p, has_table, optimized, use_flip, s) matches Some((si, _)) && defs_fold(
            d,
            le,
            n,
            p,
            has_table,
            optimized,
            use_flip,
            s,
        ) matches Some((sn, _)) && sn.max >= si.max,
    decreases n,
{
    if n > i {
        let prev = defs_fold(d, le, (n - 1) as nat, p, has_table, optimized, use_flip, s);
        assert(prev is Some);
        lemma_sprite_count_rises(d, le, i, (n - 1) as nat, p, has_table, optimized, use_flip, s);
        let (s1, q) = prev.unwrap();
        let (k, _) = sp_definition(d, q, le, has_table, optimized).unwrap();
        sprite_count_keeps_the_largest(s1, k, use_flip);
    }
}

/// Reading definitions never lowers the sprite count, and leaves it at least that of every
/// definition read that has frames: the `i`-th definition, read where the first `i` end,
/// counts when it has frames.
pub proof fn read_sprite_count_covers_each_definition(
    d: Seq<u8>,
    le: bool,
    n: nat,
    p: nat,
    has_table: bool,
    optimized: bool,
    use_flip: bool,
    s: DefsState,
    i: nat,
)
    requires
        i < n,
        defs_fold(d, le, n, p, has_table, optimized, use_flip, s) is Some,
    ensures
        defs_fold(d, le, n, p, has_table, optimized, use_flip, s) matches Some((sn, _)) && defs_fold(
            d,
            le,
            i,
            p,
            has_table,
            optimized,
            use_flip,
            s,
        ) matches Some((si, qi)) && sp_definition(d, qi, le, has_table, optimized) matches Some((k, _)) && sn.max
            >= s.max && (definition_frame_count(k) != 0 ==> sn.max >= definition_header(k).max_sprite_count),
{
    lemma_sprite_count_rises(d, le, 0, n, p, has_table, optimized, use_flip, s);
    lemma_sprite_count_rises(d, le, (i + 1) as nat, n, p, has_table, optimized, use_flip, s);
    let (si, qi) = defs_fold(d, le, i, p, has_table, optimized, use_flip, s).unwrap();
    let (k, _) = sp_definition(d, qi, le, has_table, optimized).unwrap();
    sprite_count_keeps_the_largest(si, k, use_flip);
}

proof fn lemma_defs_fail(
    d: Seq<u8>,
    le: bool,
    i: nat,
    n: nat,
    p: nat,
    has_table: bool,
    optimized: bool,
    use_flip: bool,
    s: DefsState,
)
    requires
        i <= n,
        defs_fold(d, le, i, p, has_table, optimized, use_flip, s) is None,
    ensures
        defs_fold(d, le, n, p, has_table, optimized, use_flip, s) is None,
    decreases n,
{
    if n > i {
        lemma_defs_fail(d, le, i, (n - 1) as nat, p, has_table, optimized, use_flip, s);
    }
}

proof fn lemma_shapes_fail(d: Seq<u8>, le: bool, i: nat, n: nat, p: nat, m: Map<i16, AnmShapeDefinition>)
    requires
        i <= n,
        shapes_fold(d, le, i, p, m) is None,
    ensures
        shapes_fold(d, le, n, p, m) is None,
    decreases n,
{
    if n > i {
        lemma_shapes_fail(d, le, i, (n - 1) as nat, p, m);
    }
}

proof fn lemma_imports_fail(d: Seq<u8>, le: bool, i: nat, n: nat, p: nat, m: Map<i16, AnmImportView>)
    requires
        i <= n,
        imports_fold(d, le, i, p, m) is None,
    ensures
        imports_fold(d, le, n, p, m) is None,
    decreases n,
{
    if n > i {
        lemma_imports_fail(d, le, i, (n - 1) as nat, p, m);
    }
}

/// Whether an animation name is one of the directions that mirror others (see
/// [`is_flippable`]).
pub fn is_flippable_animation(name: &Vec<u8>) -> (r: bool)
    ensures
        r == is_flippable(name@),
{
    if name.len() == 0 {
        return false;
    }
    let prefix: [u8; 5] = [95, 65, 110, 105, 109];
    if name.len() < 5 {
        return false;
    }
    let mut i: usize = 0;
    while i < 5
        invariant
            name@.len() >= 5,
            i <= 5,
            prefix@ == seq![95u8, 65, 110, 105, 109],
            forall|k: int| 0 <= k < i ==> name@[k] == prefix@[k],
        decreases 5 - i,
    {
        if name[i] != prefix[i] {
            proof {
                assert(name@.subrange(0, 5)[i as int] != seq![95u8, 65, 110, 105, 109][i as int]);
            }
            return false;
        }
        i = i + 1;
    }
    proof {
        assert(name@.subrange(0, 5) =~= seq![95u8, 65, 110, 105, 109]);
    }
    let direction = name[0];
    direction == 51 || direction == 52 || direction == 55
}

/// Reads the texture part (see [`sp_texture`]); `None` where it does not read.
fn read_texture(buffer: &mut ByteBuffer) -> (r: Option<Option<Vec<u8>>>)
    ensures
        same_bytes(*old(buffer), *final(buffer)),
        match sp_texture(dat(*old(buffer)), pos(*old(buffer)), le(*old(buffer))) {
            Some((t, q)) => pos(*final(buffer)) == q && bits_after(*old(buffer), *final(buffer)) && match t {
                Some(n) => r matches Some(Some(x)) && x@ == n,
                None => r == Some(None::<Vec<u8>>),
            },
            None => r is None,
        },
{
    let n = match read_i16(buffer) {
        Ok(n) => n,
        Err(_) => return None,
    };
    if n == 1 {
        let name = match read_cstr(buffer) {
            Ok(v) => v,
            Err(_) => return None,
        };
        match read_i32(buffer) {
            Ok(_) => Some(Some(name)),
            Err(_) => None,
        }
    } else {
        Some(None)
    }
}

/// Reads `n` atlas shapes into the map (see [`shapes_fold`]); `false` where they do not
/// read.
fn read_shapes(buffer: &mut ByteBuffer, n: i16, map: &mut HashMap<i16, AnmShapeDefinition>) -> (r: bool)
    ensures
        same_bytes(*old(buffer), *final(buffer)),
        match shapes_fold(dat(*old(buffer)), le(*old(buffer)), loop_count(n as int), pos(*old(buffer)), old(map)@) {
            Some((m, q)) => r && final(map)@ == m && pos(*final(buffer)) == q && bits_after(*old(buffer), *final(buffer)),
            None => !r,
        },
{
    let ghost d = dat(*buffer);
    let ghost l = le(*buffer);
    let ghost p0 = pos(*buffer);
    let ghost m0 = map@;
    let mut i: i16 = 0;
    while i < n
        invariant
            same_bytes(*old(buffer), *buffer),
            d == dat(*old(buffer)),
            l == le(*old(buffer)),
            p0 == pos(*old(buffer)),
            m0 == old(map)@,
            0 <= i,
            n >= 0 ==> i <= n,
            n < 0 ==> i == 0,
            shapes_fold(d, l, i as nat, p0, m0) == Some((map@, pos(*buffer))),
            bits_after(*old(buffer), *buffer),
        decreases n - i,
    {
        let shape = match AnmShapeDefinition::read(buffer) {
            Ok(s) => s,
            Err(_) => {
                proof {
                    lemma_shapes_fail(d, l, (i + 1) as nat, loop_count(n as int), p0, m0);
                }
                return false;
            },
        };
        map.insert(shape.id, shape);
        i = i + 1;
    }
    proof {
        assert(loop_count(n as int) == i as nat);
    }
    true
}

/// Reads `n` imports into the map (see [`imports_fold`]); `false` where they do not
/// read.
fn read_imports(buffer: &mut ByteBuffer, n: i16, map: &mut HashMap<i16, AnmImport>) -> (r: bool)
    ensures
        same_bytes(*old(buffer), *final(buffer)),
        match imports_fold(
            dat(*old(buffer)),
            le(*old(buffer)),
            loop_count(n as int),
            pos(*old(buffer)),
            old(map)@.map_values(|v: AnmImport| v@),
        ) {
            Some((m, q)) => r && final(map)@.map_values(|v: AnmImport| v@) == m && pos(*final(buffer)) == q
                && bits_after(*old(buffer), *final(buffer)),
            None => !r,
        },
{
    let ghost d = dat(*buffer);
    let ghost l = le(*buffer);
    let ghost p0 = pos(*buffer);
    let ghost m0 = map@.map_values(|v: AnmImport| v@);
    let mut i: i16 = 0;
    while i < n
        invariant
            same_bytes(*old(buffer), *buffer),
            d == dat(*old(buffer)),
            l == le(*old(buffer)),
            p0 == pos(*old(buffer)),
            m0 == old(map)@.map_values(|v: AnmImport| v@),
            0 <= i,
            n >= 0 ==> i <= n,
            n < 0 ==> i == 0,
            imports_fold(d, l, i as nat, p0, m0) == Some((map@.map_values(|v: AnmImport| v@), pos(*buffer))),
            bits_after(*old(buffer), *buffer),
        decreases n - i,
    {
        let mut anm_import = AnmImport::new();
        if !anm_import.load_checked(buffer) {
            proof {
                lemma_imports_fail(d, l, (i + 1) as nat, loop_count(n as int), p0, m0);
            }
            return false;
        }
        let ghost before = map@.map_values(|v: AnmImport| v@);
        let id = anm_import.id;
        map.insert(id, anm_import);
        proof {
            assert(map@.map_values(|v: AnmImport| v@) =~= before.insert(anm_import@.id, anm_import@));
        }
        i = i + 1;
    }
    proof {
        assert(loop_count(n as int) == i as nat);
    }
    true
}

/// Makes and reads a sprite definition (see [`sp_definition`]); `None` where it does not
/// read.
fn read_definition(table: &Option<AnmTransformDataTable>, buffer: &mut ByteBuffer, optimized: bool) -> (r: Option<SpriteDefinition>)
    ensures
        same_bytes(*old(buffer), *final(buffer)),
        match sp_definition(dat(*old(buffer)), pos(*old(buffer)), le(*old(buffer)), table is Some, optimized) {
            Some((k, q)) => r matches Some(x) && x@ == k && pos(*final(buffer)) == q
                && bits_after(*old(buffer), *final(buffer)),
            None => r is None,
        },
{
    let mut def = match SpriteDefinition::create_from(table, buffer, optimized) {
        Ok(x) => x,
        Err(_) => return None,
    };
    if def.load_checked(buffer) {
        Some(def)
    } else {
        None
    }
}

/// The definitions part of an animation.
pub open spec fn defs_state(v: InteractiveAnimView) -> DefsState {
    DefsState {
        defs: v.sprite_definitions,
        max: v.max_sprite_count,
        by_id: v.sprite_definitions_by_id,
        by_crc: v.sprite_definitions_by_crc,
    }
}

/// An animation with its definitions part replaced.
pub open spec fn with_defs(v: InteractiveAnimView, ds: DefsState) -> InteractiveAnimView {
    InteractiveAnimView {
        sprite_definitions: ds.defs,
        max_sprite_count: ds.max,
        sprite_definitions_by_id: ds.by_id,
        sprite_definitions_by_crc: ds.by_crc,
        ..v
    }
}

impl InteractiveAnim {
    pub fn new() -> (r: Self)
        ensures
            r@.max_sprite_count == -1,
            r@.header == (AnimHeader { version_number: 0, frame_rate: 0 }),
            r@.sprite_definitions.len() == 0,
            r@.shape_definitions_by_id == Map::<i16, AnmShapeDefinition>::empty(),
            r@.sprite_definitions_by_id == Map::<i16, usize>::empty(),
            r@.sprite_definitions_by_crc == Map::<i32, usize>::empty(),
            r@.imports_by_id == Map::<i16, AnmImportView>::empty(),
            !r@.use_perfect_hit_test,
            r@.texture_name.len() == 0,
            r@.table is None,
            r@.index.animation_file_records.len() == 0,
            r@.index.flags == 0,
            r@.index.scale == 0,
            r@.index.render_radius == 0,
            r@.index.file_names.len() == 0,
            r@.index.part_hidden_by_item.len() == 0,
            r@.index.can_hide_part_item.len() == 0,
            r@.index.extend.heights == Map::<i32, i8>::empty(),
            r@.index.extend.high_light_color.len() == 0,
            r.texture_crc == 0,
            maps_in_range(r@),
    {
        let r = InteractiveAnim {
            max_sprite_count: -1,
            index: AnimIndex::default(),
            header: AnimHeader::default(),
            sprite_definitions: Vec::new(),
            shape_definitions_by_id: HashMap::new(),
            sprite_definitions_by_id: HashMap::new(),
            sprite_definitions_by_crc: HashMap::new(),
            imports_by_id: HashMap::new(),
            texture_crc: 0,
            use_perfect_hit_test: false,
            texture_name: Vec::new(),
            table: None,
        };
        proof {
            assert(r.imports_by_id@.map_values(|v: AnmImport| v@) =~= Map::<i16, AnmImportView>::empty());
        }
        r
    }

    /// Reads `n` sprite definitions (see [`defs_fold`]); `false` where they do not read.
    fn read_definitions(&mut self, buffer: &mut ByteBuffer, n: i16, optimized: bool, use_flip: bool) -> (r: bool)
        ensures
            same_bytes(*old(buffer), *final(buffer)),
            match defs_fold(
                dat(*old(buffer)),
                le(*old(buffer)),
                loop_count(n as int),
                pos(*old(buffer)),
                old(self).table is Some,
                optimized,
                use_flip,
                defs_state(old(self)@),
            ) {
                Some((ds, q)) => r && pos(*final(buffer)) == q && final(self)@ == with_defs(old(self)@, ds)
                    && bits_after(*old(buffer), *final(buffer)),
                None => !r,
            },
    {
        let ghost d = dat(*buffer);
        let ghost l = le(*buffer);
        let ghost p0 = pos(*buffer);
        let ghost s0 = defs_state(self@);
        let ghost has_table = self.table is Some;
        let mut i: i16 = 0;
        while i < n
            invariant
                same_bytes(*old(buffer), *buffer),
                d == dat(*old(buffer)),
                l == le(*old(buffer)),
                p0 == pos(*old(buffer)),
                s0 == defs_state(old(self)@),
                has_table == (self.table is Some),
                has_table == (old(self).table is Some),
                0 <= i,
                n >= 0 ==> i <= n,
                n < 0 ==> i == 0,
                defs_fold(d, l, i as nat, p0, has_table, optimized, use_flip, s0) == Some(
                    (defs_state(self@), pos(*buffer)),
                ),
                self@ == with_defs(old(self)@, defs_state(self@)),
                bits_after(*old(buffer), *buffer),
            decreases n - i,
        {
            let mut def = match read_definition(&self.table, buffer, optimized) {
                Some(x) => x,
                None => {
                    proof {
                        lemma_defs_fail(d, l, (i + 1) as nat, loop_count(n as int), p0, has_table, optimized, use_flip, s0);
                    }
                    return false;
                },
            };
            let ghost k = def@;
            let ghost st = defs_state(self@);
            let idx = self.sprite_definitions.len();
            if def.get_frame_count() != 0 {
                let sd = def.get_sprite_def();
                let max = sd.max_sprite_count;
                let id = sd.id;
                let crc = sd.name_crc;
                if max > self.max_sprite_count {
                    self.max_sprite_count = max;
                }
                if use_flip && is_flippable_animation(&sd.name) {
                    def = SpriteDefinition::default();
                } else {
                    self.sprite_definitions_by_id.insert(id, idx);
                    self.sprite_definitions_by_crc.insert(crc, idx);
                }
            }
            let ghost before = defs_view(self.sprite_definitions@);
            self.sprite_definitions.push(def);
            proof {
                assert(defs_view(self.sprite_definitions@) =~= before.push(def@));
                assert(defs_state(self@) == defs_step(st, k, use_flip));
            }
            i = i + 1;
        }
        proof {
            assert(loop_count(n as int) == i as nat);
        }
        true
    }

    /// Reads an animation file (see [`sp_anim_read`]). The file must read
    /// without error.
    pub fn read(&mut self, buffer: ByteBuffer)
        requires
            sp_anim_read(old(self)@, dat(buffer), pos(buffer), le(buffer)) is Some,
        ensures
            sp_anim_read(old(self)@, dat(buffer), pos(buffer), le(buffer)) == Some(final(self)@),
    {
        let _ = self.read_checked(buffer);
    }

    /// Reads an animation file like [`InteractiveAnim::read`], on every input; `false`
    /// where [`sp_anim_read`] is `None`, the animation then being left in a state of no
    /// use.
    pub fn read_checked(&mut self, buffer: ByteBuffer) -> (r: bool)
        ensures
            match sp_anim_read(old(self)@, dat(buffer), pos(buffer), le(buffer)) {
                Some(v) => r && final(self)@ == v,
                None => !r,
            },
    {
        let mut buffer = buffer;
        let ghost d = dat(buffer);
        let ghost l = le(buffer);
        self.header = match AnimHeader::read(&mut buffer) {
            Ok(h) => h,
            Err(_) => return false,
        };
        if (self.header.version_number & 0x2) == 0x0 {
            return true;
        }
        let version = self.header.version_number;
        self.index = match AnimIndex::read_checked(&mut buffer) {
            Some(Ok(x)) => x,
            _ => return false,
        };
        self.use_perfect_hit_test = (version & 0x4) == 0x4;
        let optimized = (version & 0x8) == 0x8;
        match read_texture(&mut buffer) {
            Some(Some(name)) => {
                self.texture_name = name;
            },
            Some(None) => {},
            None => return false,
        }
        let num_shapes = match read_i16(&mut buffer) {
            Ok(n) => n,
            Err(_) => return false,
        };
        if !read_shapes(&mut buffer, num_shapes, &mut self.shape_definitions_by_id) {
            return false;
        }
        self.table = if (version & 0x10) == 0x10 {
            match AnmTransformDataTable::read_checked(&mut buffer) {
                Some(Ok(t)) => Some(t),
                _ => return false,
            }
        } else {
            None
        };
        let num_sprites = match read_i16(&mut buffer) {
            Ok(n) => n,
            Err(_) => return false,
        };
        let use_flip = (self.index.flags & 0x10) == 0x0;
        if !self.read_definitions(&mut buffer, num_sprites, optimized, use_flip) {
            return false;
        }
        let num_imports = match read_i16(&mut buffer) {
            Ok(n) => n,
            Err(_) => return false,
        };
        if !read_imports(&mut buffer, num_imports, &mut self.imports_by_id) {
            return false;
        }
        if !optimized {
            match read_i16(&mut buffer) {
                Ok(_) => {},
                Err(_) => return false,
            }
        }
        true
    }

    /// The definition registered under a name hash.
    pub fn get_sprite_definition_by_crc(&self, crc: i32) -> (r: Option<&SpriteDefinition>)
        requires
            maps_in_range(self@),
        ensures
            match r {
                Some(x) => self@.sprite_definitions_by_crc.contains_key(crc) && x@
                    == self@.sprite_definitions[self@.sprite_definitions_by_crc[crc] as int],
                None => !self@.sprite_definitions_by_crc.contains_key(crc),
            },
    {
        match self.sprite_definitions_by_crc.get(&crc) {
            Some(i) => {
                proof {
                    assert(self@.sprite_definitions_by_crc.contains_key(crc));
                    assert(defs_view(self.sprite_definitions@)[*i as int] == self.sprite_definitions@[*i as int]@);
                }
                Some(&self.sprite_definitions[*i])
            },
            None => None,
        }
    }

    /// The definition registered under a sprite id.
    pub fn get_sprite_definition_by_id(&self, id: i16) -> (r: Option<&SpriteDefinition>)
        requires
            maps_in_range(self@),
        ensures
            match r {
                Some(x) => self@.sprite_definitions_by_id.contains_key(id) && x@
                    == self@.sprite_definitions[self@.sprite_definitions_by_id[id] as int],
                None => !self@.sprite_definitions_by_id.contains_key(id),
            },
    {
        match self.sprite_definitions_by_id.get(&id) {
            Some(i) => {
                proof {
                    assert(self@.sprite_definitions_by_id.contains_key(id));
                    assert(defs_view(self.sprite_definitions@)[*i as int] == self.sprite_definitions@[*i as int]@);
                }
                Some(&self.sprite_definitions[*i])
            },
            None => None,
        }
    }

    /// The import of a sprite id.
    pub fn get_import(&self, id: i16) -> (r: Option<&AnmImport>)
        ensures
            match r {
                Some(x) => self@.imports_by_id.contains_key(id) && x@ == self@.imports_by_id[id],
                None => !self@.imports_by_id.contains_key(id),
            },
    {
        self.imports_by_id.get(&id)
    }
}

} // verus!
