//! The visibility groups of a map: which layers stay visible from inside which other
//! layer.
//!
//! The table is a square of `layer_count * layer_count` flags; the flag of layer `l` seen
//! from `f` is at `|f| * layer_count + |l|`. Numbers are little-endian.
use vstd::prelude::*;
use std::collections::HashSet;
use crate::bytes::{le_at, fits, read_i16, read_u16};
use crate::buffer::i16_of;
use crate::error::{LoadError, ReadError};
use crate::archive::{zip_bytes, zip_count, zip_entry_bytes, zip_entry_count, zip_entry_name, zip_name};
use crate::parse::Parsed;

verus! {

/// The visibility table: the positions of its set flags, and the number of layers.
#[derive(Debug)]
pub struct Groups {
    pub layers: HashSet<u32>,
    pub layer_count: u32,
}

pub struct GroupsView {
    pub layers: Set<u32>,
    pub layer_count: u32,
}

impl View for Groups {
    type V = GroupsView;

    open spec fn view(&self) -> GroupsView {
        GroupsView { layers: self.layers@, layer_count: self.layer_count }
    }
}

/// `|v|`.
pub open spec fn abs(v: int) -> int {
    if v < 0 {
        -v
    } else {
        v
    }
}

/// Whether the visibility of `layer` from `from` can be asked: from layer 0 always;
/// otherwise neither may be `i32::MIN` and the flag's position must fit in a `u32` (reading
/// panics on either).
pub open spec fn visible_ok(g: GroupsView, from: i32, layer: i32) -> bool {
    from == 0 || (from != i32::MIN && layer != i32::MIN && abs(from as int) * g.layer_count + abs(layer as int)
        <= u32::MAX)
}

/// Whether `layer` is visible from `from`: from layer 0, the layers up to 0 are; from any
/// other, those whose flag is set.
pub open spec fn layer_visible(g: GroupsView, from: i32, layer: i32) -> bool {
    if from == 0 {
        layer <= 0
    } else {
        g.layers.contains((abs(from as int) * g.layer_count + abs(layer as int)) as u32)
    }
}

/// Away from layer 0, visibility does not depend on the signs of the two layers: a layer
/// and its opposite are seen alike, and seen alike from a layer and from its opposite.
pub proof fn visibility_ignores_signs(g: GroupsView, from: i32, layer: i32)
    requires
        from != 0,
        from != i32::MIN,
        layer != i32::MIN,
    ensures
        layer_visible(g, from, layer) == layer_visible(g, from, (-layer) as i32),
        layer_visible(g, from, layer) == layer_visible(g, (-from) as i32, layer),
{
}

/// The `i16` values that can be read from `p` on, at most `m` of them: reading stops at
/// the first value the data cannot hold.
pub open spec fn values_upto(d: Seq<u8>, p: int, m: nat) -> Seq<i16> {
    let k = if (d.len() - p) / 2 < m {
        (d.len() - p) / 2
    } else {
        m as int
    };
    Seq::new(k as nat, |j: int| i16_of(le_at(d, p + 2 * j, 2) as int) as i16)
}

/// The flags that an entry sets: row `|id|`, columns `|v|` for each value.
pub open spec fn entry_flags(id: i16, lc: u32, vs: Seq<i16>) -> Set<u32> {
    Set::new(|x: u32| exists|j: int| 0 <= j < vs.len() && x == abs(id as int) * lc + abs(#[trigger] vs[j] as int))
}

/// The flags after `n` entries from `p`, and the position after them. An entry is a row
/// id as an `i16`, a count as a `u16`, then up to that many `i16` columns (see
/// [`values_upto`]); a column of `i16::MIN` panics (its absolute value
/// overflows).
pub open spec fn entries_fold(d: Seq<u8>, lc: u32, n: nat, p: nat) -> Parsed<Set<u32>>
    decreases n,
{
    if n == 0 {
        Parsed::Done(Set::empty(), p)
    } else {
        match entries_fold(d, lc, (n - 1) as nat, p) {
            Parsed::Done(s, q) => if !fits(d, q as int, 4) {
                Parsed::Fails(ReadError::Incomplete)
            } else {
                let id = i16_of(le_at(d, q as int, 2) as int) as i16;
                let m = le_at(d, q + 2int, 2) as u16;
                let vs = values_upto(d, q + 4int, m as nat);
                if exists|j: int| 0 <= j < vs.len() && vs[j] == i16::MIN {
                    Parsed::Panics
                } else {
                    Parsed::Done(s.union(entry_flags(id, lc, vs)), (q + 4 + 2 * vs.len()) as nat)
                }
            },
            Parsed::Fails(e) => Parsed::Fails(e),
            Parsed::Panics => Parsed::Panics,
        }
    }
}

/// The table at the start of `d`: the number of layers minus one as a `u16` (65535
/// overflows and panics), the number of entries as a `u16`, then the entries.
pub open spec fn sp_groups(d: Seq<u8>) -> Parsed<GroupsView> {
    if !fits(d, 0, 2) {
        Parsed::Fails(ReadError::Incomplete)
    } else if le_at(d, 0, 2) as u16 == 65535 {
        Parsed::Panics
    } else if !fits(d, 2, 2) {
        Parsed::Fails(ReadError::Incomplete)
    } else {
        let lc = (le_at(d, 0, 2) as u16 + 1) as u32;
        match entries_fold(d, lc, le_at(d, 2, 2) as u16 as nat, 4) {
            Parsed::Done(s, q) => Parsed::Done(GroupsView { layers: s, layer_count: lc }, q),
            Parsed::Fails(e) => Parsed::Fails(e),
            Parsed::Panics => Parsed::Panics,
        }
    }
}

proof fn lemma_entries_stop(d: Seq<u8>, lc: u32, i: nat, n: nat, p: nat)
    requires
        i <= n,
        !(entries_fold(d, lc, i, p) is Done),
    ensures
        entries_fold(d, lc, n, p) == entries_fold(d, lc, i, p),
    decreases n,
{
    if n > i {
        lemma_entries_stop(d, lc, i, (n - 1) as nat, p);
    }
}

/// Reads the `i16` values from `off` on, at most `m` of them (see [`values_upto`]).
pub(crate) fn read_values_upto(bytes: &[u8], off: usize, m: u16) -> (r: (Vec<i16>, usize))
    requires
        off <= bytes@.len(),
    ensures
        r.0@ == values_upto(bytes@, off as int, m as nat),
        r.1 == off + 2 * r.0@.len(),
{
    let mut out: Vec<i16> = Vec::new();
    let mut o = off;
    let mut i: u16 = 0;
    while i < m
        invariant
            off <= o <= bytes@.len(),
            o == off + 2 * out@.len(),
            out@.len() == i,
            i <= m,
            forall|j: int| 0 <= j < i ==> out@[j] == i16_of(le_at(bytes@, off + 2 * j, 2) as int) as i16,
        decreases m - i,
    {
        match read_i16(bytes, o) {
            Some((v, o2)) => {
                assert(fits(bytes@, o as int, 2));
                assert(o + 2 <= bytes.len());
                assert(o2 == o + 2);
                assert(v == i16_of(le_at(bytes@, off + 2 * (i as int), 2) as int) as i16);
                out.push(v);
                o = o2;
            },
            None => {
                proof {
                    assert((bytes@.len() - off) / 2 == i as int);
                    assert(out@ =~= values_upto(bytes@, off as int, m as nat));
                }
                return (out, o);
            },
        }
        i = i + 1;
    }
    proof {
        assert((bytes@.len() - off) / 2 >= m as int);
        assert(out@ =~= values_upto(bytes@, off as int, m as nat));
    }
    (out, o)
}

/// Whether one of the values is `i16::MIN`.
fn has_i16_min(vs: &Vec<i16>) -> (r: bool)
    ensures
        r == exists|j: int| 0 <= j < vs@.len() && vs@[j] == i16::MIN,
{
    let mut k: usize = 0;
    while k < vs.len()
        invariant
            k <= vs@.len(),
            forall|j: int| 0 <= j < k ==> vs@[j] != i16::MIN,
        decreases vs@.len() - k,
    {
        if vs[k] == i16::MIN {
            return true;
        }
        k = k + 1;
    }
    false
}

impl Groups {
    /// Reads the table at the start of `bytes` (see [`sp_groups`]), with its size. Inputs
    /// on which [`sp_groups`] panics are left out.
    pub fn try_read(bytes: &[u8]) -> (r: Result<(Groups, usize), ReadError>)
        requires
            !(sp_groups(bytes@) is Panics),
        ensures
            match sp_groups(bytes@) {
                Parsed::Done(v, q) => r matches Ok((g, n)) && g@ == v && n == q,
                Parsed::Fails(e) => r == Err::<(Groups, usize), ReadError>(e),
                Parsed::Panics => false,
            },
    {
        match Self::read_checked(bytes) {
            Some(r) => r,
            None => Err(ReadError::BadInput),
        }
    }

    /// Reads the table at the start of `bytes` like [`Groups::try_read`], on every input:
    /// `None` where [`sp_groups`] panics.
    pub fn read_checked(bytes: &[u8]) -> (r: Option<Result<(Groups, usize), ReadError>>)
        ensures
            match sp_groups(bytes@) {
                Parsed::Done(v, q) => r matches Some(Ok((g, n))) && g@ == v && n == q,
                Parsed::Fails(e) => r == Some(Err::<(Groups, usize), ReadError>(e)),
                Parsed::Panics => r is None,
            },
    {
        let ghost d = bytes@;
        let (raw, _) = match read_u16(bytes, 0) {
            Some(x) => x,
            None => return Some(Err(ReadError::Incomplete)),
        };
        if raw == 65535 {
            return None;
        }
        let layer_count: u32 = (raw + 1) as u32;
        let (len, _) = match read_u16(bytes, 2) {
            Some(x) => x,
            None => return Some(Err(ReadError::Incomplete)),
        };
        let mut layers: HashSet<u32> = HashSet::new();
        let mut offset: usize = 4;
        let mut e: u16 = 0;
        while e < len
            invariant
                d == bytes@,
                e <= len,
                layer_count as int == le_at(d, 0, 2) as u16 + 1,
                fits(d, 0, 4),
                le_at(d, 0, 2) as u16 != 65535,
                1 <= layer_count <= 65535,
                len == le_at(d, 2, 2) as u16,
                entries_fold(d, layer_count, e as nat, 4) == Parsed::Done(layers@, offset as nat),
                offset <= d.len(),
            decreases len - e,
        {
            if offset > bytes.len() || bytes.len() - offset < 4 {
                proof {
                    lemma_entries_stop(d, layer_count, (e + 1) as nat, len as nat, 4);
                }
                return Some(Err(ReadError::Incomplete));
            }
            let (id, _) = read_i16(bytes, offset).unwrap();
            let (m, _) = read_u16(bytes, offset + 2).unwrap();
            let (vs, o) = read_values_upto(bytes, offset + 4, m);
            if has_i16_min(&vs) {
                proof {
                    lemma_entries_stop(d, layer_count, (e + 1) as nat, len as nat, 4);
                }
                return None;
            }
            let aid: u32 = (if id < 0 { -(id as i32) } else { id as i32 }) as u32;
            assert(aid as int * layer_count as int <= 32768 * 65535) by (nonlinear_arith)
                requires
                    aid <= 32768,
                    layer_count <= 65535,
            ;
            let row: u32 = aid * layer_count;
            let ghost before = layers@;
            let mut j: usize = 0;
            while j < vs.len()
                invariant
                    0 <= row <= 32768 * 65535,
                    row as int == abs(id as int) * layer_count,
                    j <= vs@.len(),
                    forall|k: int| 0 <= k < vs@.len() ==> vs@[k] != i16::MIN,
                    layers@ == before.union(entry_flags(id, layer_count, vs@.subrange(0, j as int))),
                decreases vs@.len() - j,
            {
                let v = vs[j];
                let col: u32 = (if v < 0 { -v } else { v }) as u32;
                layers.insert(row + col);
                proof {
                    let a = before.union(entry_flags(id, layer_count, vs@.subrange(0, j + 1)));
                    assert forall|x: u32| #[trigger] a.contains(x) == layers@.contains(x) by {
                        if entry_flags(id, layer_count, vs@.subrange(0, j + 1)).contains(x) && !before.contains(x) {
                            let k = choose|k: int| 0 <= k < j + 1 && x == abs(id as int) * layer_count + abs(#[trigger] vs@.subrange(0, j + 1)[k] as int);
                            if k < j {
                                assert(vs@.subrange(0, j as int)[k] == vs@.subrange(0, j + 1)[k]);
                                assert(entry_flags(id, layer_count, vs@.subrange(0, j as int)).contains(x));
                            }
                        }
                        if entry_flags(id, layer_count, vs@.subrange(0, j as int)).contains(x) {
                            let k = choose|k: int| 0 <= k < j && x == abs(id as int) * layer_count + abs(#[trigger] vs@.subrange(0, j as int)[k] as int);
                            assert(vs@.subrange(0, j as int)[k] == vs@.subrange(0, j + 1)[k]);
                        }
                        if x == row + col {
                            assert(vs@.subrange(0, j + 1)[j as int] == v);
                        }
                    }
                    assert(a =~= layers@);
                }
                j = j + 1;
            }
            proof {
                assert(vs@.subrange(0, vs@.len() as int) =~= vs@);
            }
            offset = o;
            e = e + 1;
        }
        Some(Ok((Groups { layers, layer_count }, offset)))
    }

    /// Whether `layer` is visible from `from` (see [`layer_visible`]).
    pub fn is_layer_visible(&self, from: i32, layer: i32) -> (r: bool)
        requires
            visible_ok(self@, from, layer),
        ensures
            r == layer_visible(self@, from, layer),
    {
        if from == 0 {
            return layer <= 0;
        }
        let f = (if from < 0 { -from } else { from }) as u32;
        let l = (if layer < 0 { -layer } else { layer }) as u32;
        assert(f as int * self.layer_count as int + l as int <= u32::MAX);
        let fl = f as u64 * self.layer_count as u64;
        assert(fl == f as int * self.layer_count as int) by (nonlinear_arith)
            requires
                fl == f as u64 * self.layer_count as u64,
                f <= u32::MAX,
                self.layer_count <= u32::MAX,
        ;
        let key: u32 = (fl + l as u64) as u32;
        self.layers.contains(&key)
    }
}

/// The name of the entry that holds the groups.
pub open spec fn groups_entry_name() -> Seq<char> {
    seq!['g', 'r', 'o', 'u', 'p', 's', '.', 'l', 'i', 'b']
}

/// What loading the groups gives from entry `i` on of `archive`, which has `n` entries:
/// the first entry named `groups.lib`, read (see [`sp_groups`]); `Missing` when no entry
/// has that name; `Unzip` at the first entry whose name or contents cannot be had before
/// it; `None` where reading panics.
pub open spec fn groups_scan(archive: Seq<u8>, i: int, n: int) -> Option<Result<GroupsView, LoadError>>
    decreases n - i,
{
    if i >= n {
        Some(Err(LoadError::Missing))
    } else {
        match zip_entry_name(archive, i) {
            None => Some(Err(LoadError::Unzip)),
            Some(name) => if name == groups_entry_name() {
                match zip_entry_bytes(archive, i) {
                    None => Some(Err(LoadError::Unzip)),
                    Some(b) => match sp_groups(b) {
                        Parsed::Done(v, _) => Some(Ok(v)),
                        Parsed::Fails(e) => Some(Err(LoadError::Read(e))),
                        Parsed::Panics => None,
                    },
                }
            } else {
                groups_scan(archive, i + 1, n)
            },
        }
    }
}

/// What loading the groups of the zip archive `archive` gives (see [`groups_scan`]):
/// `Unzip` when the archive cannot be opened.
pub open spec fn groups_load(archive: Seq<u8>) -> Option<Result<GroupsView, LoadError>> {
    match zip_entry_count(archive) {
        None => Some(Err(LoadError::Unzip)),
        Some(n) => groups_scan(archive, 0, n as int),
    }
}

impl Groups {
    /// Loads the groups of a map from its zip archive (see [`groups_load`]); `None` where
    /// reading panics.
    pub fn load(archive: &[u8]) -> (r: Option<Result<Groups, LoadError>>)
        ensures
            match groups_load(archive@) {
                None => r is None,
                Some(Ok(v)) => r matches Some(Ok(g)) && g@ == v,
                Some(Err(e)) => r matches Some(Err(e2)) && e2 == e,
            },
    {
        let n = match zip_count(archive) {
            Some(n) => n,
            None => return Some(Err(LoadError::Unzip)),
        };
        let target: String = "groups.lib".to_owned();
        proof {
            reveal_strlit("groups.lib");
            assert(target@ =~= groups_entry_name());
        }
        let mut i: usize = 0;
        while i < n
            invariant
                i <= n,
                zip_entry_count(archive@) == Some(n),
                target@ == groups_entry_name(),
                groups_scan(archive@, i as int, n as int) == groups_load(archive@),
            decreases n - i,
        {
            let name = match zip_name(archive, i) {
                Some(s) => s,
                None => return Some(Err(LoadError::Unzip)),
            };
            if name == target {
                let bytes = match zip_bytes(archive, i) {
                    Some(b) => b,
                    None => return Some(Err(LoadError::Unzip)),
                };
                return match Groups::read_checked(&bytes) {
                    None => None,
                    Some(Err(e)) => Some(Err(LoadError::Read(e))),
                    Some(Ok((g, _))) => Some(Ok(g)),
                };
            }
            i = i + 1;
        }
        Some(Err(LoadError::Missing))
    }
}

} // verus!
