//! The binary data tables of the client: a header of obfuscated entries and indexes,
//! followed by the records the entries point into.
//!
//! The file is little-endian. Its first `i32` plus 756423 is the version, which with the
//! table's type number seeds the obfuscation.
use vstd::prelude::*;
use crate::error::{LoadError, ReadError};
use crate::archive::{zip_bytes, zip_entry_bytes};
use bytebuffer::ByteBuffer;
use std::collections::HashMap;
use crate::buffer::{
    buffer_data, buffer_pos, buffer_little_endian, buffer_bit_pending, buffer_from_vec,
    buffer_from_bytes, buffer_to_vec, buffer_set_little_endian, buffer_set_rpos, buffer_get_rpos,
    buffer_read_i32, uint_at, i32_of,
};
use crate::random_byte_buffer_reader::{
    RandomByteBufferReader, RandomReaderView, rr_byte, rr_int, rr_long, rr_utf8, cursor, settled,
    same_source, group_reads_settled,
};
use crate::anm_frame::loop_count;

verus! {

/// An entry of the table: a record's id, where it starts, its size and the seed it is
/// read with.
#[derive(Clone, Copy, Debug, PartialEq, Eq, Structural)]
pub struct Entry {
    pub id: i64,
    pub position: i32,
    pub size: i32,
    pub seed: i8,
}

impl View for Entry {
    type V = Entry;

    open spec fn view(&self) -> Entry {
        *self
    }
}

/// An entry: its id as an obfuscated `i64`, its position and size as obfuscated `i32`
/// values, then its seed as an obfuscated `i8`.
pub open spec fn rr_entry(v: RandomReaderView) -> Option<(Entry, RandomReaderView)> {
    match rr_long(v) {
        Some((id, v1)) => match rr_int(v1) {
            Some((position, v2)) => match rr_int(v2) {
                Some((size, v3)) => match rr_byte(v3) {
                    Some((seed, v4)) => Some((Entry { id, position, size, seed }, v4)),
                    None => None,
                },
                None => None,
            },
            None => None,
        },
        None => None,
    }
}

/// `n` entries.
pub open spec fn rr_entries(v: RandomReaderView, n: nat) -> Option<(Seq<Entry>, RandomReaderView)>
    decreases n,
{
    if n == 0 {
        Some((Seq::empty(), v))
    } else {
        match rr_entries(v, (n - 1) as nat) {
            Some((s, v1)) => match rr_entry(v1) {
                Some((e, v2)) => Some((s.push(e), v2)),
                None => None,
            },
            None => None,
        }
    }
}

/// An index that maps record ids to positions.
#[derive(Debug)]
pub struct Unique {
    pub indexes: HashMap<i64, i32>,
}

/// `n` pairs of an obfuscated `i64` id and an obfuscated `i32` value, added to `m` one
/// after the other.
pub open spec fn rr_pairs(v: RandomReaderView, n: nat, m: Map<i64, i32>) -> Option<(Map<i64, i32>, RandomReaderView)>
    decreases n,
{
    if n == 0 {
        Some((m, v))
    } else {
        match rr_pairs(v, (n - 1) as nat, m) {
            Some((m1, v1)) => match rr_long(v1) {
                Some((k, v2)) => match rr_int(v2) {
                    Some((x, v3)) => Some((m1.insert(k, x), v3)),
                    None => None,
                },
                None => None,
            },
            None => None,
        }
    }
}

impl Unique {
    /// An empty index with room for `count` entries; it never fails. A negative count
    /// is left out.
    pub fn load(count: i32) -> (r: Result<Self, ReadError>)
        requires
            count >= 0,
        ensures
            r matches Ok(u) && u.indexes@ == Map::<i64, i32>::empty(),
    {
        Ok(Unique { indexes: HashMap::with_capacity(count as usize) })
    }

    /// Reads the value of record `idx`.
    pub fn read_entry(&mut self, idx: i64, buffer: &mut RandomByteBufferReader)
        requires
            rr_int(old(buffer)@) is Some,
        ensures
            rr_int(old(buffer)@) matches Some((x, v)) && final(buffer)@ == v && final(self).indexes@
                == old(self).indexes@.insert(idx, x),
    {
        let x = buffer.get_int();
        self.indexes.insert(idx, x);
    }
}

/// A named index of a table.
#[derive(Debug)]
pub struct Index {
    pub name: Vec<u8>,
    pub hash: Unique,
}

/// An index: whether it is unique as an obfuscated `i8`, its name, the entry count as an
/// obfuscated `i32` (a negative one panics), then the entries. Both kinds are
/// read the same way.
pub open spec fn rr_index(v: RandomReaderView) -> Option<((Seq<u8>, Map<i64, i32>), RandomReaderView)> {
    match rr_byte(v) {
        Some((_unique, v1)) => match rr_utf8(v1) {
            Some((name, v2)) => match rr_int(v2) {
                Some((count, v3)) => if count < 0 {
                    None
                } else {
                    match rr_pairs(v3, count as nat, Map::empty()) {
                        Some((m, v4)) => Some(((name, m), v4)),
                        None => None,
                    }
                },
                None => None,
            },
            None => None,
        },
        None => None,
    }
}

proof fn lemma_pairs_fail(v: RandomReaderView, i: nat, n: nat, m: Map<i64, i32>)
    requires
        i <= n,
        rr_pairs(v, i, m) is None,
    ensures
        rr_pairs(v, n, m) is None,
    decreases n,
{
    if n > i {
        lemma_pairs_fail(v, i, (n - 1) as nat, m);
    }
}

impl Index {
    /// Reads an index (see [`rr_index`]). It must not be called
    /// where [`rr_index`] is `None`.
    pub fn create_index(buffer: &mut RandomByteBufferReader) -> (r: Result<Index, ReadError>)
        requires
            rr_index(old(buffer)@) is Some,
        ensures
            r matches Ok(i) && rr_index(old(buffer)@) == Some(((i.name@, i.hash.indexes@), final(buffer)@)),
    {
        match Self::create_index_checked(buffer) {
            Some(i) => Ok(i),
            None => Err(ReadError::BadInput),
        }
    }

    /// Reads an index like [`Index::create_index`], on every input: `None` where
    /// [`rr_index`] is `None`.
    pub fn create_index_checked(buffer: &mut RandomByteBufferReader) -> (r: Option<Index>)
        ensures
            match rr_index(old(buffer)@) {
                Some(((name, m), v)) => r matches Some(i) && i.name@ == name && i.hash.indexes@ == m
                    && final(buffer)@ == v,
                None => r is None,
            },
    {
        let _is_unique = match buffer.try_get_byte() {
            Some(b) => b != 0,
            None => return None,
        };
        let name = match buffer.try_read_utf8() {
            Some(v) => v,
            None => return None,
        };
        let count = match buffer.try_get_int() {
            Some(v) => v,
            None => return None,
        };
        if count < 0 {
            return None;
        }
        let ghost v3 = buffer@;
        let mut unique = Unique::load(count).unwrap();
        let mut i: i32 = 0;
        while i < count
            invariant
                0 <= i <= count,
                rr_pairs(v3, i as nat, Map::empty()) == Some((unique.indexes@, buffer@)),
                rr_index(old(buffer)@) == (match rr_pairs(v3, count as nat, Map::empty()) {
                    Some((m, v4)) => Some(((name@, m), v4)),
                    None => None,
                }),
            decreases count - i,
        {
            let idx = match buffer.try_get_long() {
                Some(v) => v,
                None => {
                    proof {
                        lemma_pairs_fail(v3, (i + 1) as nat, count as nat, Map::empty());
                    }
                    return None;
                },
            };
            let x = match buffer.try_get_int() {
                Some(v) => v,
                None => {
                    proof {
                        lemma_pairs_fail(v3, (i + 1) as nat, count as nat, Map::empty());
                    }
                    return None;
                },
            };
            unique.indexes.insert(idx, x);
            i = i + 1;
        }
        Some(Index { name, hash: unique })
    }

    pub fn get_name(&self) -> (r: &Vec<u8>)
        ensures
            r@ == self.name@,
    {
        &self.name
    }
}

/// `n` indexes.
pub open spec fn rr_indexes(v: RandomReaderView, n: nat) -> Option<(Seq<(Seq<u8>, Map<i64, i32>)>, RandomReaderView)>
    decreases n,
{
    if n == 0 {
        Some((Seq::empty(), v))
    } else {
        match rr_indexes(v, (n - 1) as nat) {
            Some((s, v1)) => match rr_index(v1) {
                Some((x, v2)) => Some((s.push(x), v2)),
                None => None,
            },
            None => None,
        }
    }
}

/// A table: its entries, its indexes and the reader of its records.
#[derive(Debug)]
pub struct BinaryDocument {
    pub entries: Vec<Entry>,
    /// The indexes in the order they are stored (they are looked up by name).
    pub indexes: Vec<Index>,
    pub buffer: RandomByteBufferReader,
}

/// The version of a table: its first little-endian `i32` plus 756423.
pub open spec fn table_version(d: Seq<u8>) -> int {
    i32_of(uint_at(d, 0, 4, true) as int) + 756423
}

/// The reader of a table's header: over all of `d` from offset 4, little-endian, seeded by
/// the type and the version.
pub open spec fn header_reader(d: Seq<u8>, data_type: u32) -> RandomReaderView {
    RandomReaderView {
        data: d,
        pos: 4,
        le: true,
        pending: false,
        seed: ((data_type as i32) ^ (table_version(d) as i32)) as i8,
        add: table_version(d) as i32,
        mult: data_type as i32,
    }
}

/// What a table holds, and the reader its header leaves: the entries (their count as an
/// obfuscated `i32`, a negative one panicking), then the indexes (their count
/// as an obfuscated `i8`, none for a negative one). `None` where reading panics: the
/// data too short for the version, a version past `i32::MAX`, or a header that does not
/// read.
pub open spec fn sp_table_header(d: Seq<u8>, data_type: u32) -> Option<(Seq<Entry>, Seq<(Seq<u8>, Map<i64, i32>)>, RandomReaderView)> {
    if d.len() < 4 || table_version(d) > i32::MAX {
        None
    } else {
        match rr_int(header_reader(d, data_type)) {
            Some((n, v1)) => if n < 0 {
                None
            } else {
                match rr_entries(v1, n as nat) {
                    Some((entries, v2)) => match rr_byte(v2) {
                        Some((ni, v3)) => match rr_indexes(v3, loop_count(ni as int)) {
                            Some((indexes, v4)) => Some((entries, indexes, v4)),
                            None => None,
                        },
                        None => None,
                    },
                    None => None,
                }
            },
            None => None,
        }
    }
}

/// The reader of a table's records: over the bytes after the header, from their start,
/// little-endian, seeded as the header's.
pub open spec fn records_reader(d: Seq<u8>, data_type: u32, header_end: int) -> RandomReaderView {
    RandomReaderView {
        data: d.subrange(header_end, d.len() as int),
        pos: 0,
        le: true,
        pending: false,
        seed: ((data_type as i32) ^ (table_version(d) as i32)) as i8,
        add: table_version(d) as i32,
        mult: data_type as i32,
    }
}

proof fn lemma_entries_settled(v: RandomReaderView, n: nat)
    requires
        settled(v),
        rr_entries(v, n) is Some,
    ensures
        rr_entries(v, n) matches Some((_s, v2)) && settled(v2) && same_source(v, v2),
    decreases n,
{
    broadcast use group_reads_settled;

    if n > 0 {
        lemma_entries_settled(v, (n - 1) as nat);
    }
}

proof fn lemma_pairs_settled(v: RandomReaderView, n: nat, m: Map<i64, i32>)
    requires
        settled(v),
        rr_pairs(v, n, m) is Some,
    ensures
        rr_pairs(v, n, m) matches Some((_s, v2)) && settled(v2) && same_source(v, v2),
    decreases n,
{
    broadcast use group_reads_settled;

    if n > 0 {
        lemma_pairs_settled(v, (n - 1) as nat, m);
    }
}

proof fn lemma_indexes_settled(v: RandomReaderView, n: nat)
    requires
        settled(v),
        rr_indexes(v, n) is Some,
    ensures
        rr_indexes(v, n) matches Some((_s, v2)) && settled(v2) && same_source(v, v2),
    decreases n,
{
    broadcast use group_reads_settled;

    if n > 0 {
        lemma_indexes_settled(v, (n - 1) as nat);
        let (_prev, v1) = rr_indexes(v, (n - 1) as nat)->0;
        match rr_byte(v1) {
            Some((_u, w1)) => match rr_utf8(w1) {
                Some((_name, w2)) => match rr_int(w2) {
                    Some((count, w3)) => {
                        if count >= 0 {
                            lemma_pairs_settled(w3, count as nat, Map::empty());
                        }
                    },
                    None => {},
                },
                None => {},
            },
            None => {},
        }
    }
}

proof fn lemma_entries_fail(v: RandomReaderView, i: nat, n: nat)
    requires
        i <= n,
        rr_entries(v, i) is None,
    ensures
        rr_entries(v, n) is None,
    decreases n,
{
    if n > i {
        lemma_entries_fail(v, i, (n - 1) as nat);
    }
}

proof fn lemma_indexes_fail(v: RandomReaderView, i: nat, n: nat)
    requires
        i <= n,
        rr_indexes(v, i) is None,
    ensures
        rr_indexes(v, n) is None,
    decreases n,
{
    if n > i {
        lemma_indexes_fail(v, i, (n - 1) as nat);
    }
}

/// The views of a list of indexes.
pub open spec fn indexes_view(v: Seq<Index>) -> Seq<(Seq<u8>, Map<i64, i32>)> {
    v.map_values(|x: Index| (x.name@, x.hash.indexes@))
}

impl BinaryDocument {
    /// Reads the table held by the first entry of the zip archive `archive`, `data_type`
    /// being its type number: `Unzip` when the entry cannot be had (see
    /// [`zip_entry_bytes`]), `None` where reading its contents panics (see
    /// [`sp_table_header`]), else the table as [`BinaryDocument::from_bytes`] reads it.
    pub fn load(archive: &[u8], data_type: u32) -> (r: Option<Result<BinaryDocument, LoadError>>)
        ensures
            match zip_entry_bytes(archive@, 0) {
                None => r matches Some(Err(LoadError::Unzip)),
                Some(b) => match sp_table_header(b, data_type) {
                    None => r is None,
                    Some((entries, indexes, v)) => r matches Some(Ok(doc)) && doc.entries@ == entries
                        && indexes_view(doc.indexes@) == indexes && doc.buffer@ == records_reader(
                        b,
                        data_type,
                        cursor(v),
                    ),
                },
            },
    {
        let bin_data = match zip_bytes(archive, 0) {
            Some(v) => v,
            None => return Some(Err(LoadError::Unzip)),
        };
        match Self::from_bytes_checked(bin_data, data_type) {
            Some(doc) => Some(Ok(doc)),
            None => None,
        }
    }

    /// Reads a table from its bytes (see [`sp_table_header`] and [`records_reader`]),
    /// `data_type` being its type number. It must not be called
    /// where [`sp_table_header`] is `None`.
    pub fn from_bytes(bin_data: Vec<u8>, data_type: u32) -> (r: BinaryDocument)
        requires
            sp_table_header(bin_data@, data_type) is Some,
        ensures
            sp_table_header(bin_data@, data_type) matches Some((entries, indexes, v)) && r.entries@ == entries
                && indexes_view(r.indexes@) == indexes && r.buffer@ == records_reader(
                bin_data@,
                data_type,
                cursor(v),
            ),
    {
        match Self::from_bytes_checked(bin_data, data_type) {
            Some(doc) => doc,
            None => BinaryDocument {
                entries: Vec::new(),
                indexes: Vec::new(),
                buffer: RandomByteBufferReader::load(buffer_from_vec(Vec::new()), 0, 0).unwrap(),
            },
        }
    }

    /// Reads a table like [`BinaryDocument::from_bytes`], on every input: `None` where
    /// [`sp_table_header`] is `None`.
    pub fn from_bytes_checked(bin_data: Vec<u8>, data_type: u32) -> (r: Option<BinaryDocument>)
        ensures
            match sp_table_header(bin_data@, data_type) {
                Some((entries, indexes, v)) => r matches Some(doc) && doc.entries@ == entries
                    && indexes_view(doc.indexes@) == indexes && doc.buffer@ == records_reader(
                    bin_data@,
                    data_type,
                    cursor(v),
                ),
                None => r is None,
            },
    {
        let ghost d = bin_data@;
        let mut buffer = buffer_from_vec(bin_data);
        buffer_set_little_endian(&mut buffer);
        let first = match buffer_read_i32(&mut buffer) {
            Some(v) => v,
            None => return None,
        };
        proof {
            crate::bytes::lemma_uint_le_4(d.subrange(0, 4));
        }
        if first > i32::MAX - 756423 {
            return None;
        }
        let version = first + 756423;
        let all = buffer_to_vec(&buffer);
        let mut sliced = buffer_from_bytes(all.as_slice());
        buffer_set_rpos(&mut sliced, buffer_get_rpos(&buffer));
        buffer_set_little_endian(&mut sliced);
        let mut rand_buffer = RandomByteBufferReader::load(sliced, data_type as i32, version).unwrap();
        assert(rand_buffer@ == header_reader(d, data_type));
        let entry_count: i32 = match rand_buffer.try_get_int() {
            Some(v) => v,
            None => return None,
        };
        if entry_count < 0 {
            return None;
        }
        let ghost v1 = rand_buffer@;
        let mut entries: Vec<Entry> = Vec::new();
        let mut i: i32 = 0;
        while i < entry_count
            invariant
                0 <= i <= entry_count,
                rr_entries(v1, i as nat) == Some((entries@, rand_buffer@)),
                d == bin_data@,
                rr_entries(v1, entry_count as nat) is None ==> sp_table_header(d, data_type) is None,
            decreases entry_count - i,
        {
            let ghost at = rand_buffer@;
            let id = rand_buffer.try_get_long();
            let position = rand_buffer.try_get_int();
            let size = rand_buffer.try_get_int();
            let seed = rand_buffer.try_get_byte();
            let (id, position, size, seed) = match (id, position, size, seed) {
                (Some(a), Some(b), Some(c), Some(e)) => (a, b, c, e),
                _ => {
                    proof {
                        assert(rr_entry(at) is None);
                        lemma_entries_fail(v1, (i + 1) as nat, entry_count as nat);
                    }
                    return None;
                },
            };
            entries.push(Entry { id, position, size, seed });
            i = i + 1;
        }
        let index_count: i8 = match rand_buffer.try_get_byte() {
            Some(v) => v,
            None => return None,
        };
        let ghost v3 = rand_buffer@;
        let mut indexes: Vec<Index> = Vec::new();
        proof {
            assert(indexes_view(indexes@) =~= Seq::<(Seq<u8>, Map<i64, i32>)>::empty());
        }
        let mut k: i8 = 0;
        while k < index_count
            invariant
                0 <= k,
                index_count >= 0 ==> k <= index_count,
                index_count < 0 ==> k == 0,
                rr_indexes(v3, k as nat) == Some((indexes_view(indexes@), rand_buffer@)),
                d == bin_data@,
                rr_indexes(v3, loop_count(index_count as int)) is None ==> sp_table_header(d, data_type) is None,
            decreases index_count - k,
        {
            let index = match Index::create_index_checked(&mut rand_buffer) {
                Some(x) => x,
                None => {
                    proof {
                        lemma_indexes_fail(v3, (k + 1) as nat, loop_count(index_count as int));
                    }
                    return None;
                },
            };
            let ghost before = indexes_view(indexes@);
            indexes.push(index);
            proof {
                assert(indexes_view(indexes@) =~= before.push((index.name@, index.hash.indexes@)));
            }
            k = k + 1;
        }
        proof {
            assert(loop_count(index_count as int) == k as nat);
        }
        let ghost vf = rand_buffer@;
        proof {
            broadcast use group_reads_settled;

            assert(settled(v1));
            lemma_entries_settled(v1, entry_count as nat);
            lemma_indexes_settled(v3, k as nat);
        }
        let pos = rand_buffer.get_buffer_rpos();
        let all2 = buffer_to_vec(&buffer);
        let mut rest: Vec<u8> = Vec::new();
        let mut j: usize = pos;
        while j < all2.len()
            invariant
                pos <= j <= all2@.len(),
                all2@ == d,
                rest@ == d.subrange(pos as int, j as int),
            decreases all2@.len() - j,
        {
            rest.push(all2[j]);
            proof {
                assert(rest@ =~= d.subrange(pos as int, j + 1));
            }
            j = j + 1;
        }
        let mut res_sliced = buffer_from_bytes(rest.as_slice());
        buffer_set_little_endian(&mut res_sliced);
        let res_buffer = RandomByteBufferReader::load(res_sliced, data_type as i32, version).unwrap();
        Some(BinaryDocument { entries, indexes, buffer: res_buffer })
    }
}

} // verus!
