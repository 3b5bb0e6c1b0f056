//! The data block of an interactive element: a table of contents of parts, each part a
//! kind number and an offset, followed by the parts themselves.
use vstd::prelude::*;
use bytebuffer::ByteBuffer;
use crate::error::ReadError;
use crate::parse::{Parsed, sp_i8, sp_i32, sp_many, lemma_many_fails, dat, pos, le, read_i8, read_i32};
use crate::buffer::{
    buffer_data, buffer_pos, buffer_bit_pending, buffer_len, buffer_set_rpos, buffer_get_rpos, buffer_read_bytes,
    buffer_from_vec,
};
use crate::binar_serial_part::{BinarSerialParts, BinarSerialPartsEnum, PartView, sp_part};

verus! {

/// The parts of an interactive element.
#[derive(Clone, Debug)]
pub struct InteractiveElementData {
    pub data: Vec<BinarSerialPartsEnum>,
}

/// The views of a list of parts.
pub open spec fn parts_view(v: Seq<BinarSerialPartsEnum>) -> Seq<PartView> {
    v.map_values(|x: BinarSerialPartsEnum| x@)
}

pub open spec fn toc_fn(d: Seq<u8>, le: bool) -> spec_fn(nat) -> Option<((i8, i32), nat)> {
    |p: nat| match sp_i8(d, p) {
        Some((k, q)) => match sp_i32(d, q, le) {
            Some((o, q2)) => Some(((k, o), q2)),
            None => None,
        },
        None => None,
    }
}

/// The size of part `i` of a table of contents over `len` bytes: up to the next part's
/// offset, or to the end for the last part, less the kind byte at the part's start.
pub open spec fn part_size(toc: Seq<(i8, i32)>, i: int, len: usize) -> int {
    if i < toc.len() - 1 {
        toc[i + 1].1 - toc[i].1 - 1
    } else {
        (len as i32) - toc[i].1 - 1
    }
}

/// Part `i` of the table of contents over data `d`: parts of kind 0 to 5 are read, others
/// skipped (`None`). A part starts one byte after its offset (taken as an unsigned number,
/// so that a negative offset wraps past the end; at most the end of the data). `Panics` where reading panics: a size or start that
/// overflows, or a part that does not read; `Fails(Incomplete)` where the part runs past
/// the data.
pub open spec fn part_at(d: Seq<u8>, index: i8, offset: i32, size: int, version: i32) -> Parsed<Option<PartView>> {
    if size < i32::MIN || size > i32::MAX {
        Parsed::Panics
    } else if !(0 <= index && index < 6) {
        Parsed::Done(None, 0)
    } else if offset == -1 {
        Parsed::Panics
    } else {
        let start_raw: int = if offset >= 0 {
            offset + 1
        } else {
            usize::MAX + 2 + offset
        };
        let start: int = if start_raw <= d.len() {
            start_raw
        } else {
            d.len() as int
        };
        let want = (size as i32) as usize;
        if start + want > usize::MAX {
            Parsed::Panics
        } else if start + want > d.len() {
            Parsed::Fails(ReadError::Incomplete)
        } else {
            match sp_part(index as u8, d.subrange(start, start + want), 0, false) {
                Some(Ok(v)) => Parsed::Done(Some(v), 0),
                _ => Parsed::Panics,
            }
        }
    }
}

/// The parts after the first `n` entries of the table of contents (see [`part_at`]).
pub open spec fn parts_fold(d: Seq<u8>, toc: Seq<(i8, i32)>, version: i32, n: nat) -> Parsed<Seq<PartView>>
    decreases n,
{
    if n == 0 {
        Parsed::Done(Seq::empty(), 0)
    } else {
        match parts_fold(d, toc, version, (n - 1) as nat) {
            Parsed::Done(parts, _q) => match part_at(
                d,
                toc[n - 1].0,
                toc[n - 1].1,
                part_size(toc, n - 1, d.len() as usize),
                version,
            ) {
                Parsed::Done(Some(v), _q2) => Parsed::Done(parts.push(v), 0),
                Parsed::Done(None, _q2) => Parsed::Done(parts, 0),
                Parsed::Fails(e) => Parsed::Fails(e),
                Parsed::Panics => Parsed::Panics,
            },
            Parsed::Fails(e) => Parsed::Fails(e),
            Parsed::Panics => Parsed::Panics,
        }
    }
}

/// Reads part `index` at `offset` of `size` bytes (see [`part_at`]); `None` where
/// [`part_at`] panics.
fn read_part(buf: &mut ByteBuffer, index: i8, offset: i32, size: i64, version: i32) -> (r: Option<Result<Option<BinarSerialPartsEnum>, ReadError>>)
    requires
        !buffer_bit_pending(*old(buf)),
    ensures
        buffer_data(*final(buf)) == buffer_data(*old(buf)),
        !buffer_bit_pending(*final(buf)),
        match part_at(buffer_data(*old(buf)), index, offset, size as int, version) {
            Parsed::Done(Some(v), _q) => r matches Some(Ok(Some(x))) && x@ == v,
            Parsed::Done(None, _q) => r matches Some(Ok(None)),
            Parsed::Fails(e) => r == Some(Err::<Option<BinarSerialPartsEnum>, ReadError>(e)),
            Parsed::Panics => r is None,
        },
{
    if size < i32::MIN as i64 || size > i32::MAX as i64 {
        return None;
    }
    let size = size as i32;
    if index >= 0 && index < 6 {
        if offset == -1 {
            return None;
        }
        let start: usize = if offset >= 0 {
            offset as usize + 1
        } else {
            usize::MAX - ((-(offset as i64) - 2) as usize)
        };
        buffer_set_rpos(buf, start);
        let want = size as usize;
        let at = buffer_get_rpos(buf);
        if want > usize::MAX - at {
            return None;
        }
        let part_buffer = match buffer_read_bytes(buf, want) {
            Some(v) => v,
            None => return Some(Err(ReadError::Incomplete)),
        };
        let serialized_data = buffer_from_vec(part_buffer);
        match BinarSerialParts::unserialize_checked(index as u8, serialized_data, version) {
            Some(Ok(x)) => Some(Ok(Some(x))),
            _ => None,
        }
    } else {
        Some(Ok(None))
    }
}

/// The data block read from `d` at `p`: the number of parts as an `i8` (a negative one
/// panics), the table of contents (each entry a kind as an `i8` and an offset
/// as an `i32`), then the parts (see [`parts_fold`]).
pub open spec fn sp_element_data(d: Seq<u8>, p: nat, le: bool, version: i32) -> Parsed<Seq<PartView>> {
    match sp_i8(d, p) {
        None => Parsed::Fails(ReadError::Incomplete),
        Some((n, q)) => if n < 0 {
            Parsed::Panics
        } else {
            match sp_many(n as nat, q, toc_fn(d, le)) {
                None => Parsed::Fails(ReadError::Incomplete),
                Some((toc, _q2)) => parts_fold(d, toc, version, n as nat),
            }
        },
    }
}

proof fn lemma_parts_stop(d: Seq<u8>, toc: Seq<(i8, i32)>, version: i32, i: nat, n: nat)
    requires
        i <= n,
        !(parts_fold(d, toc, version, i) is Done),
    ensures
        parts_fold(d, toc, version, n) == parts_fold(d, toc, version, i),
    decreases n,
{
    if n > i {
        lemma_parts_stop(d, toc, version, i, (n - 1) as nat);
    }
}

impl InteractiveElementData {
    /// Reads a data block from `bytes` (see [`sp_element_data`]). Inputs on which
    /// [`sp_element_data`] panics are left out.
    pub fn read(bytes: ByteBuffer, version: i32) -> (r: Result<InteractiveElementData, ReadError>)
        requires
            !(sp_element_data(dat(bytes), pos(bytes), le(bytes), version) is Panics),
        ensures
            match sp_element_data(dat(bytes), pos(bytes), le(bytes), version) {
                Parsed::Done(v, _q) => r matches Ok(x) && parts_view(x.data@) == v,
                Parsed::Fails(e) => r == Err::<InteractiveElementData, ReadError>(e),
                Parsed::Panics => false,
            },
    {
        match Self::read_checked(bytes, version) {
            Some(r) => r,
            None => Err(ReadError::BadInput),
        }
    }

    /// Reads a data block like [`InteractiveElementData::read`], on every input: `None`
    /// where [`sp_element_data`] panics.
    pub fn read_checked(bytes: ByteBuffer, version: i32) -> (r: Option<Result<InteractiveElementData, ReadError>>)
        ensures
            match sp_element_data(dat(bytes), pos(bytes), le(bytes), version) {
                Parsed::Done(v, _q) => r matches Some(Ok(x)) && parts_view(x.data@) == v,
                Parsed::Fails(e) => r == Some(Err::<InteractiveElementData, ReadError>(e)),
                Parsed::Panics => r is None,
            },
    {
        let mut buf = bytes;
        let ghost d = dat(bytes);
        let ghost l = le(bytes);
        let toc_length = match read_i8(&mut buf) {
            Ok(v) => v,
            Err(e) => return Some(Err(e)),
        };
        if toc_length < 0 {
            return None;
        }
        let ghost q0 = pos(buf);
        let mut toc_index: Vec<i8> = Vec::new();
        let mut toc_offset: Vec<i32> = Vec::new();
        let ghost mut toc: Seq<(i8, i32)> = Seq::empty();
        let mut i: i8 = 0;
        while i < toc_length
            invariant
                d == dat(bytes),
                l == le(bytes),
                d == dat(buf),
                l == le(buf),
                0 <= i <= toc_length,
                toc.len() == i,
                toc_index@.len() == i,
                toc_offset@.len() == i,
                forall|k: int| 0 <= k < i ==> toc[k] == (toc_index@[k], toc_offset@[k]),
                sp_i8(d, pos(bytes)) == Some((toc_length, q0)),
                sp_many(i as nat, q0, toc_fn(d, l)) == Some((toc, pos(buf))),
                !buffer_bit_pending(buf),
            decreases toc_length - i,
        {
            let k = match read_i8(&mut buf) {
                Ok(v) => v,
                Err(e) => {
                    proof {
                        lemma_many_fails((i + 1) as nat, toc_length as nat, q0, toc_fn(d, l));
                    }
                    return Some(Err(e));
                },
            };
            let o = match read_i32(&mut buf) {
                Ok(v) => v,
                Err(e) => {
                    proof {
                        lemma_many_fails((i + 1) as nat, toc_length as nat, q0, toc_fn(d, l));
                    }
                    return Some(Err(e));
                },
            };
            toc_index.push(k);
            toc_offset.push(o);
            proof {
                toc = toc.push((k, o));
            }
            i = i + 1;
        }
        let len = buffer_len(&buf);
        assert(len == d.len());
        assert(sp_element_data(d, pos(bytes), l, version) == parts_fold(d, toc, version, toc_length as nat));
        let mut data: Vec<BinarSerialPartsEnum> = Vec::new();
        proof {
            assert(parts_view(data@) =~= Seq::<PartView>::empty());
        }
        let mut j: i8 = 0;
        while j < toc_length
            invariant
                d == dat(bytes),
                d == dat(buf),
                sp_element_data(d, pos(bytes), le(bytes), version) == parts_fold(d, toc, version, toc_length as nat),
                len == d.len(),
                0 <= j <= toc_length,
                toc.len() == toc_length,
                toc_index@.len() == toc_length,
                toc_offset@.len() == toc_length,
                forall|k: int| 0 <= k < toc_length ==> toc[k] == (toc_index@[k], toc_offset@[k]),
                parts_fold(d, toc, version, j as nat) == Parsed::Done(parts_view(data@), 0),
                !buffer_bit_pending(buf),
            decreases toc_length - j,
        {
            proof {
                if !(parts_fold(d, toc, version, (j + 1) as nat) is Done) {
                    lemma_parts_stop(d, toc, version, (j + 1) as nat, toc_length as nat);
                }
            }
            let index = toc_index[j as usize];
            let offset = toc_offset[j as usize];
            let size: i64 = if j < toc_length - 1 {
                toc_offset[(j + 1) as usize] as i64 - offset as i64 - 1
            } else {
                (len as i32) as i64 - offset as i64 - 1
            };
            assert(size == part_size(toc, j as int, d.len() as usize));
            match read_part(&mut buf, index, offset, size, version) {
                Some(Ok(Some(bsp))) => {
                    let ghost before = parts_view(data@);
                    data.push(bsp);
                    proof {
                        assert(parts_view(data@) =~= before.push(bsp@));
                    }
                },
                Some(Ok(None)) => {},
                Some(Err(e)) => {
                    return Some(Err(e));
                },
                None => {
                    return None;
                },
            }
            j = j + 1;
        }
        Some(Ok(InteractiveElementData { data }))
    }

    pub fn get_data(&self) -> (r: &Vec<BinarSerialPartsEnum>)
        ensures
            parts_view(r@) == parts_view(self.data@),
    {
        &self.data
    }
}

} // verus!
