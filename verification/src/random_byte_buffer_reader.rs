//! The obfuscated reader of the binary data tables: every value read has a running seed
//! subtracted from it, and the seed moves on before each read by an amount computed from
//! the read position.
use vstd::prelude::*;
use bytebuffer::ByteBuffer;
use crate::buffer::{
    buffer_data, buffer_pos, buffer_little_endian, buffer_bit_pending, has_bytes, uint_at, i8_of,
    i16_of, i32_of, i64_of, buffer_get_rpos, buffer_set_rpos, buffer_read_i8, buffer_read_i16,
    buffer_read_i32, buffer_read_i64, buffer_read_bytes, buffer_len,
};
use crate::bytes::is_utf8;
use vstd::utf8::valid_utf8;
use crate::error::ReadError;

verus! {

/// A reader of obfuscated values.
#[derive(Debug)]
pub struct RandomByteBufferReader {
    pub buffer: ByteBuffer,
    pub seed: i8,
    pub add: i32,
    pub mult: i32,
}

/// The state of a reader: the bytes, the read position and order of its buffer, whether a
/// bit read has left a partly read byte, and the seed and its two factors.
pub struct RandomReaderView {
    pub data: Seq<u8>,
    pub pos: nat,
    pub le: bool,
    pub pending: bool,
    pub seed: i8,
    pub add: i32,
    pub mult: i32,
}

impl View for RandomByteBufferReader {
    type V = RandomReaderView;

    open spec fn view(&self) -> RandomReaderView {
        RandomReaderView {
            data: buffer_data(self.buffer),
            pos: buffer_pos(self.buffer),
            le: buffer_little_endian(self.buffer),
            pending: buffer_bit_pending(self.buffer),
            seed: self.seed,
            add: self.add,
            mult: self.mult,
        }
    }
}

/// The read cursor of the buffer.
pub open spec fn cursor(v: RandomReaderView) -> int {
    v.pos - (if v.pending { 1int } else { 0int })
}

/// The seed after the step taken before a read: `seed + (mult * cursor + add)`, the
/// cursor taken as an `i32`, products and sums wrapping, the step cut to 8 bits.
pub open spec fn next_seed(v: RandomReaderView) -> i8 {
    vstd::wrapping::i8_specs::wrapping_add(
        v.seed,
        vstd::wrapping::i32_specs::wrapping_add(
            vstd::wrapping::i32_specs::wrapping_mul(v.mult, (cursor(v) as usize) as i32),
            v.add,
        ) as i8,
    )
}

/// The state after a read of `n` bytes with the new seed.
pub open spec fn after_read(v: RandomReaderView, n: int) -> RandomReaderView {
    RandomReaderView { pos: (v.pos + n) as nat, pending: false, seed: next_seed(v), ..v }
}

/// Whether `n` bytes can be read.
pub open spec fn can_read(v: RandomReaderView, n: int) -> bool {
    v.pos + n <= v.data.len()
}

/// An obfuscated `i8`: the byte minus the new seed, wrapping. `None` when the data ends
/// (reading panics there).
#[verifier::opaque]
pub open spec fn rr_byte(v: RandomReaderView) -> Option<(i8, RandomReaderView)> {
    if can_read(v, 1) {
        Some(
            (
                vstd::wrapping::i8_specs::wrapping_sub(
                    i8_of(uint_at(v.data, v.pos as int, 1, v.le) as int) as i8,
                    next_seed(v),
                ),
                after_read(v, 1),
            ),
        )
    } else {
        None
    }
}

/// An obfuscated `i16`.
#[verifier::opaque]
pub open spec fn rr_short(v: RandomReaderView) -> Option<(i16, RandomReaderView)> {
    if can_read(v, 2) {
        Some(
            (
                vstd::wrapping::i16_specs::wrapping_sub(
                    i16_of(uint_at(v.data, v.pos as int, 2, v.le) as int) as i16,
                    next_seed(v) as i16,
                ),
                after_read(v, 2),
            ),
        )
    } else {
        None
    }
}

/// An obfuscated `i32`.
#[verifier::opaque]
pub open spec fn rr_int(v: RandomReaderView) -> Option<(i32, RandomReaderView)> {
    if can_read(v, 4) {
        Some(
            (
                vstd::wrapping::i32_specs::wrapping_sub(
                    i32_of(uint_at(v.data, v.pos as int, 4, v.le) as int) as i32,
                    next_seed(v) as i32,
                ),
                after_read(v, 4),
            ),
        )
    } else {
        None
    }
}

/// An obfuscated `i64`.
#[verifier::opaque]
pub open spec fn rr_long(v: RandomReaderView) -> Option<(i64, RandomReaderView)> {
    if can_read(v, 8) {
        Some(
            (
                vstd::wrapping::i64_specs::wrapping_sub(
                    i64_of(uint_at(v.data, v.pos as int, 8, v.le) as int) as i64,
                    next_seed(v) as i64,
                ),
                after_read(v, 8),
            ),
        )
    } else {
        None
    }
}

/// An obfuscated flag: an obfuscated `i8` other than 0.
pub open spec fn rr_bool(v: RandomReaderView) -> Option<(bool, RandomReaderView)> {
    match rr_byte(v) {
        Some((b, v2)) => Some((b != 0, v2)),
        None => None,
    }
}

/// A string: its length as an obfuscated `i32`, then that many plain bytes, which must be
/// UTF-8. `None` where reading panics: a length that is negative or runs past the
/// data, or bytes that are not UTF-8.
#[verifier::opaque]
pub open spec fn rr_utf8(v: RandomReaderView) -> Option<(Seq<u8>, RandomReaderView)> {
    match rr_int(v) {
        Some((n, v2)) => if n < 0 || !can_read(v2, n as int) {
            None
        } else {
            let s = v2.data.subrange(v2.pos as int, v2.pos + n);
            if valid_utf8(s) {
                Some((s, RandomReaderView { pos: (v2.pos + n) as nat, pending: false, ..v2 }))
            } else {
                None
            }
        },
        None => None,
    }
}

/// `n` obfuscated `i32` values.
pub open spec fn rr_ints(v: RandomReaderView, n: nat) -> Option<(Seq<i32>, RandomReaderView)>
    decreases n,
{
    if n == 0 {
        Some((Seq::empty(), v))
    } else {
        match rr_ints(v, (n - 1) as nat) {
            Some((s, v1)) => match rr_int(v1) {
                Some((x, v2)) => Some((s.push(x), v2)),
                None => None,
            },
            None => None,
        }
    }
}

/// An array: its length as an obfuscated `i32` (a negative one panics), then
/// that many obfuscated `i32` values.
pub open spec fn rr_int_array(v: RandomReaderView) -> Option<(Seq<i32>, RandomReaderView)> {
    match rr_int(v) {
        Some((n, v2)) => if n < 0 {
            None
        } else {
            rr_ints(v2, n as nat)
        },
        None => None,
    }
}

/// A value hidden under the seed of the next read reads back: where the bytes at the
/// cursor spell `x` plus that seed (wrapping, in the reader's byte order), reading a value
/// of that width gives `x`, and the reader moves past it.
pub proof fn hidden_values_read_back(v: RandomReaderView, x8: i8, x16: i16, x32: i32, x64: i64)
    ensures
        can_read(v, 1) && uint_at(v.data, v.pos as int, 1, v.le) == (x8 + next_seed(v)) % 0x100
            ==> rr_byte(v) == Some((x8, after_read(v, 1))),
        can_read(v, 2) && uint_at(v.data, v.pos as int, 2, v.le) == (x16 + next_seed(v)) % 0x1_0000
            ==> rr_short(v) == Some((x16, after_read(v, 2))),
        can_read(v, 4) && uint_at(v.data, v.pos as int, 4, v.le) == (x32 + next_seed(v)) % 0x1_0000_0000
            ==> rr_int(v) == Some((x32, after_read(v, 4))),
        can_read(v, 8) && uint_at(v.data, v.pos as int, 8, v.le) == (x64 + next_seed(v)) % 0x1_0000_0000_0000_0000
            ==> rr_long(v) == Some((x64, after_read(v, 8))),
{
    let seed = next_seed(v);
    if can_read(v, 1) && uint_at(v.data, v.pos as int, 1, v.le) == (x8 + seed) % 0x100 {
        lemma_unhide_8(x8, seed, uint_at(v.data, v.pos as int, 1, v.le));
        reveal(rr_byte);
    }
    if can_read(v, 2) && uint_at(v.data, v.pos as int, 2, v.le) == (x16 + seed) % 0x1_0000 {
        lemma_unhide_16(x16, seed, uint_at(v.data, v.pos as int, 2, v.le));
        reveal(rr_short);
    }
    if can_read(v, 4) && uint_at(v.data, v.pos as int, 4, v.le) == (x32 + seed) % 0x1_0000_0000 {
        lemma_unhide_32(x32, seed, uint_at(v.data, v.pos as int, 4, v.le));
        reveal(rr_int);
    }
    if can_read(v, 8) && uint_at(v.data, v.pos as int, 8, v.le) == (x64 + seed) % 0x1_0000_0000_0000_0000 {
        lemma_unhide_64(x64, seed, uint_at(v.data, v.pos as int, 8, v.le));
        reveal(rr_long);
    }
}

proof fn lemma_unhide_8(x: i8, s: i8, u: nat)
    requires
        u == (x + s) % 0x100,
    ensures
        vstd::wrapping::i8_specs::wrapping_sub(i8_of(u as int) as i8, s) == x,
{
}

proof fn lemma_unhide_16(x: i16, s: i8, u: nat)
    requires
        u == (x + s) % 0x1_0000,
    ensures
        vstd::wrapping::i16_specs::wrapping_sub(i16_of(u as int) as i16, s as i16) == x,
{
}

proof fn lemma_unhide_32(x: i32, s: i8, u: nat)
    requires
        u == (x + s) % 0x1_0000_0000,
    ensures
        vstd::wrapping::i32_specs::wrapping_sub(i32_of(u as int) as i32, s as i32) == x,
{
}

proof fn lemma_unhide_64(x: i64, s: i8, u: nat)
    requires
        u == (x + s) % 0x1_0000_0000_0000_0000,
    ensures
        vstd::wrapping::i64_specs::wrapping_sub(i64_of(u as int) as i64, s as i64) == x,
{
}

impl RandomByteBufferReader {
    /// A reader over `buffer` whose seed starts at `mult ^ add` cut to 8 bits; it never
    /// fails.
    pub fn load(buffer: ByteBuffer, mult: i32, add: i32) -> (r: Result<Self, ReadError>)
        ensures
            r matches Ok(x) && x@ == (RandomReaderView {
                data: buffer_data(buffer),
                pos: buffer_pos(buffer),
                le: buffer_little_endian(buffer),
                pending: buffer_bit_pending(buffer),
                seed: (mult ^ add) as i8,
                add,
                mult,
            }),
    {
        let seed = (mult ^ add) as i8;
        Ok(RandomByteBufferReader { buffer, seed, add, mult })
    }

    /// Moves to `position` (as an unsigned number, at most the end of the data) with seed
    /// `seed`.
    pub fn position(&mut self, position: i32, seed: i8)
        ensures
            final(self)@ == (RandomReaderView {
                seed,
                pos: ((if (position as usize) <= old(self)@.data.len() {
                    (position as usize) as int
                } else {
                    old(self)@.data.len() as int
                }) + (if old(self)@.pending { 1int } else { 0int })) as nat,
                ..old(self)@
            }),
    {
        self.seed = seed;
        buffer_set_rpos(&mut self.buffer, position as usize);
    }

    /// The read cursor of the buffer.
    pub fn get_buffer_rpos(self) -> (r: usize)
        ensures
            r == cursor(self@),
    {
        buffer_get_rpos(&self.buffer)
    }

    /// Moves the seed on (see [`next_seed`]).
    fn inc(&mut self)
        ensures
            final(self)@ == (RandomReaderView { seed: next_seed(old(self)@), ..old(self)@ }),
    {
        let pos = buffer_get_rpos(&self.buffer) as i32;
        let mul = self.mult.wrapping_mul(pos);
        let add = mul.wrapping_add(self.add) as i8;
        self.seed = self.seed.wrapping_add(add);
    }

    /// Reads an obfuscated `i8` (see [`rr_byte`]). The data must not
    /// end before it.
    pub fn get_byte(&mut self) -> (r: i8)
        requires
            rr_byte(old(self)@) is Some,
        ensures
            rr_byte(old(self)@) == Some((r, final(self)@)),
    {
        match self.try_get_byte() {
            Some(v) => v,
            None => 0,
        }
    }

    /// Reads like [`RandomByteBufferReader::get_byte`], on every input: `None` where
    /// [`rr_byte`] is `None`.
    pub fn try_get_byte(&mut self) -> (r: Option<i8>)
        ensures
            match rr_byte(old(self)@) {
                Some((x, v)) => r == Some(x) && final(self)@ == v,
                None => r is None,
            },
    {
        proof {
            reveal(rr_byte);
        }
        self.inc();
        match buffer_read_i8(&mut self.buffer) {
            Some(b) => Some(b.wrapping_sub(self.seed)),
            None => None,
        }
    }

    /// Reads an obfuscated flag (see [`rr_bool`]).
    pub fn read_boolean(&mut self) -> (r: bool)
        requires
            rr_bool(old(self)@) is Some,
        ensures
            rr_bool(old(self)@) == Some((r, final(self)@)),
    {
        self.get_byte() != 0
    }

    /// Reads a flag like [`RandomByteBufferReader::read_boolean`], on every input: `None`
    /// where [`rr_bool`] is `None`.
    pub fn try_read_boolean(&mut self) -> (r: Option<bool>)
        ensures
            match rr_bool(old(self)@) {
                Some((x, v)) => r == Some(x) && final(self)@ == v,
                None => r is None,
            },
    {
        match self.try_get_byte() {
            Some(b) => Some(b != 0),
            None => None,
        }
    }

    /// Reads an obfuscated `i16` (see [`rr_short`]).
    pub fn get_short(&mut self) -> (r: i16)
        requires
            rr_short(old(self)@) is Some,
        ensures
            rr_short(old(self)@) == Some((r, final(self)@)),
    {
        match self.try_get_short() {
            Some(v) => v,
            None => 0,
        }
    }

    /// Reads like [`RandomByteBufferReader::get_short`], on every input: `None` where
    /// [`rr_short`] is `None`.
    pub fn try_get_short(&mut self) -> (r: Option<i16>)
        ensures
            match rr_short(old(self)@) {
                Some((x, v)) => r == Some(x) && final(self)@ == v,
                None => r is None,
            },
    {
        proof {
            reveal(rr_short);
        }
        self.inc();
        match buffer_read_i16(&mut self.buffer) {
            Some(b) => Some(b.wrapping_sub(self.seed as i16)),
            None => None,
        }
    }

    /// Reads an obfuscated `i32` (see [`rr_int`]).
    pub fn get_int(&mut self) -> (r: i32)
        requires
            rr_int(old(self)@) is Some,
        ensures
            rr_int(old(self)@) == Some((r, final(self)@)),
    {
        match self.try_get_int() {
            Some(v) => v,
            None => 0,
        }
    }

    /// Reads like [`RandomByteBufferReader::get_int`], on every input: `None` where
    /// [`rr_int`] is `None`.
    pub fn try_get_int(&mut self) -> (r: Option<i32>)
        ensures
            match rr_int(old(self)@) {
                Some((x, v)) => r == Some(x) && final(self)@ == v,
                None => r is None,
            },
    {
        proof {
            reveal(rr_int);
        }
        self.inc();
        match buffer_read_i32(&mut self.buffer) {
            Some(b) => Some(b.wrapping_sub(self.seed as i32)),
            None => None,
        }
    }

    /// Reads an obfuscated `i64` (see [`rr_long`]).
    pub fn get_long(&mut self) -> (r: i64)
        requires
            rr_long(old(self)@) is Some,
        ensures
            rr_long(old(self)@) == Some((r, final(self)@)),
    {
        match self.try_get_long() {
            Some(v) => v,
            None => 0,
        }
    }

    /// Reads like [`RandomByteBufferReader::get_long`], on every input: `None` where
    /// [`rr_long`] is `None`.
    pub fn try_get_long(&mut self) -> (r: Option<i64>)
        ensures
            match rr_long(old(self)@) {
                Some((x, v)) => r == Some(x) && final(self)@ == v,
                None => r is None,
            },
    {
        proof {
            reveal(rr_long);
        }
        self.inc();
        match buffer_read_i64(&mut self.buffer) {
            Some(b) => Some(b.wrapping_sub(self.seed as i64)),
            None => None,
        }
    }

    /// Reads a string (see [`rr_utf8`]); its bytes are returned.
    pub fn read_utf8(&mut self) -> (r: Vec<u8>)
        requires
            rr_utf8(old(self)@) is Some,
        ensures
            rr_utf8(old(self)@) == Some((r@, final(self)@)),
    {
        match self.try_read_utf8() {
            Some(v) => v,
            None => Vec::new(),
        }
    }

    /// Reads a string like [`RandomByteBufferReader::read_utf8`], on every input: `None`
    /// where [`rr_utf8`] is `None`.
    pub fn try_read_utf8(&mut self) -> (r: Option<Vec<u8>>)
        ensures
            match rr_utf8(old(self)@) {
                Some((s, v)) => r matches Some(x) && x@ == s && final(self)@ == v,
                None => r is None,
            },
    {
        proof {
            reveal(rr_utf8);
            reveal(rr_int);
        }
        let size = match self.try_get_int() {
            Some(v) => v,
            None => return None,
        };
        if size < 0 {
            return None;
        }
        assert(!buffer_bit_pending(self.buffer));
        let len = buffer_len(&self.buffer);
        let at = buffer_get_rpos(&self.buffer);
        if at > len || len - at < size as usize {
            return None;
        }
        let bytes = match buffer_read_bytes(&mut self.buffer, size as usize) {
            Some(v) => v,
            None => return None,
        };
        if !is_utf8(bytes.as_slice()) {
            return None;
        }
        Some(bytes)
    }

    /// Reads an array of `i32` values (see [`rr_int_array`]).
    pub fn read_int_array(&mut self) -> (r: Vec<i32>)
        requires
            rr_int_array(old(self)@) is Some,
        ensures
            rr_int_array(old(self)@) == Some((r@, final(self)@)),
    {
        let size: i32 = self.get_int();
        let ghost v0 = self@;
        let mut data: Vec<i32> = Vec::new();
        let mut i: i32 = 0;
        while i < size
            invariant
                0 <= i <= size,
                rr_ints(v0, size as nat) is Some,
                rr_ints(v0, i as nat) == Some((data@, self@)),
            decreases size - i,
        {
            proof {
                if rr_int(self@) is None {
                    lemma_ints_fail(v0, (i + 1) as nat, size as nat);
                }
            }
            let x = self.get_int();
            data.push(x);
            i = i + 1;
        }
        data
    }
}

proof fn lemma_ints_fail(v: RandomReaderView, i: nat, n: nat)
    requires
        i <= n,
        rr_ints(v, i) is None,
    ensures
        rr_ints(v, n) is None,
    decreases n,
{
    if n > i {
        lemma_ints_fail(v, i, (n - 1) as nat);
    }
}

/// A reader state that has read something: its position lies within its data and no
/// partly read byte is left.
pub open spec fn settled(v: RandomReaderView) -> bool {
    v.pos <= v.data.len() && !v.pending
}

/// Two reader states over the same data, order and factors.
pub open spec fn same_source(a: RandomReaderView, b: RandomReaderView) -> bool {
    a.data == b.data && a.le == b.le && a.add == b.add && a.mult == b.mult
}

/// The state a read leaves (the given one when the read fails).
pub open spec fn state_after<T>(o: Option<(T, RandomReaderView)>, v: RandomReaderView) -> RandomReaderView {
    match o {
        Some((_x, v2)) => v2,
        None => v,
    }
}

/// A read that succeeds leaves the reader settled on the same source.
pub broadcast proof fn lemma_byte_settled(v: RandomReaderView)
    ensures
        #[trigger] rr_byte(v) is Some ==> settled(state_after(rr_byte(v), v)) && same_source(v, state_after(rr_byte(v), v)),
{
    reveal(rr_byte);
}

pub broadcast proof fn lemma_short_settled(v: RandomReaderView)
    ensures
        #[trigger] rr_short(v) is Some ==> settled(state_after(rr_short(v), v)) && same_source(v, state_after(rr_short(v), v)),
{
    reveal(rr_short);
}

pub broadcast proof fn lemma_int_settled(v: RandomReaderView)
    ensures
        #[trigger] rr_int(v) is Some ==> settled(state_after(rr_int(v), v)) && same_source(v, state_after(rr_int(v), v)),
{
    reveal(rr_int);
}

pub broadcast proof fn lemma_long_settled(v: RandomReaderView)
    ensures
        #[trigger] rr_long(v) is Some ==> settled(state_after(rr_long(v), v)) && same_source(v, state_after(rr_long(v), v)),
{
    reveal(rr_long);
}

pub broadcast proof fn lemma_utf8_settled(v: RandomReaderView)
    ensures
        #[trigger] rr_utf8(v) is Some ==> settled(state_after(rr_utf8(v), v)) && same_source(v, state_after(rr_utf8(v), v)),
{
    reveal(rr_utf8);
    reveal(rr_int);
}

pub broadcast group group_reads_settled {
    lemma_byte_settled,
    lemma_short_settled,
    lemma_int_settled,
    lemma_long_settled,
    lemma_utf8_settled,
}

} // verus!
