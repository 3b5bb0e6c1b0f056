//! The frames of an animated texture: when each frame starts, and where each lies in the
//! texture.
//!
//! Numbers are little-endian.
use vstd::prelude::*;
use crate::bytes::{le_at, fits, read_u16, read_u32};
use crate::error::ReadError;
use crate::groups::{values_upto, read_values_upto};
use crate::parse::Parsed;

verus! {

/// A rectangle of a texture: its left and top sides, then its right and bottom sides.
#[derive(Debug, Clone, Copy, PartialEq, Eq, Structural)]
pub struct FrameRect {
    pub x: u32,
    pub y: u32,
    pub width: u32,
    pub height: u32,
}

/// The frames of an animated texture: the total time, the time each frame starts at and
/// the rectangle of each frame.
#[derive(Debug)]
pub struct Frames {
    pub _total_time: u32,
    pub _frame_times: Vec<u16>,
    pub _frame_rects: Vec<FrameRect>,
}

/// What the frames hold.
pub struct FramesView {
    pub total_time: u32,
    pub frame_times: Seq<u16>,
    pub frame_rects: Seq<FrameRect>,
}

impl View for Frames {
    type V = FramesView;

    open spec fn view(&self) -> FramesView {
        FramesView {
            total_time: self._total_time,
            frame_times: self._frame_times@,
            frame_rects: self._frame_rects@,
        }
    }
}

/// The sum of the first `n` durations: the time at which frame `n` starts.
pub open spec fn time_before(ds: Seq<u16>, n: int) -> int
    decreases n,
{
    if n <= 0 {
        0
    } else {
        time_before(ds, n - 1) + ds[n - 1]
    }
}

proof fn lemma_time_before_grows(ds: Seq<u16>, i: int, n: int)
    requires
        0 <= i <= n,
    ensures
        0 <= time_before(ds, i) <= time_before(ds, n),
    decreases n,
{
    if n > i {
        lemma_time_before_grows(ds, i, n - 1);
    } else if n > 0 {
        lemma_time_before_grows(ds, 0, n - 1);
    }
}

/// Frame times grow with the frames, the first frame starts at 0, and each later frame
/// starts when the one before it ends: at its start time plus its duration.
pub proof fn frame_times_follow_durations(ds: Seq<u16>, i: int, j: int)
    requires
        time_before(ds, ds.len() as int) <= u16::MAX,
        0 <= i <= j < ds.len(),
    ensures
        start_times(ds)[0] == 0,
        start_times(ds)[i] <= start_times(ds)[j],
        j + 1 < ds.len() ==> start_times(ds)[j + 1] == start_times(ds)[j] + ds[j],
{
    lemma_time_before_grows(ds, i, j);
    lemma_time_before_grows(ds, j, ds.len() as int);
    lemma_time_before_grows(ds, j + 1, ds.len() as int);
}

/// The start times of frames with durations `ds`.
pub open spec fn start_times(ds: Seq<u16>) -> Seq<u16> {
    Seq::new(ds.len(), |i: int| time_before(ds, i) as u16)
}

/// The `u32` that the `i16` value `v` becomes: its two's complement bits, sign-extended.
pub open spec fn u32_of_i16(v: i16) -> u32 {
    if v < 0 {
        (v + 0x1_0000_0000) as u32
    } else {
        v as u32
    }
}

/// The `u32` that the sum of an `i16` and a `u16` becomes through a float: the sum, or 0
/// when it is negative (such a sum is exact in a 32-bit float, and the cast to `u32`
/// saturates).
pub open spec fn u32_of_sum(v: i16, w: u16) -> u32 {
    if v + w < 0 {
        0
    } else {
        (v + w) as u32
    }
}

/// The rectangle of the frame whose corner is at `(x, y)`, for frames of `w` by `h`.
pub open spec fn rect_of(x: i16, y: i16, w: u16, h: u16) -> FrameRect {
    FrameRect { x: u32_of_i16(x), y: u32_of_i16(y), width: u32_of_sum(x, w), height: u32_of_sum(y, h) }
}

/// The values of `vs` taken two by two; a last value without a partner is dropped.
pub open spec fn pairs(vs: Seq<i16>) -> Seq<(i16, i16)> {
    Seq::new(vs.len() / 2, |k: int| (vs[2 * k], vs[2 * k + 1]))
}

/// The `u16` values read from `p` on, at most `m` of them: reading stops at the first
/// value the data cannot hold.
pub open spec fn u16s_upto(d: Seq<u8>, p: int, m: nat) -> Seq<u16> {
    let k = if (d.len() - p) / 2 < m {
        (d.len() - p) / 2
    } else {
        m as int
    };
    Seq::new(k as nat, |j: int| le_at(d, p + 2 * j, 2) as u16)
}

/// The frames at the start of `d`, `count` of them: the total time as a `u32`, the width
/// and height of a frame and of the whole texture as `u16`, up to `count` durations as
/// `u16`, then up to `2 * count` coordinates as `i16`, taken two by two as the corners of
/// the frames. Reading panics where the durations add up past `u16::MAX`.
pub open spec fn sp_frames(d: Seq<u8>, count: u8) -> Parsed<FramesView> {
    if !fits(d, 0, 12) {
        Parsed::Fails(ReadError::Incomplete)
    } else {
        let w = le_at(d, 4, 2) as u16;
        let h = le_at(d, 6, 2) as u16;
        let ds = u16s_upto(d, 12, count as nat);
        let p1 = 12 + 2 * ds.len() as int;
        let vs = values_upto(d, p1, 2 * count as nat);
        if time_before(ds, ds.len() as int) > u16::MAX {
            Parsed::Panics
        } else {
            Parsed::Done(
                FramesView {
                    total_time: le_at(d, 0, 4) as u32,
                    frame_times: start_times(ds),
                    frame_rects: pairs(vs).map_values(|c: (i16, i16)| rect_of(c.0, c.1, w, h)),
                },
                (p1 + 2 * vs.len()) as nat,
            )
        }
    }
}

/// Reads the `u16` values from `off` on, at most `m` (see [`u16s_upto`]), with the offset
/// after them.
fn read_u16s_upto(bytes: &[u8], off: usize, m: u8) -> (r: (Vec<u16>, usize))
    requires
        off <= bytes@.len(),
    ensures
        r.0@ == u16s_upto(bytes@, off as int, m as nat),
        r.1 == off + 2 * r.0@.len(),
{
    let mut out: Vec<u16> = Vec::new();
    let mut o = off;
    let mut i: u8 = 0;
    while i < m
        invariant
            off <= o <= bytes@.len(),
            o == off + 2 * out@.len(),
            out@.len() == i,
            i <= m,
            forall|j: int| 0 <= j < i ==> out@[j] == le_at(bytes@, off + 2 * j, 2) as u16,
        decreases m - i,
    {
        match read_u16(bytes, o) {
            Some((v, o2)) => {
                assert(fits(bytes@, o as int, 2));
                assert(o + 2 <= bytes.len());
                out.push(v);
                o = o2;
            },
            None => {
                proof {
                    assert((bytes@.len() - off) / 2 == i as int);
                    assert(out@ =~= u16s_upto(bytes@, off as int, m as nat));
                }
                return (out, o);
            },
        }
        i = i + 1;
    }
    proof {
        assert((bytes@.len() - off) / 2 >= m as int);
        assert(out@ =~= u16s_upto(bytes@, off as int, m as nat));
    }
    (out, o)
}

/// The rectangle of the frame whose corner is at `(x, y)` (see [`rect_of`]).
fn make_rect(x: i16, y: i16, w: u16, h: u16) -> (r: FrameRect)
    ensures
        r == rect_of(x, y, w, h),
{
    let rx: u32 = if x < 0 {
        (x as i64 + 0x1_0000_0000) as u32
    } else {
        x as u32
    };
    let ry: u32 = if y < 0 {
        (y as i64 + 0x1_0000_0000) as u32
    } else {
        y as u32
    };
    let sw: i32 = x as i32 + w as i32;
    let sh: i32 = y as i32 + h as i32;
    let rw: u32 = if sw < 0 {
        0
    } else {
        sw as u32
    };
    let rh: u32 = if sh < 0 {
        0
    } else {
        sh as u32
    };
    FrameRect { x: rx, y: ry, width: rw, height: rh }
}

impl Frames {
    /// The frames with the total time `_total_time`, frame `i` starting at the sum of the
    /// durations before it, and the rectangles `frame_coords`. The durations must
    /// not add up past `u16::MAX`.
    pub fn new(_total_time: u32, frame_durations: &[u16], frame_coords: Vec<FrameRect>) -> (r: Frames)
        requires
            time_before(frame_durations@, frame_durations@.len() as int) <= u16::MAX,
        ensures
            r@.total_time == _total_time,
            r@.frame_times == start_times(frame_durations@),
            r@.frame_rects == frame_coords@,
    {
        let ghost ds = frame_durations@;
        let mut _frame_times: Vec<u16> = Vec::new();
        let mut _frame_time: u16 = 0;
        let mut i: usize = 0;
        while i < frame_durations.len()
            invariant
                ds == frame_durations@,
                i <= ds.len(),
                time_before(ds, ds.len() as int) <= u16::MAX,
                _frame_time == time_before(ds, i as int),
                _frame_times@.len() == i,
                forall|j: int| 0 <= j < i ==> _frame_times@[j] == time_before(ds, j) as u16,
            decreases ds.len() - i,
        {
            proof {
                lemma_time_before_grows(ds, i + 1, ds.len() as int);
            }
            _frame_times.push(_frame_time);
            _frame_time = _frame_time + frame_durations[i];
            i = i + 1;
        }
        proof {
            assert(_frame_times@ =~= start_times(ds));
        }
        Frames { _total_time, _frame_times, _frame_rects: frame_coords }
    }

    /// Reads `count` frames at the start of `bytes` (see [`sp_frames`]), with their size.
    /// Inputs on which [`sp_frames`] panics are left out.
    pub fn try_read(bytes: &[u8], count: u8) -> (r: Result<(Frames, usize), ReadError>)
        requires
            !(sp_frames(bytes@, count) is Panics),
        ensures
            match sp_frames(bytes@, count) {
                Parsed::Done(v, q) => r matches Ok((f, n)) && f@ == v && n == q,
                Parsed::Fails(e) => r == Err::<(Frames, usize), ReadError>(e),
                Parsed::Panics => false,
            },
    {
        let ghost d = bytes@;
        if bytes.len() < 12 {
            return Err(ReadError::Incomplete);
        }
        let (total_time, o) = match read_u32(bytes, 0) {
            Some(v) => v,
            None => return Err(ReadError::Incomplete),
        };
        let (width, o) = match read_u16(bytes, o) {
            Some(v) => v,
            None => return Err(ReadError::Incomplete),
        };
        let (height, _) = match read_u16(bytes, o) {
            Some(v) => v,
            None => return Err(ReadError::Incomplete),
        };
        let (frame_durations, o) = read_u16s_upto(bytes, 12, count);
        let (values, o) = read_values_upto(bytes, o, 2 * (count as u16));
        let ghost vs = values@;
        let mut coords: Vec<FrameRect> = Vec::new();
        let mut k: usize = 0;
        while k < values.len() / 2
            invariant
                vs == values@,
                k <= vs.len() / 2,
                coords@ == pairs(vs).take(k as int).map_values(
                    |c: (i16, i16)| rect_of(c.0, c.1, width, height),
                ),
            decreases vs.len() / 2 - k,
        {
            let rect = make_rect(values[2 * k], values[2 * k + 1], width, height);
            proof {
                assert(pairs(vs).take(k + 1).map_values(
                    |c: (i16, i16)| rect_of(c.0, c.1, width, height),
                ) =~= coords@.push(rect));
            }
            coords.push(rect);
            k = k + 1;
        }
        proof {
            assert(pairs(vs).take(k as int) =~= pairs(vs));
        }
        let result = Frames::new(total_time, frame_durations.as_slice(), coords);
        Ok((result, o))
    }
}

} // verus!
