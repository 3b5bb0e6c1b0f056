//! Cutting and mirroring 8-bit RGBA images held as bytes, four to a pixel, row by row.
use vstd::prelude::*;

verus! {

/// Where byte `c` of pixel `(x, y)` stands in an image `w` pixels wide.
pub open spec fn byte_index(w: int, x: int, y: int, c: int) -> int {
    4 * (y * w + x) + c
}

/// Byte `c` of pixel `(x, y)` of the image `bytes`, `w` pixels wide.
pub open spec fn pixel_byte(bytes: Seq<u8>, w: int, x: int, y: int, c: int) -> u8 {
    bytes[byte_index(w, x, y, c)]
}

/// Whether `r` is the top-left `w` by `h` corner of the image `bytes`, `tw` pixels wide,
/// with each row mirrored when `hflip` and the rows in reverse order when `vflip`.
pub open spec fn is_corner(r: Seq<u8>, bytes: Seq<u8>, tw: int, w: int, h: int, hflip: bool, vflip: bool) -> bool {
    &&& r.len() == 4 * w * h
    &&& forall|x: int, y: int, c: int|
        0 <= x < w && 0 <= y < h && 0 <= c < 4 ==> #[trigger] r[byte_index(w, x, y, c)] == pixel_byte(
            bytes,
            tw,
            if hflip { w - 1 - x } else { x },
            if vflip { h - 1 - y } else { y },
            c,
        )
}

proof fn lemma_source_in(tw: int, th: int, x: int, y: int, c: int)
    by (nonlinear_arith)
    requires
        0 <= x < tw,
        0 <= y < th,
        0 <= c < 4,
    ensures
        0 <= y * tw,
        y * tw + x < tw * th,
        4 * tw * th == 4 * (tw * th),
        0 <= byte_index(tw, x, y, c) < 4 * tw * th,
{
}

proof fn lemma_before(w: int, x: int, y: int, xx: int, yy: int, c: int)
    by (nonlinear_arith)
    requires
        0 <= xx < w,
        0 <= x <= w,
        0 <= yy <= y,
        yy < y || xx < x,
        0 <= c < 4,
    ensures
        0 <= byte_index(w, xx, yy, c) < byte_index(w, x, y, 0),
{
}

proof fn lemma_row_end(w: int, y: int)
    by (nonlinear_arith)
    ensures
        byte_index(w, w, y, 0) == byte_index(w, 0, y + 1, 0),
        byte_index(w, 0, 0, 0) == 0,
{
}

proof fn lemma_size(tw: int, th: int, w: int, h: int)
    by (nonlinear_arith)
    requires
        0 <= w <= tw,
        0 <= h <= th,
    ensures
        0 <= 4 * w * h <= 4 * tw * th,
        byte_index(w, 0, h, 0) == 4 * w * h,
{
}

/// The top-left `w` by `h` corner of the image `bytes`, `tw` by `th` pixels, each row
/// mirrored when `hflip` and the rows in reverse order when `vflip` (see [`is_corner`]);
/// `None` when `bytes` holds fewer than `4 * tw * th` bytes. The corner must lie within
/// the image whenever the image is whole.
pub fn corner_pixels(bytes: &[u8], tw: u32, th: u32, w: u32, h: u32, hflip: bool, vflip: bool) -> (r: Option<Vec<u8>>)
    requires
        4 * tw * th <= bytes@.len() ==> w <= tw && h <= th,
    ensures
        r is None <==> bytes@.len() < 4 * tw * th,
        r matches Some(v) ==> is_corner(v@, bytes@, tw as int, w as int, h as int, hflip, vflip),
{
    assert((tw as u128) * (th as u128) <= 0xffff_ffffu128 * 0xffff_ffffu128) by (nonlinear_arith)
        requires
            tw <= 0xffff_ffffu32,
            th <= 0xffff_ffffu32,
    ;
    let need: u128 = (tw as u128) * (th as u128) * 4;
    assert(need == 4 * tw * th) by (nonlinear_arith)
        requires
            need == (tw as u128) * (th as u128) * 4,
    ;
    if need > bytes.len() as u128 {
        return None;
    }
    proof {
        lemma_size(tw as int, th as int, w as int, h as int);
        lemma_row_end(w as int, 0);
    }
    let ghost src = bytes@;
    let blen: usize = bytes.len();
    let tws = tw as usize;
    let ws = w as usize;
    let hs = h as usize;
    let mut out: Vec<u8> = Vec::new();
    let mut y: usize = 0;
    while y < hs
        invariant
            src == bytes@,
            4 * tw * th <= bytes@.len(),
            bytes@.len() == blen,
            w <= tw,
            h <= th,
            tws == tw,
            ws == w,
            hs == h,
            y <= hs,
            out@.len() == byte_index(w as int, 0, y as int, 0),
            forall|xx: int, yy: int, c: int|
                0 <= xx < w && 0 <= yy < y && 0 <= c < 4 ==> #[trigger] out@[byte_index(w as int, xx, yy, c)]
                    == pixel_byte(
                    src,
                    tw as int,
                    if hflip { w - 1 - xx } else { xx },
                    if vflip { h - 1 - yy } else { yy },
                    c,
                ),
        decreases hs - y,
    {
        let sy: usize = if vflip { hs - 1 - y } else { y };
        let mut x: usize = 0;
        while x < ws
            invariant
                src == bytes@,
                4 * tw * th <= bytes@.len(),
                bytes@.len() == blen,
                w <= tw,
                h <= th,
                tws == tw,
                ws == w,
                hs == h,
                y < hs,
                sy == (if vflip { h - 1 - y } else { y as int }),
                x <= ws,
                out@.len() == byte_index(w as int, x as int, y as int, 0),
                forall|xx: int, yy: int, c: int|
                    0 <= xx < w && 0 <= yy <= y && (yy < y || xx < x) && 0 <= c < 4
                        ==> #[trigger] out@[byte_index(w as int, xx, yy, c)] == pixel_byte(
                        src,
                        tw as int,
                        if hflip { w - 1 - xx } else { xx },
                        if vflip { h - 1 - yy } else { yy },
                        c,
                    ),
            decreases ws - x,
        {
            let sx: usize = if hflip { ws - 1 - x } else { x };
            proof {
                lemma_source_in(tw as int, th as int, sx as int, sy as int, 0);
                lemma_source_in(tw as int, th as int, sx as int, sy as int, 3);
            }
            let base: usize = 4 * (sy * tws + sx);
            let ghost before = out@;
            let ghost start = out@.len() as int;
            out.push(bytes[base]);
            out.push(bytes[base + 1]);
            out.push(bytes[base + 2]);
            out.push(bytes[base + 3]);
            proof {
                assert forall|xx: int, yy: int, c: int|
                    0 <= xx < w && 0 <= yy <= y && (yy < y || xx < x + 1) && 0 <= c < 4 implies #[trigger] out@[byte_index(
                        w as int,
                        xx,
                        yy,
                        c,
                    )] == pixel_byte(
                        src,
                        tw as int,
                        if hflip { w - 1 - xx } else { xx },
                        if vflip { h - 1 - yy } else { yy },
                        c,
                    ) by {
                    if yy < y || xx < x {
                        lemma_before(w as int, x as int, y as int, xx, yy, c);
                        assert(out@[byte_index(w as int, xx, yy, c)] == before[byte_index(w as int, xx, yy, c)]);
                    } else {
                        assert(xx == x && yy == y);
                        assert(byte_index(w as int, xx, yy, c) == start + c);
                        assert(byte_index(tw as int, sx as int, sy as int, c) == base + c);
                    }
                }
            }
            x = x + 1;
        }
        proof {
            lemma_row_end(w as int, y as int);
        }
        y = y + 1;
    }
    proof {
        lemma_size(tw as int, th as int, w as int, h as int);
    }
    Some(out)
}

} // verus!
