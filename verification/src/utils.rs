//! Small helpers shared by the readers: Java's string hash, clamping, powers of two and
//! decimal numbers written as text.
use vstd::prelude::*;

verus! {

/// Java's `String.hashCode` of a name, taking each byte as a character: `h = 31 * h + c`
/// from the first character to the last, wrapping at 32 bits.
pub open spec fn java_hash(s: Seq<u8>) -> i32
    decreases s.len(),
{
    if s.len() == 0 {
        0
    } else {
        vstd::wrapping::i32_specs::wrapping_add(
            vstd::wrapping::i32_specs::wrapping_mul(java_hash(s.drop_last()), 31),
            s.last() as i32,
        )
    }
}

/// Java's `String.hashCode` of a name, by which animations and sprites refer to each
/// other.
pub fn java_string_hashcode(name: &Vec<u8>) -> (h: i32)
    ensures
        h == java_hash(name@),
{
    let mut h: i32 = 0;
    let mut i: usize = 0;
    while i < name.len()
        invariant
            i <= name@.len(),
            h == java_hash(name@.subrange(0, i as int)),
        decreases name@.len() - i,
    {
        proof {
            assert(name@.subrange(0, i + 1).drop_last() =~= name@.subrange(0, i as int));
        }
        h = h.wrapping_mul(31).wrapping_add(name[i] as i32);
        i = i + 1;
    }
    proof {
        assert(name@.subrange(0, name@.len() as int) =~= name@);
    }
    h
}

/// `v` brought into `[lo, hi]`.
pub open spec fn clamped(v: int, lo: int, hi: int) -> int {
    if v < lo {
        lo
    } else if v > hi {
        hi
    } else {
        v
    }
}

/// `v` brought into `[lo, hi]`.
pub fn clamp(v: i32, lo: i32, hi: i32) -> (r: i32)
    requires
        lo <= hi,
    ensures
        r == clamped(v as int, lo as int, hi as int),
{
    if v < lo {
        lo
    } else if v > hi {
        hi
    } else {
        v
    }
}

/// Whether `x` is a power of two.
pub open spec fn is_pow2(x: int) -> bool
    decreases x,
{
    if x <= 0 {
        false
    } else if x == 1 {
        true
    } else {
        x % 2 == 0 && is_pow2(x / 2)
    }
}

proof fn lemma_pow2_double_le(x: int, b: int)
    requires
        is_pow2(x),
        is_pow2(b),
        x < b,
    ensures
        2 * x <= b,
    decreases b,
{
    if x != 1 {
        lemma_pow2_double_le(x / 2, b / 2);
    }
}

/// The first of `p`, `2p`, `4p`, ... that is at least `n`.
pub open spec fn pow2_from(p: int, n: int) -> int
    decreases (if p >= n { 0 } else { n - p }),
{
    if p <= 0 || p >= n {
        p
    } else {
        pow2_from(2 * p, n)
    }
}

/// The smallest power of two that is at least `n` (1 when `n` is at most 1).
pub open spec fn pow2_ceil(n: int) -> int {
    pow2_from(1, n)
}

/// The smallest power of two that is at least `n` (1 when `n` is at most 1).
pub fn nearest_greatest_pow_of_two(n: i32) -> (p: i32)
    requires
        n <= 0x4000_0000,
    ensures
        is_pow2(p as int),
        p >= n,
        p == 1 || p / 2 < n,
        p == pow2_ceil(n as int),
{
    let mut p: i32 = 1;
    while p < n
        invariant
            is_pow2(p as int),
            1 <= p <= 0x4000_0000,
            p == 1 || p / 2 < n,
            n <= 0x4000_0000,
            pow2_from(p as int, n as int) == pow2_ceil(n as int),
        decreases 0x4000_0000 - p,
    {
        proof {
            assert(is_pow2(0x4000_0000)) by {
                reveal_with_fuel(is_pow2, 32);
            }
            lemma_pow2_double_le(p as int, 0x4000_0000);
            assert((2 * p) / 2 == p);
            assert((2 * p) % 2 == 0);
        }
        p = p * 2;
    }
    p
}

/// Whether `c` is a decimal digit.
pub open spec fn is_digit(c: u8) -> bool {
    48 <= c <= 57
}

/// The number that a non-empty run of decimal digits spells.
pub open spec fn digits_value(s: Seq<u8>) -> nat
    decreases s.len(),
{
    if s.len() == 0 {
        0
    } else {
        digits_value(s.drop_last()) * 10 + (s.last() - 48) as nat
    }
}

/// Whether every byte of `s` is a decimal digit.
pub open spec fn all_digits(s: Seq<u8>) -> bool {
    forall|i| 0 <= i < s.len() ==> is_digit(#[trigger] s[i])
}

/// The integer that `str::parse` reads from `s`: an optional `+` or `-`, then at least one
/// decimal digit, and nothing else.
pub open spec fn decimal_value(s: Seq<u8>) -> Option<int> {
    let neg = s.len() > 0 && s[0] == 45;
    let signed = s.len() > 0 && (s[0] == 45 || s[0] == 43);
    let body = if signed {
        s.drop_first()
    } else {
        s
    };
    if body.len() == 0 || !all_digits(body) {
        None
    } else if neg {
        Some(-(digits_value(body) as int))
    } else {
        Some(digits_value(body) as int)
    }
}

/// The `i64` that `str::parse::<i64>` reads from `s`, if it reads one.
pub open spec fn parsed_i64(s: Seq<u8>) -> Option<i64> {
    match decimal_value(s) {
        Some(v) => if i64::MIN <= v <= i64::MAX {
            Some(v as i64)
        } else {
            None
        },
        None => None,
    }
}

/// The `i32` that `str::parse::<i32>` reads from `s`, if it reads one.
pub open spec fn parsed_i32(s: Seq<u8>) -> Option<i32> {
    match decimal_value(s) {
        Some(v) => if i32::MIN <= v <= i32::MAX {
            Some(v as i32)
        } else {
            None
        },
        None => None,
    }
}

/// Reads a decimal `i32` the way `str::parse::<i32>` does.
pub fn parse_i32(s: &Vec<u8>) -> (r: Option<i32>)
    ensures
        r == parsed_i32(s@),
{
    match parse_i64(s) {
        Some(v) => if i32::MIN as i64 <= v && v <= i32::MAX as i64 {
            Some(v as i32)
        } else {
            None
        },
        None => None,
    }
}

proof fn lemma_digits_value_mono(s: Seq<u8>, i: int)
    requires
        0 <= i <= s.len(),
        all_digits(s),
    ensures
        digits_value(s.subrange(0, i)) <= digits_value(s),
    decreases s.len() - i,
{
    if i < s.len() {
        lemma_digits_value_mono(s, i + 1);
        assert(s.subrange(0, i + 1).drop_last() =~= s.subrange(0, i));
    } else {
        assert(s.subrange(0, i) =~= s);
    }
}

/// Reads a decimal `i64` the way `str::parse::<i64>` does.
pub fn parse_i64(s: &Vec<u8>) -> (r: Option<i64>)
    ensures
        r == parsed_i64(s@),
{
    let n = s.len();
    if n == 0 {
        return None;
    }
    let neg = s[0] == 45;
    let start: usize = if s[0] == 45 || s[0] == 43 {
        1
    } else {
        0
    };
    let ghost body = if start == 1 {
        s@.drop_first()
    } else {
        s@
    };
    proof {
        assert(body =~= s@.subrange(start as int, n as int));
        assert(decimal_value(s@) == (if body.len() == 0 || !all_digits(body) {
            None
        } else if neg {
            Some(-(digits_value(body) as int))
        } else {
            Some(digits_value(body) as int)
        }));
    }
    if start == n {
        return None;
    }
    // The magnitude, kept while it can still be an i64.
    let mut mag: u64 = 0;
    let mut i = start;
    while i < n
        invariant
            start <= i <= n,
            n == s@.len(),
            body =~= s@.subrange(start as int, n as int),
            all_digits(s@.subrange(start as int, i as int)),
            mag == digits_value(s@.subrange(start as int, i as int)),
            mag <= 0x8000_0000_0000_0000,
            neg == (s@[0] == 45),
            decimal_value(s@) == (if body.len() == 0 || !all_digits(body) {
                None
            } else if neg {
                Some(-(digits_value(body) as int))
            } else {
                Some(digits_value(body) as int)
            }),
        decreases n - i,
    {
        let c = s[i];
        if c < 48 || c > 57 {
            proof {
                assert(body[i - start] == c);
                assert(!is_digit(body[i - start]));
                assert(decimal_value(s@) is None);
            }
            return None;
        }
        proof {
            assert(s@.subrange(start as int, i + 1).drop_last() =~= s@.subrange(
                start as int,
                i as int,
            ));
            assert forall|k| 0 <= k < s@.subrange(start as int, i + 1).len() implies is_digit(
                #[trigger] s@.subrange(start as int, i + 1)[k],
            ) by {
                if k < i - start {
                    assert(s@.subrange(start as int, i + 1)[k] == s@.subrange(
                        start as int,
                        i as int,
                    )[k]);
                }
            }
        }
        let ghost pre = s@.subrange(start as int, i + 1);
        proof {
            assert(digits_value(pre) == mag * 10 + (c - 48));
            if all_digits(body) {
                assert(pre =~= body.subrange(0, i + 1 - start));
                lemma_digits_value_mono(body, i + 1 - start);
            }
        }
        if mag > 0x0CCC_CCCC_CCCC_CCCC {
            // Ten times the magnitude is already beyond every i64.
            proof {
                assert(digits_value(pre) > 0x8000_0000_0000_0000);
                if all_digits(body) {
                    assert(digits_value(body) > 0x8000_0000_0000_0000);
                }
            }
            return None;
        }
        mag = mag * 10 + (c - 48) as u64;
        if mag > 0x8000_0000_0000_0000 {
            proof {
                if all_digits(body) {
                    assert(digits_value(body) > 0x8000_0000_0000_0000);
                }
            }
            return None;
        }
        i = i + 1;
    }
    proof {
        assert(s@.subrange(start as int, n as int) =~= body);
    }
    if neg {
        if mag == 0x8000_0000_0000_0000 {
            Some(i64::MIN)
        } else {
            Some(-(mag as i64))
        }
    } else {
        if mag > 0x7FFF_FFFF_FFFF_FFFF {
            None
        } else {
            Some(mag as i64)
        }
    }
}

} // verus!

verus! {

/// Whether `c` is an ASCII white-space byte (tab, line feed, vertical tab, form feed,
/// carriage return, space).
pub open spec fn is_space(c: u8) -> bool {
    (9 <= c <= 13) || c == 32
}

/// `s` without the white-space bytes at its two ends.
pub open spec fn trimmed(s: Seq<u8>) -> Seq<u8>
    decreases s.len(),
{
    if s.len() > 0 && is_space(s[0]) {
        trimmed(s.drop_first())
    } else if s.len() > 0 && is_space(s.last()) {
        trimmed(s.drop_last())
    } else {
        s
    }
}

/// The `i8` that `s.trim().parse::<i8>()` reads, if it reads one.
pub open spec fn parsed_i8_trimmed(s: Seq<u8>) -> Option<i8> {
    match decimal_value(trimmed(s)) {
        Some(v) => if -128 <= v <= 127 {
            Some(v as i8)
        } else {
            None
        },
        None => None,
    }
}

proof fn lemma_trimmed_range(s: Seq<u8>, a: int, b: int)
    requires
        0 <= a <= b <= s.len(),
        forall|k| 0 <= k < a ==> is_space(#[trigger] s[k]),
        forall|k| b <= k < s.len() ==> is_space(#[trigger] s[k]),
        a < b ==> !is_space(s[a]) && !is_space(s[b - 1]),
    ensures
        trimmed(s) == s.subrange(a, b),
    decreases s.len(),
{
    if s.len() > 0 && is_space(s[0]) {
        let t = s.drop_first();
        if a == 0 {
            // then a == b == 0 and every byte is white space
            lemma_trimmed_range(t, 0, 0);
            assert(t.subrange(0, 0) =~= s.subrange(a, b));
        } else {
            lemma_trimmed_range(t, a - 1, b - 1);
            assert(t.subrange(a - 1, b - 1) =~= s.subrange(a, b));
        }
    } else if s.len() > 0 && is_space(s.last()) {
        let t = s.drop_last();
        if b == s.len() {
            assert(a == b);
            lemma_trimmed_range(t, a - 1, a - 1);
            assert(false);
        } else {
            lemma_trimmed_range(t, a, b);
            assert(t.subrange(a, b) =~= s.subrange(a, b));
        }
    } else {
        if s.len() > 0 {
            assert(a == 0 && b == s.len());
        }
        assert(s.subrange(a, b) =~= s);
    }
}

/// Reads an `i8` the way `s.trim().parse::<i8>()` does, for white space that is ASCII.
pub fn parse_i8_trimmed(s: &Vec<u8>) -> (r: Option<i8>)
    ensures
        r == parsed_i8_trimmed(s@),
{
    let n = s.len();
    let mut a: usize = 0;
    while a < n && (s[a] == 32 || (9 <= s[a] && s[a] <= 13))
        invariant
            a <= n,
            n == s@.len(),
            forall|k| 0 <= k < a ==> is_space(#[trigger] s@[k]),
        decreases n - a,
    {
        a = a + 1;
    }
    let mut b: usize = n;
    while b > a && (s[b - 1] == 32 || (9 <= s[b - 1] && s[b - 1] <= 13))
        invariant
            a <= b <= n,
            n == s@.len(),
            forall|k| b <= k < n ==> is_space(#[trigger] s@[k]),
        decreases b - a,
    {
        b = b - 1;
    }
    proof {
        if a == n {
            assert(a == b);
        }
        lemma_trimmed_range(s@, a as int, b as int);
    }
    let mut t: Vec<u8> = Vec::new();
    let mut i = a;
    while i < b
        invariant
            a <= i <= b <= n,
            n == s@.len(),
            t@ == s@.subrange(a as int, i as int),
        decreases b - i,
    {
        t.push(s[i]);
        proof {
            assert(t@ =~= s@.subrange(a as int, i + 1));
        }
        i = i + 1;
    }
    match parse_i64(&t) {
        Some(v) => if -128 <= v && v <= 127 {
            Some(v as i8)
        } else {
            None
        },
        None => None,
    }
}

/// The decimal digits of `n`, most significant first, with no leading zero.
pub open spec fn digits_of(n: nat) -> Seq<u8>
    decreases n,
{
    if n < 10 {
        seq![(48 + n) as u8]
    } else {
        digits_of(n / 10).push((48 + n % 10) as u8)
    }
}

/// How `n` is written in decimal: a `-` before the digits of a negative number.
pub open spec fn decimal_text(n: int) -> Seq<u8> {
    if n < 0 {
        seq![45u8] + digits_of((-n) as nat)
    } else {
        digits_of(n as nat)
    }
}

/// Appends the decimal digits of `m`.
fn push_digits(out: &mut Vec<u8>, m: u32)
    ensures
        final(out)@ == old(out)@ + digits_of(m as nat),
    decreases m,
{
    if m >= 10 {
        push_digits(out, m / 10);
    }
    out.push(48 + (m % 10) as u8);
    proof {
        assert(final(out)@ =~= old(out)@ + digits_of(m as nat)) by {
            if m >= 10 {
                assert(digits_of(m as nat) == digits_of((m / 10) as nat).push((48 + m % 10) as u8));
            }
        }
    }
}

/// Appends `n` written in decimal (see [`decimal_text`]).
pub fn push_decimal(out: &mut Vec<u8>, n: i32)
    ensures
        final(out)@ == old(out)@ + decimal_text(n as int),
{
    if n < 0 {
        out.push(45);
        let m: i64 = -(n as i64);
        push_digits(out, m as u32);
        proof {
            assert(final(out)@ =~= old(out)@ + decimal_text(n as int));
        }
    } else {
        push_digits(out, n as u32);
    }
}

/// Appends the bytes of `s`.
pub fn push_all(out: &mut Vec<u8>, s: &[u8])
    ensures
        final(out)@ == old(out)@ + s@,
{
    let mut i: usize = 0;
    while i < s.len()
        invariant
            i <= s@.len(),
            out@ == old(out)@ + s@.subrange(0, i as int),
        decreases s@.len() - i,
    {
        out.push(s[i]);
        i = i + 1;
        proof {
            assert(out@ =~= old(out)@ + s@.subrange(0, i as int));
        }
    }
    proof {
        assert(s@.subrange(0, s@.len() as int) =~= s@);
    }
}

} // verus!
