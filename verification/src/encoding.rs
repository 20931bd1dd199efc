//! The integers of the wire format: fixed-width little-endian numbers and
//! the compact size that precedes every list and byte string.

use vstd::prelude::*;

verus! {

/// The two bytes of `v`, least significant first.
pub open spec fn le_bytes_u16(v: u16) -> Seq<u8> {
    seq![(v % 256) as u8, (v / 256) as u8]
}

/// The four bytes of `v`, least significant first.
#[verifier::opaque]
pub open spec fn le_bytes_u32(v: u32) -> Seq<u8> {
    seq![
        (v % 256) as u8,
        (v / 0x100 % 256) as u8,
        (v / 0x1_0000 % 256) as u8,
        (v / 0x100_0000) as u8,
    ]
}

/// The eight bytes of `v`, least significant first.
#[verifier::opaque]
pub open spec fn le_bytes_u64(v: u64) -> Seq<u8> {
    le_bytes_u32((v % 0x1_0000_0000) as u32) + le_bytes_u32((v / 0x1_0000_0000) as u32)
}

/// The number that the two bytes of `s` from `at` on stand for.
pub open spec fn le_u16_at(s: Seq<u8>, at: int) -> u16 {
    (s[at] + 256 * s[at + 1]) as u16
}

/// The number that the four bytes of `s` from `at` on stand for.
#[verifier::opaque]
pub open spec fn le_u32_at(s: Seq<u8>, at: int) -> u32 {
    (s[at] + 0x100 * s[at + 1] + 0x1_0000 * s[at + 2] + 0x100_0000 * s[at + 3]) as u32
}

/// The number that the eight bytes of `s` from `at` on stand for.
#[verifier::opaque]
pub open spec fn le_u64_at(s: Seq<u8>, at: int) -> u64 {
    (le_u32_at(s, at) + 0x1_0000_0000 * le_u32_at(s, at + 4)) as u64
}

/// Reading back what was written gives the number written, whatever
/// follows it.
pub proof fn lemma_le_u32_round_trip(v: u32, rest: Seq<u8>)
    ensures
        le_bytes_u32(v).len() == 4,
        le_u32_at(le_bytes_u32(v) + rest, 0) == v,
{
    reveal(le_bytes_u32);
    reveal(le_u32_at);
}

/// Reading at `at` behind the first `k` bytes is reading at `k + at`.
pub proof fn lemma_le_u32_at_skip(s: Seq<u8>, k: int, at: int)
    requires
        0 <= k,
        0 <= at,
        k + at + 4 <= s.len(),
    ensures
        le_u32_at(s.skip(k), at) == le_u32_at(s, k + at),
{
    reveal(le_u32_at);
}

/// Reading at `at` behind the first `k` bytes is reading at `k + at`.
pub proof fn lemma_le_u64_at_skip(s: Seq<u8>, k: int, at: int)
    requires
        0 <= k,
        0 <= at,
        k + at + 8 <= s.len(),
    ensures
        le_u64_at(s.skip(k), at) == le_u64_at(s, k + at),
{
    reveal(le_u64_at);
    lemma_le_u32_at_skip(s, k, at);
    lemma_le_u32_at_skip(s, k, at + 4);
}

/// Reading back what was written gives the number written, whatever
/// follows it.
pub proof fn lemma_le_u64_round_trip(v: u64, rest: Seq<u8>)
    ensures
        le_bytes_u64(v).len() == 8,
        le_u64_at(le_bytes_u64(v) + rest, 0) == v,
{
    reveal(le_bytes_u64);
    reveal(le_u64_at);
    let low = (v % 0x1_0000_0000) as u32;
    let high = (v / 0x1_0000_0000) as u32;
    let all = le_bytes_u64(v) + rest;
    lemma_le_u32_round_trip(low, le_bytes_u32(high) + rest);
    lemma_le_u32_round_trip(high, rest);
    assert(all =~= le_bytes_u32(low) + (le_bytes_u32(high) + rest));
    assert(all.skip(4) =~= le_bytes_u32(high) + rest);
    lemma_le_u32_at_skip(all, 4, 0);
}

/// A number below 2 to the 32 has the base-256 digits it is made of.
pub proof fn lemma_four_digits(b0: int, b1: int, b2: int, b3: int)
    requires
        0 <= b0 < 256,
        0 <= b1 < 256,
        0 <= b2 < 256,
        0 <= b3 < 256,
    ensures
        ({
            let v = b0 + 0x100 * b1 + 0x1_0000 * b2 + 0x100_0000 * b3;
            &&& 0 <= v < 0x1_0000_0000
            &&& v % 256 == b0
            &&& v / 0x100 % 256 == b1
            &&& v / 0x1_0000 % 256 == b2
            &&& v / 0x100_0000 == b3
        }),
{
    let v = b0 + 0x100 * b1 + 0x1_0000 * b2 + 0x100_0000 * b3;
    let q1 = b1 + 0x100 * b2 + 0x1_0000 * b3;
    let q2 = b2 + 0x100 * b3;
    assert(v / 0x100 == q1 && v % 256 == b0) by (nonlinear_arith)
        requires
            v == 0x100 * q1 + b0,
            0 <= b0 < 256,
    ;
    assert(q1 % 256 == b1) by (nonlinear_arith)
        requires
            q1 == 0x100 * q2 + b1,
            0 <= b1 < 256,
    ;
    assert(v / 0x1_0000 == q2) by (nonlinear_arith)
        requires
            v == 0x1_0000 * q2 + (b0 + 0x100 * b1),
            0 <= b0 + 0x100 * b1 < 0x1_0000,
    ;
    assert(q2 % 256 == b2) by (nonlinear_arith)
        requires
            q2 == 0x100 * b3 + b2,
            0 <= b2 < 256,
    ;
    assert(v / 0x100_0000 == b3) by (nonlinear_arith)
        requires
            v == 0x100_0000 * b3 + (b0 + 0x100 * b1 + 0x1_0000 * b2),
            0 <= b0 + 0x100 * b1 + 0x1_0000 * b2 < 0x100_0000,
    ;
}

/// Writing what was read gives the bytes read.
pub proof fn lemma_le_u32_bytes_at(s: Seq<u8>, at: int)
    requires
        0 <= at,
        at + 4 <= s.len(),
    ensures
        le_bytes_u32(le_u32_at(s, at)) == s.subrange(at, at + 4),
{
    reveal(le_bytes_u32);
    reveal(le_u32_at);
    lemma_four_digits(s[at] as int, s[at + 1] as int, s[at + 2] as int, s[at + 3] as int);
}

/// Writing what was read gives the bytes read.
pub proof fn lemma_le_u64_bytes_at(s: Seq<u8>, at: int)
    requires
        0 <= at,
        at + 8 <= s.len(),
    ensures
        le_bytes_u64(le_u64_at(s, at)) == s.subrange(at, at + 8),
{
    reveal(le_bytes_u64);
    reveal(le_u64_at);
    lemma_le_u32_bytes_at(s, at);
    lemma_le_u32_bytes_at(s, at + 4);
}

/// Appends the two bytes of `v` to `out`.
pub fn write_u16(out: &mut Vec<u8>, v: u16)
    ensures
        final(out)@ == old(out)@ + le_bytes_u16(v),
{
    out.push((v % 256) as u8);
    out.push((v / 256) as u8);
}

/// Appends the four bytes of `v` to `out`.
pub fn write_u32(out: &mut Vec<u8>, v: u32)
    ensures
        final(out)@ == old(out)@ + le_bytes_u32(v),
{
    out.push((v % 256) as u8);
    out.push((v / 0x100 % 256) as u8);
    out.push((v / 0x1_0000 % 256) as u8);
    out.push((v / 0x100_0000) as u8);
    proof {
        reveal(le_bytes_u32);
    }
}

/// Appends the eight bytes of `v` to `out`.
pub fn write_u64(out: &mut Vec<u8>, v: u64)
    ensures
        final(out)@ == old(out)@ + le_bytes_u64(v),
{
    write_u32(out, (v % 0x1_0000_0000) as u32);
    write_u32(out, (v / 0x1_0000_0000) as u32);
    proof {
        reveal(le_bytes_u64);
    }
}

/// Reads the two bytes of `data` from `at` on.
pub fn read_u16(data: &[u8], at: usize) -> (v: u16)
    requires
        at + 2 <= data@.len(),
    ensures
        v == le_u16_at(data@, at as int),
{
    data[at] as u16 + 256 * (data[at + 1] as u16)
}

/// Reads the four bytes of `data` from `at` on.
pub fn read_u32(data: &[u8], at: usize) -> (v: u32)
    requires
        at + 4 <= data@.len(),
    ensures
        v == le_u32_at(data@, at as int),
{
    proof {
        reveal(le_u32_at);
    }
    data[at] as u32 + 0x100 * (data[at + 1] as u32) + 0x1_0000 * (data[at + 2] as u32) + 0x100_0000
        * (data[at + 3] as u32)
}

/// Reads the eight bytes of `data` from `at` on.
pub fn read_u64(data: &[u8], at: usize) -> (v: u64)
    requires
        at + 8 <= data@.len(),
    ensures
        v == le_u64_at(data@, at as int),
{
    proof {
        reveal(le_u64_at);
    }
    let len: usize = data.len();
    let low: u32 = read_u32(data, at);
    let high: u32 = read_u32(data, at + 4);
    low as u64 + 0x1_0000_0000 * (high as u64)
}

/// The compact size of `n`: one byte below 0xfd, else a marker and the
/// number in the narrowest of two, four or eight little-endian bytes.
#[verifier::opaque]
pub open spec fn compact_size(n: u64) -> Seq<u8> {
    if n < 0xfd {
        seq![n as u8]
    } else if n <= 0xffff {
        seq![0xfdu8] + le_bytes_u16(n as u16)
    } else if n <= 0xffff_ffff {
        seq![0xfeu8] + le_bytes_u32(n as u32)
    } else {
        seq![0xffu8] + le_bytes_u64(n)
    }
}

/// The number at the start of `s` and the count of bytes it takes, where `s`
/// starts with a compact size in its narrowest form; nothing else is read.
#[verifier::opaque]
pub open spec fn parse_compact_size(s: Seq<u8>) -> Option<(u64, int)> {
    if s.len() < 1 {
        None
    } else if s[0] < 0xfd {
        Some((s[0] as u64, 1))
    } else if s[0] == 0xfd {
        if s.len() >= 3 && le_u16_at(s, 1) >= 0xfd {
            Some((le_u16_at(s, 1) as u64, 3))
        } else {
            None
        }
    } else if s[0] == 0xfe {
        if s.len() >= 5 && le_u32_at(s, 1) > 0xffff {
            Some((le_u32_at(s, 1) as u64, 5))
        } else {
            None
        }
    } else {
        if s.len() >= 9 && le_u64_at(s, 1) > 0xffff_ffff {
            Some((le_u64_at(s, 1), 9))
        } else {
            None
        }
    }
}

/// A compact size reads back as the number written, whatever follows it.
/// It takes from one to nine bytes, and its first byte is zero only for the
/// number zero.
pub proof fn lemma_compact_size_round_trip(n: u64, rest: Seq<u8>)
    ensures
        1 <= compact_size(n).len() <= 9,
        n >= 1 ==> compact_size(n)[0] != 0,
        parse_compact_size(compact_size(n) + rest) == Some((n, compact_size(n).len() as int)),
{
    reveal(compact_size);
    reveal(parse_compact_size);
    let all = compact_size(n) + rest;
    if 0xffff < n <= 0xffff_ffff {
        lemma_le_u32_round_trip(n as u32, rest);
        assert(all.skip(1) =~= le_bytes_u32(n as u32) + rest);
        lemma_le_u32_at_skip(all, 1, 0);
    } else if n > 0xffff_ffff {
        lemma_le_u64_round_trip(n, rest);
        assert(all.skip(1) =~= le_bytes_u64(n) + rest);
        lemma_le_u64_at_skip(all, 1, 0);
    }
}

/// Where a compact size is read, the bytes read are the compact size of the
/// number: no other bytes stand for it.
pub proof fn lemma_compact_size_parsed(s: Seq<u8>)
    ensures
        parse_compact_size(s) matches Some((n, taken)) ==> 1 <= taken <= s.len() && compact_size(n)
            == s.subrange(0, taken),
{
    reveal(compact_size);
    reveal(parse_compact_size);
    if parse_compact_size(s) is Some {
        if s[0] == 0xfe {
            lemma_le_u32_bytes_at(s, 1);
        } else if s[0] == 0xff {
            lemma_le_u64_bytes_at(s, 1);
        }
    }
}

/// Appends the compact size of `n` to `out`.
pub fn write_compact_size(out: &mut Vec<u8>, n: u64)
    ensures
        final(out)@ == old(out)@ + compact_size(n),
{
    if n < 0xfd {
        out.push(n as u8);
    } else if n <= 0xffff {
        out.push(0xfd);
        write_u16(out, n as u16);
    } else if n <= 0xffff_ffff {
        out.push(0xfe);
        write_u32(out, n as u32);
    } else {
        out.push(0xff);
        write_u64(out, n);
    }
    proof {
        reveal(compact_size);
    }
}

/// Reads the compact size that `data` holds at `at`; `None` where the bytes
/// end too early or the number is not in its narrowest form. With the
/// number comes the position after it.
pub fn read_compact_size(data: &[u8], at: usize) -> (res: Option<(u64, usize)>)
    requires
        at <= data@.len(),
    ensures
        match res {
            Some((n, next)) => parse_compact_size(data@.skip(at as int)) == Some(
                (n, next - at),
            ) && at < next <= data@.len(),
            None => parse_compact_size(data@.skip(at as int)) is None,
        },
{
    proof {
        reveal(parse_compact_size);
    }
    let left: usize = data.len() - at;
    if left < 1 {
        return None;
    }
    let first: u8 = data[at];
    if first < 0xfd {
        Some((first as u64, at + 1))
    } else if first == 0xfd {
        if left < 3 {
            return None;
        }
        let v: u16 = read_u16(data, at + 1);
        if v >= 0xfd {
            Some((v as u64, at + 3))
        } else {
            None
        }
    } else if first == 0xfe {
        if left < 5 {
            return None;
        }
        let v: u32 = read_u32(data, at + 1);
        proof {
            lemma_le_u32_at_skip(data@, at as int, 1);
        }
        if v > 0xffff {
            Some((v as u64, at + 5))
        } else {
            None
        }
    } else {
        if left < 9 {
            return None;
        }
        let v: u64 = read_u64(data, at + 1);
        proof {
            lemma_le_u64_at_skip(data@, at as int, 1);
        }
        if v > 0xffff_ffff {
            Some((v, at + 9))
        } else {
            None
        }
    }
}

} // verus!
