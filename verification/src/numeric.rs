//! Fixed-width integers as byte arrays.
//!
//! A number is written as its base-256 digits. The byte order is chosen at
//! every call: big-endian puts the most significant digit first,
//! little-endian the least significant one.

use vstd::prelude::*;

verus! {

/// The four base-256 digits of `x`, most significant first.
pub open spec fn u32_digits(x: u32) -> Seq<u8> {
    seq![
        (x / 0x100_0000) as u8,
        (x / 0x1_0000 % 0x100) as u8,
        (x / 0x100 % 0x100) as u8,
        (x % 0x100) as u8,
    ]
}

/// The four bytes that stand for `x` in the given byte order.
pub open spec fn u32_bytes(x: u32, big_endian: bool) -> Seq<u8> {
    if big_endian {
        u32_digits(x)
    } else {
        u32_digits(x).reverse()
    }
}

/// The number that four bytes stand for in the given byte order.
pub open spec fn u32_value(b: Seq<u8>, big_endian: bool) -> int
    recommends
        b.len() == 4,
{
    if big_endian {
        b[0] * 0x100_0000 + b[1] * 0x1_0000 + b[2] * 0x100 + b[3]
    } else {
        b[3] * 0x100_0000 + b[2] * 0x1_0000 + b[1] * 0x100 + b[0]
    }
}

/// The eight base-256 digits of `x`, most significant first.
pub open spec fn u64_digits(x: u64) -> Seq<u8> {
    seq![
        (x / 0x100_0000_0000_0000) as u8,
        (x / 0x1_0000_0000_0000 % 0x100) as u8,
        (x / 0x100_0000_0000 % 0x100) as u8,
        (x / 0x1_0000_0000 % 0x100) as u8,
        (x / 0x100_0000 % 0x100) as u8,
        (x / 0x1_0000 % 0x100) as u8,
        (x / 0x100 % 0x100) as u8,
        (x % 0x100) as u8,
    ]
}

/// The eight bytes that stand for `x` in the given byte order.
pub open spec fn u64_bytes(x: u64, big_endian: bool) -> Seq<u8> {
    if big_endian {
        u64_digits(x)
    } else {
        u64_digits(x).reverse()
    }
}

/// The number that eight bytes stand for in the given byte order.
pub open spec fn u64_value(b: Seq<u8>, big_endian: bool) -> int
    recommends
        b.len() == 8,
{
    if big_endian {
        b[0] * 0x100_0000_0000_0000 + b[1] * 0x1_0000_0000_0000 + b[2] * 0x100_0000_0000 + b[3]
            * 0x1_0000_0000 + b[4] * 0x100_0000 + b[5] * 0x1_0000 + b[6] * 0x100 + b[7]
    } else {
        b[7] * 0x100_0000_0000_0000 + b[6] * 0x1_0000_0000_0000 + b[5] * 0x100_0000_0000 + b[4]
            * 0x1_0000_0000 + b[3] * 0x100_0000 + b[2] * 0x1_0000 + b[1] * 0x100 + b[0]
    }
}

/// Writes a 32-bit number as four bytes in the given byte order.
pub fn u32_to_u8_vec(x: u32, big_endian: bool) -> (bytes: Vec<u8>)
    ensures
        bytes@ == u32_bytes(x, big_endian),
{
    let b1: u8 = ((x >> 24) & 0xff) as u8;
    let b2: u8 = ((x >> 16) & 0xff) as u8;
    let b3: u8 = ((x >> 8) & 0xff) as u8;
    let b4: u8 = (x & 0xff) as u8;
    proof {
        assert(((x >> 24) & 0xff) as u8 == (x / 0x100_0000) as u8) by (bit_vector);
        assert(((x >> 16) & 0xff) as u8 == (x / 0x1_0000 % 0x100) as u8) by (bit_vector);
        assert(((x >> 8) & 0xff) as u8 == (x / 0x100 % 0x100) as u8) by (bit_vector);
        assert((x & 0xff) as u8 == (x % 0x100) as u8) by (bit_vector);
    }
    if big_endian {
        let bytes = vec![b1, b2, b3, b4];
        assert(bytes@ =~= u32_digits(x));
        bytes
    } else {
        let bytes = vec![b4, b3, b2, b1];
        assert(bytes@ =~= u32_digits(x).reverse());
        bytes
    }
}

/// Writes a 64-bit number as eight bytes in the given byte order.
pub fn u64_to_u8_vec(x: u64, big_endian: bool) -> (bytes: Vec<u8>)
    ensures
        bytes@ == u64_bytes(x, big_endian),
{
    let b1: u8 = ((x >> 56) & 0xff) as u8;
    let b2: u8 = ((x >> 48) & 0xff) as u8;
    let b3: u8 = ((x >> 40) & 0xff) as u8;
    let b4: u8 = ((x >> 32) & 0xff) as u8;
    let b5: u8 = ((x >> 24) & 0xff) as u8;
    let b6: u8 = ((x >> 16) & 0xff) as u8;
    let b7: u8 = ((x >> 8) & 0xff) as u8;
    let b8: u8 = (x & 0xff) as u8;
    proof {
        assert(((x >> 56) & 0xff) as u8 == (x / 0x100_0000_0000_0000) as u8) by (bit_vector);
        assert(((x >> 48) & 0xff) as u8 == (x / 0x1_0000_0000_0000 % 0x100) as u8)
            by (bit_vector);
        assert(((x >> 40) & 0xff) as u8 == (x / 0x100_0000_0000 % 0x100) as u8) by (bit_vector);
        assert(((x >> 32) & 0xff) as u8 == (x / 0x1_0000_0000 % 0x100) as u8) by (bit_vector);
        assert(((x >> 24) & 0xff) as u8 == (x / 0x100_0000 % 0x100) as u8) by (bit_vector);
        assert(((x >> 16) & 0xff) as u8 == (x / 0x1_0000 % 0x100) as u8) by (bit_vector);
        assert(((x >> 8) & 0xff) as u8 == (x / 0x100 % 0x100) as u8) by (bit_vector);
        assert((x & 0xff) as u8 == (x % 0x100) as u8) by (bit_vector);
    }
    if big_endian {
        let bytes = vec![b1, b2, b3, b4, b5, b6, b7, b8];
        assert(bytes@ =~= u64_digits(x));
        bytes
    } else {
        let bytes = vec![b8, b7, b6, b5, b4, b3, b2, b1];
        assert(bytes@ =~= u64_digits(x).reverse());
        bytes
    }
}

/// Reads a 32-bit number from exactly four bytes in the given byte order.
pub fn u8_vec_to_u32(x: Vec<u8>, big_endian: bool) -> (n: u32)
    requires
        x@.len() == 4,
    ensures
        n == u32_value(x@, big_endian),
{
    if big_endian {
        join_u32(x[0], x[1], x[2], x[3])
    } else {
        join_u32(x[3], x[2], x[1], x[0])
    }
}

/// Reads a 64-bit number from exactly eight bytes in the given byte order.
pub fn u8_vec_to_u64(x: Vec<u8>, big_endian: bool) -> (n: u64)
    requires
        x@.len() == 8,
    ensures
        n == u64_value(x@, big_endian),
{
    if big_endian {
        join_u64(x[0], x[1], x[2], x[3], x[4], x[5], x[6], x[7])
    } else {
        join_u64(x[7], x[6], x[5], x[4], x[3], x[2], x[1], x[0])
    }
}

/// Four digits, most significant first, as one 32-bit number.
fn join_u32(d1: u8, d2: u8, d3: u8, d4: u8) -> (n: u32)
    ensures
        n == d1 * 0x100_0000 + d2 * 0x1_0000 + d3 * 0x100 + d4,
{
    let n: u32 = (d1 as u32) << 24 | ((d2 as u32) & 0xff) << 16 | ((d3 as u32) & 0xff) << 8 | ((
    d4 as u32) & 0xff);
    assert((d1 as u32) << 24 | ((d2 as u32) & 0xff) << 16 | ((d3 as u32) & 0xff) << 8 | ((
    d4 as u32) & 0xff) == (d1 as u32) * 0x100_0000 + (d2 as u32) * 0x1_0000 + (d3 as u32) * 0x100
        + (d4 as u32)) by (bit_vector);
    n
}

/// Eight digits, most significant first, as one 64-bit number.
fn join_u64(d1: u8, d2: u8, d3: u8, d4: u8, d5: u8, d6: u8, d7: u8, d8: u8) -> (n: u64)
    ensures
        n == d1 * 0x100_0000_0000_0000 + d2 * 0x1_0000_0000_0000 + d3 * 0x100_0000_0000 + d4
            * 0x1_0000_0000 + d5 * 0x100_0000 + d6 * 0x1_0000 + d7 * 0x100 + d8,
{
    let n: u64 = (d1 as u64) << 56 | ((d2 as u64) & 0xff) << 48 | ((d3 as u64) & 0xff) << 40 | ((
    d4 as u64) & 0xff) << 32 | ((d5 as u64) & 0xff) << 24 | ((d6 as u64) & 0xff) << 16 | ((
    d7 as u64) & 0xff) << 8 | ((d8 as u64) & 0xff);
    assert((d1 as u64) << 56 | ((d2 as u64) & 0xff) << 48 | ((d3 as u64) & 0xff) << 40 | ((
    d4 as u64) & 0xff) << 32 | ((d5 as u64) & 0xff) << 24 | ((d6 as u64) & 0xff) << 16 | ((
    d7 as u64) & 0xff) << 8 | ((d8 as u64) & 0xff) == (d1 as u64) * 0x100_0000_0000_0000 + (
    d2 as u64) * 0x1_0000_0000_0000 + (d3 as u64) * 0x100_0000_0000 + (d4 as u64) * 0x1_0000_0000
        + (d5 as u64) * 0x100_0000 + (d6 as u64) * 0x1_0000 + (d7 as u64) * 0x100 + (d8 as u64))
        by (bit_vector);
    n
}

/// Reading back what was written gives the number that was written, in
/// either byte order.
pub proof fn lemma_u32_round_trip(n: u32, big_endian: bool)
    ensures
        u32_bytes(n, big_endian).len() == 4,
        u32_value(u32_bytes(n, big_endian), big_endian) == n,
{
    lemma_u32_digits(n);
}

/// Reading back what was written gives the number that was written, in
/// either byte order.
pub proof fn lemma_u64_round_trip(n: u64, big_endian: bool)
    ensures
        u64_bytes(n, big_endian).len() == 8,
        u64_value(u64_bytes(n, big_endian), big_endian) == n,
{
    lemma_u64_digits(n);
}

/// Four bytes stand for a 32-bit number, and writing that number gives the
/// four bytes back: no two byte arrays stand for the same number.
pub proof fn lemma_u32_bytes_of_value(b: Seq<u8>, big_endian: bool)
    requires
        b.len() == 4,
    ensures
        0 <= u32_value(b, big_endian) <= u32::MAX,
        u32_bytes(u32_value(b, big_endian) as u32, big_endian) == b,
{
    if big_endian {
        lemma_u32_joined(b[0], b[1], b[2], b[3]);
    } else {
        lemma_u32_joined(b[3], b[2], b[1], b[0]);
    }
    assert(u32_bytes(u32_value(b, big_endian) as u32, big_endian) =~= b);
}

/// Eight bytes stand for a 64-bit number, and writing that number gives the
/// eight bytes back: no two byte arrays stand for the same number.
pub proof fn lemma_u64_bytes_of_value(b: Seq<u8>, big_endian: bool)
    requires
        b.len() == 8,
    ensures
        0 <= u64_value(b, big_endian) <= u64::MAX,
        u64_bytes(u64_value(b, big_endian) as u64, big_endian) == b,
{
    if big_endian {
        lemma_u64_joined(b[0], b[1], b[2], b[3], b[4], b[5], b[6], b[7]);
    } else {
        lemma_u64_joined(b[7], b[6], b[5], b[4], b[3], b[2], b[1], b[0]);
    }
    assert(u64_bytes(u64_value(b, big_endian) as u64, big_endian) =~= b);
}

/// The digits of a 32-bit number are below 256 and add up to it.
proof fn lemma_u32_digits(n: u32)
    ensures
        u32_digits(n).len() == 4,
        u32_digits(n)[0] * 0x100_0000 + u32_digits(n)[1] * 0x1_0000 + u32_digits(n)[2] * 0x100
            + u32_digits(n)[3] == n,
{
}

/// The digits of a 64-bit number are below 256 and add up to it.
proof fn lemma_u64_digits(n: u64)
    ensures
        u64_digits(n).len() == 8,
        u64_digits(n)[0] * 0x100_0000_0000_0000 + u64_digits(n)[1] * 0x1_0000_0000_0000
            + u64_digits(n)[2] * 0x100_0000_0000 + u64_digits(n)[3] * 0x1_0000_0000
            + u64_digits(n)[4] * 0x100_0000 + u64_digits(n)[5] * 0x1_0000 + u64_digits(n)[6]
            * 0x100 + u64_digits(n)[7] == n,
{
    let q1 = n / 0x100;
    let q2 = q1 / 0x100;
    let q3 = q2 / 0x100;
    let q4 = q3 / 0x100;
    let q5 = q4 / 0x100;
    let q6 = q5 / 0x100;
    let q7 = q6 / 0x100;
    assert(q2 == n / 0x1_0000);
    assert(q3 == n / 0x100_0000);
    assert(q4 == n / 0x1_0000_0000);
    assert(q5 == n / 0x100_0000_0000);
    assert(q6 == n / 0x1_0000_0000_0000);
    assert(q7 == n / 0x100_0000_0000_0000);
}

/// The number that four digits stand for has exactly those digits.
proof fn lemma_u32_joined(d1: u8, d2: u8, d3: u8, d4: u8)
    ensures
        0 <= d1 * 0x100_0000 + d2 * 0x1_0000 + d3 * 0x100 + d4 <= u32::MAX,
        u32_digits((d1 * 0x100_0000 + d2 * 0x1_0000 + d3 * 0x100 + d4) as u32) == seq![
            d1,
            d2,
            d3,
            d4,
        ],
{
    let n = (d1 * 0x100_0000 + d2 * 0x1_0000 + d3 * 0x100 + d4) as u32;
    assert(n / 0x100 == d1 * 0x1_0000 + d2 * 0x100 + d3);
    assert(n / 0x1_0000 == d1 * 0x100 + d2);
    assert(n / 0x100_0000 == d1);
    assert(u32_digits(n) =~= seq![d1, d2, d3, d4]);
}

/// The number that eight digits stand for has exactly those digits.
proof fn lemma_u64_joined(d1: u8, d2: u8, d3: u8, d4: u8, d5: u8, d6: u8, d7: u8, d8: u8)
    ensures
        0 <= d1 * 0x100_0000_0000_0000 + d2 * 0x1_0000_0000_0000 + d3 * 0x100_0000_0000 + d4
            * 0x1_0000_0000 + d5 * 0x100_0000 + d6 * 0x1_0000 + d7 * 0x100 + d8 <= u64::MAX,
        u64_digits(
            (d1 * 0x100_0000_0000_0000 + d2 * 0x1_0000_0000_0000 + d3 * 0x100_0000_0000 + d4
                * 0x1_0000_0000 + d5 * 0x100_0000 + d6 * 0x1_0000 + d7 * 0x100 + d8) as u64,
        ) == seq![d1, d2, d3, d4, d5, d6, d7, d8],
{
    let p2: int = d1 * 0x100 + d2;
    let p3: int = p2 * 0x100 + d3;
    let p4: int = p3 * 0x100 + d4;
    let p5: int = p4 * 0x100 + d5;
    let p6: int = p5 * 0x100 + d6;
    let p7: int = p6 * 0x100 + d7;
    let p8: int = p7 * 0x100 + d8;
    let n = p8 as u64;
    assert(p8 == d1 * 0x100_0000_0000_0000 + d2 * 0x1_0000_0000_0000 + d3 * 0x100_0000_0000 + d4
        * 0x1_0000_0000 + d5 * 0x100_0000 + d6 * 0x1_0000 + d7 * 0x100 + d8);
    let q1 = n / 0x100;
    let q2 = q1 / 0x100;
    let q3 = q2 / 0x100;
    let q4 = q3 / 0x100;
    let q5 = q4 / 0x100;
    let q6 = q5 / 0x100;
    let q7 = q6 / 0x100;
    assert(q1 == p7 && n % 0x100 == d8);
    assert(q2 == p6 && q1 % 0x100 == d7);
    assert(q3 == p5 && q2 % 0x100 == d6);
    assert(q4 == p4 && q3 % 0x100 == d5);
    assert(q5 == p3 && q4 % 0x100 == d4);
    assert(q6 == p2 && q5 % 0x100 == d3);
    assert(q7 == d1 && q6 % 0x100 == d2);
    assert(q2 == n / 0x1_0000);
    assert(q3 == n / 0x100_0000);
    assert(q4 == n / 0x1_0000_0000);
    assert(q5 == n / 0x100_0000_0000);
    assert(q6 == n / 0x1_0000_0000_0000);
    assert(q7 == n / 0x100_0000_0000_0000);
    assert(u64_digits(n) =~= seq![d1, d2, d3, d4, d5, d6, d7, d8]);
}

} // verus!
