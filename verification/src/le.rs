//! Little-endian element codec. The host hands an array's storage over as an
//! untyped byte buffer; a typed view reads each element out of its fixed-width
//! chunk. This module gives that reinterpretation once, as a checked
//! computation on bytes: the unsigned value of a chunk, its signed
//! reinterpretation, and the bound that makes every cast fit.

use vstd::prelude::*;
use vstd::arithmetic::power::{pow, lemma_pow_increases, lemma_pow_adds, lemma_pow0, lemma_pow1};

verus! {

/// The unsigned value of a little-endian byte sequence: the first byte is
/// least significant.
pub open spec fn le_nat(s: Seq<u8>) -> nat
    decreases s.len(),
{
    if s.len() == 0 {
        0
    } else {
        (s[0] as nat) + 256 * le_nat(s.drop_first())
    }
}

/// The `i`-th chunk of `w` bytes of a buffer: the storage of element `i`
/// when every element is `w` bytes wide.
pub open spec fn chunk_at(bytes: Seq<u8>, w: int, i: int) -> Seq<u8> {
    bytes.subrange(i * w, i * w + w)
}

/// The signed value that an unsigned value `v` stands for in two's
/// complement, with modulus `m`: values of `m / 2` and above wrap below zero.
pub open spec fn as_signed(v: nat, m: nat) -> int {
    if v < m / 2 {
        v as int
    } else {
        v - m
    }
}

/// The powers of 256 at the storage widths the classes use, as literals.
pub proof fn lemma_pow256_widths()
    ensures
        pow(256, 1) == 0x100,
        pow(256, 2) == 0x1_0000,
        pow(256, 4) == 0x1_0000_0000,
        pow(256, 8) == 0x1_0000_0000_0000_0000,
{
    reveal_with_fuel(pow, 9);
}

/// Read the unsigned value of the `w`-byte chunk at offset `lo`.
pub fn decode_le(bytes: &Vec<u8>, lo: usize, w: usize) -> (v: u64)
    requires
        1 <= w <= 8,
        lo + w <= bytes@.len(),
    ensures
        v as nat == le_nat(bytes@.subrange(lo as int, lo as int + w as int)),
        (v as nat) < pow(256, w as nat),
{
    let n = bytes.len();
    let mut acc: u64 = 0;
    let mut k: usize = w;
    proof {
        assert(bytes@.subrange(lo + w as int, lo + w as int) =~= Seq::<u8>::empty());
        lemma_pow0(256);
    }
    while k > 0
        invariant
            0 <= k <= w,
            1 <= w <= 8,
            lo + w <= n,
            n == bytes@.len(),
            acc as nat == le_nat(bytes@.subrange(lo + k as int, lo + w as int)),
            (acc as nat) < pow(256, (w - k) as nat),
        decreases k,
    {
        let b = bytes[lo + k - 1];
        proof {
            let s = bytes@.subrange(lo + k - 1, lo + w as int);
            assert(s[0] == bytes@[lo + k - 1]);
            assert(s.drop_first() =~= bytes@.subrange(lo + k as int, lo + w as int));
            lemma_pow1(256);
            lemma_pow_adds(256, 1, (w - k) as nat);
            assert(pow(256, (w - k + 1) as nat) == 256 * pow(256, (w - k) as nat));
            assert((acc as nat) * 256 + (b as nat) < 256 * pow(256, (w - k) as nat))
                by (nonlinear_arith)
                requires
                    b < 256,
                    (acc as nat) < pow(256, (w - k) as nat),
            ;
            lemma_pow_increases(256, (w - k + 1) as nat, 8);
            assert(pow(256, 8) == 0x1_0000_0000_0000_0000) by {
                reveal_with_fuel(pow, 9);
            }
        }
        acc = acc * 256 + (b as u64);
        k = k - 1;
    }
    acc
}

/// Appending a byte adds its value at the next power of 256.
pub proof fn lemma_le_nat_push(s: Seq<u8>, b: u8)
    ensures
        le_nat(s.push(b)) == le_nat(s) + (b as nat) * pow(256, s.len() as nat),
    decreases s.len(),
{
    if s.len() == 0 {
        assert(s.push(b).drop_first() =~= Seq::<u8>::empty());
        assert(s.push(b)[0] == b);
        lemma_pow0(256);
    } else {
        assert(s.push(b).drop_first() =~= s.drop_first().push(b));
        assert(s.push(b)[0] == s[0]);
        lemma_le_nat_push(s.drop_first(), b);
        lemma_pow1(256);
        lemma_pow_adds(256, 1, (s.len() - 1) as nat);
        assert(pow(256, s.len() as nat) == 256 * pow(256, (s.len() - 1) as nat));
        assert(le_nat(s.push(b)) == (s.push(b)[0] as nat) + 256 * le_nat(s.push(b).drop_first()));
        assert(le_nat(s) == (s[0] as nat) + 256 * le_nat(s.drop_first()));
        assert(le_nat(s.push(b).drop_first()) == le_nat(s.drop_first()) + (b as nat) * pow(
            256,
            (s.len() - 1) as nat,
        ));
        assert(256 * (le_nat(s.drop_first()) + (b as nat) * pow(256, (s.len() - 1) as nat))
            == 256 * le_nat(s.drop_first()) + (b as nat) * (256 * pow(
            256,
            (s.len() - 1) as nat,
        ))) by (nonlinear_arith);
    }
}

/// Append the `w`-byte little-endian encoding of `v`: the inverse of
/// `decode_le`, leaving everything before it untouched.
pub fn push_le(bytes: &mut Vec<u8>, v: u64, w: usize)
    requires
        1 <= w <= 8,
        (v as nat) < pow(256, w as nat),
    ensures
        final(bytes)@.len() == old(bytes)@.len() + w,
        final(bytes)@.subrange(0, old(bytes)@.len() as int) == old(bytes)@,
        le_nat(
            final(bytes)@.subrange(
                old(bytes)@.len() as int,
                old(bytes)@.len() + w as int,
            ),
        ) == v as nat,
{
    let ghost base = bytes@.len() as int;
    let mut acc: u64 = v;
    let mut k: usize = 0;
    proof {
        lemma_pow0(256);
        assert(bytes@.subrange(base, base) =~= Seq::<u8>::empty());
    }
    while k < w
        invariant
            0 <= k <= w,
            1 <= w <= 8,
            base == old(bytes)@.len(),
            bytes@.len() == base + k,
            bytes@.subrange(0, base) =~= old(bytes)@,
            le_nat(bytes@.subrange(base, base + k as int)) + (acc as nat) * pow(256, k as nat)
                == v as nat,
            (acc as nat) < pow(256, (w - k) as nat),
        decreases w - k,
    {
        let b = (acc % 256) as u8;
        proof {
            let tail = bytes@.subrange(base, base + k as int);
            lemma_le_nat_push(tail, b);
            assert(bytes@.push(b).subrange(base, base + (k + 1) as int) =~= tail.push(b));
            assert(bytes@.push(b).subrange(0, base) =~= bytes@.subrange(0, base));
            lemma_pow1(256);
            lemma_pow_adds(256, 1, k as nat);
            lemma_pow_adds(256, 1, (w - k - 1) as nat);
            assert(acc as nat == 256 * ((acc / 256) as nat) + ((acc % 256) as nat));
            assert((256 * ((acc / 256) as nat) + ((acc % 256) as nat)) * pow(256, k as nat)
                == ((acc % 256) as nat) * pow(256, k as nat) + ((acc / 256) as nat) * (256 * pow(
                256,
                k as nat,
            ))) by (nonlinear_arith);
            assert((acc as nat) < 256 * pow(256, (w - k - 1) as nat) ==> ((acc / 256) as nat)
                < pow(256, (w - k - 1) as nat)) by (nonlinear_arith);
        }
        bytes.push(b);
        acc = acc / 256;
        k = k + 1;
    }
    proof {
        assert(acc == 0);
        assert(bytes@.subrange(0, base) == old(bytes)@);
    }
}

/// Appending one chunk beyond position `i` leaves the chunks before it
/// unchanged.
pub proof fn lemma_chunks_preserved(prev: Seq<u8>, cur: Seq<u8>, w: int, i: int)
    requires
        w >= 1,
        i >= 0,
        prev.len() == i * w,
        cur.len() == prev.len() + w,
        cur.subrange(0, prev.len() as int) == prev,
    ensures
        forall|k: int| 0 <= k < i ==> chunk_at(cur, w, k) == chunk_at(prev, w, k),
{
    assert forall|k: int| 0 <= k < i implies chunk_at(cur, w, k) == chunk_at(prev, w, k) by {
        assert((k + 1) * w <= i * w) by (nonlinear_arith)
            requires
                w >= 1,
                k + 1 <= i,
        ;
        assert(k * w >= 0) by (nonlinear_arith)
            requires
                w >= 1,
                k >= 0,
        ;
        assert((k + 1) * w == k * w + w) by (nonlinear_arith);
        assert forall|j: int| 0 <= j < w implies chunk_at(cur, w, k)[j] == chunk_at(
            prev,
            w,
            k,
        )[j] by {
            assert(chunk_at(cur, w, k)[j] == cur[k * w + j]);
            assert(chunk_at(prev, w, k)[j] == prev[k * w + j]);
            assert(cur.subrange(0, prev.len() as int)[k * w + j] == cur[k * w + j]);
        }
        assert(chunk_at(cur, w, k) =~= chunk_at(prev, w, k));
    }
}

/// The 8-bit unsigned value that stands for a signed one: the inverse of
/// `to_i8`.
pub fn from_i8(s: i8) -> (u: u8)
    ensures
        as_signed(u as nat, 0x100) == s as int,
{
    if s >= 0 {
        s as u8
    } else {
        ((s as i16) + 0x100) as u8
    }
}

/// The 16-bit unsigned value that stands for a signed one: the inverse of
/// `to_i16`.
pub fn from_i16(s: i16) -> (u: u16)
    ensures
        as_signed(u as nat, 0x1_0000) == s as int,
{
    if s >= 0 {
        s as u16
    } else {
        ((s as i32) + 0x1_0000) as u16
    }
}

/// The 32-bit unsigned value that stands for a signed one: the inverse of
/// `to_i32`.
pub fn from_i32(s: i32) -> (u: u32)
    ensures
        as_signed(u as nat, 0x1_0000_0000) == s as int,
{
    if s >= 0 {
        s as u32
    } else {
        ((s as i64) + 0x1_0000_0000) as u32
    }
}

/// The 64-bit unsigned value that stands for a signed one: the inverse of
/// `to_i64`.
pub fn from_i64(s: i64) -> (u: u64)
    ensures
        as_signed(u as nat, 0x1_0000_0000_0000_0000) == s as int,
{
    if s >= 0 {
        s as u64
    } else {
        ((s as i128) + 0x1_0000_0000_0000_0000) as u64
    }
}

/// The signed reinterpretation of an 8-bit unsigned value.
pub fn to_i8(u: u8) -> (r: i8)
    ensures
        r as int == as_signed(u as nat, 0x100),
{
    if u < 0x80 {
        u as i8
    } else {
        ((u as i16) - 0x100) as i8
    }
}

/// The signed reinterpretation of a 16-bit unsigned value.
pub fn to_i16(u: u16) -> (r: i16)
    ensures
        r as int == as_signed(u as nat, 0x1_0000),
{
    if u < 0x8000 {
        u as i16
    } else {
        ((u as i32) - 0x1_0000) as i16
    }
}

/// The signed reinterpretation of a 32-bit unsigned value.
pub fn to_i32(u: u32) -> (r: i32)
    ensures
        r as int == as_signed(u as nat, 0x1_0000_0000),
{
    if u < 0x8000_0000 {
        u as i32
    } else {
        ((u as i64) - 0x1_0000_0000) as i32
    }
}

/// The signed reinterpretation of a 64-bit unsigned value.
pub fn to_i64(u: u64) -> (r: i64)
    ensures
        r as int == as_signed(u as nat, 0x1_0000_0000_0000_0000),
{
    if u < 0x8000_0000_0000_0000 {
        u as i64
    } else {
        ((u as i128) - 0x1_0000_0000_0000_0000) as i64
    }
}

} // verus!
