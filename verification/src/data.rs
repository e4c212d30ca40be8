//! Typed views over an array's element storage. The host keeps every
//! array's elements in one flat untyped buffer; a view reads that buffer as
//! a sequence of elements of the class's width. Twelve element variants are
//! possible, or `NotNumeric` for the classes that have no flat numeric
//! buffer. The floating-point variants carry the raw bit patterns of the
//! elements, as the unsigned value of each chunk: the library holds no
//! floating-point values itself, and a caller reassembles them from the
//! bits.

use vstd::prelude::*;
use crate::class_id::MxClassID;
use crate::le::{le_nat, chunk_at, as_signed, decode_le, to_i8, to_i16, to_i32, to_i64,
    from_i8, from_i16, from_i32, from_i64, push_le, lemma_chunks_preserved,
    lemma_pow256_widths};

verus! {

/// A read view of an array's element storage, tagged by element type.
/// `F64` and `F32` hold the elements' raw bit patterns.
#[derive(Debug, PartialEq)]
pub enum Data {
    NotNumeric,
    Bool(Vec<bool>),
    F64(Vec<u64>),
    F32(Vec<u32>),
    I8(Vec<i8>),
    U8(Vec<u8>),
    I16(Vec<i16>),
    U16(Vec<u16>),
    I32(Vec<i32>),
    U32(Vec<u32>),
    I64(Vec<i64>),
    U64(Vec<u64>),
}

/// A write view of an array's element storage: the same twelve variants as
/// `Data`, holding the values to store. `F64` and `F32` hold raw bit
/// patterns.
#[derive(Debug, PartialEq)]
pub enum DataMut {
    NotNumeric,
    Bool(Vec<bool>),
    F64(Vec<u64>),
    F32(Vec<u32>),
    I8(Vec<i8>),
    U8(Vec<u8>),
    I16(Vec<i16>),
    U16(Vec<u16>),
    I32(Vec<i32>),
    U32(Vec<u32>),
    I64(Vec<i64>),
    U64(Vec<u64>),
}

impl Data {
    /// The element count of a view, or `None` for `NotNumeric`.
    pub open spec fn spec_len(self) -> Option<nat> {
        match self {
            Data::NotNumeric => None,
            Data::Bool(v) => Some(v@.len()),
            Data::F64(v) => Some(v@.len()),
            Data::F32(v) => Some(v@.len()),
            Data::I8(v) => Some(v@.len()),
            Data::U8(v) => Some(v@.len()),
            Data::I16(v) => Some(v@.len()),
            Data::U16(v) => Some(v@.len()),
            Data::I32(v) => Some(v@.len()),
            Data::U32(v) => Some(v@.len()),
            Data::I64(v) => Some(v@.len()),
            Data::U64(v) => Some(v@.len()),
        }
    }
}

impl DataMut {
    /// The element count of a view, or `None` for `NotNumeric`.
    pub open spec fn spec_len(self) -> Option<nat> {
        match self {
            DataMut::NotNumeric => None,
            DataMut::Bool(v) => Some(v@.len()),
            DataMut::F64(v) => Some(v@.len()),
            DataMut::F32(v) => Some(v@.len()),
            DataMut::I8(v) => Some(v@.len()),
            DataMut::U8(v) => Some(v@.len()),
            DataMut::I16(v) => Some(v@.len()),
            DataMut::U16(v) => Some(v@.len()),
            DataMut::I32(v) => Some(v@.len()),
            DataMut::U32(v) => Some(v@.len()),
            DataMut::I64(v) => Some(v@.len()),
            DataMut::U64(v) => Some(v@.len()),
        }
    }
}

/// What it means for `d` to be the read view of `n` elements of class
/// `class` over the storage `bytes`: the variant matches the class, the
/// length is the element count, and element `i` is the value of the `i`-th
/// fixed-width chunk of the storage.
pub open spec fn is_view_of(d: Data, class: MxClassID, bytes: Seq<u8>, n: nat) -> bool {
    match class {
        MxClassID::Bool => d matches Data::Bool(v) && v@.len() == n && (forall|i: int|
            0 <= i < n ==> v@[i] == (le_nat(chunk_at(bytes, 1, i)) != 0)),
        MxClassID::F64 => d matches Data::F64(v) && v@.len() == n && (forall|i: int|
            0 <= i < n ==> v@[i] as nat == le_nat(chunk_at(bytes, 8, i))),
        MxClassID::F32 => d matches Data::F32(v) && v@.len() == n && (forall|i: int|
            0 <= i < n ==> v@[i] as nat == le_nat(chunk_at(bytes, 4, i))),
        MxClassID::I8 => d matches Data::I8(v) && v@.len() == n && (forall|i: int|
            0 <= i < n ==> v@[i] as int == as_signed(le_nat(chunk_at(bytes, 1, i)), 0x100)),
        MxClassID::U8 => d matches Data::U8(v) && v@.len() == n && (forall|i: int|
            0 <= i < n ==> v@[i] as nat == le_nat(chunk_at(bytes, 1, i))),
        MxClassID::I16 => d matches Data::I16(v) && v@.len() == n && (forall|i: int|
            0 <= i < n ==> v@[i] as int == as_signed(le_nat(chunk_at(bytes, 2, i)), 0x1_0000)),
        MxClassID::U16 => d matches Data::U16(v) && v@.len() == n && (forall|i: int|
            0 <= i < n ==> v@[i] as nat == le_nat(chunk_at(bytes, 2, i))),
        MxClassID::I32 => d matches Data::I32(v) && v@.len() == n && (forall|i: int|
            0 <= i < n ==> v@[i] as int == as_signed(
                le_nat(chunk_at(bytes, 4, i)),
                0x1_0000_0000,
            )),
        MxClassID::U32 => d matches Data::U32(v) && v@.len() == n && (forall|i: int|
            0 <= i < n ==> v@[i] as nat == le_nat(chunk_at(bytes, 4, i))),
        MxClassID::I64 => d matches Data::I64(v) && v@.len() == n && (forall|i: int|
            0 <= i < n ==> v@[i] as int == as_signed(
                le_nat(chunk_at(bytes, 8, i)),
                0x1_0000_0000_0000_0000,
            )),
        MxClassID::U64 => d matches Data::U64(v) && v@.len() == n && (forall|i: int|
            0 <= i < n ==> v@[i] as nat == le_nat(chunk_at(bytes, 8, i))),
        _ => d is NotNumeric,
    }
}

/// The write-view counterpart of `is_view_of`.
pub open spec fn is_mut_view_of(d: DataMut, class: MxClassID, bytes: Seq<u8>, n: nat) -> bool {
    match class {
        MxClassID::Bool => d matches DataMut::Bool(v) && v@.len() == n && (forall|i: int|
            0 <= i < n ==> v@[i] == (le_nat(chunk_at(bytes, 1, i)) != 0)),
        MxClassID::F64 => d matches DataMut::F64(v) && v@.len() == n && (forall|i: int|
            0 <= i < n ==> v@[i] as nat == le_nat(chunk_at(bytes, 8, i))),
        MxClassID::F32 => d matches DataMut::F32(v) && v@.len() == n && (forall|i: int|
            0 <= i < n ==> v@[i] as nat == le_nat(chunk_at(bytes, 4, i))),
        MxClassID::I8 => d matches DataMut::I8(v) && v@.len() == n && (forall|i: int|
            0 <= i < n ==> v@[i] as int == as_signed(le_nat(chunk_at(bytes, 1, i)), 0x100)),
        MxClassID::U8 => d matches DataMut::U8(v) && v@.len() == n && (forall|i: int|
            0 <= i < n ==> v@[i] as nat == le_nat(chunk_at(bytes, 1, i))),
        MxClassID::I16 => d matches DataMut::I16(v) && v@.len() == n && (forall|i: int|
            0 <= i < n ==> v@[i] as int == as_signed(le_nat(chunk_at(bytes, 2, i)), 0x1_0000)),
        MxClassID::U16 => d matches DataMut::U16(v) && v@.len() == n && (forall|i: int|
            0 <= i < n ==> v@[i] as nat == le_nat(chunk_at(bytes, 2, i))),
        MxClassID::I32 => d matches DataMut::I32(v) && v@.len() == n && (forall|i: int|
            0 <= i < n ==> v@[i] as int == as_signed(
                le_nat(chunk_at(bytes, 4, i)),
                0x1_0000_0000,
            )),
        MxClassID::U32 => d matches DataMut::U32(v) && v@.len() == n && (forall|i: int|
            0 <= i < n ==> v@[i] as nat == le_nat(chunk_at(bytes, 4, i))),
        MxClassID::I64 => d matches DataMut::I64(v) && v@.len() == n && (forall|i: int|
            0 <= i < n ==> v@[i] as int == as_signed(
                le_nat(chunk_at(bytes, 8, i)),
                0x1_0000_0000_0000_0000,
            )),
        MxClassID::U64 => d matches DataMut::U64(v) && v@.len() == n && (forall|i: int|
            0 <= i < n ==> v@[i] as nat == le_nat(chunk_at(bytes, 8, i))),
        _ => d is NotNumeric,
    }
}

/// Law: a view of a numeric class has exactly the requested element count,
/// and a view of a class without a flat numeric buffer is `NotNumeric`.
pub proof fn lemma_view_element_count(d: Data, class: MxClassID, bytes: Seq<u8>, n: nat)
    requires
        is_view_of(d, class, bytes, n),
    ensures
        class.spec_is_numeric() ==> d.spec_len() == Some(n),
        !class.spec_is_numeric() ==> d is NotNumeric,
{
}

/// Law: the write-view counterpart of `lemma_view_element_count`.
pub proof fn lemma_mut_view_element_count(d: DataMut, class: MxClassID, bytes: Seq<u8>, n: nat)
    requires
        is_mut_view_of(d, class, bytes, n),
    ensures
        class.spec_is_numeric() ==> d.spec_len() == Some(n),
        !class.spec_is_numeric() ==> d is NotNumeric,
{
}

fn decode_bools(bytes: &Vec<u8>, n: usize) -> (v: Vec<bool>)
    requires
        bytes@.len() == n,
    ensures
        v@.len() == n,
        forall|i: int| 0 <= i < n ==> v@[i] == (le_nat(chunk_at(bytes@, 1, i)) != 0),
{
    let mut v: Vec<bool> = Vec::new();
    let mut i: usize = 0;
    while i < n
        invariant
            0 <= i <= n,
            bytes@.len() == n,
            v@.len() == i,
            forall|k: int| 0 <= k < i ==> v@[k] == (le_nat(chunk_at(bytes@, 1, k)) != 0),
        decreases n - i,
    {
        let u = decode_le(bytes, i, 1);
        v.push(u != 0);
        i = i + 1;
    }
    v
}

fn decode_u8s(bytes: &Vec<u8>, n: usize) -> (v: Vec<u8>)
    requires
        bytes@.len() == n,
    ensures
        v@.len() == n,
        forall|i: int| 0 <= i < n ==> v@[i] as nat == le_nat(chunk_at(bytes@, 1, i)),
{
    let mut v: Vec<u8> = Vec::new();
    let mut i: usize = 0;
    while i < n
        invariant
            0 <= i <= n,
            bytes@.len() == n,
            v@.len() == i,
            forall|k: int| 0 <= k < i ==> v@[k] as nat == le_nat(chunk_at(bytes@, 1, k)),
        decreases n - i,
    {
        let u = decode_le(bytes, i, 1);
        proof {
            lemma_pow256_widths();
        }
        v.push(u as u8);
        i = i + 1;
    }
    v
}

fn decode_i8s(bytes: &Vec<u8>, n: usize) -> (v: Vec<i8>)
    requires
        bytes@.len() == n,
    ensures
        v@.len() == n,
        forall|i: int|
            0 <= i < n ==> v@[i] as int == as_signed(le_nat(chunk_at(bytes@, 1, i)), 0x100),
{
    let mut v: Vec<i8> = Vec::new();
    let mut i: usize = 0;
    while i < n
        invariant
            0 <= i <= n,
            bytes@.len() == n,
            v@.len() == i,
            forall|k: int|
                0 <= k < i ==> v@[k] as int == as_signed(le_nat(chunk_at(bytes@, 1, k)), 0x100),
        decreases n - i,
    {
        let u = decode_le(bytes, i, 1);
        proof {
            lemma_pow256_widths();
        }
        v.push(to_i8(u as u8));
        i = i + 1;
    }
    v
}

fn decode_u16s(bytes: &Vec<u8>, n: usize) -> (v: Vec<u16>)
    requires
        bytes@.len() == 2 * n,
    ensures
        v@.len() == n,
        forall|i: int| 0 <= i < n ==> v@[i] as nat == le_nat(chunk_at(bytes@, 2, i)),
{
    let mut v: Vec<u16> = Vec::new();
    let len = bytes.len();
    let mut i: usize = 0;
    while i < n
        invariant
            0 <= i <= n,
            len == bytes@.len(),
            bytes@.len() == 2 * n,
            v@.len() == i,
            forall|k: int| 0 <= k < i ==> v@[k] as nat == le_nat(chunk_at(bytes@, 2, k)),
        decreases n - i,
    {
        let u = decode_le(bytes, 2 * i, 2);
        proof {
            lemma_pow256_widths();
        }
        v.push(u as u16);
        i = i + 1;
    }
    v
}

fn decode_i16s(bytes: &Vec<u8>, n: usize) -> (v: Vec<i16>)
    requires
        bytes@.len() == 2 * n,
    ensures
        v@.len() == n,
        forall|i: int|
            0 <= i < n ==> v@[i] as int == as_signed(le_nat(chunk_at(bytes@, 2, i)), 0x1_0000),
{
    let mut v: Vec<i16> = Vec::new();
    let len = bytes.len();
    let mut i: usize = 0;
    while i < n
        invariant
            0 <= i <= n,
            len == bytes@.len(),
            bytes@.len() == 2 * n,
            v@.len() == i,
            forall|k: int|
                0 <= k < i ==> v@[k] as int == as_signed(le_nat(chunk_at(bytes@, 2, k)), 0x1_0000),
        decreases n - i,
    {
        let u = decode_le(bytes, 2 * i, 2);
        proof {
            lemma_pow256_widths();
        }
        v.push(to_i16(u as u16));
        i = i + 1;
    }
    v
}

fn decode_u32s(bytes: &Vec<u8>, n: usize) -> (v: Vec<u32>)
    requires
        bytes@.len() == 4 * n,
    ensures
        v@.len() == n,
        forall|i: int| 0 <= i < n ==> v@[i] as nat == le_nat(chunk_at(bytes@, 4, i)),
{
    let mut v: Vec<u32> = Vec::new();
    let len = bytes.len();
    let mut i: usize = 0;
    while i < n
        invariant
            0 <= i <= n,
            len == bytes@.len(),
            bytes@.len() == 4 * n,
            v@.len() == i,
            forall|k: int| 0 <= k < i ==> v@[k] as nat == le_nat(chunk_at(bytes@, 4, k)),
        decreases n - i,
    {
        let u = decode_le(bytes, 4 * i, 4);
        proof {
            lemma_pow256_widths();
        }
        v.push(u as u32);
        i = i + 1;
    }
    v
}

fn decode_i32s(bytes: &Vec<u8>, n: usize) -> (v: Vec<i32>)
    requires
        bytes@.len() == 4 * n,
    ensures
        v@.len() == n,
        forall|i: int|
            0 <= i < n ==> v@[i] as int == as_signed(
                le_nat(chunk_at(bytes@, 4, i)),
                0x1_0000_0000,
            ),
{
    let mut v: Vec<i32> = Vec::new();
    let len = bytes.len();
    let mut i: usize = 0;
    while i < n
        invariant
            0 <= i <= n,
            len == bytes@.len(),
            bytes@.len() == 4 * n,
            v@.len() == i,
            forall|k: int|
                0 <= k < i ==> v@[k] as int == as_signed(
                    le_nat(chunk_at(bytes@, 4, k)),
                    0x1_0000_0000,
                ),
        decreases n - i,
    {
        let u = decode_le(bytes, 4 * i, 4);
        proof {
            lemma_pow256_widths();
        }
        v.push(to_i32(u as u32));
        i = i + 1;
    }
    v
}

fn decode_u64s(bytes: &Vec<u8>, n: usize) -> (v: Vec<u64>)
    requires
        bytes@.len() == 8 * n,
    ensures
        v@.len() == n,
        forall|i: int| 0 <= i < n ==> v@[i] as nat == le_nat(chunk_at(bytes@, 8, i)),
{
    let mut v: Vec<u64> = Vec::new();
    let len = bytes.len();
    let mut i: usize = 0;
    while i < n
        invariant
            0 <= i <= n,
            len == bytes@.len(),
            bytes@.len() == 8 * n,
            v@.len() == i,
            forall|k: int| 0 <= k < i ==> v@[k] as nat == le_nat(chunk_at(bytes@, 8, k)),
        decreases n - i,
    {
        let u = decode_le(bytes, 8 * i, 8);
        v.push(u);
        i = i + 1;
    }
    v
}

fn decode_i64s(bytes: &Vec<u8>, n: usize) -> (v: Vec<i64>)
    requires
        bytes@.len() == 8 * n,
    ensures
        v@.len() == n,
        forall|i: int|
            0 <= i < n ==> v@[i] as int == as_signed(
                le_nat(chunk_at(bytes@, 8, i)),
                0x1_0000_0000_0000_0000,
            ),
{
    let mut v: Vec<i64> = Vec::new();
    let len = bytes.len();
    let mut i: usize = 0;
    while i < n
        invariant
            0 <= i <= n,
            len == bytes@.len(),
            bytes@.len() == 8 * n,
            v@.len() == i,
            forall|k: int|
                0 <= k < i ==> v@[k] as int == as_signed(
                    le_nat(chunk_at(bytes@, 8, k)),
                    0x1_0000_0000_0000_0000,
                ),
        decreases n - i,
    {
        let u = decode_le(bytes, 8 * i, 8);
        v.push(to_i64(u));
        i = i + 1;
    }
    v
}

fn decode_f32_bits(bytes: &Vec<u8>, n: usize) -> (v: Vec<u32>)
    requires
        bytes@.len() == 4 * n,
    ensures
        v@.len() == n,
        forall|i: int| 0 <= i < n ==> v@[i] as nat == le_nat(chunk_at(bytes@, 4, i)),
{
    decode_u32s(bytes, n)
}

fn decode_f64_bits(bytes: &Vec<u8>, n: usize) -> (v: Vec<u64>)
    requires
        bytes@.len() == 8 * n,
    ensures
        v@.len() == n,
        forall|i: int| 0 <= i < n ==> v@[i] as nat == le_nat(chunk_at(bytes@, 8, i)),
{
    decode_u64s(bytes, n)
}

/// Project `n` elements of class `class` out of the storage `bytes` as a
/// read view: the one reinterpretation primitive behind every read accessor.
pub fn view_of(class: MxClassID, bytes: &Vec<u8>, n: usize) -> (d: Data)
    requires
        class.spec_is_numeric() ==> bytes@.len() == class.spec_element_size() * n,
    ensures
        is_view_of(d, class, bytes@, n as nat),
{
    match class {
        MxClassID::Bool => Data::Bool(decode_bools(bytes, n)),
        MxClassID::F64 => Data::F64(decode_f64_bits(bytes, n)),
        MxClassID::F32 => Data::F32(decode_f32_bits(bytes, n)),
        MxClassID::I8 => Data::I8(decode_i8s(bytes, n)),
        MxClassID::U8 => Data::U8(decode_u8s(bytes, n)),
        MxClassID::I16 => Data::I16(decode_i16s(bytes, n)),
        MxClassID::U16 => Data::U16(decode_u16s(bytes, n)),
        MxClassID::I32 => Data::I32(decode_i32s(bytes, n)),
        MxClassID::U32 => Data::U32(decode_u32s(bytes, n)),
        MxClassID::I64 => Data::I64(decode_i64s(bytes, n)),
        MxClassID::U64 => Data::U64(decode_u64s(bytes, n)),
        _ => Data::NotNumeric,
    }
}

/// Project `n` elements of class `class` out of the storage `bytes` as a
/// write view holding the current values.
pub fn mut_view_of(class: MxClassID, bytes: &Vec<u8>, n: usize) -> (d: DataMut)
    requires
        class.spec_is_numeric() ==> bytes@.len() == class.spec_element_size() * n,
    ensures
        is_mut_view_of(d, class, bytes@, n as nat),
{
    match class {
        MxClassID::Bool => DataMut::Bool(decode_bools(bytes, n)),
        MxClassID::F64 => DataMut::F64(decode_f64_bits(bytes, n)),
        MxClassID::F32 => DataMut::F32(decode_f32_bits(bytes, n)),
        MxClassID::I8 => DataMut::I8(decode_i8s(bytes, n)),
        MxClassID::U8 => DataMut::U8(decode_u8s(bytes, n)),
        MxClassID::I16 => DataMut::I16(decode_i16s(bytes, n)),
        MxClassID::U16 => DataMut::U16(decode_u16s(bytes, n)),
        MxClassID::I32 => DataMut::I32(decode_i32s(bytes, n)),
        MxClassID::U32 => DataMut::U32(decode_u32s(bytes, n)),
        MxClassID::I64 => DataMut::I64(decode_i64s(bytes, n)),
        MxClassID::U64 => DataMut::U64(decode_u64s(bytes, n)),
        _ => DataMut::NotNumeric,
    }
}


/// Whether a write view fits an array: the variant matches a numeric class
/// and the view holds exactly `n` elements. Only such a view can be stored.
pub open spec fn mut_view_shape_ok(d: DataMut, class: MxClassID, n: nat) -> bool {
    match class {
        MxClassID::Bool => d matches DataMut::Bool(v) && v@.len() == n,
        MxClassID::F64 => d matches DataMut::F64(v) && v@.len() == n,
        MxClassID::F32 => d matches DataMut::F32(v) && v@.len() == n,
        MxClassID::I8 => d matches DataMut::I8(v) && v@.len() == n,
        MxClassID::U8 => d matches DataMut::U8(v) && v@.len() == n,
        MxClassID::I16 => d matches DataMut::I16(v) && v@.len() == n,
        MxClassID::U16 => d matches DataMut::U16(v) && v@.len() == n,
        MxClassID::I32 => d matches DataMut::I32(v) && v@.len() == n,
        MxClassID::U32 => d matches DataMut::U32(v) && v@.len() == n,
        MxClassID::I64 => d matches DataMut::I64(v) && v@.len() == n,
        MxClassID::U64 => d matches DataMut::U64(v) && v@.len() == n,
        _ => false,
    }
}

/// Encode a write view into element storage: the inverse of `mut_view_of`.
/// Succeeds exactly when the view fits the class and element count, and the
/// produced storage reads back as that view, element for element.
pub fn bytes_of_mut_view(class: MxClassID, d: &DataMut, n: usize) -> (r: Option<Vec<u8>>)
    requires
        class.spec_element_size() * n <= usize::MAX,
    ensures
        r is Some <==> mut_view_shape_ok(*d, class, n as nat),
        r matches Some(bytes) ==> bytes@.len() == class.spec_element_size() * n
            && is_mut_view_of(*d, class, bytes@, n as nat),
{
    match (class, d) {
        (MxClassID::Bool, DataMut::Bool(v)) => {
            if v.len() != n {
                return None;
            }
            let mut bytes: Vec<u8> = Vec::new();
            let mut i: usize = 0;
            while i < n
                invariant
                    0 <= i <= n,
                    v@.len() == n,
                    bytes@.len() == 1 * i,
                    forall|k: int| 0 <= k < i ==> (le_nat(chunk_at(bytes@, 1, k)) != 0) == v@[k],
                decreases n - i,
            {
                let x: bool = v[i];
                let u: u64 = (if x { 1u64 } else { 0u64 });
                proof {
                    lemma_pow256_widths();
                }
                let ghost prev = bytes@;
                push_le(&mut bytes, u, 1);
                proof {
                    lemma_chunks_preserved(prev, bytes@, 1, i as int);
                    assert(chunk_at(bytes@, 1, i as int) =~= bytes@.subrange(
                        prev.len() as int,
                        prev.len() as int + 1,
                    ));
                }
                i = i + 1;
            }
            Some(bytes)
        },
        (MxClassID::F64, DataMut::F64(v)) => {
            if v.len() != n {
                return None;
            }
            let mut bytes: Vec<u8> = Vec::new();
            let mut i: usize = 0;
            while i < n
                invariant
                    0 <= i <= n,
                    v@.len() == n,
                    bytes@.len() == 8 * i,
                    forall|k: int| 0 <= k < i ==> v@[k] as nat == le_nat(chunk_at(bytes@, 8, k)),
                decreases n - i,
            {
                let x: u64 = v[i];
                let u: u64 = x;
                proof {
                    lemma_pow256_widths();
                }
                let ghost prev = bytes@;
                push_le(&mut bytes, u, 8);
                proof {
                    lemma_chunks_preserved(prev, bytes@, 8, i as int);
                    assert(chunk_at(bytes@, 8, i as int) =~= bytes@.subrange(
                        prev.len() as int,
                        prev.len() as int + 8,
                    ));
                }
                i = i + 1;
            }
            Some(bytes)
        },
        (MxClassID::F32, DataMut::F32(v)) => {
            if v.len() != n {
                return None;
            }
            let mut bytes: Vec<u8> = Vec::new();
            let mut i: usize = 0;
            while i < n
                invariant
                    0 <= i <= n,
                    v@.len() == n,
                    bytes@.len() == 4 * i,
                    forall|k: int| 0 <= k < i ==> v@[k] as nat == le_nat(chunk_at(bytes@, 4, k)),
                decreases n - i,
            {
                let x: u32 = v[i];
                let u: u64 = (x as u64);
                proof {
                    lemma_pow256_widths();
                }
                let ghost prev = bytes@;
                push_le(&mut bytes, u, 4);
                proof {
                    lemma_chunks_preserved(prev, bytes@, 4, i as int);
                    assert(chunk_at(bytes@, 4, i as int) =~= bytes@.subrange(
                        prev.len() as int,
                        prev.len() as int + 4,
                    ));
                }
                i = i + 1;
            }
            Some(bytes)
        },
        (MxClassID::I8, DataMut::I8(v)) => {
            if v.len() != n {
                return None;
            }
            let mut bytes: Vec<u8> = Vec::new();
            let mut i: usize = 0;
            while i < n
                invariant
                    0 <= i <= n,
                    v@.len() == n,
                    bytes@.len() == 1 * i,
                    forall|k: int| 0 <= k < i ==> v@[k] as int == as_signed(le_nat(chunk_at(bytes@, 1, k)), 0x100),
                decreases n - i,
            {
                let x: i8 = v[i];
                let u: u64 = (from_i8(x) as u64);
                proof {
                    lemma_pow256_widths();
                }
                let ghost prev = bytes@;
                push_le(&mut bytes, u, 1);
                proof {
                    lemma_chunks_preserved(prev, bytes@, 1, i as int);
                    assert(chunk_at(bytes@, 1, i as int) =~= bytes@.subrange(
                        prev.len() as int,
                        prev.len() as int + 1,
                    ));
                }
                i = i + 1;
            }
            Some(bytes)
        },
        (MxClassID::U8, DataMut::U8(v)) => {
            if v.len() != n {
                return None;
            }
            let mut bytes: Vec<u8> = Vec::new();
            let mut i: usize = 0;
            while i < n
                invariant
                    0 <= i <= n,
                    v@.len() == n,
                    bytes@.len() == 1 * i,
                    forall|k: int| 0 <= k < i ==> v@[k] as nat == le_nat(chunk_at(bytes@, 1, k)),
                decreases n - i,
            {
                let x: u8 = v[i];
                let u: u64 = (x as u64);
                proof {
                    lemma_pow256_widths();
                }
                let ghost prev = bytes@;
                push_le(&mut bytes, u, 1);
                proof {
                    lemma_chunks_preserved(prev, bytes@, 1, i as int);
                    assert(chunk_at(bytes@, 1, i as int) =~= bytes@.subrange(
                        prev.len() as int,
                        prev.len() as int + 1,
                    ));
                }
                i = i + 1;
            }
            Some(bytes)
        },
        (MxClassID::I16, DataMut::I16(v)) => {
            if v.len() != n {
                return None;
            }
            let mut bytes: Vec<u8> = Vec::new();
            let mut i: usize = 0;
            while i < n
                invariant
                    0 <= i <= n,
                    v@.len() == n,
                    bytes@.len() == 2 * i,
                    forall|k: int| 0 <= k < i ==> v@[k] as int == as_signed(le_nat(chunk_at(bytes@, 2, k)), 0x1_0000),
                decreases n - i,
            {
                let x: i16 = v[i];
                let u: u64 = (from_i16(x) as u64);
                proof {
                    lemma_pow256_widths();
                }
                let ghost prev = bytes@;
                push_le(&mut bytes, u, 2);
                proof {
                    lemma_chunks_preserved(prev, bytes@, 2, i as int);
                    assert(chunk_at(bytes@, 2, i as int) =~= bytes@.subrange(
                        prev.len() as int,
                        prev.len() as int + 2,
                    ));
                }
                i = i + 1;
            }
            Some(bytes)
        },
        (MxClassID::U16, DataMut::U16(v)) => {
            if v.len() != n {
                return None;
            }
            let mut bytes: Vec<u8> = Vec::new();
            let mut i: usize = 0;
            while i < n
                invariant
                    0 <= i <= n,
                    v@.len() == n,
                    bytes@.len() == 2 * i,
                    forall|k: int| 0 <= k < i ==> v@[k] as nat == le_nat(chunk_at(bytes@, 2, k)),
                decreases n - i,
            {
                let x: u16 = v[i];
                let u: u64 = (x as u64);
                proof {
                    lemma_pow256_widths();
                }
                let ghost prev = bytes@;
                push_le(&mut bytes, u, 2);
                proof {
                    lemma_chunks_preserved(prev, bytes@, 2, i as int);
                    assert(chunk_at(bytes@, 2, i as int) =~= bytes@.subrange(
                        prev.len() as int,
                        prev.len() as int + 2,
                    ));
                }
                i = i + 1;
            }
            Some(bytes)
        },
        (MxClassID::I32, DataMut::I32(v)) => {
            if v.len() != n {
                return None;
            }
            let mut bytes: Vec<u8> = Vec::new();
            let mut i: usize = 0;
            while i < n
                invariant
                    0 <= i <= n,
                    v@.len() == n,
                    bytes@.len() == 4 * i,
                    forall|k: int| 0 <= k < i ==> v@[k] as int == as_signed(le_nat(chunk_at(bytes@, 4, k)), 0x1_0000_0000),
                decreases n - i,
            {
                let x: i32 = v[i];
                let u: u64 = (from_i32(x) as u64);
                proof {
                    lemma_pow256_widths();
                }
                let ghost prev = bytes@;
                push_le(&mut bytes, u, 4);
                proof {
                    lemma_chunks_preserved(prev, bytes@, 4, i as int);
                    assert(chunk_at(bytes@, 4, i as int) =~= bytes@.subrange(
                        prev.len() as int,
                        prev.len() as int + 4,
                    ));
                }
                i = i + 1;
            }
            Some(bytes)
        },
        (MxClassID::U32, DataMut::U32(v)) => {
            if v.len() != n {
                return None;
            }
            let mut bytes: Vec<u8> = Vec::new();
            let mut i: usize = 0;
            while i < n
                invariant
                    0 <= i <= n,
                    v@.len() == n,
                    bytes@.len() == 4 * i,
                    forall|k: int| 0 <= k < i ==> v@[k] as nat == le_nat(chunk_at(bytes@, 4, k)),
                decreases n - i,
            {
                let x: u32 = v[i];
                let u: u64 = (x as u64);
                proof {
                    lemma_pow256_widths();
                }
                let ghost prev = bytes@;
                push_le(&mut bytes, u, 4);
                proof {
                    lemma_chunks_preserved(prev, bytes@, 4, i as int);
                    assert(chunk_at(bytes@, 4, i as int) =~= bytes@.subrange(
                        prev.len() as int,
                        prev.len() as int + 4,
                    ));
                }
                i = i + 1;
            }
            Some(bytes)
        },
        (MxClassID::I64, DataMut::I64(v)) => {
            if v.len() != n {
                return None;
            }
            let mut bytes: Vec<u8> = Vec::new();
            let mut i: usize = 0;
            while i < n
                invariant
                    0 <= i <= n,
                    v@.len() == n,
                    bytes@.len() == 8 * i,
                    forall|k: int| 0 <= k < i ==> v@[k] as int == as_signed(le_nat(chunk_at(bytes@, 8, k)), 0x1_0000_0000_0000_0000),
                decreases n - i,
            {
                let x: i64 = v[i];
                let u: u64 = (from_i64(x) as u64);
                proof {
                    lemma_pow256_widths();
                }
                let ghost prev = bytes@;
                push_le(&mut bytes, u, 8);
                proof {
                    lemma_chunks_preserved(prev, bytes@, 8, i as int);
                    assert(chunk_at(bytes@, 8, i as int) =~= bytes@.subrange(
                        prev.len() as int,
                        prev.len() as int + 8,
                    ));
                }
                i = i + 1;
            }
            Some(bytes)
        },
        (MxClassID::U64, DataMut::U64(v)) => {
            if v.len() != n {
                return None;
            }
            let mut bytes: Vec<u8> = Vec::new();
            let mut i: usize = 0;
            while i < n
                invariant
                    0 <= i <= n,
                    v@.len() == n,
                    bytes@.len() == 8 * i,
                    forall|k: int| 0 <= k < i ==> v@[k] as nat == le_nat(chunk_at(bytes@, 8, k)),
                decreases n - i,
            {
                let x: u64 = v[i];
                let u: u64 = x;
                proof {
                    lemma_pow256_widths();
                }
                let ghost prev = bytes@;
                push_le(&mut bytes, u, 8);
                proof {
                    lemma_chunks_preserved(prev, bytes@, 8, i as int);
                    assert(chunk_at(bytes@, 8, i as int) =~= bytes@.subrange(
                        prev.len() as int,
                        prev.len() as int + 8,
                    ));
                }
                i = i + 1;
            }
            Some(bytes)
        },
        _ => None,
    }
}

} // verus!
