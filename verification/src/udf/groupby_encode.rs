//! Encoding of group-by results for the way back: little-endian values, packed
//! text, and padded validity bitmaps.

use vstd::prelude::*;
use vstd::utf8::encode_utf8;

use crate::bytes;
use crate::bytes::{le, le_reads_back};
use crate::null_bitmap;
use crate::null_bitmap::{packs, padded_bytes_for};

verus! {

/// A key column of a result. Floating-point values are held by their bit
/// patterns; a text value is ignored where the row is null.
#[allow(inconsistent_fields)]
#[derive(Debug)]
pub enum DecodedColumn {
    I64 { values: Vec<i64>, valid: Vec<bool> },
    F64 { values: Vec<u64>, valid: Vec<bool> },
    Bool { values: Vec<bool>, valid: Vec<bool> },
    I32 { values: Vec<i32>, valid: Vec<bool> },
    F32 { values: Vec<u32>, valid: Vec<bool> },
    I8 { values: Vec<i8>, valid: Vec<bool> },
    I16 { values: Vec<i16>, valid: Vec<bool> },
    U8 { values: Vec<u8>, valid: Vec<bool> },
    U16 { values: Vec<u16>, valid: Vec<bool> },
    U32 { values: Vec<u32>, valid: Vec<bool> },
    Utf8 { values: Vec<String>, valid: Vec<bool> },
}

/// An aggregation column of a result. Counts are never null.
#[allow(inconsistent_fields)]
#[derive(Debug)]
pub enum AggOutput {
    I64 { values: Vec<i64>, valid: Vec<bool> },
    F64 { values: Vec<u64>, valid: Vec<bool> },
    U64 { values: Vec<u64> },
    I32 { values: Vec<i32>, valid: Vec<bool> },
    F32 { values: Vec<u32>, valid: Vec<bool> },
}

/// An encoded column: the tag of its type, its data and its validity.
pub struct Encoded {
    pub tag: &'static str,
    pub data: Vec<u8>,
    pub valid: Vec<u8>,
}

/// The encodings of the items of a sequence, one after the other: item `i` is
/// the `width` low bytes of `items[i]`.
pub open spec fn le_all(items: Seq<nat>, width: nat) -> Seq<u8>
    decreases items.len(),
{
    if items.len() == 0 {
        Seq::empty()
    } else {
        le_all(items.drop_last(), width) + le(items.last(), width)
    }
}

/// A run of encodings is as long as its items are wide.
pub proof fn lemma_run_length(items: Seq<nat>, width: nat)
    ensures
        le_all(items, width).len() == items.len() * width,
    decreases items.len(),
{
    if items.len() > 0 {
        lemma_run_length(items.drop_last(), width);
        le_reads_back(items.last(), width);
        assert(items.len() * width == items.drop_last().len() * width + width) by (nonlinear_arith)
            requires
                items.len() == items.drop_last().len() + 1,
        ;
    } else {
        assert(0 * width == 0) by (nonlinear_arith);
    }
}

/// Bit patterns as natural numbers.
pub open spec fn nats64(values: Seq<u64>) -> Seq<nat> {
    values.map_values(|v: u64| v as nat)
}

/// Encodes the `width` low bytes of each value, one value after the other.
pub fn encode_u64s(values: &Vec<u64>, width: u8) -> (r: Vec<u8>)
    ensures
        r@ == le_all(nats64(values@), width as nat),
{
    let mut out: Vec<u8> = Vec::new();
    let mut i: usize = 0;
    assert(out@ =~= le_all(nats64(values@.take(0)), width as nat));
    while i < values.len()
        invariant
            i <= values@.len(),
            out@ == le_all(nats64(values@.take(i as int)), width as nat),
        decreases values@.len() - i,
    {
        bytes::push_le(&mut out, values[i], width);
        assert(nats64(values@.take(i + 1)).drop_last() =~= nats64(values@.take(i as int)));
        i = i + 1;
    }
    assert(values@.take(i as int) =~= values@);
    out
}

/// The two's-complement bit patterns of signed 64-bit values.
pub open spec fn bits_i64(values: Seq<i64>) -> Seq<u64> {
    values.map_values(|v: i64| v as u64)
}

/// The two's-complement bit patterns of signed 32-bit values.
pub open spec fn bits_i32(values: Seq<i32>) -> Seq<u64> {
    values.map_values(|v: i32| v as u32 as u64)
}

/// The two's-complement bit patterns of signed 16-bit values.
pub open spec fn bits_i16(values: Seq<i16>) -> Seq<u64> {
    values.map_values(|v: i16| v as u16 as u64)
}

/// The two's-complement bit patterns of signed 8-bit values.
pub open spec fn bits_i8(values: Seq<i8>) -> Seq<u64> {
    values.map_values(|v: i8| v as u8 as u64)
}

/// 32-bit values, widened.
pub open spec fn bits_u32(values: Seq<u32>) -> Seq<u64> {
    values.map_values(|v: u32| v as u64)
}

/// 16-bit values, widened.
pub open spec fn bits_u16(values: Seq<u16>) -> Seq<u64> {
    values.map_values(|v: u16| v as u64)
}

/// 8-bit values, widened.
pub open spec fn bits_u8(values: Seq<u8>) -> Seq<u64> {
    values.map_values(|v: u8| v as u64)
}

/// Counts, cut to 32 bits.
pub open spec fn bits_count(values: Seq<u64>) -> Seq<u64> {
    values.map_values(|v: u64| v as u32 as u64)
}

fn widen_i64(values: &Vec<i64>) -> (r: Vec<u64>)
    ensures
        r@ == bits_i64(values@),
{
    let mut out: Vec<u64> = Vec::new();
    let mut i: usize = 0;
    while i < values.len()
        invariant
            i <= values@.len(),
            out@ =~= bits_i64(values@.take(i as int)),
        decreases values@.len() - i,
    {
        out.push(values[i] as u64);
        i = i + 1;
    }
    assert(values@.take(i as int) =~= values@);
    out
}

fn widen_i32(values: &Vec<i32>) -> (r: Vec<u64>)
    ensures
        r@ == bits_i32(values@),
{
    let mut out: Vec<u64> = Vec::new();
    let mut i: usize = 0;
    while i < values.len()
        invariant
            i <= values@.len(),
            out@ =~= bits_i32(values@.take(i as int)),
        decreases values@.len() - i,
    {
        out.push(values[i] as u32 as u64);
        i = i + 1;
    }
    assert(values@.take(i as int) =~= values@);
    out
}

fn widen_i16(values: &Vec<i16>) -> (r: Vec<u64>)
    ensures
        r@ == bits_i16(values@),
{
    let mut out: Vec<u64> = Vec::new();
    let mut i: usize = 0;
    while i < values.len()
        invariant
            i <= values@.len(),
            out@ =~= bits_i16(values@.take(i as int)),
        decreases values@.len() - i,
    {
        out.push(values[i] as u16 as u64);
        i = i + 1;
    }
    assert(values@.take(i as int) =~= values@);
    out
}

fn widen_i8(values: &Vec<i8>) -> (r: Vec<u64>)
    ensures
        r@ == bits_i8(values@),
{
    let mut out: Vec<u64> = Vec::new();
    let mut i: usize = 0;
    while i < values.len()
        invariant
            i <= values@.len(),
            out@ =~= bits_i8(values@.take(i as int)),
        decreases values@.len() - i,
    {
        out.push(values[i] as u8 as u64);
        i = i + 1;
    }
    assert(values@.take(i as int) =~= values@);
    out
}

fn widen_u32(values: &Vec<u32>) -> (r: Vec<u64>)
    ensures
        r@ == bits_u32(values@),
{
    let mut out: Vec<u64> = Vec::new();
    let mut i: usize = 0;
    while i < values.len()
        invariant
            i <= values@.len(),
            out@ =~= bits_u32(values@.take(i as int)),
        decreases values@.len() - i,
    {
        out.push(values[i] as u64);
        i = i + 1;
    }
    assert(values@.take(i as int) =~= values@);
    out
}

fn widen_u16(values: &Vec<u16>) -> (r: Vec<u64>)
    ensures
        r@ == bits_u16(values@),
{
    let mut out: Vec<u64> = Vec::new();
    let mut i: usize = 0;
    while i < values.len()
        invariant
            i <= values@.len(),
            out@ =~= bits_u16(values@.take(i as int)),
        decreases values@.len() - i,
    {
        out.push(values[i] as u64);
        i = i + 1;
    }
    assert(values@.take(i as int) =~= values@);
    out
}

fn widen_u8(values: &Vec<u8>) -> (r: Vec<u64>)
    ensures
        r@ == bits_u8(values@),
{
    let mut out: Vec<u64> = Vec::new();
    let mut i: usize = 0;
    while i < values.len()
        invariant
            i <= values@.len(),
            out@ =~= bits_u8(values@.take(i as int)),
        decreases values@.len() - i,
    {
        out.push(values[i] as u64);
        i = i + 1;
    }
    assert(values@.take(i as int) =~= values@);
    out
}

fn cut_counts(values: &Vec<u64>) -> (r: Vec<u64>)
    ensures
        r@ == bits_count(values@),
{
    let mut out: Vec<u64> = Vec::new();
    let mut i: usize = 0;
    while i < values.len()
        invariant
            i <= values@.len(),
            out@ =~= bits_count(values@.take(i as int)),
        decreases values@.len() - i,
    {
        out.push(values[i] as u32 as u64);
        i = i + 1;
    }
    assert(values@.take(i as int) =~= values@);
    out
}

/// The text bytes of the first `n` rows: those of the valid rows, in order.
pub open spec fn packed_text(values: Seq<String>, valid: Seq<bool>, n: int) -> Seq<u8>
    decreases n,
{
    if n <= 0 {
        Seq::empty()
    } else {
        packed_text(values, valid, n - 1) + (if valid[n - 1] {
            encode_utf8(values[n - 1]@)
        } else {
            Seq::empty()
        })
    }
}

/// The sum of two 32-bit numbers, held at the bounds of the type.
pub open spec fn saturated(a: i32, b: i32) -> i32 {
    if a + b > i32::MAX {
        i32::MAX
    } else if a + b < i32::MIN {
        i32::MIN
    } else {
        (a + b) as i32
    }
}

/// The offset after the first `n` rows.
pub open spec fn running_offset(values: Seq<String>, valid: Seq<bool>, n: int) -> i32
    decreases n,
{
    if n <= 0 {
        0
    } else {
        let before = running_offset(values, valid, n - 1);
        if valid[n - 1] {
            saturated(before, encode_utf8(values[n - 1]@).len() as usize as i32)
        } else {
            before
        }
    }
}

/// The bit patterns of the first `n` offsets.
pub open spec fn offset_bits(values: Seq<String>, valid: Seq<bool>, n: int) -> Seq<nat> {
    Seq::new(n as nat, |i: int| running_offset(values, valid, i) as u32 as nat)
}

/// The number of rows that have both a value and a validity flag.
pub open spec fn paired(values: Seq<String>, valid: Seq<bool>) -> int {
    if values.len() < valid.len() {
        values.len() as int
    } else {
        valid.len() as int
    }
}

/// The packed form of a text column: the row count, the offsets, the text.
pub open spec fn packed_utf8(values: Seq<String>, valid: Seq<bool>) -> Seq<u8> {
    let n = paired(values, valid);
    le(values.len() as usize as u32 as nat, 4) + le_all(offset_bits(values, valid, n + 1), 4)
        + packed_text(values, valid, n)
}

/// Appends bytes.
fn push_all(out: &mut Vec<u8>, more: &[u8])
    ensures
        final(out)@ == old(out)@ + more@,
{
    let mut i: usize = 0;
    while i < more.len()
        invariant
            i <= more@.len(),
            out@ =~= old(out)@ + more@.take(i as int),
        decreases more@.len() - i,
    {
        out.push(more[i]);
        i = i + 1;
    }
    assert(more@.take(i as int) =~= more@);
}

/// Adds two 32-bit numbers, staying at the bounds of the type.
fn saturating_sum(a: i32, b: i32) -> (r: i32)
    ensures
        r == saturated(a, b),
{
    let wide: i64 = a as i64 + b as i64;
    if wide > i32::MAX as i64 {
        i32::MAX
    } else if wide < i32::MIN as i64 {
        i32::MIN
    } else {
        wide as i32
    }
}

fn encode_utf8_column(values: &Vec<String>, valid: &Vec<bool>) -> (r: Vec<u8>)
    ensures
        r@ == packed_utf8(values@, valid@),
{
    let mut head: Vec<u8> = Vec::new();
    let count: u32 = values.len() as u32;
    bytes::push_le(&mut head, count as u64, 4);
    let ghost lead = le(values@.len() as usize as u32 as nat, 4);
    assert(head@ =~= lead);
    let mut acc: i32 = 0;
    bytes::push_le(&mut head, 0, 4);
    let mut body: Vec<u8> = Vec::new();
    let n: usize = if values.len() < valid.len() {
        values.len()
    } else {
        valid.len()
    };
    let mut i: usize = 0;
    proof {
        let offs = offset_bits(values@, valid@, 1);
        assert(0i32 as u32 == 0) by (bit_vector);
        assert(offs.drop_last() =~= Seq::<nat>::empty());
        assert(offs.last() == 0);
        assert(le_all(offs.drop_last(), 4) =~= Seq::<u8>::empty());
        assert(le_all(offs, 4) =~= le(0, 4));
        assert(head@ =~= lead + le_all(offs, 4));
    }
    while i < n
        invariant
            i <= n,
            n == paired(values@, valid@),
            n <= values@.len(),
            n <= valid@.len(),
            acc == running_offset(values@, valid@, i as int),
            body@ == packed_text(values@, valid@, i as int),
            head@ == lead + le_all(offset_bits(values@, valid@, i + 1), 4),
        decreases n - i,
    {
        if valid[i] {
            let s: &str = values[i].as_str();
            push_all(&mut body, s.as_bytes());
            acc = saturating_sum(acc, s.len() as i32);
        } else {
            assert(body@ + Seq::<u8>::empty() =~= body@);
        }
        let ghost before = head@;
        bytes::push_le(&mut head, acc as u32 as u64, 4);
        proof {
            let grown = offset_bits(values@, valid@, i + 2);
            assert(grown.drop_last() =~= offset_bits(values@, valid@, i + 1));
            assert(grown.last() == acc as u32 as nat);
            assert(head@ =~= lead + le_all(grown, 4));
        }
        i = i + 1;
    }
    push_all(&mut head, body.as_slice());
    head
}

/// What a key column must be encoded as.
pub open spec fn key_encoding(d: DecodedColumn, e: Encoded) -> bool {
    match d {
        DecodedColumn::I64 { values, valid } => e.tag@ == "I64"@ && e.data@ == le_all(
            nats64(bits_i64(values@)),
            8,
        ) && packs(e.valid@, valid@),
        DecodedColumn::F64 { values, valid } => e.tag@ == "F64"@ && e.data@ == le_all(
            nats64(values@),
            8,
        ) && packs(e.valid@, valid@),
        DecodedColumn::Bool { values, valid } => e.tag@ == "Bool"@ && packs(e.data@, values@)
            && packs(e.valid@, valid@),
        DecodedColumn::I32 { values, valid } => e.tag@ == "I32"@ && e.data@ == le_all(
            nats64(bits_i32(values@)),
            4,
        ) && packs(e.valid@, valid@),
        DecodedColumn::F32 { values, valid } => e.tag@ == "F32"@ && e.data@ == le_all(
            nats64(bits_u32(values@)),
            4,
        ) && packs(e.valid@, valid@),
        DecodedColumn::I8 { values, valid } => e.tag@ == "I8"@ && e.data@ == le_all(
            nats64(bits_i8(values@)),
            1,
        ) && packs(e.valid@, valid@),
        DecodedColumn::I16 { values, valid } => e.tag@ == "I16"@ && e.data@ == le_all(
            nats64(bits_i16(values@)),
            2,
        ) && packs(e.valid@, valid@),
        DecodedColumn::U8 { values, valid } => e.tag@ == "U8"@ && e.data@ == le_all(
            nats64(bits_u8(values@)),
            1,
        ) && packs(e.valid@, valid@),
        DecodedColumn::U16 { values, valid } => e.tag@ == "U16"@ && e.data@ == le_all(
            nats64(bits_u16(values@)),
            2,
        ) && packs(e.valid@, valid@),
        DecodedColumn::U32 { values, valid } => e.tag@ == "U32"@ && e.data@ == le_all(
            nats64(bits_u32(values@)),
            4,
        ) && packs(e.valid@, valid@),
        DecodedColumn::Utf8 { values, valid } => e.tag@ == "Utf8"@ && e.data@ == packed_utf8(
            values@,
            valid@,
        ) && packs(e.valid@, valid@),
    }
}

/// Encodes a key column of a result.
pub fn encode_decoded_column(d: &DecodedColumn) -> (e: Encoded)
    ensures
        key_encoding(*d, e),
{
    match d {
        DecodedColumn::I64 { values, valid } => Encoded {
            tag: "I64",
            data: encode_u64s(&widen_i64(values), 8),
            valid: null_bitmap::pack_valid_bitmap(valid.as_slice()),
        },
        DecodedColumn::F64 { values, valid } => Encoded {
            tag: "F64",
            data: encode_u64s(values, 8),
            valid: null_bitmap::pack_valid_bitmap(valid.as_slice()),
        },
        DecodedColumn::Bool { values, valid } => Encoded {
            tag: "Bool",
            data: null_bitmap::pack_valid_bitmap(values.as_slice()),
            valid: null_bitmap::pack_valid_bitmap(valid.as_slice()),
        },
        DecodedColumn::I32 { values, valid } => Encoded {
            tag: "I32",
            data: encode_u64s(&widen_i32(values), 4),
            valid: null_bitmap::pack_valid_bitmap(valid.as_slice()),
        },
        DecodedColumn::F32 { values, valid } => Encoded {
            tag: "F32",
            data: encode_u64s(&widen_u32(values), 4),
            valid: null_bitmap::pack_valid_bitmap(valid.as_slice()),
        },
        DecodedColumn::I8 { values, valid } => Encoded {
            tag: "I8",
            data: encode_u64s(&widen_i8(values), 1),
            valid: null_bitmap::pack_valid_bitmap(valid.as_slice()),
        },
        DecodedColumn::I16 { values, valid } => Encoded {
            tag: "I16",
            data: encode_u64s(&widen_i16(values), 2),
            valid: null_bitmap::pack_valid_bitmap(valid.as_slice()),
        },
        DecodedColumn::U8 { values, valid } => Encoded {
            tag: "U8",
            data: encode_u64s(&widen_u8(values), 1),
            valid: null_bitmap::pack_valid_bitmap(valid.as_slice()),
        },
        DecodedColumn::U16 { values, valid } => Encoded {
            tag: "U16",
            data: encode_u64s(&widen_u16(values), 2),
            valid: null_bitmap::pack_valid_bitmap(valid.as_slice()),
        },
        DecodedColumn::U32 { values, valid } => Encoded {
            tag: "U32",
            data: encode_u64s(&widen_u32(values), 4),
            valid: null_bitmap::pack_valid_bitmap(valid.as_slice()),
        },
        DecodedColumn::Utf8 { values, valid } => Encoded {
            tag: "Utf8",
            data: encode_utf8_column(values, valid),
            valid: null_bitmap::pack_valid_bitmap(valid.as_slice()),
        },
    }
}

/// What an aggregation column must be encoded as. Counts are cut to 32 bits
/// and come with an all-valid bitmap.
pub open spec fn agg_encoding(o: AggOutput, e: Encoded) -> bool {
    match o {
        AggOutput::I64 { values, valid } => e.tag@ == "I64"@ && e.data@ == le_all(
            nats64(bits_i64(values@)),
            8,
        ) && packs(e.valid@, valid@),
        AggOutput::F64 { values, valid } => e.tag@ == "F64"@ && e.data@ == le_all(
            nats64(values@),
            8,
        ) && packs(e.valid@, valid@),
        AggOutput::U64 { values } => e.tag@ == "U32"@ && e.data@ == le_all(
            nats64(bits_count(values@)),
            4,
        ) && e.valid@ == Seq::new(padded_bytes_for(values@.len() as int) as nat, |i: int| 0xffu8),
        AggOutput::I32 { values, valid } => e.tag@ == "I32"@ && e.data@ == le_all(
            nats64(bits_i32(values@)),
            4,
        ) && packs(e.valid@, valid@),
        AggOutput::F32 { values, valid } => e.tag@ == "F32"@ && e.data@ == le_all(
            nats64(bits_u32(values@)),
            4,
        ) && packs(e.valid@, valid@),
    }
}

/// Encodes an aggregation column of a result.
pub fn encode_agg_output(o: &AggOutput) -> (e: Encoded)
    ensures
        agg_encoding(*o, e),
{
    match o {
        AggOutput::I64 { values, valid } => Encoded {
            tag: "I64",
            data: encode_u64s(&widen_i64(values), 8),
            valid: null_bitmap::pack_valid_bitmap(valid.as_slice()),
        },
        AggOutput::F64 { values, valid } => Encoded {
            tag: "F64",
            data: encode_u64s(values, 8),
            valid: null_bitmap::pack_valid_bitmap(valid.as_slice()),
        },
        AggOutput::U64 { values } => {
            let n: usize = null_bitmap::padded_validity_bytes(values.len());
            let valid: Vec<u8> = vec![0xffu8; n];
            assert(valid@ =~= Seq::new(
                padded_bytes_for(values@.len() as int) as nat,
                |i: int| 0xffu8,
            ));
            Encoded { tag: "U32", data: encode_u64s(&cut_counts(values), 4), valid }
        },
        AggOutput::I32 { values, valid } => Encoded {
            tag: "I32",
            data: encode_u64s(&widen_i32(values), 4),
            valid: null_bitmap::pack_valid_bitmap(valid.as_slice()),
        },
        AggOutput::F32 { values, valid } => Encoded {
            tag: "F32",
            data: encode_u64s(&widen_u32(values), 4),
            valid: null_bitmap::pack_valid_bitmap(valid.as_slice()),
        },
    }
}

} // verus!
