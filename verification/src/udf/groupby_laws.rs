//! What reading a packed text column gives back of one that was written.

use vstd::prelude::*;
use vstd::utf8::{encode_utf8, encode_utf8_decode_utf8, encode_utf8_valid_utf8};

use crate::bytes::{from_le, le, le_reads_back, radix, u32_at};
use crate::error::Fault;
use crate::null_bitmap::{bytes_for, packs, padded_bytes_for, valid_at};
use crate::udf::groupby_encode::{le_all, offset_bits, packed_text, packed_utf8, running_offset};
use crate::udf::groupby_keys::{
    packed_column, packed_header, packed_offset, packed_row, packed_rows, packed_slice,
};

verus! {

/// Item `i` of a run of fixed-width encodings lies at `i` times the width.
proof fn lemma_item_of_run(items: Seq<nat>, width: nat, i: int)
    ensures
        le_all(items, width).len() == items.len() * width,
        0 <= i < items.len() ==> {
            &&& 0 <= i * width
            &&& (i + 1) * width <= items.len() * width
            &&& le_all(items, width).subrange(i * width, (i + 1) * width) == le(items[i], width)
        },
    decreases items.len(),
{
    if items.len() > 0 {
        let front = items.drop_last();
        lemma_item_of_run(front, width, i);
        le_reads_back(items.last(), width);
        assert(items.len() * width == front.len() * width + width) by (nonlinear_arith)
            requires
                items.len() == front.len() + 1,
        ;
        if 0 <= i < items.len() {
            assert((i + 1) * width == i * width + width) by (nonlinear_arith);
            assert(0 <= i * width) by (nonlinear_arith)
                requires
                    0 <= i,
            ;
            assert((i + 1) * width <= items.len() * width) by (nonlinear_arith)
                requires
                    0 <= i < items.len(),
            ;
            if i < front.len() {
                assert((i + 1) * width <= front.len() * width) by (nonlinear_arith)
                    requires
                        0 <= i < front.len(),
                ;
                assert(le_all(items, width).subrange(i * width, (i + 1) * width) =~= le_all(
                    front,
                    width,
                ).subrange(i * width, (i + 1) * width));
            } else {
                assert(le_all(items, width).subrange(i * width, (i + 1) * width) =~= le(
                    items[i],
                    width,
                ));
            }
        }
    }
}

/// A run of fixed-width encodings holds its items one after the other: item `i`
/// is read back from the bytes at `i` times the width, if it fits the width.
pub proof fn runs_read_back(items: Seq<nat>, width: nat, i: int)
    requires
        0 <= i < items.len(),
        items[i] < radix(width),
    ensures
        le_all(items, width).len() == items.len() * width,
        0 <= i * width,
        (i + 1) * width <= items.len() * width,
        from_le(le_all(items, width).subrange(i * width, (i + 1) * width)) == items[i],
{
    lemma_item_of_run(items, width, i);
    le_reads_back(items[i], width);
}

/// The text of the first rows begins the text of more rows.
proof fn lemma_text_prefix(values: Seq<String>, valid: Seq<bool>, r: int, n: int)
    requires
        0 <= r <= n,
    ensures
        packed_text(values, valid, r).len() <= packed_text(values, valid, n).len(),
        packed_text(values, valid, n).take(packed_text(values, valid, r).len() as int)
            == packed_text(values, valid, r),
    decreases n,
{
    if r < n {
        lemma_text_prefix(values, valid, r, n - 1);
        let a = packed_text(values, valid, r);
        let b = packed_text(values, valid, n - 1);
        let c = packed_text(values, valid, n);
        assert(c.take(a.len() as int) =~= b.take(a.len() as int));
    } else {
        let a = packed_text(values, valid, r);
        assert(a.take(a.len() as int) =~= a);
    }
}

/// While the text fits 32-bit offsets, the running offset is its length.
proof fn lemma_offset_is_length(values: Seq<String>, valid: Seq<bool>, r: int, n: int)
    requires
        0 <= r <= n,
        packed_text(values, valid, n).len() <= i32::MAX,
    ensures
        running_offset(values, valid, r) == packed_text(values, valid, r).len(),
    decreases r,
{
    lemma_text_prefix(values, valid, r, n);
    if r > 0 {
        lemma_offset_is_length(values, valid, r - 1, n);
        lemma_text_prefix(values, valid, r - 1, n);
        if valid[r - 1] {
            let own = encode_utf8(values[r - 1]@);
            assert(packed_text(values, valid, r).len() == packed_text(values, valid, r - 1).len()
                + own.len());
            assert(own.len() as usize as i32 == own.len());
        }
    }
}

/// A small number survives the trip through its unsigned bit pattern.
proof fn lemma_small_bits(v: i32)
    requires
        0 <= v,
    ensures
        v as u32 == v,
        (v as u32) as i32 == v,
{
}

/// Where the offsets of a packed column lie.
proof fn lemma_offsets_of_packed(values: Seq<String>, valid: Seq<bool>, i: int)
    requires
        values.len() == valid.len(),
        values.len() <= u32::MAX,
        packed_text(values, valid, values.len() as int).len() <= i32::MAX,
        0 <= i <= values.len(),
    ensures
        packed_utf8(values, valid).len() == packed_header(values.len() as int) + packed_text(
            values,
            valid,
            values.len() as int,
        ).len(),
        u32_at(packed_utf8(values, valid), 0) == values.len(),
        packed_offset(packed_utf8(values, valid), i) == packed_text(values, valid, i).len(),
{
    let n = values.len() as int;
    let count = values.len() as usize as u32 as nat;
    assert(count == values.len());
    let offs = offset_bits(values, valid, n + 1);
    let data = packed_utf8(values, valid);
    let lead = le(count, 4);
    let run = le_all(offs, 4);
    le_reads_back(count, 4);
    lemma_item_of_run(offs, 4, i);
    reveal_with_fuel(radix, 5);
    assert(data.subrange(0, 4) =~= lead);
    assert(data.subrange(4 + i * 4, 4 + i * 4 + 4) =~= run.subrange(i * 4, (i + 1) * 4));
    lemma_offset_is_length(values, valid, i, n);
    let off = running_offset(values, valid, i);
    lemma_small_bits(off);
    le_reads_back(off as u32 as nat, 4);
    assert(offs[i] == off as u32 as nat);
    assert(from_le(data.subrange(4 + i * 4, 4 + i * 4 + 4)) == off as nat);
}

/// Row `r` of a packed column reads back.
proof fn lemma_row_reads_back(
    name: Seq<char>,
    values: Seq<String>,
    valid: Seq<bool>,
    bitmap: Seq<u8>,
    r: int,
)
    requires
        values.len() == valid.len(),
        values.len() <= u32::MAX,
        packed_text(values, valid, values.len() as int).len() <= i32::MAX,
        packs(bitmap, valid),
        0 <= r < values.len(),
    ensures
        packed_row(name, packed_utf8(values, valid), bitmap, values.len() as int, r) == Ok::<
            Option<Seq<char>>,
            Fault,
        >(
            if valid[r] {
                Some(values[r]@)
            } else {
                None
            },
        ),
{
    let n = values.len() as int;
    let data = packed_utf8(values, valid);
    assert(valid_at(bitmap, r) == valid[r]);
    if valid[r] {
        lemma_offsets_of_packed(values, valid, r);
        lemma_offsets_of_packed(values, valid, r + 1);
        lemma_text_prefix(values, valid, r, n);
        lemma_text_prefix(values, valid, r + 1, n);
        let start = packed_text(values, valid, r).len() as int;
        let end = packed_text(values, valid, r + 1).len() as int;
        let text = packed_text(values, valid, n);
        let own = encode_utf8(values[r]@);
        lemma_item_of_run(offset_bits(values, valid, n + 1), 4, 0);
        le_reads_back(values.len() as usize as u32 as nat, 4);
        assert(text.take(end) == packed_text(values, valid, r) + own);
        assert(packed_slice(data, n, start, end) =~= own) by {
            assert forall|k: int| 0 <= k < own.len() implies packed_slice(data, n, start, end)[k]
                == own[k] by {
                assert(text.take(end)[start + k] == own[k]);
                assert(data[packed_header(n) + start + k] == text[start + k]);
            }
        }
        encode_utf8_valid_utf8(values[r]@);
        encode_utf8_decode_utf8(values[r]@);
    }
}

/// The rows of a text column with their nulls.
pub open spec fn nullable_rows(values: Seq<String>, valid: Seq<bool>, n: int) -> Seq<
    Option<Seq<char>>,
> {
    Seq::new(
        n as nat,
        |i: int|
            if valid[i] {
                Some(values[i]@)
            } else {
                None
            },
    )
}

/// The first rows of a packed column read back.
proof fn lemma_rows_read_back(
    name: Seq<char>,
    values: Seq<String>,
    valid: Seq<bool>,
    bitmap: Seq<u8>,
    k: int,
)
    requires
        values.len() == valid.len(),
        values.len() <= u32::MAX,
        packed_text(values, valid, values.len() as int).len() <= i32::MAX,
        packs(bitmap, valid),
        0 <= k <= values.len(),
    ensures
        packed_rows(name, packed_utf8(values, valid), bitmap, values.len() as int, k) == Ok::<
            Seq<Option<Seq<char>>>,
            Fault,
        >(nullable_rows(values, valid, k)),
    decreases k,
{
    if k > 0 {
        lemma_rows_read_back(name, values, valid, bitmap, k - 1);
        lemma_row_reads_back(name, values, valid, bitmap, k - 1);
        assert(nullable_rows(values, valid, k) =~= nullable_rows(values, valid, k - 1).push(
            if valid[k - 1] {
                Some(values[k - 1]@)
            } else {
                None
            },
        ));
    } else {
        assert(nullable_rows(values, valid, 0) =~= Seq::empty());
    }
}

/// Reading a packed text column gives back what was written: every row that is
/// valid with its text, every other row as null. The row count must fit the
/// header and the text the offsets.
pub proof fn packed_text_reads_back(
    name: Seq<char>,
    values: Seq<String>,
    valid: Seq<bool>,
    bitmap: Seq<u8>,
)
    requires
        values.len() == valid.len(),
        values.len() <= u32::MAX,
        packed_text(values, valid, values.len() as int).len() <= i32::MAX,
        packs(bitmap, valid),
    ensures
        packed_column(name, packed_utf8(values, valid), bitmap, values.len()) == Ok::<
            Seq<Option<Seq<char>>>,
            Fault,
        >(nullable_rows(values, valid, values.len() as int)),
{
    lemma_offsets_of_packed(values, valid, 0);
    lemma_rows_read_back(name, values, valid, bitmap, values.len() as int);
    assert(bytes_for(values.len() as int) <= padded_bytes_for(values.len() as int));
}

} // verus!
