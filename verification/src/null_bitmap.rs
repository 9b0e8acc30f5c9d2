//! Validity bitmaps: bit-packed, little-endian within each byte. The bit of
//! row `n` is bit `n % 8` of byte `n / 8`; one means valid, zero means null.

use vstd::prelude::*;

verus! {

/// Bit `i` of a byte.
pub open spec fn bit(b: u8, i: int) -> bool {
    (b >> (i as u8)) & 1 == 1
}

/// The row is valid. Rows past the end of the bitmap are null.
pub open spec fn valid_at(bitmap: Seq<u8>, row: int) -> bool {
    &&& 0 <= row
    &&& row / 8 < bitmap.len()
    &&& bit(bitmap[row / 8], row % 8)
}

/// The number of valid rows among the first `n`.
pub open spec fn valid_rows(bitmap: Seq<u8>, n: int) -> nat
    decreases n,
{
    if n <= 0 {
        0
    } else {
        valid_rows(bitmap, n - 1) + if valid_at(bitmap, n - 1) {
            1nat
        } else {
            0
        }
    }
}

/// The number of bytes that hold `rows` bits.
pub open spec fn bytes_for(rows: int) -> int {
    (rows + 7) / 8
}

/// The byte length needed to store `row_count` validity bits.
pub fn validity_bytes(row_count: usize) -> (r: usize)
    ensures
        r == bytes_for(row_count as int),
        r <= usize::MAX / 8 + 1,
{
    if row_count % 8 == 0 {
        row_count / 8
    } else {
        row_count / 8 + 1
    }
}

/// The validity bit of `row`; rows out of range are null.
pub fn get_valid(bitmap: &[u8], row: usize) -> (r: bool)
    ensures
        r == valid_at(bitmap@, row as int),
{
    let byte: usize = row / 8;
    if byte < bitmap.len() {
        let shift: u8 = (row % 8) as u8;
        (bitmap[byte] >> shift) & 1 == 1
    } else {
        false
    }
}

/// Setting bit `i` of a byte.
proof fn lemma_set_bit(b: u8, i: u8, j: u8)
    by (bit_vector)
    requires
        i < 8,
        j < 8,
    ensures
        ((b | (1u8 << i)) >> j) & 1 == (if i == j {
            1
        } else {
            (b >> j) & 1
        }),
        ((b & !(1u8 << i)) >> j) & 1 == (if i == j {
            0
        } else {
            (b >> j) & 1
        }),
{
}

/// Sets the validity bit of `row`, which must lie in the bitmap, and leaves
/// the other rows as they are.
pub fn set_valid(bitmap: &mut [u8], row: usize, valid: bool)
    requires
        row / 8 < old(bitmap)@.len(),
    ensures
        final(bitmap)@.len() == old(bitmap)@.len(),
        forall|r: int|
            #[trigger] valid_at(final(bitmap)@, r) == (if r == row {
                valid
            } else {
                valid_at(old(bitmap)@, r)
            }),
{
    let byte: usize = row / 8;
    let shift: u8 = (row % 8) as u8;
    let mask: u8 = 1u8 << shift;
    let before: u8 = bitmap[byte];
    let after: u8 = if valid {
        before | mask
    } else {
        before & !mask
    };
    bitmap[byte] = after;
    assert forall|r: int|
        #[trigger] valid_at(bitmap@, r) == (if r == row {
            valid
        } else {
            valid_at(old(bitmap)@, r)
        }) by {
        if 0 <= r && r / 8 == byte {
            lemma_set_bit(before, shift, (r % 8) as u8);
        }
    }
}

/// The number of set bits among the lowest `k` bits of a byte.
pub open spec fn low_ones(b: u8, k: int) -> nat
    decreases k,
{
    if k <= 0 {
        0
    } else {
        low_ones(b, k - 1) + if bit(b, k - 1) {
            1nat
        } else {
            0
        }
    }
}

/// Counts the set bits among the lowest `k` bits of a byte.
fn count_low_ones(b: u8, k: u8) -> (r: usize)
    requires
        k <= 8,
    ensures
        r == low_ones(b, k as int),
        r <= k,
{
    let mut n: usize = 0;
    let mut i: u8 = 0;
    while i < k
        invariant
            i <= k <= 8,
            n == low_ones(b, i as int),
            n <= i,
        decreases k - i,
    {
        if (b >> i) & 1 == 1 {
            n = n + 1;
        }
        i = i + 1;
    }
    n
}

/// Whole bytes before row `8 * byte` and `k` rows of that byte.
proof fn lemma_rows_in_byte(bitmap: Seq<u8>, byte: int, k: int)
    requires
        0 <= byte < bitmap.len(),
        0 <= k <= 8,
    ensures
        valid_rows(bitmap, 8 * byte + k) == valid_rows(bitmap, 8 * byte) + low_ones(
            bitmap[byte],
            k,
        ),
    decreases k,
{
    if k > 0 {
        lemma_rows_in_byte(bitmap, byte, k - 1);
        assert((8 * byte + k - 1) / 8 == byte);
        assert((8 * byte + k - 1) % 8 == k - 1);
    }
}

/// Rows past the end of the bitmap add nothing.
proof fn lemma_rows_past_end(bitmap: Seq<u8>, from: int, to: int)
    requires
        8 * bitmap.len() <= from <= to,
    ensures
        valid_rows(bitmap, to) == valid_rows(bitmap, from),
    decreases to,
{
    if from < to {
        lemma_rows_past_end(bitmap, from, to - 1);
    }
}

/// The number of valid rows among the first `row_count`. Bytes past the end of
/// the bitmap read as zero.
pub fn count_valid(bitmap: &[u8], row_count: usize) -> (r: usize)
    ensures
        r == valid_rows(bitmap@, row_count as int),
{
    let full: usize = row_count / 8;
    let trailing: u8 = (row_count % 8) as u8;
    let end: usize = if full < bitmap.len() {
        full
    } else {
        bitmap.len()
    };
    let mut sum: usize = 0;
    let mut i: usize = 0;
    while i < end
        invariant
            i <= end <= bitmap@.len(),
            end <= row_count / 8,
            sum == valid_rows(bitmap@, 8 * i),
            sum <= 8 * i,
        decreases end - i,
    {
        proof {
            lemma_rows_in_byte(bitmap@, i as int, 8);
        }
        sum = sum + count_low_ones(bitmap[i], 8);
        i = i + 1;
    }
    if full < bitmap.len() {
        proof {
            lemma_rows_in_byte(bitmap@, full as int, trailing as int);
        }
        if trailing > 0 {
            sum = sum + count_low_ones(bitmap[full], trailing);
        }
    } else {
        proof {
            lemma_rows_past_end(bitmap@, 8 * bitmap@.len() as int, row_count as int);
        }
    }
    sum
}

/// Eight rows of validity starting at `row_start`, a multiple of eight, as one
/// byte: bit `i` is row `row_start + i`. Rows past the end read as null.
pub fn load_chunk_8(bitmap: &[u8], row_start: usize) -> (r: u8)
    requires
        row_start % 8 == 0,
    ensures
        forall|i: int| 0 <= i < 8 ==> #[trigger] bit(r, i) == valid_at(bitmap@, row_start + i),
        r == (if row_start / 8 < bitmap@.len() {
            bitmap@[row_start as int / 8]
        } else {
            0
        }),
{
    let byte: usize = row_start / 8;
    if byte < bitmap.len() {
        bitmap[byte]
    } else {
        assert forall|i: int| 0 <= i < 8 implies !(#[trigger] bit(0u8, i)) by {
            let j = i as u8;
            assert((0u8 >> j) & 1 == 0) by (bit_vector);
        }
        0
    }
}

/// No bit of a zero byte is set.
proof fn lemma_zero_bit(i: u8)
    by (bit_vector)
    ensures
        (0u8 >> i) & 1 == 0,
{
}

/// The number of bytes of a bitmap handed to a kernel: enough for the rows,
/// padded to a multiple of four and never less than four.
pub open spec fn padded_bytes_for(rows: int) -> int {
    let padded = (bytes_for(rows) + 3) / 4 * 4;
    if padded < 4 {
        4
    } else {
        padded
    }
}

/// The padded byte length for `row_count` bits.
pub fn padded_validity_bytes(row_count: usize) -> (r: usize)
    ensures
        r == padded_bytes_for(row_count as int),
{
    let words: usize = (validity_bytes(row_count) + 3) / 4;
    if words < 1 {
        4
    } else {
        words * 4
    }
}

/// The bitmap packs the given rows: each row reads back, and every row after
/// the last is null.
pub open spec fn packs(bitmap: Seq<u8>, rows: Seq<bool>) -> bool {
    &&& bitmap.len() == padded_bytes_for(rows.len() as int)
    &&& forall|r: int|
        #[trigger] valid_at(bitmap, r) == (0 <= r < rows.len() && rows[r])
}

/// Packs validity flags into a bitmap padded for a kernel.
pub fn pack_valid_bitmap(bits: &[bool]) -> (out: Vec<u8>)
    ensures
        packs(out@, bits@),
{
    let n_bytes: usize = padded_validity_bytes(bits.len());
    let mut out: Vec<u8> = Vec::new();
    let mut k: usize = 0;
    while k < n_bytes
        invariant
            k <= n_bytes,
            out@.len() == k,
            forall|j: int| 0 <= j < k ==> out@[j] == 0,
        decreases n_bytes - k,
    {
        out.push(0);
        k = k + 1;
    }
    assert forall|r: int| !(#[trigger] valid_at(out@, r)) by {
        if 0 <= r && r / 8 < out@.len() {
            lemma_zero_bit((r % 8) as u8);
        }
    }
    let mut i: usize = 0;
    while i < bits.len()
        invariant
            i <= bits@.len(),
            out@.len() == padded_bytes_for(bits@.len() as int),
            forall|r: int|
                #[trigger] valid_at(out@, r) == (0 <= r < i && bits@[r]),
        decreases bits@.len() - i,
    {
        if bits[i] {
            set_valid(out.as_mut_slice(), i, true);
        }
        i = i + 1;
    }
    out
}

/// Two bitmaps of the same length with the same valid rows are the same bytes.
pub proof fn rows_determine_the_bitmap(a: Seq<u8>, b: Seq<u8>)
    requires
        a.len() == b.len(),
        forall|r: int| #[trigger] valid_at(a, r) == valid_at(b, r),
    ensures
        a == b,
{
    assert forall|i: int| 0 <= i < a.len() implies a[i] == b[i] by {
        let x = a[i];
        let y = b[i];
        assert forall|k: int| 0 <= k < 8 implies bit(x, k) == bit(y, k) by {
            assert((8 * i + k) / 8 == i);
            assert((8 * i + k) % 8 == k);
            assert(valid_at(a, 8 * i + k) == valid_at(b, 8 * i + k));
        }
        assert(bit(x, 0) == bit(y, 0));
        assert(bit(x, 1) == bit(y, 1));
        assert(bit(x, 2) == bit(y, 2));
        assert(bit(x, 3) == bit(y, 3));
        assert(bit(x, 4) == bit(y, 4));
        assert(bit(x, 5) == bit(y, 5));
        assert(bit(x, 6) == bit(y, 6));
        assert(bit(x, 7) == bit(y, 7));
        lemma_bits_determine_byte(x, y);
    }
    assert(a =~= b);
}

/// Two bytes with the same eight bits are equal.
proof fn lemma_bits_determine_byte(x: u8, y: u8)
    by (bit_vector)
    requires
        ((x >> 0u8) & 1 == 1) == ((y >> 0u8) & 1 == 1),
        ((x >> 1u8) & 1 == 1) == ((y >> 1u8) & 1 == 1),
        ((x >> 2u8) & 1 == 1) == ((y >> 2u8) & 1 == 1),
        ((x >> 3u8) & 1 == 1) == ((y >> 3u8) & 1 == 1),
        ((x >> 4u8) & 1 == 1) == ((y >> 4u8) & 1 == 1),
        ((x >> 5u8) & 1 == 1) == ((y >> 5u8) & 1 == 1),
        ((x >> 6u8) & 1 == 1) == ((y >> 6u8) & 1 == 1),
        ((x >> 7u8) & 1 == 1) == ((y >> 7u8) & 1 == 1),
    ensures
        x == y,
{
}

/// Never more rows are valid than there are rows, and one more row changes
/// the count by its own validity.
pub proof fn valid_rows_grow_by_the_next_row(bitmap: Seq<u8>, n: nat)
    ensures
        valid_rows(bitmap, n as int) <= n,
        valid_rows(bitmap, n as int + 1) == valid_rows(bitmap, n as int) + if valid_at(bitmap, n as int) {
            1nat
        } else {
            0
        },
    decreases n,
{
    if n > 0 {
        valid_rows_grow_by_the_next_row(bitmap, (n - 1) as nat);
    }
}

/// One for a set bit, zero for another.
pub open spec fn weight(set: bool) -> int {
    if set {
        1
    } else {
        0
    }
}

/// A byte is the sum of its bits by their place values: bit zero is worth one,
/// and each bit twice the bit before.
pub proof fn bits_are_binary_digits(b: u8)
    ensures
        b == weight(bit(b, 0)) + 2 * weight(bit(b, 1)) + 4 * weight(bit(b, 2)) + 8 * weight(
            bit(b, 3),
        ) + 16 * weight(bit(b, 4)) + 32 * weight(bit(b, 5)) + 64 * weight(bit(b, 6)) + 128 * weight(
            bit(b, 7),
        ),
{
    lemma_byte_of_bits(b);
}

/// A byte is the sum of its shifted bits.
proof fn lemma_byte_of_bits(b: u8)
    by (bit_vector)
    ensures
        b == ((b >> 0u8) & 1) + 2 * ((b >> 1u8) & 1) + 4 * ((b >> 2u8) & 1) + 8 * ((b >> 3u8) & 1)
            + 16 * ((b >> 4u8) & 1) + 32 * ((b >> 5u8) & 1) + 64 * ((b >> 6u8) & 1) + 128 * ((b
            >> 7u8) & 1),
        (b >> 0u8) & 1 <= 1,
        (b >> 1u8) & 1 <= 1,
        (b >> 2u8) & 1 <= 1,
        (b >> 3u8) & 1 <= 1,
        (b >> 4u8) & 1 <= 1,
        (b >> 5u8) & 1 <= 1,
        (b >> 6u8) & 1 <= 1,
        (b >> 7u8) & 1 <= 1,
{
}

/// A bitmap of the computed length has a bit for each row, and one byte less
/// would not. The padded length is a whole positive number of four-byte words,
/// and one word less would not do either.
pub proof fn bitmaps_are_as_long_as_needed(rows: nat)
    ensures
        8 * bytes_for(rows as int) >= rows,
        8 * (bytes_for(rows as int) - 1) < rows,
        padded_bytes_for(rows as int) % 4 == 0,
        8 * padded_bytes_for(rows as int) >= rows,
        padded_bytes_for(rows as int) >= 4,
        padded_bytes_for(rows as int) > 4 ==> 8 * (padded_bytes_for(rows as int) - 4) < rows,
{
}

/// In a bitmap of whole bytes every byte holds eight consecutive rows, the
/// lowest row in the lowest bit.
pub proof fn bytes_hold_eight_rows(bitmap: Seq<u8>, byte: int, k: int)
    requires
        0 <= byte < bitmap.len(),
        0 <= k < 8,
    ensures
        valid_at(bitmap, 8 * byte + k) == bit(bitmap[byte], k),
        forall|row: int| row < 0 || row >= 8 * bitmap.len() ==> !(#[trigger] valid_at(bitmap, row)),
{
    assert((8 * byte + k) / 8 == byte);
    assert((8 * byte + k) % 8 == k);
}

/// All rows count exactly when all are valid, and none exactly when none is.
pub proof fn counts_tell_full_and_empty(bitmap: Seq<u8>, n: nat)
    ensures
        valid_rows(bitmap, n as int) == n <==> forall|r: int|
            0 <= r < n ==> #[trigger] valid_at(bitmap, r),
        valid_rows(bitmap, n as int) == 0 <==> forall|r: int|
            0 <= r < n ==> !(#[trigger] valid_at(bitmap, r)),
    decreases n,
{
    if n > 0 {
        let m = (n - 1) as nat;
        counts_tell_full_and_empty(bitmap, m);
        valid_rows_grow_by_the_next_row(bitmap, m);
    }
}

} // verus!
