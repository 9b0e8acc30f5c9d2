//! Little-endian encodings and UTF-8 text in byte buffers.

use vstd::arithmetic::div_mod::lemma_div_denominator;
use vstd::arithmetic::power::{lemma_pow_positive, pow};
use vstd::prelude::*;
use vstd::utf8::{decode_utf8, valid_utf8};

verus! {

/// The `width` low bytes of `x`, least significant first.
pub open spec fn le(x: nat, width: nat) -> Seq<u8>
    decreases width,
{
    if width == 0 {
        Seq::empty()
    } else {
        seq![(x % 256) as u8] + le(x / 256, (width - 1) as nat)
    }
}

/// The number whose bytes these are, least significant first.
pub open spec fn from_le(bytes: Seq<u8>) -> nat
    decreases bytes.len(),
{
    if bytes.len() == 0 {
        0
    } else {
        bytes[0] as nat + 256 * from_le(bytes.drop_first())
    }
}

/// `256` to the power `width`.
pub open spec fn radix(width: nat) -> nat
    decreases width,
{
    if width == 0 {
        1
    } else {
        256 * radix((width - 1) as nat)
    }
}

/// A number that fits in `width` bytes is read back from its encoding, which
/// is `width` bytes long.
pub proof fn le_reads_back(x: nat, width: nat)
    ensures
        le(x, width).len() == width,
        x < radix(width) ==> from_le(le(x, width)) == x,
    decreases width,
{
    if width > 0 {
        let w = (width - 1) as nat;
        le_reads_back(x / 256, w);
        assert(le(x, width).drop_first() =~= le(x / 256, w));
        if x < radix(width) {
            assert(x / 256 < radix(w)) by (nonlinear_arith)
                requires
                    x < 256 * radix(w),
            ;
        }
    }
}

/// Appends the `width` low bytes of `x`.
pub fn push_le(out: &mut Vec<u8>, x: u64, width: u8)
    ensures
        final(out)@ == old(out)@ + le(x as nat, width as nat),
{
    let mut rest: u64 = x;
    let mut left: u8 = width;
    assert(out@ + le(x as nat, width as nat) =~= old(out)@ + le(x as nat, width as nat));
    while left > 0
        invariant
            left <= width,
            out@ + le(rest as nat, left as nat) == old(out)@ + le(x as nat, width as nat),
        decreases left,
    {
        let ghost before = out@;
        let low: u8 = (rest % 256) as u8;
        out.push(low);
        assert(out@ + le(rest as nat / 256, (left - 1) as nat) =~= before + le(
            rest as nat,
            left as nat,
        ));
        rest = rest / 256;
        left = left - 1;
    }
    assert(out@ =~= out@ + le(rest as nat, 0));
}

/// The unsigned 32-bit number at `at`.
pub open spec fn u32_at(bytes: Seq<u8>, at: int) -> u32 {
    from_le(bytes.subrange(at, at + 4)) as u32
}

/// The signed 32-bit number at `at`, in two's complement.
pub open spec fn i32_at(bytes: Seq<u8>, at: int) -> i32 {
    u32_at(bytes, at) as i32
}

/// Reads four bytes as an unsigned number.
pub fn read_u32(bytes: &[u8], at: usize) -> (r: u32)
    requires
        at + 4 <= bytes@.len(),
    ensures
        r == u32_at(bytes@, at as int),
        r == from_le(bytes@.subrange(at as int, at + 4)),
{
    proof {
        reveal_with_fuel(from_le, 5);
        let s = bytes@.subrange(at as int, at + 4);
        assert(s.drop_first().drop_first().drop_first().drop_first().len() == 0);
        assert(s.drop_first()[0] == bytes@[at + 1]);
        assert(s.drop_first().drop_first()[0] == bytes@[at + 2]);
        assert(s.drop_first().drop_first().drop_first()[0] == bytes@[at + 3]);
        assert(from_le(s) == bytes@[at as int] as nat + 256 * (bytes@[at + 1] as nat + 256 * (
        bytes@[at + 2] as nat + 256 * (bytes@[at + 3] as nat))));
    }
    let b0: u32 = bytes[at] as u32;
    let b1: u32 = bytes[at + 1] as u32;
    let b2: u32 = bytes[at + 2] as u32;
    let b3: u32 = bytes[at + 3] as u32;
    b0 + 256 * (b1 + 256 * (b2 + 256 * b3))
}

/// Reads four bytes as a signed number.
pub fn read_i32(bytes: &[u8], at: usize) -> (r: i32)
    requires
        at + 4 <= bytes@.len(),
    ensures
        r == i32_at(bytes@, at as int),
{
    read_u32(bytes, at) as i32
}

/// What `std::str::from_utf8` says of bytes that are not UTF-8.
pub uninterp spec fn utf8_complaint(bytes: Seq<u8>) -> Seq<char>;

/// Calls `std::str::from_utf8`: it succeeds exactly on valid UTF-8, with the
/// text that the bytes encode, and otherwise gives an error whose text depends
/// on the bytes alone.
#[verifier::external_body]
pub(crate) fn utf8_text(bytes: &[u8]) -> (r: Result<&str, String>)
    ensures
        match r {
            Ok(s) => valid_utf8(bytes@) && s@ == decode_utf8(bytes@),
            Err(e) => !valid_utf8(bytes@) && e@ == utf8_complaint(bytes@),
        },
{
    match std::str::from_utf8(bytes) {
        Ok(s) => Ok(s),
        Err(e) => Err(e.to_string()),
    }
}

/// Byte `i` of an encoding has the place value `256` to the power `i`.
pub proof fn encodings_are_base_256_digits(x: nat, width: nat, i: int)
    requires
        0 <= i < width,
    ensures
        le(x, width).len() == width,
        le(x, width)[i] == (x as int / pow(256, i as nat)) % 256,
    decreases width,
{
    reveal(pow);
    le_reads_back(x, width);
    let w = (width - 1) as nat;
    if i > 0 {
        encodings_are_base_256_digits(x / 256, w, i - 1);
        let p = pow(256, (i - 1) as nat);
        lemma_pow_positive(256, (i - 1) as nat);
        lemma_div_denominator(x as int, 256, p);
        assert(le(x, width)[i] == le(x / 256, w)[i - 1]);
    } else {
        assert(pow(256, 0) == 1);
        assert(x as int / 1 == x);
    }
}

/// A further byte adds its value by its place.
pub proof fn decodings_are_base_256_numbers(bytes: Seq<u8>, high: u8)
    ensures
        from_le(Seq::empty()) == 0,
        from_le(bytes.push(high)) == from_le(bytes) + high * pow(256, bytes.len()),
    decreases bytes.len(),
{
    reveal(pow);
    if bytes.len() == 0 {
        assert(bytes.push(high).drop_first() =~= Seq::empty());
        assert(pow(256, 0) == 1);
        assert(bytes.push(high)[0] == high);
        reveal_with_fuel(from_le, 2);
    } else {
        let rest = bytes.drop_first();
        decodings_are_base_256_numbers(rest, high);
        assert(bytes.push(high).drop_first() =~= rest.push(high));
        let p = pow(256, rest.len());
        assert(pow(256, bytes.len()) == 256 * p);
        assert(256 * (from_le(rest) + high * p) == 256 * from_le(rest) + high * (256 * p))
            by (nonlinear_arith);
    }
}

/// A four-byte number is the sum of its bytes by their places; read as a signed
/// number, the upper half of the range stands for the negative numbers.
pub proof fn words_are_read_by_place(bytes: Seq<u8>, at: int)
    requires
        0 <= at,
        at + 4 <= bytes.len(),
    ensures
        u32_at(bytes, at) == bytes[at] + 0x100 * bytes[at + 1] + 0x1_0000 * bytes[at + 2]
            + 0x100_0000 * bytes[at + 3],
        i32_at(bytes, at) == (if bytes[at + 3] < 0x80 {
            u32_at(bytes, at) as int
        } else {
            u32_at(bytes, at) - 0x1_0000_0000
        }),
{
    reveal_with_fuel(from_le, 5);
    let s = bytes.subrange(at, at + 4);
    assert(s.drop_first().drop_first().drop_first().drop_first().len() == 0);
    assert(s.drop_first()[0] == bytes[at + 1]);
    assert(s.drop_first().drop_first()[0] == bytes[at + 2]);
    assert(s.drop_first().drop_first().drop_first()[0] == bytes[at + 3]);
    lemma_upper_half_is_negative(u32_at(bytes, at));
}

/// The upper half of the unsigned range stands for the negative numbers.
proof fn lemma_upper_half_is_negative(x: u32)
    by (bit_vector)
    ensures
        x < 0x8000_0000 ==> (x as i32) as i64 == x as i64,
        x >= 0x8000_0000 ==> (x as i32) as i64 == x as i64 - 0x1_0000_0000,
{
}

} // verus!
