//! Correlation matrices: the checks before the array computation.

use vstd::prelude::*;

use crate::error::{Failure, Fault};
use crate::text;
use crate::text::signed_decimal;
use crate::udf::dtw::{saturating_mul, saturating_product};

verus! {

/// The dimensions describe a buffer of `len` values.
pub open spec fn dimensions_match(p: i64, n: i64, len: usize) -> bool {
    &&& 0 <= n
    &&& 0 <= p
    &&& saturating_product(p as usize, n as usize) == len
}

/// Checks that `p` variables of `n` samples make up a buffer of `len` values.
pub fn execute_corr(len: usize, p: i64, n: i64) -> (r: Result<(), Failure>)
    ensures
        r is Ok <==> dimensions_match(p, n, len),
        r matches Err(e) ==> e@ == Fault::Value(
            "polars_metal: corr dimension mismatch (p*n != len)"@,
        ),
{
    if n < 0 || p < 0 || saturating_mul(p as usize, n as usize) != len {
        return Err(
            Failure::Value("polars_metal: corr dimension mismatch (p*n != len)".to_owned()),
        );
    }
    Ok(())
}

/// The number of variables as an array dimension; one that is too large is
/// refused.
pub fn corr_dimension(p: i64) -> (r: Result<i32, String>)
    ensures
        match r {
            Ok(d) => p <= i32::MAX && d == p as i32,
            Err(e) => p > i32::MAX && e@ == "corr: column count "@ + signed_decimal(p as int)
                + " exceeds i32::MAX"@,
        },
{
    if p > i32::MAX as i64 {
        let mut out: String = "corr: column count ".to_owned();
        text::push_signed(&mut out, p);
        out.append(" exceeds i32::MAX");
        return Err(out);
    }
    Ok(p as i32)
}

/// Dimensions are accepted exactly when neither is negative and their product
/// is the length, a product beyond the machine word being taken as the largest
/// word.
pub proof fn dimensions_multiply_to_the_length(p: i64, n: i64, len: usize)
    requires
        p <= usize::MAX,
        n <= usize::MAX,
    ensures
        p < 0 || n < 0 ==> !dimensions_match(p, n, len),
        p >= 0 && n >= 0 && p * n <= usize::MAX ==> (dimensions_match(p, n, len) <==> p * n == len),
        p >= 0 && n >= 0 && p * n > usize::MAX ==> (dimensions_match(p, n, len) <==> len
            == usize::MAX),
{
}

} // verus!
