//! Dynamic time warping of many sequences against one: the checks before the
//! kernel is run and how its result comes back.

use vstd::arithmetic::power2::is_pow2;
use vstd::prelude::*;

use crate::alignment;
use crate::alignment::aligned;
use crate::error::{Failure, Fault};
use crate::udf::common::wide_product;

verus! {

/// What a warping request comes to. A result that is not page-aligned is
/// copied back.
#[derive(Debug, Clone, Copy, PartialEq, Eq, Structural)]
pub enum DtwDispatch {
    Nothing,
    Run { n_pairs: u32, seq_len: u32, copy_back: bool },
}

/// The product of two machine words, held at the largest one.
pub open spec fn saturating_product(a: usize, b: usize) -> int {
    if a * b > usize::MAX {
        usize::MAX as int
    } else {
        a * b
    }
}

/// Multiplies two machine words, staying at the largest one.
pub fn saturating_mul(a: usize, b: usize) -> (r: usize)
    ensures
        r == saturating_product(a, b),
{
    let wide: u128 = wide_product(a, b);
    if wide > usize::MAX as u128 {
        usize::MAX
    } else {
        wide as usize
    }
}

/// The outcome of checking a warping request.
pub open spec fn dtw_outcome(
    q_n: usize,
    r_n: usize,
    out_ptr: int,
    out_n: usize,
    n_pairs: usize,
    seq_len: usize,
    page: int,
) -> Result<DtwDispatch, Fault> {
    if r_n != seq_len || out_n != n_pairs || q_n != saturating_product(n_pairs, seq_len) {
        Err(Fault::Value("polars_metal: dtw dimension mismatch"@))
    } else if n_pairs == 0 || seq_len == 0 {
        Ok(DtwDispatch::Nothing)
    } else if n_pairs > u32::MAX {
        Err(Fault::Value("polars_metal: dtw n_pairs exceeds u32::MAX"@))
    } else if seq_len > u32::MAX {
        Err(Fault::Value("polars_metal: dtw seq_len exceeds u32::MAX"@))
    } else {
        Ok(
            DtwDispatch::Run {
                n_pairs: n_pairs as u32,
                seq_len: seq_len as u32,
                copy_back: !aligned(out_ptr, page),
            },
        )
    }
}

/// Checks a warping request: the numbers of values of the queries and of the
/// reference, the address and number of values of the output, and the shape.
pub fn execute_dtw(
    q_n: usize,
    r_n: usize,
    out: (usize, usize),
    n_pairs: usize,
    seq_len: usize,
    page: usize,
) -> (r: Result<DtwDispatch, Failure>)
    requires
        is_pow2(page as int),
    ensures
        match r {
            Ok(d) => dtw_outcome(q_n, r_n, out.0 as int, out.1, n_pairs, seq_len, page as int)
                == Ok::<DtwDispatch, Fault>(d),
            Err(e) => dtw_outcome(q_n, r_n, out.0 as int, out.1, n_pairs, seq_len, page as int)
                == Err::<DtwDispatch, Fault>(e@),
        },
{
    let (out_ptr, out_n): (usize, usize) = out;
    if r_n != seq_len || out_n != n_pairs || q_n != saturating_mul(n_pairs, seq_len) {
        return Err(Failure::Value("polars_metal: dtw dimension mismatch".to_owned()));
    }
    if n_pairs == 0 || seq_len == 0 {
        return Ok(DtwDispatch::Nothing);
    }
    if n_pairs as u128 > u32::MAX as u128 {
        return Err(Failure::Value("polars_metal: dtw n_pairs exceeds u32::MAX".to_owned()));
    }
    if seq_len as u128 > u32::MAX as u128 {
        return Err(Failure::Value("polars_metal: dtw seq_len exceeds u32::MAX".to_owned()));
    }
    Ok(
        DtwDispatch::Run {
            n_pairs: n_pairs as u32,
            seq_len: seq_len as u32,
            copy_back: !alignment::is_aligned(out_ptr, page),
        },
    )
}

/// A warping runs over as many sequences as there are results, each as long as
/// the reference, and together all the query values, a product beyond the
/// machine word being taken as the largest word; its result is copied back
/// unless the output lies on a page.
pub proof fn warping_runs_over_every_sequence(
    q_n: usize,
    r_n: usize,
    out_ptr: int,
    out_n: usize,
    n_pairs: usize,
    seq_len: usize,
    page: int,
)
    ensures
        dtw_outcome(q_n, r_n, out_ptr, out_n, n_pairs, seq_len, page) is Ok <==> r_n == seq_len
            && out_n == n_pairs && (q_n == n_pairs * seq_len || (q_n == usize::MAX && n_pairs
            * seq_len > q_n)) && (n_pairs == 0 || seq_len == 0 || (
        n_pairs < 0x1_0000_0000 && seq_len < 0x1_0000_0000)),
        dtw_outcome(q_n, r_n, out_ptr, out_n, n_pairs, seq_len, page) matches Ok(DtwDispatch::Run {
            n_pairs: p,
            seq_len: l,
            copy_back,
        }) ==> p == n_pairs && l == seq_len && p > 0 && l > 0 && copy_back == (out_ptr % page != 0),
{
}

} // verus!
