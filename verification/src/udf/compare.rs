//! Comparison dispatches: the checks before a comparison kernel is run, and
//! the size of the bitmaps it writes. Compared columns hold 64-bit integers or
//! doubles.

use vstd::prelude::*;

use crate::error::{outcome, Failure, Fault};
use crate::null_bitmap;
use crate::null_bitmap::padded_bytes_for;
use crate::plan::CompareOp;
use crate::udf::common::{check_numeric_buffers, numeric_fault};
use crate::udf::parse_laws::{comparison_name, comparison_names_read_back};
use crate::udf::predicate::{parse_compare_op, parsed_compare_op};
use crate::wire::F64Bits;

verus! {

/// Bytes per compared value.
pub const COMPARED_WIDTH: usize = 8;

/// The comparison of two columns to run, and the length of each bitmap that it
/// writes.
#[derive(Debug, Clone, Copy, PartialEq, Eq, Structural)]
pub struct ColumnCompare {
    pub op: CompareOp,
    pub out_bytes: usize,
}

/// The comparison of a column with a scalar to run, and the length of each
/// bitmap that it writes.
#[derive(Debug)]
pub struct ScalarCompare<T> {
    pub op: CompareOp,
    pub rhs: T,
    pub out_bytes: usize,
}

/// Why the buffers of a compared column are refused.
pub open spec fn compared_fault(data: Seq<u8>, valid: Seq<u8>, rows: usize) -> Option<Fault> {
    numeric_fault(data.len(), valid.len(), rows as nat, COMPARED_WIDTH as nat)
}

/// The outcome of checking a comparison with a scalar: the operator is parsed
/// before the buffers are checked.
pub open spec fn scalar_outcome<T>(
    data: Seq<u8>,
    valid: Seq<u8>,
    rhs: T,
    tag: Seq<char>,
    rows: usize,
    r: Result<ScalarCompare<T>, Fault>,
) -> bool {
    match parsed_compare_op(tag) {
        Err(e) => r == Err::<ScalarCompare<T>, Fault>(e),
        Ok(op) => match compared_fault(data, valid, rows) {
            Some(e) => r == Err::<ScalarCompare<T>, Fault>(e),
            None => r matches Ok(d) && d.op == op && d.rhs == rhs && d.out_bytes
                == padded_bytes_for(rows as int),
        },
    }
}

/// The outcome of checking a comparison of two columns: the operator is parsed
/// first, then the buffers are checked, the left column before the right.
pub open spec fn columns_outcome(
    lhs_data: Seq<u8>,
    lhs_valid: Seq<u8>,
    rhs_data: Seq<u8>,
    rhs_valid: Seq<u8>,
    tag: Seq<char>,
    rows: usize,
    r: Result<ColumnCompare, Fault>,
) -> bool {
    match parsed_compare_op(tag) {
        Err(e) => r == Err::<ColumnCompare, Fault>(e),
        Ok(op) => match compared_fault(lhs_data, lhs_valid, rows) {
            Some(e) => r == Err::<ColumnCompare, Fault>(e),
            None => match compared_fault(rhs_data, rhs_valid, rows) {
                Some(e) => r == Err::<ColumnCompare, Fault>(e),
                None => r matches Ok(d) && d.op == op && d.out_bytes == padded_bytes_for(
                    rows as int,
                ),
            },
        },
    }
}

fn check_scalar<T>(data: &[u8], valid: &[u8], rhs: T, op: &str, n_rows: usize) -> (r: Result<
    ScalarCompare<T>,
    Failure,
>)
    ensures
        scalar_outcome(data@, valid@, rhs, op@, n_rows, outcome(r)),
{
    let op: CompareOp = match parse_compare_op(op) {
        Ok(o) => o,
        Err(e) => return Err(e),
    };
    match check_numeric_buffers(data, valid, n_rows, COMPARED_WIDTH) {
        Ok(_) => {},
        Err(e) => return Err(e),
    }
    Ok(ScalarCompare { op, rhs, out_bytes: null_bitmap::padded_validity_bytes(n_rows) })
}

fn check_columns(
    lhs_data: &[u8],
    lhs_valid: &[u8],
    rhs_data: &[u8],
    rhs_valid: &[u8],
    op: &str,
    n_rows: usize,
) -> (r: Result<ColumnCompare, Failure>)
    ensures
        columns_outcome(lhs_data@, lhs_valid@, rhs_data@, rhs_valid@, op@, n_rows, outcome(r)),
{
    let op: CompareOp = match parse_compare_op(op) {
        Ok(o) => o,
        Err(e) => return Err(e),
    };
    match check_numeric_buffers(lhs_data, lhs_valid, n_rows, COMPARED_WIDTH) {
        Ok(_) => {},
        Err(e) => return Err(e),
    }
    match check_numeric_buffers(rhs_data, rhs_valid, n_rows, COMPARED_WIDTH) {
        Ok(_) => {},
        Err(e) => return Err(e),
    }
    Ok(ColumnCompare { op, out_bytes: null_bitmap::padded_validity_bytes(n_rows) })
}

/// Checks a comparison of a column of integers with an integer.
pub fn cmp_i64_col_scalar(
    lhs_data: &[u8],
    lhs_valid: &[u8],
    rhs: i64,
    op: &str,
    n_rows: usize,
) -> (r: Result<ScalarCompare<i64>, Failure>)
    ensures
        scalar_outcome(lhs_data@, lhs_valid@, rhs, op@, n_rows, outcome(r)),
{
    check_scalar(lhs_data, lhs_valid, rhs, op, n_rows)
}

/// Checks a comparison of a column of doubles with a double.
pub fn cmp_f64_col_scalar(
    lhs_data: &[u8],
    lhs_valid: &[u8],
    rhs: F64Bits,
    op: &str,
    n_rows: usize,
) -> (r: Result<ScalarCompare<F64Bits>, Failure>)
    ensures
        scalar_outcome(lhs_data@, lhs_valid@, rhs, op@, n_rows, outcome(r)),
{
    check_scalar(lhs_data, lhs_valid, rhs, op, n_rows)
}

/// Checks a comparison of two columns of integers.
pub fn cmp_i64_col_col(
    lhs_data: &[u8],
    lhs_valid: &[u8],
    rhs_data: &[u8],
    rhs_valid: &[u8],
    op: &str,
    n_rows: usize,
) -> (r: Result<ColumnCompare, Failure>)
    ensures
        columns_outcome(lhs_data@, lhs_valid@, rhs_data@, rhs_valid@, op@, n_rows, outcome(r)),
{
    check_columns(lhs_data, lhs_valid, rhs_data, rhs_valid, op, n_rows)
}

/// Checks a comparison of two columns of doubles.
pub fn cmp_f64_col_col(
    lhs_data: &[u8],
    lhs_valid: &[u8],
    rhs_data: &[u8],
    rhs_valid: &[u8],
    op: &str,
    n_rows: usize,
) -> (r: Result<ColumnCompare, Failure>)
    ensures
        columns_outcome(lhs_data@, lhs_valid@, rhs_data@, rhs_valid@, op@, n_rows, outcome(r)),
{
    check_columns(lhs_data, lhs_valid, rhs_data, rhs_valid, op, n_rows)
}

/// A comparison with a scalar runs as named, with that scalar, when the column
/// holds eight bytes and a bit for each row, and writes a bit for each row.
pub proof fn scalar_comparisons_run_as_asked<T>(
    data: Seq<u8>,
    valid: Seq<u8>,
    rhs: T,
    tag: Seq<char>,
    rows: usize,
    r: Result<ScalarCompare<T>, Fault>,
    op: CompareOp,
)
    requires
        scalar_outcome(data, valid, rhs, tag, rows, r),
        tag == comparison_name(op),
    ensures
        r is Ok <==> data.len() >= 8 * rows && 8 * valid.len() >= rows,
        r matches Ok(d) ==> d.op == op && d.rhs == rhs && 8 * d.out_bytes >= rows,
{
    comparison_names_read_back(op, tag);
}

/// A comparison of two columns runs as named when both columns hold eight bytes
/// and a bit for each row, and writes a bit for each row.
pub proof fn column_comparisons_run_as_asked(
    lhs_data: Seq<u8>,
    lhs_valid: Seq<u8>,
    rhs_data: Seq<u8>,
    rhs_valid: Seq<u8>,
    tag: Seq<char>,
    rows: usize,
    r: Result<ColumnCompare, Fault>,
    op: CompareOp,
)
    requires
        columns_outcome(lhs_data, lhs_valid, rhs_data, rhs_valid, tag, rows, r),
        tag == comparison_name(op),
    ensures
        r is Ok <==> lhs_data.len() >= 8 * rows && 8 * lhs_valid.len() >= rows && rhs_data.len()
            >= 8 * rows && 8 * rhs_valid.len() >= rows,
        r matches Ok(d) ==> d.op == op && 8 * d.out_bytes >= rows,
{
    comparison_names_read_back(op, tag);
}

/// Of two short columns the left is complained of, whatever the right.
pub proof fn a_short_left_column_comes_first(
    lhs_data: Seq<u8>,
    lhs_valid: Seq<u8>,
    rhs_data: Seq<u8>,
    rhs_valid: Seq<u8>,
    tag: Seq<char>,
    rows: usize,
    r: Result<ColumnCompare, Fault>,
    op: CompareOp,
)
    requires
        columns_outcome(lhs_data, lhs_valid, rhs_data, rhs_valid, tag, rows, r),
        tag == comparison_name(op),
        lhs_data.len() < 8 * rows || 8 * lhs_valid.len() < rows,
    ensures
        r is Err,
        columns_outcome(lhs_data, lhs_valid, lhs_data, lhs_valid, tag, rows, r),
{
    comparison_names_read_back(op, tag);
}

} // verus!
