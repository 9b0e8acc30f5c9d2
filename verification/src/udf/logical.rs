//! Boolean connectives on bit-packed predicates: the checks before the kernel
//! is run, and the size of the bitmaps it writes.

use vstd::prelude::*;

use crate::error::{outcome, Failure, Fault};
use crate::null_bitmap;
use crate::null_bitmap::padded_bytes_for;
use crate::udf::common::{bitpacked_fault, check_bitpacked_buffer};

verus! {

/// The connective kernels.
#[derive(Debug, Clone, Copy, PartialEq, Eq, Structural)]
pub enum Connective {
    And,
    Or,
}

/// The connective to run and the length of each bitmap that it writes.
#[derive(Debug, Clone, Copy, PartialEq, Eq, Structural)]
pub struct LogicalDispatch {
    pub connective: Connective,
    pub out_bytes: usize,
}

/// The first of the four buffers that is too short for the rows.
pub open spec fn logical_fault(
    lhs_data: nat,
    lhs_valid: nat,
    rhs_data: nat,
    rhs_valid: nat,
    rows: nat,
) -> Option<Fault> {
    match bitpacked_fault("lhs_data buffer"@, lhs_data, rows) {
        Some(e) => Some(e),
        None => match bitpacked_fault("lhs_valid buffer"@, lhs_valid, rows) {
            Some(e) => Some(e),
            None => match bitpacked_fault("rhs_data buffer"@, rhs_data, rows) {
                Some(e) => Some(e),
                None => bitpacked_fault("rhs_valid buffer"@, rhs_valid, rows),
            },
        },
    }
}

/// The outcome of checking the operands of a connective.
pub open spec fn logical_outcome(
    connective: Connective,
    lhs_data: nat,
    lhs_valid: nat,
    rhs_data: nat,
    rhs_valid: nat,
    rows: nat,
    r: Result<LogicalDispatch, Fault>,
) -> bool {
    match logical_fault(lhs_data, lhs_valid, rhs_data, rhs_valid, rows) {
        Some(e) => r == Err::<LogicalDispatch, Fault>(e),
        None => r matches Ok(d) && d.connective == connective && d.out_bytes == padded_bytes_for(
            rows as int,
        ),
    }
}

/// Checks the operands of a connective.
fn dispatch_logical(
    connective: Connective,
    lhs_data: &[u8],
    lhs_valid: &[u8],
    rhs_data: &[u8],
    rhs_valid: &[u8],
    n_rows: usize,
) -> (r: Result<LogicalDispatch, Failure>)
    ensures
        logical_outcome(
            connective,
            lhs_data@.len(),
            lhs_valid@.len(),
            rhs_data@.len(),
            rhs_valid@.len(),
            n_rows as nat,
            outcome(r),
        ),
{
    match check_bitpacked_buffer(lhs_data, n_rows, "lhs_data buffer") {
        Ok(_) => {},
        Err(e) => return Err(e),
    }
    match check_bitpacked_buffer(lhs_valid, n_rows, "lhs_valid buffer") {
        Ok(_) => {},
        Err(e) => return Err(e),
    }
    match check_bitpacked_buffer(rhs_data, n_rows, "rhs_data buffer") {
        Ok(_) => {},
        Err(e) => return Err(e),
    }
    match check_bitpacked_buffer(rhs_valid, n_rows, "rhs_valid buffer") {
        Ok(_) => {},
        Err(e) => return Err(e),
    }
    Ok(LogicalDispatch { connective, out_bytes: null_bitmap::padded_validity_bytes(n_rows) })
}

/// Checks the operands of a conjunction.
pub fn bool_and_dispatch(
    lhs_data: &[u8],
    lhs_valid: &[u8],
    rhs_data: &[u8],
    rhs_valid: &[u8],
    n_rows: usize,
) -> (r: Result<LogicalDispatch, Failure>)
    ensures
        logical_outcome(
            Connective::And,
            lhs_data@.len(),
            lhs_valid@.len(),
            rhs_data@.len(),
            rhs_valid@.len(),
            n_rows as nat,
            outcome(r),
        ),
        r matches Ok(d) ==> d.connective == Connective::And,
{
    dispatch_logical(Connective::And, lhs_data, lhs_valid, rhs_data, rhs_valid, n_rows)
}

/// Checks the operands of a disjunction.
pub fn bool_or_dispatch(
    lhs_data: &[u8],
    lhs_valid: &[u8],
    rhs_data: &[u8],
    rhs_valid: &[u8],
    n_rows: usize,
) -> (r: Result<LogicalDispatch, Failure>)
    ensures
        logical_outcome(
            Connective::Or,
            lhs_data@.len(),
            lhs_valid@.len(),
            rhs_data@.len(),
            rhs_valid@.len(),
            n_rows as nat,
            outcome(r),
        ),
        r matches Ok(d) ==> d.connective == Connective::Or,
{
    dispatch_logical(Connective::Or, lhs_data, lhs_valid, rhs_data, rhs_valid, n_rows)
}

/// The failure raised when a connective kernel fails with the given text.
pub fn logical_failure(connective: Connective, why: &str) -> (r: Failure)
    ensures
        r@ == Fault::Runtime(
            "polars_metal: "@ + (match connective {
                Connective::And => "bool_and"@,
                Connective::Or => "bool_or"@,
            }) + " dispatch failed: "@ + why@,
        ),
{
    let mut out: String = "polars_metal: ".to_owned();
    match connective {
        Connective::And => {
            out.append("bool_and");
        },
        Connective::Or => {
            out.append("bool_or");
        },
    }
    out.append(" dispatch failed: ");
    out.append(why);
    Failure::Runtime(out)
}

/// The connective that runs is the one asked for: on operands that are long
/// enough a conjunction is accepted as a conjunction and a disjunction as a
/// disjunction, and the two are accepted on the same operands.
pub proof fn connectives_run_as_asked(
    lhs_data: nat,
    lhs_valid: nat,
    rhs_data: nat,
    rhs_valid: nat,
    rows: nat,
    both: Result<LogicalDispatch, Fault>,
    either: Result<LogicalDispatch, Fault>,
)
    requires
        logical_outcome(
            Connective::And,
            lhs_data,
            lhs_valid,
            rhs_data,
            rhs_valid,
            rows,
            both,
        ),
        logical_outcome(
            Connective::Or,
            lhs_data,
            lhs_valid,
            rhs_data,
            rhs_valid,
            rows,
            either,
        ),
    ensures
        both matches Ok(d) ==> d.connective == Connective::And,
        either matches Ok(d) ==> d.connective == Connective::Or,
        both is Ok <==> either is Ok,
        both is Ok <==> 8 * lhs_data >= rows && 8 * lhs_valid >= rows && 8 * rhs_data >= rows && 8
            * rhs_valid >= rows,
        both matches Ok(d) ==> either matches Ok(e) ==> d.out_bytes == e.out_bytes && 8
            * d.out_bytes >= rows,
{
}

/// The first operand that is too short is complained of, whatever comes after
/// it: the left data, its validity, the right data, its validity.
pub proof fn the_first_short_operand_is_complained_of(a: nat, b: nat, c: nat, d: nat, rows: nat)
    ensures
        8 * a < rows ==> forall|x: nat, y: nat, z: nat| #[trigger]
            logical_fault(a, x, y, z, rows) == logical_fault(a, b, c, d, rows),
        8 * a >= rows && 8 * b < rows ==> forall|w: nat, y: nat, z: nat|
            8 * w >= rows ==> #[trigger] logical_fault(w, b, y, z, rows) == logical_fault(
                a,
                b,
                c,
                d,
                rows,
            ),
        8 * a >= rows && 8 * b >= rows && 8 * c < rows ==> forall|w: nat, x: nat, z: nat|
            8 * w >= rows && 8 * x >= rows ==> #[trigger] logical_fault(w, x, c, z, rows)
                == logical_fault(a, b, c, d, rows),
{
}

} // verus!
