//! Rolling statistics over a column: the checks before the kernel is run, how
//! its result comes back, and the kernel that an operation selects.

use vstd::arithmetic::power2::is_pow2;
use vstd::prelude::*;

use crate::alignment;
use crate::alignment::aligned;
use crate::error::{Failure, Fault};
use crate::text;
use crate::text::decimal;

verus! {

/// What a rolling request comes to. A result that is not page-aligned is
/// copied back.
#[derive(Debug, Clone, Copy, PartialEq, Eq, Structural)]
pub enum RollingDispatch {
    Nothing,
    Run { n: u32, copy_back: bool },
}

/// The rolling kernels: a sum, divided by the window for the mean; a variance,
/// with its root for the deviation.
#[derive(Debug, Clone, Copy, PartialEq, Eq, Structural)]
pub enum RollingKernel {
    Sum { mean: bool },
    Var { ddof: u32, root: bool },
}

/// The outcome of checking a rolling request.
pub open spec fn rolling_outcome(in_n: nat, out_ptr: int, out_n: nat, page: int) -> Result<
    RollingDispatch,
    Fault,
> {
    if in_n != out_n {
        Err(Fault::Value("polars_metal: rolling input/output length mismatch"@))
    } else if in_n == 0 {
        Ok(RollingDispatch::Nothing)
    } else if in_n > u32::MAX {
        Err(Fault::Value("polars_metal: rolling column exceeds u32::MAX rows"@))
    } else {
        Ok(RollingDispatch::Run { n: in_n as u32, copy_back: !aligned(out_ptr, page) })
    }
}

/// Checks a rolling request: `in_n` values in, and the address and number of
/// values of the output column.
pub fn execute_rolling(in_n: usize, out: (usize, usize), page: usize) -> (r: Result<
    RollingDispatch,
    Failure,
>)
    requires
        is_pow2(page as int),
    ensures
        match r {
            Ok(d) => rolling_outcome(in_n as nat, out.0 as int, out.1 as nat, page as int) == Ok::<
                RollingDispatch,
                Fault,
            >(d),
            Err(e) => rolling_outcome(in_n as nat, out.0 as int, out.1 as nat, page as int)
                == Err::<RollingDispatch, Fault>(e@),
        },
{
    let (out_ptr, out_n): (usize, usize) = out;
    if in_n != out_n {
        return Err(
            Failure::Value("polars_metal: rolling input/output length mismatch".to_owned()),
        );
    }
    if in_n == 0 {
        return Ok(RollingDispatch::Nothing);
    }
    if in_n as u128 > u32::MAX as u128 {
        return Err(
            Failure::Value("polars_metal: rolling column exceeds u32::MAX rows".to_owned()),
        );
    }
    Ok(
        RollingDispatch::Run { n: in_n as u32, copy_back: !alignment::is_aligned(out_ptr, page) },
    )
}

/// The kernel that an operation selects.
pub open spec fn rolling_selected(op: u32, ddof: u32) -> Option<RollingKernel> {
    if op == 0 {
        Some(RollingKernel::Sum { mean: false })
    } else if op == 1 {
        Some(RollingKernel::Sum { mean: true })
    } else if op == 2 {
        Some(RollingKernel::Var { ddof, root: false })
    } else if op == 3 {
        Some(RollingKernel::Var { ddof, root: true })
    } else {
        None
    }
}

/// Selects the kernel of an operation: sum, mean, variance or deviation.
pub fn rolling_kernel(op: u32, ddof: u32) -> (r: Result<RollingKernel, Failure>)
    ensures
        match r {
            Ok(k) => rolling_selected(op, ddof) == Some(k),
            Err(e) => rolling_selected(op, ddof) is None && e@ == Fault::Value(
                "polars_metal: unknown rolling op "@ + decimal(op as nat),
            ),
        },
        r matches Ok(RollingKernel::Var { ddof: d, root }) ==> d == ddof && root == (op == 3),
        r matches Ok(RollingKernel::Sum { mean }) ==> mean == (op == 1),
        r matches Ok(k) ==> (k is Sum <==> op < 2),
{
    match op {
        0 => Ok(RollingKernel::Sum { mean: false }),
        1 => Ok(RollingKernel::Sum { mean: true }),
        2 => Ok(RollingKernel::Var { ddof, root: false }),
        3 => Ok(RollingKernel::Var { ddof, root: true }),
        _ => {
            let mut message: String = "polars_metal: unknown rolling op ".to_owned();
            text::push_decimal(&mut message, op as u128);
            Err(Failure::Value(message))
        },
    }
}

/// The four operations are four different kernels: the sum and, with a
/// division, the mean; the variance and, with a root, the deviation, both with
/// the given degrees of freedom. Only the deviation takes the root, only the
/// mean divides, and there is no fifth.
pub proof fn rolling_operations_are_told_apart(op: u32, other: u32, ddof: u32)
    ensures
        rolling_selected(op, ddof) is Some <==> op < 4,
        rolling_selected(op, ddof) is Some && rolling_selected(op, ddof) == rolling_selected(
            other,
            ddof,
        ) ==> op == other,
        rolling_selected(op, ddof) matches Some(RollingKernel::Var { ddof: d, root }) ==> d == ddof
            && (root <==> op == 3),
        rolling_selected(op, ddof) matches Some(RollingKernel::Sum { mean }) ==> (mean <==> op
            == 1),
        rolling_selected(op, ddof) matches Some(RollingKernel::Sum { mean }) <==> op == 0 || op
            == 1,
{
}

/// A rolling request runs over all the rows of both columns, which must be
/// equally many; its result is copied back unless the output lies on a page.
pub proof fn rolling_runs_over_every_row(in_n: nat, out_ptr: int, out_n: nat, page: int)
    ensures
        rolling_outcome(in_n, out_ptr, out_n, page) is Ok <==> in_n == out_n && in_n < 0x1_0000_0000,
        rolling_outcome(in_n, out_ptr, out_n, page) matches Ok(RollingDispatch::Run {
            n,
            copy_back,
        }) ==> n == in_n && n == out_n && n > 0 && copy_back == (out_ptr % page != 0),
        rolling_outcome(in_n, out_ptr, out_n, page) == Ok::<RollingDispatch, Fault>(
            RollingDispatch::Nothing,
        ) <==> in_n == 0 && out_n == 0,
{
}

} // verus!
