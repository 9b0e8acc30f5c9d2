//! Calendar-field extraction over a column of days since 1970: the checks
//! before the kernel is run and how its buffers are staged.

use vstd::arithmetic::power2::is_pow2;
use vstd::prelude::*;

use crate::alignment;
use crate::alignment::aligned;
use crate::error::{Failure, Fault};
use crate::text;
use crate::text::decimal;

verus! {

/// The calendar fields.
#[derive(Debug, Clone, Copy, PartialEq, Eq, Structural)]
pub enum DtField {
    Year,
    Month,
    Day,
}

/// What an extraction comes to. An input that is not page-aligned goes through
/// the staging pool; a result that is not page-aligned is copied back.
#[derive(Debug, Clone, Copy, PartialEq, Eq, Structural)]
pub enum DtDispatch {
    Nothing,
    Run { n: u32, field: DtField, stage_input: bool, copy_back: bool },
}

/// The field that a selector names.
pub open spec fn field_selected(field: u32) -> Option<DtField> {
    if field == 0 {
        Some(DtField::Year)
    } else if field == 1 {
        Some(DtField::Month)
    } else if field == 2 {
        Some(DtField::Day)
    } else {
        None
    }
}

/// The outcome of an extraction request: lengths are looked at before the
/// field, and an empty column asks for nothing, whatever the field.
pub open spec fn dt_outcome(
    in_ptr: int,
    in_n: nat,
    out_ptr: int,
    out_n: nat,
    field: u32,
    page: int,
) -> Result<DtDispatch, Fault> {
    if in_n != out_n {
        Err(Fault::Value("polars_metal: dt input/output length mismatch"@))
    } else if in_n == 0 {
        Ok(DtDispatch::Nothing)
    } else if in_n > u32::MAX {
        Err(Fault::Value("polars_metal: dt column exceeds u32::MAX rows"@))
    } else {
        match field_selected(field) {
            None => Err(
                Fault::Value("polars_metal: unknown dt field "@ + decimal(field as nat)),
            ),
            Some(f) => Ok(
                DtDispatch::Run {
                    n: in_n as u32,
                    field: f,
                    stage_input: !aligned(in_ptr, page),
                    copy_back: !aligned(out_ptr, page),
                },
            ),
        }
    }
}

/// Checks an extraction request. `inp` and `out` are the address and the
/// number of values of the input and output columns.
pub fn execute_dt(inp: (usize, usize), out: (usize, usize), field: u32, page: usize) -> (r: Result<
    DtDispatch,
    Failure,
>)
    requires
        is_pow2(page as int),
    ensures
        match r {
            Ok(d) => dt_outcome(
                inp.0 as int,
                inp.1 as nat,
                out.0 as int,
                out.1 as nat,
                field,
                page as int,
            ) == Ok::<DtDispatch, Fault>(d),
            Err(e) => dt_outcome(
                inp.0 as int,
                inp.1 as nat,
                out.0 as int,
                out.1 as nat,
                field,
                page as int,
            ) == Err::<DtDispatch, Fault>(e@),
        },
{
    let (in_ptr, in_n): (usize, usize) = inp;
    let (out_ptr, out_n): (usize, usize) = out;
    if in_n != out_n {
        return Err(
            Failure::Value("polars_metal: dt input/output length mismatch".to_owned()),
        );
    }
    if in_n == 0 {
        return Ok(DtDispatch::Nothing);
    }
    if in_n as u128 > u32::MAX as u128 {
        return Err(
            Failure::Value("polars_metal: dt column exceeds u32::MAX rows".to_owned()),
        );
    }
    let chosen: DtField = match field {
        0 => DtField::Year,
        1 => DtField::Month,
        2 => DtField::Day,
        _ => {
            let mut message: String = "polars_metal: unknown dt field ".to_owned();
            text::push_decimal(&mut message, field as u128);
            return Err(Failure::Value(message));
        },
    };
    Ok(
        DtDispatch::Run {
            n: in_n as u32,
            field: chosen,
            stage_input: !alignment::is_aligned(in_ptr, page),
            copy_back: !alignment::is_aligned(out_ptr, page),
        },
    )
}

/// The three fields have the selectors zero, one and two, and no others.
pub proof fn fields_are_told_apart(field: u32)
    ensures
        field_selected(field) == Some(DtField::Year) <==> field == 0,
        field_selected(field) == Some(DtField::Month) <==> field == 1,
        field_selected(field) == Some(DtField::Day) <==> field == 2,
{
}

/// An extraction runs over all the rows of both columns, which must be equally
/// many, for the field asked for. The input is staged unless it lies on a page,
/// the result copied back unless the output does.
pub proof fn extraction_runs_over_every_row(
    in_ptr: int,
    in_n: nat,
    out_ptr: int,
    out_n: nat,
    field: u32,
    page: int,
)
    ensures
        dt_outcome(in_ptr, in_n, out_ptr, out_n, field, page) is Ok <==> in_n == out_n && (in_n == 0
            || (in_n < 0x1_0000_0000 && field < 3)),
        dt_outcome(in_ptr, in_n, out_ptr, out_n, field, page) matches Ok(DtDispatch::Run {
            n,
            field: f,
            stage_input,
            copy_back,
        }) ==> n == in_n && n == out_n && n > 0 && field_selected(field) == Some(f) && stage_input
            == (in_ptr % page != 0) && copy_back == (out_ptr % page != 0),
        dt_outcome(in_ptr, in_n, out_ptr, out_n, field, page) == Ok::<DtDispatch, Fault>(
            DtDispatch::Nothing,
        ) <==> in_n == 0 && out_n == 0,
{
}

} // verus!
