//! Aggregation inputs of a group-by: the value columns, the choice between the
//! fused kernel and one kernel per aggregation, and the requests of each.

use vstd::prelude::*;

use crate::error::{Failure, Fault};
use crate::plan::{AggOp, MetalDtype};
use crate::text;
use crate::text::{decimal, first_seen, quoted, views};
use crate::udf::common::{find_column, named, wide_product, Column};
use crate::udf::groupby_plan::ParsedAgg;

verus! {

/// The value type that a wire tag names for the aggregation kernels. Text is
/// never a value column, and dates are not read as integers here.
pub open spec fn kernel_dtype_tagged(tag: Seq<char>) -> Option<MetalDtype> {
    if tag == "I64"@ {
        Some(MetalDtype::I64)
    } else if tag == "F64"@ {
        Some(MetalDtype::F64)
    } else if tag == "Bool"@ {
        Some(MetalDtype::Bool)
    } else if tag == "I32"@ {
        Some(MetalDtype::I32)
    } else if tag == "F32"@ {
        Some(MetalDtype::F32)
    } else if tag == "I8"@ {
        Some(MetalDtype::I8)
    } else if tag == "I16"@ {
        Some(MetalDtype::I16)
    } else if tag == "U8"@ {
        Some(MetalDtype::U8)
    } else if tag == "U16"@ {
        Some(MetalDtype::U16)
    } else if tag == "U32"@ {
        Some(MetalDtype::U32)
    } else {
        None
    }
}

/// The value type that a wire tag names.
pub fn wire_dtype_tag_to_kernel(tag: &str) -> (r: Option<MetalDtype>)
    ensures
        r == kernel_dtype_tagged(tag@),
{
    if text::same(tag, "I64") {
        Some(MetalDtype::I64)
    } else if text::same(tag, "F64") {
        Some(MetalDtype::F64)
    } else if text::same(tag, "Bool") {
        Some(MetalDtype::Bool)
    } else if text::same(tag, "I32") {
        Some(MetalDtype::I32)
    } else if text::same(tag, "F32") {
        Some(MetalDtype::F32)
    } else if text::same(tag, "I8") {
        Some(MetalDtype::I8)
    } else if text::same(tag, "I16") {
        Some(MetalDtype::I16)
    } else if text::same(tag, "U8") {
        Some(MetalDtype::U8)
    } else if text::same(tag, "U16") {
        Some(MetalDtype::U16)
    } else if text::same(tag, "U32") {
        Some(MetalDtype::U32)
    } else {
        None
    }
}

/// The columns read by the first `n` aggregations, in order, with repeats.
pub open spec fn all_inputs(aggs: Seq<ParsedAgg>, n: int) -> Seq<Seq<char>>
    decreases n,
{
    if n <= 0 {
        Seq::empty()
    } else {
        all_inputs(aggs, n - 1) + aggs[n - 1].inputs()
    }
}

/// The failure for an aggregation input that is not among the columns.
pub open spec fn missing_input(name: Seq<char>) -> Fault {
    Fault::Key(
        "polars_metal: agg input column "@ + quoted(name) + " not found in upstream columns"@,
    )
}

/// The columns that the first `n` names stand for, or the first that is
/// missing.
pub open spec fn inputs_found<'a>(cols: Seq<Column<'a>>, names: Seq<Seq<char>>, n: int) -> Result<
    Seq<Column<'a>>,
    Fault,
>
    decreases n,
{
    if n <= 0 {
        Ok(Seq::empty())
    } else {
        match inputs_found(cols, names, n - 1) {
            Err(e) => Err(e),
            Ok(front) => match named(cols, names[n - 1]) {
                None => Err(missing_input(names[n - 1])),
                Some(c) => Ok(front.push(c)),
            },
        }
    }
}

proof fn lemma_missing_kept(cols: Seq<Column>, names: Seq<Seq<char>>, n: int, m: int)
    requires
        0 <= n <= m,
        inputs_found(cols, names, n) is Err,
    ensures
        inputs_found(cols, names, m) == inputs_found(cols, names, n),
    decreases m,
{
    if n < m {
        lemma_missing_kept(cols, names, n, m - 1);
    }
}

/// The distinct inputs of the aggregations, in the order in which they are
/// first read.
pub fn distinct_inputs(aggs: &Vec<ParsedAgg>) -> (r: Vec<String>)
    ensures
        views(r@) == first_seen(all_inputs(aggs@, aggs@.len() as int)),
{
    let mut out: Vec<String> = Vec::new();
    let mut i: usize = 0;
    assert(views(out@) =~= first_seen(all_inputs(aggs@, 0)));
    while i < aggs.len()
        invariant
            i <= aggs@.len(),
            views(out@) == first_seen(all_inputs(aggs@, i as int)),
        decreases aggs@.len() - i,
    {
        let names: Vec<String> = aggs[i].input_columns();
        let ghost before = all_inputs(aggs@, i as int);
        let ghost own = aggs@[i as int].inputs();
        let mut j: usize = 0;
        assert(before + own.take(0) =~= before);
        while j < names.len()
            invariant
                j <= names@.len(),
                views(names@) == own,
                views(out@) == first_seen(before + own.take(j as int)),
            decreases names@.len() - j,
        {
            let ghost prior = views(out@);
            proof {
                let grown = before + own.take(j + 1);
                assert(grown.drop_last() =~= before + own.take(j as int));
                assert(grown.last() == own[j as int]);
                assert(own[j as int] == names@[j as int]@);
            }
            if !text::any_same(&out, names[j].as_str()) {
                out.push(names[j].clone());
                assert(views(out@) =~= prior.push(names@[j as int]@));
            }
            j = j + 1;
        }
        assert(own.take(j as int) =~= own);
        i = i + 1;
    }
    out
}

/// The value columns of a group-by: a column for every distinct input, in the
/// order in which the inputs are first read.
pub open spec fn value_columns_of<'a>(cols: Seq<Column<'a>>, aggs: Seq<ParsedAgg>) -> Result<
    Seq<Column<'a>>,
    Fault,
> {
    let names = first_seen(all_inputs(aggs, aggs.len() as int));
    inputs_found(cols, names, names.len() as int)
}

/// Finds the value columns of a group-by.
pub fn find_value_columns<'c, 'a>(cols: &'c Vec<Column<'a>>, aggs: &Vec<ParsedAgg>) -> (r: Result<
    Vec<&'c Column<'a>>,
    Failure,
>)
    ensures
        match r {
            Ok(v) => value_columns_of(cols@, aggs@) == Ok::<Seq<Column<'a>>, Fault>(
                v@.map_values(|c: &'c Column<'a>| *c),
            ),
            Err(e) => value_columns_of(cols@, aggs@) == Err::<Seq<Column<'a>>, Fault>(e@),
        },
{
    let names: Vec<String> = distinct_inputs(aggs);
    let ghost wanted = first_seen(all_inputs(aggs@, aggs@.len() as int));
    let mut out: Vec<&'c Column<'a>> = Vec::new();
    let mut i: usize = 0;
    assert(out@.map_values(|c: &'c Column<'a>| *c) =~= Seq::<Column<'a>>::empty());
    while i < names.len()
        invariant
            i <= names@.len(),
            views(names@) == wanted,
            wanted == first_seen(all_inputs(aggs@, aggs@.len() as int)),
            inputs_found(cols@, wanted, i as int) == Ok::<Seq<Column<'a>>, Fault>(
                out@.map_values(|c: &'c Column<'a>| *c),
            ),
        decreases names@.len() - i,
    {
        assert(wanted[i as int] == names@[i as int]@);
        match find_column(cols, names[i].as_str()) {
            Some(c) => {
                let ghost before = out@.map_values(|c: &'c Column<'a>| *c);
                out.push(c);
                assert(out@.map_values(|c: &'c Column<'a>| *c) =~= before.push(*c));
            },
            None => {
                proof {
                    lemma_missing_kept(cols@, wanted, i + 1, wanted.len() as int);
                }
                let mut message: String = "polars_metal: agg input column ".to_owned();
                text::push_quoted(&mut message, names[i].as_str());
                message.append(" not found in upstream columns");
                return Err(Failure::Key(message));
            },
        }
        i = i + 1;
    }
    Ok(out)
}

/// Which way a group-by is executed.
#[derive(Debug, Clone, Copy, PartialEq, Eq, Structural)]
pub enum GroupByDispatchChoice {
    Fused,
    PerAgg,
}

/// Some aggregation is over an inline expression.
pub open spec fn has_expression(aggs: Seq<ParsedAgg>) -> bool {
    exists|i: int| 0 <= i < aggs.len() && #[trigger] aggs[i] is Expression
}

/// The value type of the column that a name stands for, if there is one.
pub open spec fn input_dtype(cols: Seq<Column>, name: Seq<char>) -> Option<MetalDtype> {
    match named(cols, name) {
        None => None,
        Some(c) => kernel_dtype_tagged(c.tag@),
    }
}

/// Every input of the aggregation is present with a value type.
pub open spec fn typed(cols: Seq<Column>, agg: ParsedAgg) -> bool {
    forall|k: int|
        0 <= k < agg.inputs().len() ==> input_dtype(cols, #[trigger] agg.inputs()[k]) is Some
}

/// The type is 64 bits wide, which the fused kernel does not aggregate.
pub open spec fn is_wide(d: Option<MetalDtype>) -> bool {
    d == Some(MetalDtype::F64) || d == Some(MetalDtype::I64)
}

/// Every input of the aggregation is present with a value type of at most 32
/// bits.
pub open spec fn fusable(cols: Seq<Column>, agg: ParsedAgg) -> bool {
    &&& typed(cols, agg)
    &&& forall|k: int|
        0 <= k < agg.inputs().len() ==> !is_wide(input_dtype(cols, #[trigger] agg.inputs()[k]))
}

/// The fused kernel takes a group-by with an inline expression, which no other
/// kernel computes, whatever the width of its inputs; and one of two or more
/// aggregations whose inputs have at most 32 bits. An input that is missing or
/// has no value type keeps a group-by away from it.
pub open spec fn takes_fused(cols: Seq<Column>, aggs: Seq<ParsedAgg>) -> bool {
    &&& forall|i: int| 0 <= i < aggs.len() ==> typed(cols, #[trigger] aggs[i])
    &&& has_expression(aggs) || (aggs.len() >= 2 && forall|i: int|
        0 <= i < aggs.len() ==> fusable(cols, #[trigger] aggs[i]))
}

/// Whether some aggregation is over an inline expression.
pub fn any_expression(aggs: &Vec<ParsedAgg>) -> (r: bool)
    ensures
        r == has_expression(aggs@),
{
    let mut i: usize = 0;
    while i < aggs.len()
        invariant
            i <= aggs@.len(),
            forall|j: int| 0 <= j < i ==> !(#[trigger] aggs@[j] is Expression),
        decreases aggs@.len() - i,
    {
        if aggs[i].is_expression() {
            assert(aggs@[i as int] is Expression);
            return true;
        }
        i = i + 1;
    }
    false
}

/// How an aggregation's inputs stand to the fused kernel.
#[derive(Clone, Copy, PartialEq, Eq, Structural)]
enum InputWidth {
    /// Some input is missing or has no value type.
    Untyped,
    /// Some input is 64 bits wide.
    Wide,
    Narrow,
}

fn input_width(cols: &Vec<Column>, agg: &ParsedAgg) -> (r: InputWidth)
    ensures
        (r == InputWidth::Untyped) == !typed(cols@, *agg),
        (r == InputWidth::Narrow) == fusable(cols@, *agg),
{
    let names: Vec<String> = agg.input_columns();
    let mut wide: bool = false;
    let mut i: usize = 0;
    while i < names.len()
        invariant
            i <= names@.len(),
            views(names@) == agg.inputs(),
            forall|k: int| 0 <= k < i ==> input_dtype(cols@, #[trigger] agg.inputs()[k]) is Some,
            wide == exists|k: int|
                0 <= k < i && is_wide(input_dtype(cols@, #[trigger] agg.inputs()[k])),
        decreases names@.len() - i,
    {
        assert(agg.inputs()[i as int] == names@[i as int]@);
        let found: Option<MetalDtype> = match find_column(cols, names[i].as_str()) {
            None => None,
            Some(c) => wire_dtype_tag_to_kernel(c.tag.as_str()),
        };
        assert(found == input_dtype(cols@, agg.inputs()[i as int]));
        match found {
            None => return InputWidth::Untyped,
            Some(d) => {
                if d == MetalDtype::F64 || d == MetalDtype::I64 {
                    wide = true;
                }
            },
        }
        i = i + 1;
    }
    if wide {
        InputWidth::Wide
    } else {
        InputWidth::Narrow
    }
}

/// Chooses between the fused kernel and one kernel per aggregation.
pub fn decide_groupby_dispatch(aggs: &Vec<ParsedAgg>, cols: &Vec<Column>) -> (r:
    GroupByDispatchChoice)
    ensures
        r == (if takes_fused(cols@, aggs@) {
            GroupByDispatchChoice::Fused
        } else {
            GroupByDispatchChoice::PerAgg
        }),
{
    let mut narrow: bool = true;
    let mut i: usize = 0;
    while i < aggs.len()
        invariant
            i <= aggs@.len(),
            forall|j: int| 0 <= j < i ==> typed(cols@, #[trigger] aggs@[j]),
            narrow == forall|j: int| 0 <= j < i ==> fusable(cols@, #[trigger] aggs@[j]),
        decreases aggs@.len() - i,
    {
        match input_width(cols, &aggs[i]) {
            InputWidth::Untyped => {
                assert(!typed(cols@, aggs@[i as int]));
                return GroupByDispatchChoice::PerAgg;
            },
            InputWidth::Wide => {
                assert(!fusable(cols@, aggs@[i as int]));
                narrow = false;
            },
            InputWidth::Narrow => {},
        }
        i = i + 1;
    }
    if any_expression(aggs) || (aggs.len() >= 2 && narrow) {
        GroupByDispatchChoice::Fused
    } else {
        GroupByDispatchChoice::PerAgg
    }
}

/// A value column as a kernel takes it: the bytes of exactly as many values as
/// there are rows, and the validity bitmap.
#[derive(Debug)]
pub enum ValueColumn<'a> {
    I64 { data: &'a [u8], valid: &'a [u8] },
    F64 { data: &'a [u8], valid: &'a [u8] },
    I32 { data: &'a [u8], valid: &'a [u8] },
    F32 { data: &'a [u8], valid: &'a [u8] },
}

/// The value types that the kernels aggregate.
#[derive(Debug, Clone, Copy, PartialEq, Eq, Structural)]
pub enum ValueDtype {
    I64,
    F64,
    I32,
    F32,
}

impl ValueDtype {
    /// Bytes per value.
    pub open spec fn width(self) -> nat {
        match self {
            ValueDtype::I64 | ValueDtype::F64 => 8,
            ValueDtype::I32 | ValueDtype::F32 => 4,
        }
    }

    fn bytes_per_value(self) -> (r: usize)
        ensures
            r == self.width(),
    {
        match self {
            ValueDtype::I64 | ValueDtype::F64 => 8,
            ValueDtype::I32 | ValueDtype::F32 => 4,
        }
    }
}

impl<'a> ValueColumn<'a> {
    pub open spec fn dtype(self) -> ValueDtype {
        match self {
            ValueColumn::I64 { data, valid } => ValueDtype::I64,
            ValueColumn::F64 { data, valid } => ValueDtype::F64,
            ValueColumn::I32 { data, valid } => ValueDtype::I32,
            ValueColumn::F32 { data, valid } => ValueDtype::F32,
        }
    }

    pub open spec fn value_bytes(self) -> Seq<u8> {
        match self {
            ValueColumn::I64 { data, valid } => data@,
            ValueColumn::F64 { data, valid } => data@,
            ValueColumn::I32 { data, valid } => data@,
            ValueColumn::F32 { data, valid } => data@,
        }
    }

    pub open spec fn validity(self) -> Seq<u8> {
        match self {
            ValueColumn::I64 { data, valid } => valid@,
            ValueColumn::F64 { data, valid } => valid@,
            ValueColumn::I32 { data, valid } => valid@,
            ValueColumn::F32 { data, valid } => valid@,
        }
    }

    /// This is the column of the given type over the first `rows` values of a
    /// buffer.
    pub open spec fn views(self, dtype: ValueDtype, data: Seq<u8>, valid: Seq<u8>, rows: nat) -> bool {
        &&& self.dtype() == dtype
        &&& self.value_bytes() == data.take((rows * dtype.width()) as int)
        &&& self.validity() == valid
    }
}

/// The first `n_rows` values of a buffer that is long enough.
fn typed_column<'a>(dtype: ValueDtype, data: &'a [u8], valid: &'a [u8], n_rows: usize) -> (r:
    ValueColumn<'a>)
    requires
        n_rows * dtype.width() <= data@.len(),
    ensures
        r.views(dtype, data@, valid@, n_rows as nat),
{
    let width: usize = dtype.bytes_per_value();
    assert(n_rows * width <= data.len());
    let head: &'a [u8] = vstd::slice::slice_subrange(data, 0, n_rows * width);
    assert(head@ =~= data@.take((n_rows * dtype.width()) as int));
    match dtype {
        ValueDtype::I64 => ValueColumn::I64 { data: head, valid },
        ValueDtype::F64 => ValueColumn::F64 { data: head, valid },
        ValueDtype::I32 => ValueColumn::I32 { data: head, valid },
        ValueDtype::F32 => ValueColumn::F32 { data: head, valid },
    }
}

/// What the fused kernel makes of a value column: a typed column, or the text
/// of a complaint.
pub open spec fn fused_column_complaint(tag: Seq<char>, data_len: nat, rows: nat) -> Option<
    Seq<char>,
> {
    if tag == "I32"@ || tag == "F32"@ {
        if data_len < rows * 4 {
            Some(
                tag + " data buffer too short: "@ + decimal(data_len) + " < "@ + decimal(rows * 4),
            )
        } else {
            None
        }
    } else {
        Some(
            "dtype "@ + tag + " not supported by fused groupby (only I32/F32 currently)"@,
        )
    }
}

/// Builds a value column for the fused kernel, which takes 32-bit values only.
pub fn build_value_column<'a>(
    dtype_tag: &str,
    data: &'a [u8],
    valid: &'a [u8],
    n_rows: usize,
) -> (r: Result<ValueColumn<'a>, String>)
    ensures
        match r {
            Ok(c) => fused_column_complaint(dtype_tag@, data@.len(), n_rows as nat) is None
                && c.views(
                if dtype_tag@ == "I32"@ {
                    ValueDtype::I32
                } else {
                    ValueDtype::F32
                },
                data@,
                valid@,
                n_rows as nat,
            ),
            Err(e) => fused_column_complaint(dtype_tag@, data@.len(), n_rows as nat) == Some(e@),
        },
{
    let integral: bool = text::same(dtype_tag, "I32");
    if integral || text::same(dtype_tag, "F32") {
        let expected: u128 = wide_product(n_rows, 4);
        if (data.len() as u128) < expected {
            let mut out: String = dtype_tag.to_owned();
            out.append(" data buffer too short: ");
            text::push_decimal(&mut out, data.len() as u128);
            out.append(" < ");
            text::push_decimal(&mut out, expected);
            return Err(out);
        }
        Ok(
            typed_column(
                if integral {
                    ValueDtype::I32
                } else {
                    ValueDtype::F32
                },
                data,
                valid,
                n_rows,
            ),
        )
    } else {
        let mut out: String = "dtype ".to_owned();
        out.append(dtype_tag);
        out.append(" not supported by fused groupby (only I32/F32 currently)");
        Err(out)
    }
}

/// Aggregation kernels. The operators other than counting carry the value
/// type in their name.
#[derive(Debug, Clone, Copy, PartialEq, Eq, Structural)]
pub enum AggKind {
    Len,
    Count,
    SumI64,
    MeanI64,
    MinI64,
    MaxI64,
    SumF64,
    MeanF64,
    MinF64,
    MaxF64,
    SumI32,
    MeanI32,
    MinI32,
    MaxI32,
    SumF32,
    MeanF32,
    MinF32,
    MaxF32,
}

/// The value type that a tag names for one kernel per aggregation.
pub open spec fn value_dtype_tagged(tag: Seq<char>) -> Option<ValueDtype> {
    if tag == "I64"@ {
        Some(ValueDtype::I64)
    } else if tag == "F64"@ {
        Some(ValueDtype::F64)
    } else if tag == "I32"@ {
        Some(ValueDtype::I32)
    } else if tag == "F32"@ {
        Some(ValueDtype::F32)
    } else {
        None
    }
}

fn value_dtype_from_tag(tag: &str) -> (r: Option<ValueDtype>)
    ensures
        r == value_dtype_tagged(tag@),
{
    if text::same(tag, "I64") {
        Some(ValueDtype::I64)
    } else if text::same(tag, "F64") {
        Some(ValueDtype::F64)
    } else if text::same(tag, "I32") {
        Some(ValueDtype::I32)
    } else if text::same(tag, "F32") {
        Some(ValueDtype::F32)
    } else {
        None
    }
}

/// The kernel for an operator on a value type; the row count is not a kernel
/// over values.
pub open spec fn agg_kind(op: AggOp, dtype: ValueDtype) -> Option<AggKind> {
    match (op, dtype) {
        (AggOp::Len, _) => None,
        (AggOp::Count, _) => Some(AggKind::Count),
        (AggOp::Sum, ValueDtype::I64) => Some(AggKind::SumI64),
        (AggOp::Mean, ValueDtype::I64) => Some(AggKind::MeanI64),
        (AggOp::Min, ValueDtype::I64) => Some(AggKind::MinI64),
        (AggOp::Max, ValueDtype::I64) => Some(AggKind::MaxI64),
        (AggOp::Sum, ValueDtype::F64) => Some(AggKind::SumF64),
        (AggOp::Mean, ValueDtype::F64) => Some(AggKind::MeanF64),
        (AggOp::Min, ValueDtype::F64) => Some(AggKind::MinF64),
        (AggOp::Max, ValueDtype::F64) => Some(AggKind::MaxF64),
        (AggOp::Sum, ValueDtype::I32) => Some(AggKind::SumI32),
        (AggOp::Mean, ValueDtype::I32) => Some(AggKind::MeanI32),
        (AggOp::Min, ValueDtype::I32) => Some(AggKind::MinI32),
        (AggOp::Max, ValueDtype::I32) => Some(AggKind::MaxI32),
        (AggOp::Sum, ValueDtype::F32) => Some(AggKind::SumF32),
        (AggOp::Mean, ValueDtype::F32) => Some(AggKind::MeanF32),
        (AggOp::Min, ValueDtype::F32) => Some(AggKind::MinF32),
        (AggOp::Max, ValueDtype::F32) => Some(AggKind::MaxF32),
    }
}

fn agg_kind_of(op: AggOp, dtype: ValueDtype) -> (r: Option<AggKind>)
    ensures
        r == agg_kind(op, dtype),
{
    match (op, dtype) {
        (AggOp::Len, _) => None,
        (AggOp::Count, _) => Some(AggKind::Count),
        (AggOp::Sum, ValueDtype::I64) => Some(AggKind::SumI64),
        (AggOp::Mean, ValueDtype::I64) => Some(AggKind::MeanI64),
        (AggOp::Min, ValueDtype::I64) => Some(AggKind::MinI64),
        (AggOp::Max, ValueDtype::I64) => Some(AggKind::MaxI64),
        (AggOp::Sum, ValueDtype::F64) => Some(AggKind::SumF64),
        (AggOp::Mean, ValueDtype::F64) => Some(AggKind::MeanF64),
        (AggOp::Min, ValueDtype::F64) => Some(AggKind::MinF64),
        (AggOp::Max, ValueDtype::F64) => Some(AggKind::MaxF64),
        (AggOp::Sum, ValueDtype::I32) => Some(AggKind::SumI32),
        (AggOp::Mean, ValueDtype::I32) => Some(AggKind::MeanI32),
        (AggOp::Min, ValueDtype::I32) => Some(AggKind::MinI32),
        (AggOp::Max, ValueDtype::I32) => Some(AggKind::MaxI32),
        (AggOp::Sum, ValueDtype::F32) => Some(AggKind::SumF32),
        (AggOp::Mean, ValueDtype::F32) => Some(AggKind::MeanF32),
        (AggOp::Min, ValueDtype::F32) => Some(AggKind::MinF32),
        (AggOp::Max, ValueDtype::F32) => Some(AggKind::MaxF32),
    }
}

/// The kernel for an operator on the values that a tag names.
pub open spec fn tagged_agg_kind(op: AggOp, tag: Seq<char>) -> Option<AggKind> {
    match value_dtype_tagged(tag) {
        None => None,
        Some(d) => agg_kind(op, d),
    }
}

/// The failure for an operator and type without a kernel.
pub open spec fn unsupported_agg(op: AggOp, tag: Seq<char>) -> Fault {
    Fault::Value(
        "polars_metal: unsupported (agg_op, dtype) combination: "@ + op.tag() + " / "@ + tag,
    )
}

/// The failure for a value buffer that is too short.
pub open spec fn short_values(tag: Seq<char>, got: nat, expected: nat) -> Fault {
    Fault::Value(
        "polars_metal: "@ + tag + " value buffer too short: "@ + decimal(got) + " < "@ + decimal(
            expected,
        ),
    )
}

/// Maps an operator and a type tag to the kernel.
pub fn agg_kind_for(op: AggOp, dtype_tag: &str) -> (r: Result<AggKind, Failure>)
    ensures
        match r {
            Ok(k) => tagged_agg_kind(op, dtype_tag@) == Some(k),
            Err(e) => tagged_agg_kind(op, dtype_tag@) is None && e@ == unsupported_agg(
                op,
                dtype_tag@,
            ),
        },
{
    let found: Option<AggKind> = match value_dtype_from_tag(dtype_tag) {
        None => None,
        Some(d) => agg_kind_of(op, d),
    };
    match found {
        Some(k) => Ok(k),
        None => {
            let mut out: String = "polars_metal: unsupported (agg_op, dtype) combination: ".to_owned();
            out.append(op.name());
            out.append(" / ");
            out.append(dtype_tag);
            Err(Failure::Value(out))
        },
    }
}

/// Why an aggregation over a value column is refused.
pub open spec fn agg_fault(op: AggOp, tag: Seq<char>, data_len: nat, rows: nat) -> Option<Fault> {
    match value_dtype_tagged(tag) {
        None => Some(unsupported_agg(op, tag)),
        Some(d) => match agg_kind(op, d) {
            None => Some(unsupported_agg(op, tag)),
            Some(_) => if data_len < rows * d.width() {
                Some(short_values(tag, data_len, rows * d.width()))
            } else {
                None
            },
        },
    }
}

/// Builds the kernel and the value column of one aggregation.
pub fn build_agg_kind_and_vcol<'a>(
    op: AggOp,
    dtype_tag: &str,
    data: &'a [u8],
    valid: &'a [u8],
    n_rows: usize,
) -> (r: Result<(AggKind, ValueColumn<'a>), Failure>)
    ensures
        match r {
            Ok((k, c)) => {
                &&& agg_fault(op, dtype_tag@, data@.len(), n_rows as nat) is None
                &&& value_dtype_tagged(dtype_tag@) matches Some(d) && agg_kind(op, d) == Some(k)
                    && c.views(d, data@, valid@, n_rows as nat)
            },
            Err(e) => agg_fault(op, dtype_tag@, data@.len(), n_rows as nat) == Some(e@),
        },
{
    let kind: AggKind = match agg_kind_for(op, dtype_tag) {
        Ok(k) => k,
        Err(e) => return Err(e),
    };
    match value_dtype_from_tag(dtype_tag) {
        Some(d) => {
            let expected: u128 = wide_product(n_rows, d.bytes_per_value());
            if (data.len() as u128) < expected {
                let mut out: String = "polars_metal: ".to_owned();
                out.append(dtype_tag);
                out.append(" value buffer too short: ");
                text::push_decimal(&mut out, data.len() as u128);
                out.append(" < ");
                text::push_decimal(&mut out, expected);
                return Err(Failure::Value(out));
            }
            Ok((kind, typed_column(d, data, valid, n_rows)))
        },
        None => {
            let mut out: String = "polars_metal: unsupported value dtype: ".to_owned();
            out.append(dtype_tag);
            Err(Failure::Value(out))
        },
    }
}

/// A request to the dispatcher: the kernel, and the position of its
/// aggregation.
#[derive(Debug, Clone, Copy, PartialEq, Eq, Structural)]
pub struct AggRequest {
    pub kind: AggKind,
    pub input_col_idx: usize,
}

/// Why the request for an aggregation is refused.
pub open spec fn request_fault(cols: Seq<Column>, agg: ParsedAgg, rows: nat) -> Option<Fault> {
    match agg {
        ParsedAgg::Length { output_alias } => None,
        ParsedAgg::Simple { input_col, op, output_alias } => match named(cols, input_col@) {
            None => Some(
                Fault::Value("polars_metal: internal error: missing byte ref for Simple agg"@),
            ),
            Some(c) => agg_fault(op, c.tag@, c.data@.len(), rows),
        },
        ParsedAgg::Expression { expr, op, output_alias } => Some(
            Fault::Value(
                "polars_metal: AggSpec::Expression routed to per-agg path; this is a routing bug"@,
            ),
        ),
    }
}

/// A request for aggregation `i`: the row count reads no values, any other
/// reads its input column.
pub open spec fn is_request(
    cols: Seq<Column>,
    agg: ParsedAgg,
    rows: nat,
    i: int,
    r: (AggRequest, ValueColumn),
) -> bool {
    &&& r.0.input_col_idx == i
    &&& match agg {
        ParsedAgg::Length { output_alias } => r.0.kind == AggKind::Len && r.1.views(
            ValueDtype::I64,
            Seq::empty(),
            Seq::empty(),
            0,
        ),
        ParsedAgg::Simple { input_col, op, output_alias } => named(cols, input_col@) matches Some(c)
            && value_dtype_tagged(c.tag@) matches Some(d) && agg_kind(op, d) == Some(r.0.kind)
            && r.1.views(d, c.data@, c.valid@, rows),
        ParsedAgg::Expression { expr, op, output_alias } => false,
    }
}

/// The first complaint about the requests for the first `n` aggregations.
pub open spec fn requests_fault(
    cols: Seq<Column>,
    aggs: Seq<ParsedAgg>,
    rows: nat,
    n: int,
) -> Option<Fault>
    decreases n,
{
    if n <= 0 {
        None
    } else {
        match requests_fault(cols, aggs, rows, n - 1) {
            Some(e) => Some(e),
            None => request_fault(cols, aggs[n - 1], rows),
        }
    }
}

proof fn lemma_request_fault_kept(
    cols: Seq<Column>,
    aggs: Seq<ParsedAgg>,
    rows: nat,
    n: int,
    m: int,
)
    requires
        0 <= n <= m,
        requests_fault(cols, aggs, rows, n) is Some,
    ensures
        requests_fault(cols, aggs, rows, m) == requests_fault(cols, aggs, rows, n),
    decreases m,
{
    if n < m {
        lemma_request_fault_kept(cols, aggs, rows, n, m - 1);
    }
}

fn build_request<'a>(cols: &Vec<Column<'a>>, agg: &ParsedAgg, n_rows: usize, i: usize) -> (r: Result<
    (AggRequest, ValueColumn<'a>),
    Failure,
>)
    ensures
        match r {
            Ok(q) => request_fault(cols@, *agg, n_rows as nat) is None && is_request(
                cols@,
                *agg,
                n_rows as nat,
                i as int,
                q,
            ),
            Err(e) => request_fault(cols@, *agg, n_rows as nat) == Some(e@),
        },
{
    match agg {
        ParsedAgg::Length { output_alias } => {
            let data: &'a [u8] = &[];
            let valid: &'a [u8] = &[];
            let column: ValueColumn<'a> = ValueColumn::I64 { data, valid };
            assert(data@ =~= Seq::<u8>::empty().take(0));
            assert(valid@ =~= Seq::<u8>::empty());
            Ok((AggRequest { kind: AggKind::Len, input_col_idx: i }, column))
        },
        ParsedAgg::Simple { input_col, op, output_alias } => match find_column(
            cols,
            input_col.as_str(),
        ) {
            None => Err(
                Failure::Value(
                    "polars_metal: internal error: missing byte ref for Simple agg".to_owned(),
                ),
            ),
            Some(c) => match build_agg_kind_and_vcol(
                *op,
                c.tag.as_str(),
                c.data,
                c.valid,
                n_rows,
            ) {
                Ok((kind, column)) => Ok((AggRequest { kind, input_col_idx: i }, column)),
                Err(e) => Err(e),
            },
        },
        ParsedAgg::Expression { expr, op, output_alias } => Err(
            Failure::Value(
                "polars_metal: AggSpec::Expression routed to per-agg path; this is a routing bug".to_owned(),
            ),
        ),
    }
}

/// Builds the requests of the path with one kernel per aggregation.
pub fn execute_peragg<'a>(cols: &Vec<Column<'a>>, aggs: &Vec<ParsedAgg>, n_rows: usize) -> (r:
    Result<Vec<(AggRequest, ValueColumn<'a>)>, Failure>)
    ensures
        match r {
            Ok(v) => {
                &&& requests_fault(cols@, aggs@, n_rows as nat, aggs@.len() as int) is None
                &&& v@.len() == aggs@.len()
                &&& forall|i: int|
                    0 <= i < v@.len() ==> is_request(
                        cols@,
                        aggs@[i],
                        n_rows as nat,
                        i,
                        #[trigger] v@[i],
                    )
            },
            Err(e) => requests_fault(cols@, aggs@, n_rows as nat, aggs@.len() as int) == Some(e@),
        },
{
    let mut out: Vec<(AggRequest, ValueColumn<'a>)> = Vec::new();
    let mut i: usize = 0;
    while i < aggs.len()
        invariant
            i <= aggs@.len(),
            out@.len() == i,
            requests_fault(cols@, aggs@, n_rows as nat, i as int) is None,
            forall|j: int|
                0 <= j < i ==> is_request(cols@, aggs@[j], n_rows as nat, j, #[trigger] out@[j]),
        decreases aggs@.len() - i,
    {
        match build_request(cols, &aggs[i], n_rows, i) {
            Ok(q) => {
                out.push(q);
            },
            Err(e) => {
                proof {
                    lemma_request_fault_kept(
                        cols@,
                        aggs@,
                        n_rows as nat,
                        i + 1,
                        aggs@.len() as int,
                    );
                }
                return Err(e);
            },
        }
        i = i + 1;
    }
    Ok(out)
}

} // verus!
