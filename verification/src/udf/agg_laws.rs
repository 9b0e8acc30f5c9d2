//! What a group-by hands to its kernels: each aggregation gets the kernel of
//! its own operator over its own column, and each key its own rows.

use vstd::prelude::*;
use vstd::utf8::{decode_utf8, valid_utf8};

use crate::bytes::{from_le, i32_at, radix, u32_at};
use crate::dict::{decoding_undoes_nullable_encoding, encodes_rows, present};
use crate::error::Fault;
use crate::null_bitmap::valid_at;
use crate::plan::{dtype_tags_parse_back, AggExpr, AggOp, MetalDtype};
use crate::text::{
    first_seen, first_seen_is_a_set_of_the_items, first_seen_keeps_the_beginning, numeral_value,
    views,
};
use crate::udf::common::{named, Column};
use crate::udf::groupby::{is_fused_column, NamedValues};
use crate::udf::groupby_agg::{
    agg_kind, all_inputs, fusable, fused_column_complaint, input_dtype,
    inputs_found, is_request, is_wide, kernel_dtype_tagged, request_fault, requests_fault, takes_fused,
    typed, value_columns_of, value_dtype_tagged, AggKind, AggRequest, ValueColumn, ValueDtype,
};
use crate::udf::groupby_encode::le_all;
use crate::udf::groupby_keys::{
    is_key_column, key_columns_outcome, key_dtype, key_fault, keys_read_fault, le_words,
    packed_column, packed_row, packed_rows, KeyColumn, KeyDtype,
};
use crate::udf::groupby_laws::runs_read_back;
use crate::udf::groupby_plan::{ParsedAgg, ParsedKey};

verus! {

/// The operator that a kernel computes.
pub open spec fn kernel_op(kind: AggKind) -> AggOp {
    match kind {
        AggKind::Len => AggOp::Len,
        AggKind::Count => AggOp::Count,
        AggKind::SumI64 | AggKind::SumF64 | AggKind::SumI32 | AggKind::SumF32 => AggOp::Sum,
        AggKind::MeanI64 | AggKind::MeanF64 | AggKind::MeanI32 | AggKind::MeanF32 => AggOp::Mean,
        AggKind::MinI64 | AggKind::MinF64 | AggKind::MinI32 | AggKind::MinF32 => AggOp::Min,
        AggKind::MaxI64 | AggKind::MaxF64 | AggKind::MaxI32 | AggKind::MaxF32 => AggOp::Max,
    }
}

/// The kernel reads values of this type. Counting reads values of any type.
pub open spec fn kernel_reads(kind: AggKind, dtype: ValueDtype) -> bool {
    match kind {
        AggKind::Len => false,
        AggKind::Count => true,
        AggKind::SumI64 | AggKind::MeanI64 | AggKind::MinI64 | AggKind::MaxI64 => dtype
            == ValueDtype::I64,
        AggKind::SumF64 | AggKind::MeanF64 | AggKind::MinF64 | AggKind::MaxF64 => dtype
            == ValueDtype::F64,
        AggKind::SumI32 | AggKind::MeanI32 | AggKind::MinI32 | AggKind::MaxI32 => dtype
            == ValueDtype::I32,
        AggKind::SumF32 | AggKind::MeanF32 | AggKind::MinF32 | AggKind::MaxF32 => dtype
            == ValueDtype::F32,
    }
}

/// The kernel for an operator on a value type computes that operator and reads
/// that type. Only the row count has none.
pub proof fn kernels_compute_their_operators(op: AggOp, dtype: ValueDtype)
    ensures
        agg_kind(op, dtype) is None <==> op == AggOp::Len,
        agg_kind(op, dtype) matches Some(k) ==> kernel_op(k) == op && kernel_reads(k, dtype),
{
}

/// A value type among the column types.
pub open spec fn column_dtype(dtype: ValueDtype) -> MetalDtype {
    match dtype {
        ValueDtype::I64 => MetalDtype::I64,
        ValueDtype::F64 => MetalDtype::F64,
        ValueDtype::I32 => MetalDtype::I32,
        ValueDtype::F32 => MetalDtype::F32,
    }
}

/// The kernel types have the tags of the column types, and no others: every
/// column type but text and unsigned 64-bit integers has one.
pub proof fn kernel_types_have_the_column_tags(tag: Seq<char>, d: MetalDtype)
    ensures
        kernel_dtype_tagged(tag) == Some(d) <==> tag == d.tag() && d != MetalDtype::Utf8 && d
            != MetalDtype::U64,
{
    if d != MetalDtype::U64 {
        dtype_tags_parse_back(d);
    }
}

/// The value types have the tags of the column types, and the number in a tag
/// is the width of its values in bits.
pub proof fn value_types_have_the_column_tags(tag: Seq<char>, d: ValueDtype)
    ensures
        value_dtype_tagged(tag) == Some(d) <==> tag == column_dtype(d).tag(),
        numeral_value(column_dtype(d).tag().skip(1), 10) == 8 * d.width(),
{
    dtype_tags_parse_back(column_dtype(d));
    reveal_strlit("I64");
    reveal_strlit("F64");
    reveal_strlit("I32");
    reveal_strlit("F32");
    reveal_with_fuel(numeral_value, 3);
    let digits = column_dtype(d).tag().skip(1);
    assert(digits.len() == 2);
    assert(digits.drop_last()[0] == digits[0]);
    assert(digits.drop_last().drop_last().len() == 0);
}

/// The bytes of as many values as there are rows.
proof fn lemma_value_bytes(d: ValueDtype, rows: nat)
    ensures
        rows * d.width() == (if d == ValueDtype::I64 || d == ValueDtype::F64 {
            8 * rows
        } else {
            4 * rows
        }),
{
    match d {
        ValueDtype::I64 | ValueDtype::F64 => {
            assert(rows * d.width() == rows * 8);
        },
        ValueDtype::I32 | ValueDtype::F32 => {
            assert(rows * d.width() == rows * 4);
        },
    }
}

/// The aggregation can be given to a kernel of its own: a row count always, and
/// an operator on a column of a value type that is there in full.
pub open spec fn servable(cols: Seq<Column>, agg: ParsedAgg, rows: nat) -> bool {
    match agg {
        ParsedAgg::Length { output_alias } => true,
        ParsedAgg::Simple { input_col, op, output_alias } => op != AggOp::Len && (named(
            cols,
            input_col@,
        ) matches Some(c) && (((c.tag@ == "I64"@ || c.tag@ == "F64"@) && c.data@.len() >= 8 * rows)
            || ((c.tag@ == "I32"@ || c.tag@ == "F32"@) && c.data@.len() >= 4 * rows))),
        ParsedAgg::Expression { expr, op, output_alias } => false,
    }
}

/// Requests are built exactly when every aggregation can be served.
pub proof fn requests_are_refused_for_what_cannot_be_served(
    cols: Seq<Column>,
    aggs: Seq<ParsedAgg>,
    rows: nat,
    n: int,
)
    requires
        0 <= n <= aggs.len(),
    ensures
        requests_fault(cols, aggs, rows, n) is None <==> forall|i: int|
            0 <= i < n ==> servable(cols, #[trigger] aggs[i], rows),
    decreases n,
{
    if n > 0 {
        requests_are_refused_for_what_cannot_be_served(cols, aggs, rows, n - 1);
        let agg = aggs[n - 1];
        match agg {
            ParsedAgg::Simple { input_col, op, output_alias } => {
                match named(cols, input_col@) {
                    Some(c) => {
                        value_types_have_the_column_tags(c.tag@, ValueDtype::I64);
                        value_types_have_the_column_tags(c.tag@, ValueDtype::F64);
                        value_types_have_the_column_tags(c.tag@, ValueDtype::I32);
                        value_types_have_the_column_tags(c.tag@, ValueDtype::F32);
                        match value_dtype_tagged(c.tag@) {
                            Some(d) => {
                                kernels_compute_their_operators(op, d);
                                lemma_value_bytes(d, rows);
                            },
                            None => {},
                        }
                    },
                    None => {},
                }
            },
            _ => {},
        }
        assert(servable(cols, agg, rows) <==> request_fault(cols, agg, rows) is None);
    }
}

/// A request serves its aggregation: it runs the kernel of the aggregation's
/// operator over the values of the aggregation's own column, as many as there
/// are rows, with that column's validity.
pub proof fn requests_serve_their_aggregations(
    cols: Seq<Column>,
    agg: ParsedAgg,
    rows: nat,
    i: int,
    r: (AggRequest, ValueColumn),
)
    requires
        servable(cols, agg, rows),
        is_request(cols, agg, rows, i, r),
    ensures
        r.0.input_col_idx == i,
        agg matches ParsedAgg::Length { output_alias } ==> kernel_op(r.0.kind) == AggOp::Len
            && r.1.value_bytes().len() == 0 && r.1.validity().len() == 0,
        agg matches ParsedAgg::Simple { input_col, op, output_alias } ==> {
            let c = named(cols, input_col@)->Some_0;
            &&& kernel_op(r.0.kind) == op
            &&& kernel_reads(r.0.kind, r.1.dtype())
            &&& c.tag@ == column_dtype(r.1.dtype()).tag()
            &&& r.1.value_bytes().is_prefix_of(c.data@)
            &&& 8 * r.1.value_bytes().len() == rows * numeral_value(c.tag@.skip(1), 10)
            &&& r.1.validity() == c.valid@
        },
{
    match agg {
        ParsedAgg::Simple { input_col, op, output_alias } => {
            let c = named(cols, input_col@)->Some_0;
            let d = value_dtype_tagged(c.tag@)->Some_0;
            value_types_have_the_column_tags(c.tag@, ValueDtype::I64);
            value_types_have_the_column_tags(c.tag@, ValueDtype::F64);
            value_types_have_the_column_tags(c.tag@, ValueDtype::I32);
            value_types_have_the_column_tags(c.tag@, ValueDtype::F32);
            kernels_compute_their_operators(op, d);
            lemma_value_bytes(d, rows);
            assert(8 * (rows * d.width()) == rows * (8 * d.width())) by (nonlinear_arith);
            assert(r.1.dtype() == d);
            assert(r.1.value_bytes().is_prefix_of(c.data@));
        },
        _ => {},
    }
}

/// The fused kernel takes a column exactly when its values have 32 bits and
/// there is one for each row. It gets them by their own name and type, with
/// their own validity.
pub proof fn fused_columns_are_their_own(c: Column, rows: nat, v: NamedValues)
    ensures
        fused_column_complaint(c.tag@, c.data@.len(), rows) is None <==> (c.tag@ == "I32"@ || c.tag@
            == "F32"@) && c.data@.len() >= 4 * rows,
        fused_column_complaint(c.tag@, c.data@.len(), rows) is None && is_fused_column(c, rows, v)
            ==> {
            &&& v.name@ == c.name@
            &&& c.tag@ == column_dtype(v.column.dtype()).tag()
            &&& v.column.value_bytes().is_prefix_of(c.data@)
            &&& v.column.value_bytes().len() == 4 * rows
            &&& v.column.validity() == c.valid@
        },
{
    value_types_have_the_column_tags(c.tag@, ValueDtype::I32);
    value_types_have_the_column_tags(c.tag@, ValueDtype::F32);
}

/// A found column is one of the columns and has the name.
proof fn lemma_named(cols: Seq<Column>, name: Seq<char>)
    ensures
        named(cols, name) matches Some(c) ==> cols.contains(c) && c.name@ == name,
    decreases cols.len(),
{
    if cols.len() > 0 {
        if cols.last().name@ == name {
            assert(cols[cols.len() - 1] == cols.last());
        } else {
            let front = cols.drop_last();
            lemma_named(front, name);
            match named(front, name) {
                Some(c) => {
                    let i = choose|i: int| 0 <= i < front.len() && front[i] == c;
                    assert(cols[i] == c);
                },
                None => {},
            }
        }
    }
}

/// What every aggregation reads is among all inputs, and nothing else is.
proof fn lemma_inputs(aggs: Seq<ParsedAgg>, n: int, name: Seq<char>)
    requires
        0 <= n <= aggs.len(),
    ensures
        all_inputs(aggs, n).contains(name) <==> exists|i: int|
            0 <= i < n && (#[trigger] aggs[i]).inputs().contains(name),
    decreases n,
{
    if n > 0 {
        lemma_inputs(aggs, n - 1, name);
        let front = all_inputs(aggs, n - 1);
        let own = aggs[n - 1].inputs();
        let all = all_inputs(aggs, n);
        assert(all == front + own);
        if front.contains(name) {
            let j = choose|j: int| 0 <= j < front.len() && front[j] == name;
            assert(all[j] == name);
        }
        if own.contains(name) {
            let j = choose|j: int| 0 <= j < own.len() && own[j] == name;
            assert(all[front.len() + j] == name);
        }
        if all.contains(name) {
            let j = choose|j: int| 0 <= j < all.len() && all[j] == name;
            if j < front.len() {
                assert(front[j] == name);
            } else {
                assert(own[j - front.len()] == name);
            }
        }
    }
}

/// The columns found for a list of names are those that the names stand for.
proof fn lemma_found(cols: Seq<Column>, names: Seq<Seq<char>>, n: int)
    requires
        0 <= n <= names.len(),
    ensures
        inputs_found(cols, names, n) is Ok <==> forall|i: int|
            0 <= i < n ==> named(cols, #[trigger] names[i]) is Some,
        inputs_found(cols, names, n) matches Ok(v) ==> v.len() == n && forall|i: int|
            0 <= i < n ==> Some(#[trigger] v[i]) == named(cols, names[i]),
    decreases n,
{
    if n > 0 {
        lemma_found(cols, names, n - 1);
    }
}

/// The value columns of a group-by are found exactly when everything that an
/// aggregation reads is there. They are columns of the request, no two of one
/// name, and there is one for everything that an aggregation reads.
pub proof fn value_columns_are_what_is_read(cols: Seq<Column>, aggs: Seq<ParsedAgg>)
    ensures
        value_columns_of(cols, aggs) is Ok <==> forall|i: int, name: Seq<char>|
            0 <= i < aggs.len() && #[trigger] aggs[i].inputs().contains(name) ==> named(cols, name)
                is Some,
        value_columns_of(cols, aggs) matches Ok(v) ==> {
            &&& forall|i: int, name: Seq<char>|
                0 <= i < aggs.len() && #[trigger] aggs[i].inputs().contains(name) ==> v.contains(
                    named(cols, name)->Some_0,
                )
            &&& forall|a: int, b: int|
                0 <= a < b < v.len() ==> (#[trigger] v[a]).name@ != (#[trigger] v[b]).name@
            &&& forall|a: int| 0 <= a < v.len() ==> cols.contains(#[trigger] v[a])
        },
{
    let all = all_inputs(aggs, aggs.len() as int);
    let names = first_seen(all);
    first_seen_is_a_set_of_the_items(all);
    lemma_found(cols, names, names.len() as int);
    assert forall|i: int, name: Seq<char>|
        0 <= i < aggs.len() && #[trigger] aggs[i].inputs().contains(name) implies names.contains(
        name,
    ) by {
        lemma_inputs(aggs, aggs.len() as int, name);
    }
    if value_columns_of(cols, aggs) is Ok {
        let v = value_columns_of(cols, aggs)->Ok_0;
        assert forall|i: int, name: Seq<char>|
            0 <= i < aggs.len() && #[trigger] aggs[i].inputs().contains(name) implies named(
            cols,
            name,
        ) is Some && v.contains(named(cols, name)->Some_0) by {
            let k = choose|k: int| 0 <= k < names.len() && names[k] == name;
            assert(Some(v[k]) == named(cols, names[k]));
        }
        assert forall|a: int| 0 <= a < v.len() implies cols.contains(#[trigger] v[a])
            && v[a].name@ == names[a] by {
            lemma_named(cols, names[a]);
        }
    }
    if forall|i: int, name: Seq<char>|
        0 <= i < aggs.len() && #[trigger] aggs[i].inputs().contains(name) ==> named(cols, name)
            is Some {
        assert forall|k: int| 0 <= k < names.len() implies named(cols, #[trigger] names[k])
            is Some by {
            assert(names.contains(names[k]));
            lemma_inputs(aggs, aggs.len() as int, names[k]);
        }
    }
}

/// The column mentioned has one of the ten kernel types, or one that has at
/// most 32 bits.
pub open spec fn has_kernel_tag(c: Column, narrow: bool) -> bool {
    ||| !narrow && (c.tag@ == "I64"@ || c.tag@ == "F64"@)
    ||| c.tag@ == "Bool"@
    ||| c.tag@ == "I32"@
    ||| c.tag@ == "F32"@
    ||| c.tag@ == "I8"@
    ||| c.tag@ == "I16"@
    ||| c.tag@ == "U8"@
    ||| c.tag@ == "U16"@
    ||| c.tag@ == "U32"@
}

/// A column's kernel type is there, and is not wide, according to its tag.
proof fn lemma_kernel_tag(c: Column)
    ensures
        kernel_dtype_tagged(c.tag@) is Some <==> has_kernel_tag(c, false),
        kernel_dtype_tagged(c.tag@) is Some && !is_wide(kernel_dtype_tagged(c.tag@))
            <==> has_kernel_tag(c, true),
{
    kernel_types_have_the_column_tags(c.tag@, MetalDtype::I64);
    kernel_types_have_the_column_tags(c.tag@, MetalDtype::F64);
    kernel_types_have_the_column_tags(c.tag@, MetalDtype::Bool);
    kernel_types_have_the_column_tags(c.tag@, MetalDtype::I32);
    kernel_types_have_the_column_tags(c.tag@, MetalDtype::F32);
    kernel_types_have_the_column_tags(c.tag@, MetalDtype::I8);
    kernel_types_have_the_column_tags(c.tag@, MetalDtype::I16);
    kernel_types_have_the_column_tags(c.tag@, MetalDtype::U8);
    kernel_types_have_the_column_tags(c.tag@, MetalDtype::U16);
    kernel_types_have_the_column_tags(c.tag@, MetalDtype::U32);
}

/// Every column that an aggregation reads is there, and has a kernel type, of
/// at most 32 bits when `narrow`.
pub open spec fn reads_kernel_columns(
    cols: Seq<Column>,
    aggs: Seq<ParsedAgg>,
    narrow: bool,
) -> bool {
    forall|i: int, k: int|
        0 <= i < aggs.len() && 0 <= k < aggs[i].inputs().len() ==> (named(
            cols,
            #[trigger] aggs[i].inputs()[k],
        ) matches Some(c) && has_kernel_tag(c, narrow))
}

/// With an inline expression the fused kernel is taken exactly when everything
/// read has a kernel type; without one, exactly when there are at least two
/// aggregations and everything read has at most 32 bits.
pub proof fn fused_runs_read_kernel_columns(cols: Seq<Column>, aggs: Seq<ParsedAgg>)
    ensures
        (exists|i: int| 0 <= i < aggs.len() && #[trigger] aggs[i] is Expression) ==> (takes_fused(
            cols,
            aggs,
        ) <==> reads_kernel_columns(cols, aggs, false)),
        (forall|i: int| 0 <= i < aggs.len() ==> !(#[trigger] aggs[i] is Expression)) ==> (
        takes_fused(cols, aggs) <==> aggs.len() > 1 && reads_kernel_columns(cols, aggs, true)),
{
    assert forall|i: int, k: int|
        0 <= i < aggs.len() && 0 <= k < aggs[i].inputs().len() implies ({
        let name = #[trigger] aggs[i].inputs()[k];
        &&& input_dtype(cols, name) is Some <==> (named(cols, name) matches Some(c)
            && has_kernel_tag(c, false))
        &&& input_dtype(cols, name) is Some && !is_wide(input_dtype(cols, name)) <==> (named(
            cols,
            name,
        ) matches Some(c) && has_kernel_tag(c, true))
    }) by {
        match named(cols, aggs[i].inputs()[k]) {
            Some(c) => {
                lemma_kernel_tag(c);
            },
            None => {},
        }
    }
    let all_typed = forall|i: int| 0 <= i < aggs.len() ==> typed(cols, #[trigger] aggs[i]);
    let all_fusable = forall|i: int| 0 <= i < aggs.len() ==> fusable(cols, #[trigger] aggs[i]);
    if reads_kernel_columns(cols, aggs, false) {
        assert(all_typed);
    }
    if reads_kernel_columns(cols, aggs, true) {
        assert(all_fusable);
        assert(all_typed);
    }
    if all_typed {
        assert forall|i: int, k: int|
            0 <= i < aggs.len() && 0 <= k < aggs[i].inputs().len() implies (named(
            cols,
            #[trigger] aggs[i].inputs()[k],
        ) matches Some(c) && has_kernel_tag(c, false)) by {
            assert(typed(cols, aggs[i]));
        }
    }
    if all_fusable {
        assert forall|i: int, k: int|
            0 <= i < aggs.len() && 0 <= k < aggs[i].inputs().len() implies (named(
            cols,
            #[trigger] aggs[i].inputs()[k],
        ) matches Some(c) && has_kernel_tag(c, true)) by {
            assert(fusable(cols, aggs[i]));
        }
    }
}

/// The expression reads a column of this name.
pub open spec fn mentions(e: AggExpr, name: Seq<char>) -> bool
    decreases e,
{
    match e {
        AggExpr::Column(own) => own@ == name,
        AggExpr::LiteralF64(_) | AggExpr::LiteralI64(_) => false,
        AggExpr::Binary { op, lhs, rhs } => mentions(*lhs, name) || mentions(*rhs, name),
    }
}

/// No path from the top of the expression passes through more than `depth`
/// operations.
pub open spec fn fits_depth(e: AggExpr, depth: int) -> bool
    decreases e,
{
    match e {
        AggExpr::Binary { op, lhs, rhs } => depth > 0 && fits_depth(*lhs, depth - 1) && fits_depth(
            *rhs,
            depth - 1,
        ),
        _ => depth >= 0,
    }
}

/// The leaves of an expression are the columns that it mentions, and its depth
/// is the least that it fits.
pub proof fn expressions_are_measured_by_their_leaves(e: AggExpr, name: Seq<char>, depth: int)
    ensures
        e.leaf_columns().contains(name) <==> mentions(e, name),
        fits_depth(e, depth) <==> e.tree_depth() <= depth,
    decreases e,
{
    match e {
        AggExpr::Column(own) => {
            assert(e.leaf_columns()[0] == own@);
        },
        AggExpr::Binary { op, lhs, rhs } => {
            expressions_are_measured_by_their_leaves(*lhs, name, depth - 1);
            expressions_are_measured_by_their_leaves(*rhs, name, depth - 1);
            let l = lhs.leaf_columns();
            let r = rhs.leaf_columns();
            if l.contains(name) {
                let j = choose|j: int| 0 <= j < l.len() && l[j] == name;
                assert((l + r)[j] == name);
            }
            if r.contains(name) {
                let j = choose|j: int| 0 <= j < r.len() && r[j] == name;
                assert((l + r)[l.len() + j] == name);
            }
            if (l + r).contains(name) {
                let j = choose|j: int| 0 <= j < (l + r).len() && (l + r)[j] == name;
                if j < l.len() {
                    assert(l[j] == name);
                } else {
                    assert(r[j - l.len()] == name);
                }
            }
        },
        _ => {},
    }
}

/// A simple aggregation reads its column, an inline expression the columns that
/// it mentions, and a row count nothing.
pub proof fn aggregations_read_their_columns(agg: ParsedAgg, name: Seq<char>)
    ensures
        agg.inputs().no_duplicates(),
        agg.inputs().contains(name) <==> match agg {
            ParsedAgg::Simple { input_col, op, output_alias } => input_col@ == name,
            ParsedAgg::Expression { expr, op, output_alias } => mentions(expr, name),
            ParsedAgg::Length { output_alias } => false,
        },
{
    match agg {
        ParsedAgg::Simple { input_col, op, output_alias } => {
            assert(agg.inputs()[0] == input_col@);
        },
        ParsedAgg::Expression { expr, op, output_alias } => {
            first_seen_is_a_set_of_the_items(expr.leaf_columns());
            expressions_are_measured_by_their_leaves(expr, name, 0);
        },
        _ => {},
    }
}

/// The column type that a key type stands for.
pub open spec fn keyed_dtype(k: KeyDtype) -> MetalDtype {
    match k {
        KeyDtype::I64 => MetalDtype::I64,
        KeyDtype::F64 => MetalDtype::F64,
        KeyDtype::Bool => MetalDtype::Bool,
        KeyDtype::I32 => MetalDtype::I32,
        KeyDtype::F32 => MetalDtype::F32,
        KeyDtype::I8 => MetalDtype::I8,
        KeyDtype::I16 => MetalDtype::I16,
        KeyDtype::U8 => MetalDtype::U8,
        KeyDtype::U16 => MetalDtype::U16,
        KeyDtype::U32 => MetalDtype::U32,
        KeyDtype::Utf8 => MetalDtype::Utf8,
    }
}

/// Every key type is that of the column type it stands for, and only unsigned
/// 64-bit integers are no keys.
pub proof fn key_types_stand_for_column_types(d: MetalDtype, k: KeyDtype)
    ensures
        key_dtype(keyed_dtype(k)) == Some(k),
        key_dtype(d) == Some(k) ==> keyed_dtype(k) == d,
        key_dtype(d) is None <==> d == MetalDtype::U64,
{
}

/// Words are written as a run of four-byte numbers.
proof fn lemma_words_are_a_run(words: Seq<u32>)
    ensures
        le_words(words) == le_all(words.map_values(|w: u32| w as nat), 4),
    decreases words.len(),
{
    if words.len() > 0 {
        lemma_words_are_a_run(words.drop_last());
        assert(words.map_values(|w: u32| w as nat).drop_last() =~= words.drop_last().map_values(
            |w: u32| w as nat,
        ));
    }
}

/// The four-byte number at place `i`.
pub open spec fn code_at(data: Seq<u8>, i: int) -> nat {
    from_le(data.subrange(4 * i, 4 * i + 4))
}

/// Words written one after the other are read back at their places.
pub proof fn words_read_back(words: Seq<u32>, i: int)
    requires
        0 <= i < words.len(),
    ensures
        le_words(words).len() == 4 * words.len(),
        code_at(le_words(words), i) == words[i],
{
    lemma_words_are_a_run(words);
    reveal_with_fuel(radix, 5);
    runs_read_back(words.map_values(|w: u32| w as nat), 4, i);
}

/// A key column holds the rows of the column that the key names. A text key
/// holds a code for each row, by which the dictionary gives the row's text; a
/// null row has the code zero. Any other key holds the bytes received.
pub proof fn key_columns_hold_their_rows(
    cols: Seq<Column>,
    key: ParsedKey,
    rows: usize,
    k: KeyColumn,
    i: int,
)
    requires
        is_key_column(cols, key, rows, k),
        0 <= i < rows,
        k.dict matches Some(d) ==> d@.len() <= 0x1_0000_0000,
    ensures
        k.name@ == key.name@,
        keyed_dtype(k.dtype) == key.dtype,
        k.n_rows == rows,
        named(cols, key.name@) matches Some(c) && k.valid@ == c.valid@,
        key.dtype != MetalDtype::Utf8 ==> k.dict is None && k.data.bytes() == named(
            cols,
            key.name@,
        )->Some_0.data@,
        key.dtype == MetalDtype::Utf8 ==> {
            let c = named(cols, key.name@)->Some_0;
            let values = packed_column(key.name@, c.data@, c.valid@, rows as nat)->Ok_0;
            let dict = views(k.dict->Some_0@);
            let code = code_at(k.data.bytes(), i) as int;
            &&& k.dict is Some
            &&& dict.no_duplicates()
            &&& values.len() == rows
            &&& k.data.bytes().len() == 4 * rows
            &&& values[i] matches Some(s) ==> code < dict.len() && dict[code] == s
            &&& values[i] is None ==> code == 0
        },
{
    key_types_stand_for_column_types(key.dtype, k.dtype);
    if key.dtype == MetalDtype::Utf8 {
        let c = named(cols, key.name@)->Some_0;
        let values = packed_column(key.name@, c.data@, c.valid@, rows as nat)->Ok_0;
        let dict = views(k.dict->Some_0@);
        let (codes, flags) = choose|codes: Seq<u32>, flags: Seq<bool>| #[trigger]
            encodes_rows(values, dict, codes, flags) && k.data.bytes() == le_words(
                codes,
            );
        first_seen_is_a_set_of_the_items(present(values));
        packed_rows_lie_between_offsets(key.name@, c.data@, c.valid@, rows as nat);
        words_read_back(codes, i);
        assert(flags[i] == values[i] is Some);
        decoding_undoes_nullable_encoding(values, dict, codes, flags);
    }
}

/// Row `r` of a packed column can be read: its text lies between its own offset
/// and the next, inside the data after the offsets, and is text.
pub open spec fn row_readable(data: Seq<u8>, rows: nat, r: int) -> bool {
    let start = i32_at(data, 4 + 4 * r) as int;
    let end = i32_at(data, 8 + 4 * r) as int;
    &&& 0 <= start <= end
    &&& 8 + 4 * rows + end <= data.len()
    &&& valid_utf8(row_bytes(data, rows, r))
}

/// The bytes of row `r` of a packed column.
pub open spec fn row_bytes(data: Seq<u8>, rows: nat, r: int) -> Seq<u8> {
    data.subrange(
        8 + 4 * rows + i32_at(data, 4 + 4 * r),
        8 + 4 * rows + i32_at(data, 8 + 4 * r),
    )
}

/// The first rows of a packed column are read one by one.
proof fn lemma_packed_rows(name: Seq<char>, data: Seq<u8>, valid: Seq<u8>, rows: int, n: int)
    requires
        n >= 0,
    ensures
        packed_rows(name, data, valid, rows, n) is Ok <==> forall|r: int|
            0 <= r < n ==> (#[trigger] packed_row(name, data, valid, rows, r)) is Ok,
        packed_rows(name, data, valid, rows, n) matches Ok(values) ==> values.len() == n && forall|
            r: int,
        |
            0 <= r < n ==> Ok::<Option<Seq<char>>, Fault>(#[trigger] values[r]) == packed_row(
                name,
                data,
                valid,
                rows,
                r,
            ),
    decreases n,
{
    if n > 0 {
        lemma_packed_rows(name, data, valid, rows, n - 1);
    }
}

/// A packed column is read exactly when it says how many rows it has, has an
/// offset more than rows, a bit for each row, and every valid row can be read.
/// A valid row is the text between its offset and the next; another is null.
pub proof fn packed_rows_lie_between_offsets(
    name: Seq<char>,
    data: Seq<u8>,
    valid: Seq<u8>,
    rows: nat,
)
    ensures
        packed_column(name, data, valid, rows) is Ok <==> {
            &&& data.len() >= 8 + 4 * rows
            &&& u32_at(data, 0) == rows
            &&& 8 * valid.len() >= rows
            &&& forall|r: int|
                0 <= r < rows && #[trigger] valid_at(valid, r) ==> row_readable(data, rows, r)
        },
        packed_column(name, data, valid, rows) matches Ok(values) ==> values.len() == rows
            && forall|r: int|
            0 <= r < rows ==> #[trigger] values[r] == (if valid_at(valid, r) {
                Some(decode_utf8(row_bytes(data, rows, r)))
            } else {
                None
            }),
{
    lemma_packed_rows(name, data, valid, rows as int, rows as int);
    assert forall|r: int| 0 <= r < rows implies ((#[trigger] packed_row(
        name,
        data,
        valid,
        rows as int,
        r,
    )) is Ok <==> (valid_at(valid, r) ==> row_readable(data, rows, r))) by {
        assert(4 + r * 4 == 4 + 4 * r && 4 + (r + 1) * 4 == 8 + 4 * r);
        assert(4 + (rows + 1) * 4 == 8 + 4 * rows);
    }
    if packed_column(name, data, valid, rows) is Ok {
        assert forall|r: int| 0 <= r < rows && #[trigger] valid_at(valid, r) implies row_readable(
            data,
            rows,
            r,
        ) by {
            assert(packed_row(name, data, valid, rows as int, r) is Ok);
        }
    }
}

/// The key can be read from the columns: it names one, its type is one of the
/// key types, and text is packed as it should be.
pub open spec fn key_readable(cols: Seq<Column>, key: ParsedKey, rows: nat) -> bool {
    &&& key.dtype != MetalDtype::U64
    &&& named(cols, key.name@) matches Some(c) && (key.dtype == MetalDtype::Utf8 ==> packed_column(
        key.name@,
        c.data@,
        c.valid@,
        rows,
    ) is Ok)
}

/// Keys are read without complaint exactly when each is there and in order.
proof fn lemma_keys_read(cols: Seq<Column>, keys: Seq<ParsedKey>, rows: nat, n: int)
    requires
        0 <= n <= keys.len(),
    ensures
        keys_read_fault(cols, keys, rows, n) is None <==> forall|i: int|
            0 <= i < n ==> key_fault(cols, #[trigger] keys[i], rows) is None,
    decreases n,
{
    if n > 0 {
        lemma_keys_read(cols, keys, rows, n - 1);
    }
}

/// Key columns are built exactly when every key can be read, one for each key
/// and in order.
pub proof fn key_columns_are_built_in_order<'a>(
    cols: Seq<Column<'a>>,
    keys: Seq<ParsedKey>,
    rows: usize,
    r: Result<Seq<KeyColumn<'a>>, Fault>,
)
    requires
        key_columns_outcome(cols, keys, rows, r),
    ensures
        r is Ok <==> forall|i: int|
            0 <= i < keys.len() ==> key_readable(cols, #[trigger] keys[i], rows as nat),
        r matches Ok(out) ==> out.len() == keys.len() && forall|i: int|
            0 <= i < keys.len() ==> is_key_column(cols, keys[i], rows, #[trigger] out[i]),
{
    lemma_keys_read(cols, keys, rows as nat, keys.len() as int);
    assert forall|i: int| 0 <= i < keys.len() implies (key_readable(
        cols,
        #[trigger] keys[i],
        rows as nat,
    ) <==> key_fault(cols, keys[i], rows as nat) is None && key_dtype(keys[i].dtype) is Some) by {
        key_types_stand_for_column_types(keys[i].dtype, KeyDtype::I64);
    }
    if r is Ok {
        assert forall|i: int| 0 <= i < keys.len() implies key_readable(
            cols,
            #[trigger] keys[i],
            rows as nat,
        ) by {
            assert(key_dtype(keys[i].dtype) is Some);
        }
    }
}

/// The inputs of the first aggregations do not depend on the others.
proof fn lemma_inputs_of_prefix(aggs: Seq<ParsedAgg>, k: int, n: int)
    requires
        0 <= n <= k <= aggs.len(),
    ensures
        all_inputs(aggs.take(k), n) == all_inputs(aggs, n),
    decreases n,
{
    if n > 0 {
        lemma_inputs_of_prefix(aggs, k, n - 1);
        assert(aggs.take(k)[n - 1] == aggs[n - 1]);
    }
}

/// The inputs of the first aggregations begin the inputs of more.
proof fn lemma_inputs_begin(aggs: Seq<ParsedAgg>, k: int, n: int)
    requires
        0 <= k <= n <= aggs.len(),
    ensures
        all_inputs(aggs, k).is_prefix_of(all_inputs(aggs, n)),
    decreases n,
{
    if k < n {
        lemma_inputs_begin(aggs, k, n - 1);
    }
}

/// What is read first comes first: the value columns of the first aggregations
/// begin those of all.
pub proof fn value_columns_come_as_they_are_read<'a>(
    cols: Seq<Column<'a>>,
    aggs: Seq<ParsedAgg>,
    k: int,
    some: Seq<Column<'a>>,
    all: Seq<Column<'a>>,
)
    requires
        0 <= k <= aggs.len(),
        value_columns_of(cols, aggs.take(k)) == Ok::<Seq<Column<'a>>, Fault>(some),
        value_columns_of(cols, aggs) == Ok::<Seq<Column<'a>>, Fault>(all),
    ensures
        some.is_prefix_of(all),
{
    let reads = all_inputs(aggs, aggs.len() as int);
    let early = all_inputs(aggs, k);
    lemma_inputs_of_prefix(aggs, k, k);
    lemma_inputs_begin(aggs, k, aggs.len() as int);
    assert(reads.take(early.len() as int) =~= early);
    first_seen_keeps_the_beginning(reads, early.len() as int);
    let names = first_seen(reads);
    let first = first_seen(early);
    lemma_found(cols, names, names.len() as int);
    lemma_found(cols, first, first.len() as int);
    assert forall|i: int| 0 <= i < some.len() implies some[i] == all[i] by {
        assert(names[i] == first[i]);
        assert(Some(some[i]) == named(cols, first[i]));
        assert(Some(all[i]) == named(cols, names[i]));
    }
}

} // verus!
