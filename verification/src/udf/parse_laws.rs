//! What reading a received expression, predicate or plan gives back of one that
//! was written: each part of the result is what the mapping holds under the
//! part's own key.

use vstd::prelude::*;

use crate::error::Fault;
use crate::fields::required_text;
use crate::plan::{
    agg_op_tagged, agg_op_tags_parse_back, dtype_tagged, dtype_tags_parse_back, AggExpr, AggOp,
    BinaryOp, CompareOp, MetalDtype, PlanShape, PredicateAst,
};
use crate::udf::groupby_plan::{
    agg_matches, binary_op_tagged, expr_of, key_of, plan_outcome, ParseFault,
    ParsedAgg, ParsedGroupByPlan, ParsedKey,
};
use crate::udf::predicate::{
    operand_at, parsed_compare_op, plan_at, plan_of, predicate_of, scan_column, scan_columns,
};
use crate::wire::{WireDict, WireValue};

verus! {

/// The mapping holds this text under the key.
pub open spec fn holds_text(d: WireDict, key: Seq<char>, text: Seq<char>) -> bool {
    d.lookup(key) matches Some(WireValue::Str(s)) && s@ == text
}

/// The name of a binary operation on the wire.
pub open spec fn binary_name(op: BinaryOp) -> Seq<char> {
    match op {
        BinaryOp::Add => "Add"@,
        BinaryOp::Sub => "Sub"@,
        BinaryOp::Mul => "Mul"@,
        BinaryOp::Div => "Div"@,
    }
}

/// The name of a comparison on the wire.
pub open spec fn comparison_name(op: CompareOp) -> Seq<char> {
    match op {
        CompareOp::Eq => "Eq"@,
        CompareOp::Ne => "Ne"@,
        CompareOp::Lt => "Lt"@,
        CompareOp::Le => "Le"@,
        CompareOp::Gt => "Gt"@,
        CompareOp::Ge => "Ge"@,
    }
}

/// Binary operations are read back from their names, and from nothing else.
pub proof fn binary_names_read_back(op: BinaryOp, tag: Seq<char>)
    ensures
        binary_op_tagged(tag) == Some(op) <==> tag == binary_name(op),
{
    reveal_strlit("Add");
    reveal_strlit("Sub");
    reveal_strlit("Mul");
    reveal_strlit("Div");
    assert("Add"@[0] == 'A' && "Sub"@[0] == 'S' && "Mul"@[0] == 'M' && "Div"@[0] == 'D');
}

/// Comparisons are read back from their names, and from nothing else.
pub proof fn comparison_names_read_back(op: CompareOp, tag: Seq<char>)
    ensures
        parsed_compare_op(tag) == Ok::<CompareOp, Fault>(op) <==> tag == comparison_name(op),
{
    reveal_strlit("Eq");
    reveal_strlit("Ne");
    reveal_strlit("Lt");
    reveal_strlit("Le");
    reveal_strlit("Gt");
    reveal_strlit("Ge");
    assert("Eq"@[0] == 'E' && "Ne"@[0] == 'N' && "Lt"@[0] == 'L' && "Le"@[0] == 'L' && "Gt"@[0]
        == 'G' && "Ge"@[0] == 'G');
    assert("Lt"@[1] == 't' && "Le"@[1] == 'e' && "Gt"@[1] == 't' && "Ge"@[1] == 'e');
}

/// The kinds of mappings are told apart by their names.
proof fn lemma_kinds()
    ensures
        "Column"@ != "LiteralF64"@,
        "Column"@ != "LiteralI64"@,
        "Column"@ != "LiteralBool"@,
        "Column"@ != "Binary"@,
        "Column"@ != "Compare"@,
        "Column"@ != "And"@,
        "Column"@ != "Or"@,
        "LiteralF64"@ != "LiteralI64"@,
        "LiteralF64"@ != "LiteralBool"@,
        "LiteralF64"@ != "Binary"@,
        "LiteralF64"@ != "Compare"@,
        "LiteralF64"@ != "And"@,
        "LiteralF64"@ != "Or"@,
        "LiteralI64"@ != "LiteralBool"@,
        "LiteralI64"@ != "Binary"@,
        "LiteralI64"@ != "Compare"@,
        "LiteralI64"@ != "And"@,
        "LiteralI64"@ != "Or"@,
        "LiteralBool"@ != "Compare"@,
        "LiteralBool"@ != "And"@,
        "LiteralBool"@ != "Or"@,
        "Compare"@ != "And"@,
        "Compare"@ != "Or"@,
        "And"@ != "Or"@,
        "Scan"@ != "Project"@,
        "Scan"@ != "Filter"@,
        "Project"@ != "Filter"@,
        "Simple"@ != "Length"@,
        "Simple"@ != "Expression"@,
        "Length"@ != "Expression"@,
{
    reveal_strlit("Column");
    reveal_strlit("LiteralF64");
    reveal_strlit("LiteralI64");
    reveal_strlit("LiteralBool");
    reveal_strlit("Binary");
    reveal_strlit("Compare");
    reveal_strlit("And");
    reveal_strlit("Or");
    reveal_strlit("Scan");
    reveal_strlit("Project");
    reveal_strlit("Filter");
    reveal_strlit("Simple");
    reveal_strlit("Length");
    reveal_strlit("Expression");
    assert("Column"@[1] == 'o' && "Column"@[2] == 'l' && "Compare"@[2] == 'm');
    assert("Binary"@[1] == 'i' && "LiteralF64"@[7] == 'F' && "LiteralI64"@[7] == 'I'
        && "LiteralBool"@[7] == 'B');
    assert("Simple"@[0] == 'S' && "Length"@[0] == 'L');
    assert("Column"@.len() == 6 && "Binary"@.len() == 6 && "LiteralF64"@.len() == 10
        && "LiteralI64"@.len() == 10 && "LiteralBool"@.len() == 11 && "Compare"@.len() == 7);
    assert("And"@.len() == 3 && "Or"@.len() == 2);
    assert("Scan"@.len() == 4 && "Project"@.len() == 7 && "Filter"@.len() == 6
        && "Expression"@.len() == 10);
}

/// The mapping writes an expression: a leaf under its kind, a binary operation
/// by its name, with its left operand under `lhs` and its right one under
/// `rhs`.
pub open spec fn writes_expr(d: WireDict, e: AggExpr) -> bool
    decreases e,
{
    match e {
        AggExpr::Column(name) => holds_text(d, "kind"@, "Column"@) && d.lookup("name"@) == Some(
            WireValue::Str(name),
        ),
        AggExpr::LiteralF64(f) => holds_text(d, "kind"@, "LiteralF64"@) && (d.lookup(
            "value"@,
        ) matches Some(v) && v.float() == Ok::<_, crate::wire::ConversionError>(f)),
        AggExpr::LiteralI64(i) => holds_text(d, "kind"@, "LiteralI64"@) && (d.lookup(
            "value"@,
        ) matches Some(v) && v.signed() == Ok::<_, crate::wire::ConversionError>(i)),
        AggExpr::Binary { op, lhs, rhs } => {
            &&& holds_text(d, "kind"@, "Binary"@)
            &&& holds_text(d, "op"@, binary_name(op))
            &&& d.lookup("lhs"@) matches Some(WireValue::Dict(l)) && writes_expr(l, *lhs)
            &&& d.lookup("rhs"@) matches Some(WireValue::Dict(r)) && writes_expr(r, *rhs)
        },
    }
}

/// Reading an expression gives back the one that was written, whichever
/// operations it is made of.
pub proof fn expressions_read_back(d: WireDict, e: AggExpr)
    ensures
        expr_of(d) == Ok::<AggExpr, ParseFault>(e) <==> writes_expr(d, e),
    decreases e,
{
    lemma_kinds();
    reveal_with_fuel(expr_of, 2);
    match e {
        AggExpr::Binary { op, lhs, rhs } => {
            match d.text_at("op"@) {
                Some(tag) => {
                    binary_names_read_back(op, tag@);
                },
                None => {},
            }
            match d.lookup("lhs"@) {
                Some(WireValue::Dict(l)) => {
                    expressions_read_back(l, *lhs);
                },
                _ => {},
            }
            match d.lookup("rhs"@) {
                Some(WireValue::Dict(r)) => {
                    expressions_read_back(r, *rhs);
                },
                _ => {},
            }
        },
        _ => {},
    }
}

/// The mapping writes a predicate: a column with its name and type, a literal,
/// a comparison by its name, or a connective, operands under `lhs` and `rhs`.
pub open spec fn writes_predicate(d: WireDict, p: PredicateAst) -> bool
    decreases p,
{
    match p {
        PredicateAst::Column { name, dtype } => {
            &&& holds_text(d, "kind"@, "Column"@)
            &&& d.lookup("name"@) == Some(WireValue::Str(name))
            &&& d.lookup("dtype"@) matches Some(WireValue::Str(t)) && dtype_tagged(t@) == Some(
                dtype,
            )
        },
        PredicateAst::LiteralI64(i) => holds_text(d, "kind"@, "LiteralI64"@) && (d.lookup(
            "value"@,
        ) matches Some(v) && v.signed() == Ok::<_, crate::wire::ConversionError>(i)),
        PredicateAst::LiteralF64(f) => holds_text(d, "kind"@, "LiteralF64"@) && (d.lookup(
            "value"@,
        ) matches Some(v) && v.float() == Ok::<_, crate::wire::ConversionError>(f)),
        PredicateAst::LiteralBool(b) => holds_text(d, "kind"@, "LiteralBool"@) && d.lookup(
            "value"@,
        ) == Some(WireValue::Bool(b)),
        PredicateAst::Compare { op, lhs, rhs } => {
            &&& holds_text(d, "kind"@, "Compare"@)
            &&& holds_text(d, "op"@, comparison_name(op))
            &&& d.lookup("lhs"@) matches Some(WireValue::Dict(l)) && writes_predicate(l, *lhs)
            &&& d.lookup("rhs"@) matches Some(WireValue::Dict(r)) && writes_predicate(r, *rhs)
        },
        PredicateAst::And(lhs, rhs) => {
            &&& holds_text(d, "kind"@, "And"@)
            &&& d.lookup("lhs"@) matches Some(WireValue::Dict(l)) && writes_predicate(l, *lhs)
            &&& d.lookup("rhs"@) matches Some(WireValue::Dict(r)) && writes_predicate(r, *rhs)
        },
        PredicateAst::Or(lhs, rhs) => {
            &&& holds_text(d, "kind"@, "Or"@)
            &&& d.lookup("lhs"@) matches Some(WireValue::Dict(l)) && writes_predicate(l, *lhs)
            &&& d.lookup("rhs"@) matches Some(WireValue::Dict(r)) && writes_predicate(r, *rhs)
        },
    }
}

/// Both operands of a predicate mapping read back.
proof fn lemma_operands(d: WireDict, p: PredicateAst, lhs: PredicateAst, rhs: PredicateAst)
    requires
        decreases_to!(p => lhs),
        decreases_to!(p => rhs),
    ensures
        forall|c: Seq<char>| #[trigger] operand_at(d, "lhs"@, c) == Ok::<PredicateAst, Fault>(lhs)
            <==> (d.lookup("lhs"@) matches Some(WireValue::Dict(l)) && writes_predicate(l, lhs)),
        forall|c: Seq<char>| #[trigger] operand_at(d, "rhs"@, c) == Ok::<PredicateAst, Fault>(rhs)
            <==> (d.lookup("rhs"@) matches Some(WireValue::Dict(r)) && writes_predicate(r, rhs)),
    decreases p, 0int,
{
    reveal_with_fuel(operand_at, 2);
    match d.lookup("lhs"@) {
        Some(WireValue::Dict(l)) => {
            predicates_read_back(l, lhs);
        },
        _ => {},
    }
    match d.lookup("rhs"@) {
        Some(WireValue::Dict(r)) => {
            predicates_read_back(r, rhs);
        },
        _ => {},
    }
}

/// Reading a predicate gives back the one that was written: operands on their
/// own sides, comparisons and connectives as named.
pub proof fn predicates_read_back(d: WireDict, p: PredicateAst)
    ensures
        predicate_of(d) == Ok::<PredicateAst, Fault>(p) <==> writes_predicate(d, p),
    decreases p, 1int,
{
    lemma_kinds();
    reveal_with_fuel(predicate_of, 2);
    match p {
        PredicateAst::Compare { op, lhs, rhs } => {
            lemma_operands(d, p, *lhs, *rhs);
            match d.lookup("op"@) {
                Some(WireValue::Str(tag)) => {
                    comparison_names_read_back(op, tag@);
                    assert(required_text(d, "op"@, "Compare missing 'op'"@) == Ok::<String, Fault>(
                        tag,
                    ));
                    if predicate_of(d) == Ok::<PredicateAst, Fault>(p) {
                        assert(parsed_compare_op(tag@) == Ok::<CompareOp, Fault>(op));
                        assert(operand_at(d, "lhs"@, "Compare missing 'lhs'"@) == Ok::<
                            PredicateAst,
                            Fault,
                        >(*lhs));
                        assert(writes_predicate(d, p));
                    }
                    if writes_predicate(d, p) {
                        assert(operand_at(d, "lhs"@, "Compare missing 'lhs'"@) == Ok::<
                            PredicateAst,
                            Fault,
                        >(*lhs));
                        assert(operand_at(d, "rhs"@, "Compare missing 'rhs'"@) == Ok::<
                            PredicateAst,
                            Fault,
                        >(*rhs));
                        assert(predicate_of(d) == Ok::<PredicateAst, Fault>(p));
                    }
                },
                _ => {},
            }
        },
        PredicateAst::And(lhs, rhs) => {
            lemma_operands(d, p, *lhs, *rhs);
        },
        PredicateAst::Or(lhs, rhs) => {
            lemma_operands(d, p, *lhs, *rhs);
        },
        _ => {},
    }
}

/// The entries write columns, each as its name and the tag of its type.
pub open spec fn writes_columns(items: Seq<WireValue>, columns: Seq<(String, MetalDtype)>) -> bool {
    &&& items.len() == columns.len()
    &&& forall|i: int|
        0 <= i < items.len() ==> (#[trigger] items[i].texts() matches Ok(pair) && pair.len() == 2
            && pair[0] == columns[i].0 && dtype_tagged(pair[1]@) == Some(columns[i].1))
}

/// The columns of a scan read back.
proof fn lemma_columns_read_back(
    items: Seq<WireValue>,
    n: int,
    columns: Seq<(String, MetalDtype)>,
)
    requires
        0 <= n <= items.len(),
    ensures
        scan_columns(items, n) == Ok::<Seq<(String, MetalDtype)>, Fault>(columns)
            <==> writes_columns(items.take(n), columns),
    decreases n,
{
    if n == 0 {
        assert(columns.len() == 0 ==> columns =~= Seq::empty());
    } else {
        let last = items[n - 1];
        if columns.len() == n {
            let front = columns.drop_last();
            lemma_columns_read_back(items, n - 1, front);
            assert(columns =~= front.push(columns.last()));
            if writes_columns(items.take(n), columns) {
                assert forall|i: int| 0 <= i < n - 1 implies (#[trigger] items.take(
                    n - 1,
                )[i].texts() matches Ok(pair) && pair.len() == 2 && pair[0] == front[i].0
                    && dtype_tagged(pair[1]@) == Some(front[i].1)) by {
                    assert(items.take(n)[i].texts() is Ok);
                }
                assert(items.take(n)[n - 1].texts() is Ok);
                assert(scan_column(last) == Ok::<(String, MetalDtype), Fault>(columns.last()));
            }
            if scan_columns(items, n) == Ok::<Seq<(String, MetalDtype)>, Fault>(columns) {
                let got = scan_columns(items, n - 1)->Ok_0;
                assert(got =~= columns.drop_last());
                assert(scan_column(last) == Ok::<(String, MetalDtype), Fault>(columns.last()));
                assert forall|i: int| 0 <= i < n implies (#[trigger] items.take(
                    n,
                )[i].texts() matches Ok(pair) && pair.len() == 2 && pair[0] == columns[i].0
                    && dtype_tagged(pair[1]@) == Some(columns[i].1)) by {
                    if i < n - 1 {
                        assert(items.take(n - 1)[i].texts() is Ok);
                    }
                }
            }
        } else if scan_columns(items, n) == Ok::<Seq<(String, MetalDtype)>, Fault>(columns) {
            let got = scan_columns(items, n - 1)->Ok_0;
            lemma_columns_read_back(items, n - 1, got);
            assert(got.len() == n - 1);
        }
    }
}

/// The mapping writes a plan: a scan with its row count and columns, a
/// projection of an input to some columns, or a filter of an input by a
/// predicate.
pub open spec fn writes_plan(d: WireDict, plan: PlanShape) -> bool
    decreases plan,
{
    match plan {
        PlanShape::Scan { n_rows, scanned } => {
            &&& holds_text(d, "kind"@, "Scan"@)
            &&& d.lookup("n_rows"@) matches Some(v) && v.unsigned() == Ok::<
                _,
                crate::wire::ConversionError,
            >(n_rows)
            &&& d.lookup("columns"@) matches Some(WireValue::List(items)) && writes_columns(
                items@,
                scanned,
            )
        },
        PlanShape::Project { input, selected } => {
            &&& holds_text(d, "kind"@, "Project"@)
            &&& d.lookup("input"@) matches Some(WireValue::Dict(sub)) && writes_plan(sub, *input)
            &&& d.lookup("columns"@) matches Some(v) && v.texts() == Ok::<
                _,
                crate::wire::ConversionError,
            >(selected)
        },
        PlanShape::Filter { input, predicate } => {
            &&& holds_text(d, "kind"@, "Filter"@)
            &&& d.lookup("input"@) matches Some(WireValue::Dict(sub)) && writes_plan(sub, *input)
            &&& d.lookup("predicate"@) matches Some(WireValue::Dict(sub)) && writes_predicate(
                sub,
                predicate,
            )
        },
        PlanShape::GroupBy { input, keys, aggs } => false,
    }
}

/// Reading a plan gives back the one that was written.
pub proof fn plans_read_back(d: WireDict, plan: PlanShape)
    ensures
        plan_of(d) == Ok::<PlanShape, Fault>(plan) <==> writes_plan(d, plan),
    decreases plan,
{
    lemma_kinds();
    reveal_with_fuel(plan_of, 2);
    reveal_with_fuel(plan_at, 2);
    match plan {
        PlanShape::Scan { n_rows, scanned } => {
            match d.lookup("columns"@) {
                Some(WireValue::List(items)) => {
                    lemma_columns_read_back(items@, items@.len() as int, scanned);
                    assert(items@.take(items@.len() as int) =~= items@);
                },
                _ => {},
            }
        },
        PlanShape::Project { input, selected } => {
            match d.lookup("input"@) {
                Some(WireValue::Dict(sub)) => {
                    plans_read_back(sub, *input);
                },
                _ => {},
            }
        },
        PlanShape::Filter { input, predicate } => {
            match d.lookup("input"@) {
                Some(WireValue::Dict(sub)) => {
                    plans_read_back(sub, *input);
                },
                _ => {},
            }
            match d.lookup("predicate"@) {
                Some(WireValue::Dict(sub)) => {
                    predicates_read_back(sub, predicate);
                },
                _ => {},
            }
        },
        PlanShape::GroupBy { input, keys, aggs } => {},
    }
}

/// The entry writes a key: a list of its name and the tag of its type, and
/// whatever else.
pub open spec fn writes_key(item: WireValue, key: ParsedKey) -> bool {
    item matches WireValue::List(v) && v@.len() >= 2 && v@[0] == WireValue::Str(key.name) && (
    v@[1] matches WireValue::Str(tag) && dtype_tagged(tag@) == Some(key.dtype))
}

/// The entry writes an aggregation: a mapping with its alias, its operator by
/// name, and its input column or its expression. Without a kind the operator
/// `Len` makes it a row count and any other a simple aggregation, whose absent
/// input column has the empty name.
pub open spec fn writes_agg(item: WireValue, agg: ParsedAgg) -> bool {
    item matches WireValue::Dict(d) && {
        let plain = d.text_at("kind"@) is None;
        let counts = holds_text(d, "op"@, "Len"@);
        match agg {
            ParsedAgg::Length { output_alias } => {
                &&& d.lookup("output_alias"@) == Some(WireValue::Str(output_alias))
                &&& holds_text(d, "kind"@, "Length"@) || (plain && counts)
            },
            ParsedAgg::Simple { input_col, op, output_alias } => {
                &&& d.lookup("output_alias"@) == Some(WireValue::Str(output_alias))
                &&& holds_text(d, "kind"@, "Simple"@) || (plain && !counts)
                &&& holds_text(d, "op"@, agg_name(op))
                &&& match d.text_at("input_col"@) {
                    Some(c) => input_col@ == c@,
                    None => input_col@.len() == 0,
                }
            },
            ParsedAgg::Expression { expr, op, output_alias } => {
                &&& d.lookup("output_alias"@) == Some(WireValue::Str(output_alias))
                &&& holds_text(d, "kind"@, "Expression"@)
                &&& holds_text(d, "op"@, agg_name(op))
                &&& d.lookup("expr"@) matches Some(WireValue::Dict(sub)) && writes_expr(sub, expr)
                &&& expr.tree_depth() <= 4
            },
        }
    }
}

/// Keys read back.
pub proof fn keys_read_back(item: WireValue, key: ParsedKey)
    ensures
        key_of(item) == Ok::<ParsedKey, ParseFault>(key) <==> writes_key(item, key),
{
}

/// The name of an aggregation operator on the wire.
pub open spec fn agg_name(op: AggOp) -> Seq<char> {
    match op {
        AggOp::Sum => "Sum"@,
        AggOp::Mean => "Mean"@,
        AggOp::Count => "Count"@,
        AggOp::Min => "Min"@,
        AggOp::Max => "Max"@,
        AggOp::Len => "Len"@,
    }
}

/// Aggregation operators are read from their own names and from nothing else.
pub proof fn agg_ops_read_back(op: AggOp, tag: Seq<char>)
    ensures
        agg_op_tagged(tag) == Some(op) <==> tag == agg_name(op),
        op.tag() == agg_name(op),
{
    agg_op_tags_parse_back(op);
}

/// Aggregations read back: the operator, the input and the alias each from its
/// own field.
pub proof fn aggs_read_back(item: WireValue, agg: ParsedAgg)
    ensures
        agg_matches(item, Ok(agg)) <==> writes_agg(item, agg),
{
    lemma_kinds();
    match item {
        WireValue::Dict(d) => {
            match agg {
                ParsedAgg::Expression { expr, op, output_alias } => {
                    match d.text_at("op"@) {
                        Some(tag) => {
                            agg_ops_read_back(op, tag@);
                        },
                        None => {},
                    }
                    match d.lookup("expr"@) {
                        Some(WireValue::Dict(sub)) => {
                            expressions_read_back(sub, expr);
                        },
                        _ => {},
                    }
                },
                ParsedAgg::Simple { input_col, op, output_alias } => {
                    match d.text_at("op"@) {
                        Some(tag) => {
                            agg_ops_read_back(op, tag@);
                        },
                        None => {},
                    }
                    assert(input_col@.len() == 0 ==> input_col@ =~= Seq::empty());
                },
                ParsedAgg::Length { output_alias } => {},
            }
        },
        _ => {},
    }
}

/// Reading a group-by plan gives back the one that was written: its keys and
/// its aggregations, each in order.
pub proof fn groupby_plans_read_back(d: WireDict, plan: ParsedGroupByPlan)
    ensures
        plan_outcome(d, Ok(plan)) <==> {
            &&& d.lookup("keys"@) matches Some(WireValue::List(items)) && items@.len()
                == plan.keys@.len() && forall|i: int|
                0 <= i < items@.len() ==> writes_key(#[trigger] items@[i], plan.keys@[i])
            &&& d.lookup("aggs"@) matches Some(WireValue::List(items)) && items@.len()
                == plan.aggs@.len() && forall|i: int|
                0 <= i < items@.len() ==> writes_agg(#[trigger] items@[i], plan.aggs@[i])
        },
{
    match d.lookup("keys"@) {
        Some(WireValue::List(items)) => {
            assert forall|i: int| 0 <= i < items@.len() implies (key_of(#[trigger] items@[i])
                == Ok::<ParsedKey, ParseFault>(plan.keys@[i]) <==> writes_key(
                items@[i],
                plan.keys@[i],
            )) by {
                keys_read_back(items@[i], plan.keys@[i]);
            }
        },
        _ => {},
    }
    match d.lookup("aggs"@) {
        Some(WireValue::List(items)) => {
            assert forall|i: int| 0 <= i < items@.len() implies (agg_matches(
                #[trigger] items@[i],
                Ok(plan.aggs@[i]),
            ) <==> writes_agg(items@[i], plan.aggs@[i])) by {
                aggs_read_back(items@[i], plan.aggs@[i]);
            }
        },
        _ => {},
    }
}

/// The name of a column type on the wire.
pub open spec fn dtype_name(d: MetalDtype) -> Seq<char> {
    match d {
        MetalDtype::I64 => "I64"@,
        MetalDtype::F64 => "F64"@,
        MetalDtype::Bool => "Bool"@,
        MetalDtype::I32 => "I32"@,
        MetalDtype::F32 => "F32"@,
        MetalDtype::I8 => "I8"@,
        MetalDtype::I16 => "I16"@,
        MetalDtype::U8 => "U8"@,
        MetalDtype::U16 => "U16"@,
        MetalDtype::U32 => "U32"@,
        MetalDtype::U64 => "U64"@,
        MetalDtype::Utf8 => "Utf8"@,
    }
}

/// Column types are read from their own names; dates are read as 32-bit
/// integers, and text has a second name. Unsigned 64-bit integers are not read,
/// and nothing else is a column type.
pub proof fn dtypes_read_back(tag: Seq<char>, d: MetalDtype)
    ensures
        d.tag() == dtype_name(d),
        dtype_tagged(tag) == Some(d) <==> {
            ||| tag == dtype_name(d) && d != MetalDtype::U64
            ||| tag == "Date"@ && d == MetalDtype::I32
            ||| tag == "String"@ && d == MetalDtype::Utf8
        },
{
    if d != MetalDtype::U64 {
        dtype_tags_parse_back(d);
    }
    reveal_strlit("I64");
    reveal_strlit("F64");
    reveal_strlit("Bool");
    reveal_strlit("I32");
    reveal_strlit("F32");
    reveal_strlit("I8");
    reveal_strlit("I16");
    reveal_strlit("U8");
    reveal_strlit("U16");
    reveal_strlit("U32");
    reveal_strlit("Utf8");
    reveal_strlit("Date");
    reveal_strlit("String");
    assert("Date"@[0] == 'D' && "String"@[0] == 'S');
    assert("I64"@[0] == 'I' && "I32"@[0] == 'I' && "I16"@[0] == 'I' && "I8"@[0] == 'I');
    assert("U32"@[0] == 'U' && "U16"@[0] == 'U' && "U8"@[0] == 'U' && "Utf8"@[0] == 'U');
    assert("F64"@[0] == 'F' && "F32"@[0] == 'F' && "Bool"@[0] == 'B');
}

} // verus!
