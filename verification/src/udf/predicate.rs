//! Plans and predicates received from the plan walker.

use vstd::prelude::*;

use crate::error::{Failure, Fault};
use crate::fields::{
    get_required, get_required_dict, get_required_text, lemma_required_dict_smaller, required,
    required_dict, required_text,
};
use crate::plan::{dtype_tagged, CompareOp, MetalDtype, MetalPlanNode, PlanShape, PredicateAst};
use crate::text;
use crate::text::{decimal, quoted};
use crate::wire::{WireDict, WireValue};

verus! {

/// The type that a tag names, or the complaint about the tag.
pub open spec fn parsed_dtype(tag: Seq<char>) -> Result<MetalDtype, Fault> {
    match dtype_tagged(tag) {
        Some(d) => Ok(d),
        None => Err(Fault::Value("polars_metal: unknown MetalDtype tag "@ + quoted(tag))),
    }
}

/// Parses a type tag.
pub fn parse_dtype(s: &str) -> (r: Result<MetalDtype, Failure>)
    ensures
        match r {
            Ok(d) => parsed_dtype(s@) == Ok::<MetalDtype, Fault>(d),
            Err(e) => parsed_dtype(s@) == Err::<MetalDtype, Fault>(e@),
        },
{
    match MetalDtype::from_wire(s) {
        Some(d) => Ok(d),
        None => {
            let mut out: String = "polars_metal: unknown MetalDtype tag ".to_owned();
            text::push_quoted(&mut out, s);
            Err(Failure::Value(out))
        },
    }
}

/// The comparison that a tag names, or the complaint about the tag.
pub open spec fn parsed_compare_op(tag: Seq<char>) -> Result<CompareOp, Fault> {
    if tag == "Eq"@ {
        Ok(CompareOp::Eq)
    } else if tag == "Ne"@ {
        Ok(CompareOp::Ne)
    } else if tag == "Lt"@ {
        Ok(CompareOp::Lt)
    } else if tag == "Le"@ {
        Ok(CompareOp::Le)
    } else if tag == "Gt"@ {
        Ok(CompareOp::Gt)
    } else if tag == "Ge"@ {
        Ok(CompareOp::Ge)
    } else {
        Err(Fault::Value("polars_metal: unknown CompareOp tag "@ + quoted(tag)))
    }
}

/// Parses a comparison tag.
pub fn parse_compare_op(s: &str) -> (r: Result<CompareOp, Failure>)
    ensures
        match r {
            Ok(op) => parsed_compare_op(s@) == Ok::<CompareOp, Fault>(op),
            Err(e) => parsed_compare_op(s@) == Err::<CompareOp, Fault>(e@),
        },
{
    if text::same(s, "Eq") {
        Ok(CompareOp::Eq)
    } else if text::same(s, "Ne") {
        Ok(CompareOp::Ne)
    } else if text::same(s, "Lt") {
        Ok(CompareOp::Lt)
    } else if text::same(s, "Le") {
        Ok(CompareOp::Le)
    } else if text::same(s, "Gt") {
        Ok(CompareOp::Gt)
    } else if text::same(s, "Ge") {
        Ok(CompareOp::Ge)
    } else {
        let mut out: String = "polars_metal: unknown CompareOp tag ".to_owned();
        text::push_quoted(&mut out, s);
        Err(Failure::Value(out))
    }
}

/// The two operands of a connective or comparison, read left before right.
pub open spec fn operands(
    lhs: Result<PredicateAst, Fault>,
    rhs: Result<PredicateAst, Fault>,
) -> Result<(PredicateAst, PredicateAst), Fault> {
    match lhs {
        Err(e) => Err(e),
        Ok(l) => match rhs {
            Err(e) => Err(e),
            Ok(r) => Ok((l, r)),
        },
    }
}

/// The predicate under a required key.
pub open spec fn operand_at(d: WireDict, key: Seq<char>, complaint: Seq<char>) -> Result<
    PredicateAst,
    Fault,
>
    decreases d, 0int,
{
    match required_dict(d, key, complaint) {
        Err(e) => Err(e),
        Ok(sub) => {
            proof {
                lemma_required_dict_smaller(d, key, complaint);
            }
            predicate_of(sub)
        },
    }
}

/// The predicate that a mapping describes.
pub open spec fn predicate_of(d: WireDict) -> Result<PredicateAst, Fault>
    decreases d, 1int,
{
    match required_text(d, "kind"@, "predicate dict missing 'kind'"@) {
        Err(e) => Err(e),
        Ok(kind) => if kind@ == "Column"@ {
            match required_text(d, "name"@, "Column missing 'name'"@) {
                Err(e) => Err(e),
                Ok(name) => match required_text(d, "dtype"@, "Column missing 'dtype'"@) {
                    Err(e) => Err(e),
                    Ok(tag) => match parsed_dtype(tag@) {
                        Err(e) => Err(e),
                        Ok(dtype) => Ok(PredicateAst::Column { name, dtype }),
                    },
                },
            }
        } else if kind@ == "LiteralI64"@ {
            match required(d, "value"@, "LiteralI64 missing 'value'"@) {
                Err(e) => Err(e),
                Ok(v) => match v.signed() {
                    Err(c) => Err(Fault::Conversion(c)),
                    Ok(i) => Ok(PredicateAst::LiteralI64(i)),
                },
            }
        } else if kind@ == "LiteralF64"@ {
            match required(d, "value"@, "LiteralF64 missing 'value'"@) {
                Err(e) => Err(e),
                Ok(v) => match v.float() {
                    Err(c) => Err(Fault::Conversion(c)),
                    Ok(f) => Ok(PredicateAst::LiteralF64(f)),
                },
            }
        } else if kind@ == "LiteralBool"@ {
            match required(d, "value"@, "LiteralBool missing 'value'"@) {
                Err(e) => Err(e),
                Ok(v) => match v.truth() {
                    Err(c) => Err(Fault::Conversion(c)),
                    Ok(b) => Ok(PredicateAst::LiteralBool(b)),
                },
            }
        } else if kind@ == "Compare"@ {
            match required_text(d, "op"@, "Compare missing 'op'"@) {
                Err(e) => Err(e),
                Ok(tag) => match parsed_compare_op(tag@) {
                    Err(e) => Err(e),
                    Ok(op) => match operands(
                        operand_at(d, "lhs"@, "Compare missing 'lhs'"@),
                        operand_at(d, "rhs"@, "Compare missing 'rhs'"@),
                    ) {
                        Err(e) => Err(e),
                        Ok((l, r)) => Ok(
                            PredicateAst::Compare { op, lhs: Box::new(l), rhs: Box::new(r) },
                        ),
                    },
                },
            }
        } else if kind@ == "And"@ || kind@ == "Or"@ {
            match operands(
                operand_at(d, "lhs"@, "And/Or missing 'lhs'"@),
                operand_at(d, "rhs"@, "And/Or missing 'rhs'"@),
            ) {
                Err(e) => Err(e),
                Ok((l, r)) => if kind@ == "And"@ {
                    Ok(PredicateAst::And(Box::new(l), Box::new(r)))
                } else {
                    Ok(PredicateAst::Or(Box::new(l), Box::new(r)))
                },
            }
        } else {
            Err(
                Fault::NotImplemented(
                    "polars_metal: predicate kind "@ + quoted(kind@) + " lands in a later phase"@,
                ),
            )
        },
    }
}

/// The predicate under a required key.
fn deserialize_operand(d: &WireDict, key: &str, complaint: &str) -> (r: Result<
    PredicateAst,
    Failure,
>)
    ensures
        match r {
            Ok(p) => operand_at(*d, key@, complaint@) == Ok::<PredicateAst, Fault>(p),
            Err(e) => operand_at(*d, key@, complaint@) == Err::<PredicateAst, Fault>(e@),
        },
    decreases d, 0int,
{
    match get_required_dict(d, key, complaint) {
        Err(e) => Err(e),
        Ok(sub) => deserialize_predicate(sub),
    }
}

/// Reads a predicate.
pub fn deserialize_predicate(d: &WireDict) -> (r: Result<PredicateAst, Failure>)
    ensures
        match r {
            Ok(p) => predicate_of(*d) == Ok::<PredicateAst, Fault>(p),
            Err(e) => predicate_of(*d) == Err::<PredicateAst, Fault>(e@),
        },
    decreases d, 1int,
{
    let kind: String = match get_required_text(d, "kind", "predicate dict missing 'kind'") {
        Ok(s) => s,
        Err(e) => return Err(e),
    };
    if text::same(kind.as_str(), "Column") {
        let name: String = match get_required_text(d, "name", "Column missing 'name'") {
            Ok(s) => s,
            Err(e) => return Err(e),
        };
        let tag: String = match get_required_text(d, "dtype", "Column missing 'dtype'") {
            Ok(s) => s,
            Err(e) => return Err(e),
        };
        match parse_dtype(tag.as_str()) {
            Ok(dtype) => Ok(PredicateAst::Column { name, dtype }),
            Err(e) => Err(e),
        }
    } else if text::same(kind.as_str(), "LiteralI64") {
        match get_required(d, "value", "LiteralI64 missing 'value'") {
            Err(e) => Err(e),
            Ok(v) => match v.to_signed() {
                Ok(i) => Ok(PredicateAst::LiteralI64(i)),
                Err(c) => Err(Failure::Conversion(c)),
            },
        }
    } else if text::same(kind.as_str(), "LiteralF64") {
        match get_required(d, "value", "LiteralF64 missing 'value'") {
            Err(e) => Err(e),
            Ok(v) => match v.to_float() {
                Ok(f) => Ok(PredicateAst::LiteralF64(f)),
                Err(c) => Err(Failure::Conversion(c)),
            },
        }
    } else if text::same(kind.as_str(), "LiteralBool") {
        match get_required(d, "value", "LiteralBool missing 'value'") {
            Err(e) => Err(e),
            Ok(v) => match v.to_truth() {
                Ok(b) => Ok(PredicateAst::LiteralBool(b)),
                Err(c) => Err(Failure::Conversion(c)),
            },
        }
    } else if text::same(kind.as_str(), "Compare") {
        let tag: String = match get_required_text(d, "op", "Compare missing 'op'") {
            Ok(s) => s,
            Err(e) => return Err(e),
        };
        let op: CompareOp = match parse_compare_op(tag.as_str()) {
            Ok(op) => op,
            Err(e) => return Err(e),
        };
        let l: PredicateAst = match deserialize_operand(d, "lhs", "Compare missing 'lhs'") {
            Ok(p) => p,
            Err(e) => return Err(e),
        };
        let r: PredicateAst = match deserialize_operand(d, "rhs", "Compare missing 'rhs'") {
            Ok(p) => p,
            Err(e) => return Err(e),
        };
        Ok(PredicateAst::Compare { op, lhs: Box::new(l), rhs: Box::new(r) })
    } else if text::same(kind.as_str(), "And") || text::same(kind.as_str(), "Or") {
        let l: PredicateAst = match deserialize_operand(d, "lhs", "And/Or missing 'lhs'") {
            Ok(p) => p,
            Err(e) => return Err(e),
        };
        let r: PredicateAst = match deserialize_operand(d, "rhs", "And/Or missing 'rhs'") {
            Ok(p) => p,
            Err(e) => return Err(e),
        };
        if text::same(kind.as_str(), "And") {
            Ok(PredicateAst::And(Box::new(l), Box::new(r)))
        } else {
            Ok(PredicateAst::Or(Box::new(l), Box::new(r)))
        }
    } else {
        let mut out: String = "polars_metal: predicate kind ".to_owned();
        text::push_quoted(&mut out, kind.as_str());
        out.append(" lands in a later phase");
        Err(Failure::NotImplemented(out))
    }
}

/// The scanned column that a pair of name and type tag describes.
pub open spec fn scan_column(entry: WireValue) -> Result<(String, MetalDtype), Fault> {
    match entry.texts() {
        Err(_) => Err(
            Fault::Type("Scan.columns entries must be (name, dtype) 2-element sequences"@),
        ),
        Ok(pair) => if pair.len() != 2 {
            Err(
                Fault::Value(
                    "Scan.columns entry expected 2 elements, got "@ + decimal(pair.len()),
                ),
            )
        } else {
            match parsed_dtype(pair[1]@) {
                Err(e) => Err(e),
                Ok(d) => Ok((pair[0], d)),
            }
        },
    }
}

/// The scanned columns that the first `n` entries describe.
pub open spec fn scan_columns(items: Seq<WireValue>, n: int) -> Result<
    Seq<(String, MetalDtype)>,
    Fault,
>
    decreases n,
{
    if n <= 0 {
        Ok(Seq::empty())
    } else {
        match scan_columns(items, n - 1) {
            Err(e) => Err(e),
            Ok(front) => match scan_column(items[n - 1]) {
                Err(e) => Err(e),
                Ok(c) => Ok(front.push(c)),
            },
        }
    }
}

proof fn lemma_scan_fault_kept(items: Seq<WireValue>, n: int, m: int)
    requires
        0 <= n <= m,
        scan_columns(items, n) is Err,
    ensures
        scan_columns(items, m) == scan_columns(items, n),
    decreases m,
{
    if n < m {
        lemma_scan_fault_kept(items, n, m - 1);
    }
}

fn read_scan_column(entry: &WireValue) -> (r: Result<(String, MetalDtype), Failure>)
    ensures
        match r {
            Ok(c) => scan_column(*entry) == Ok::<(String, MetalDtype), Fault>(c),
            Err(e) => scan_column(*entry) == Err::<(String, MetalDtype), Fault>(e@),
        },
{
    let pair: Vec<String> = match entry.to_texts() {
        Ok(p) => p,
        Err(_) => return Err(
            Failure::Type(
                "Scan.columns entries must be (name, dtype) 2-element sequences".to_owned(),
            ),
        ),
    };
    if pair.len() != 2 {
        let mut out: String = "Scan.columns entry expected 2 elements, got ".to_owned();
        text::push_decimal(&mut out, pair.len() as u128);
        return Err(Failure::Value(out));
    }
    match parse_dtype(pair[1].as_str()) {
        Ok(d) => Ok((pair[0].clone(), d)),
        Err(e) => Err(e),
    }
}

fn read_scan_columns(items: &Vec<WireValue>) -> (r: Result<Vec<(String, MetalDtype)>, Failure>)
    ensures
        match r {
            Ok(v) => scan_columns(items@, items@.len() as int) == Ok::<
                Seq<(String, MetalDtype)>,
                Fault,
            >(v@),
            Err(e) => scan_columns(items@, items@.len() as int) == Err::<
                Seq<(String, MetalDtype)>,
                Fault,
            >(e@),
        },
{
    let mut out: Vec<(String, MetalDtype)> = Vec::new();
    assert(out@ =~= Seq::<(String, MetalDtype)>::empty());
    let mut i: usize = 0;
    while i < items.len()
        invariant
            i <= items@.len(),
            scan_columns(items@, i as int) == Ok::<Seq<(String, MetalDtype)>, Fault>(out@),
        decreases items@.len() - i,
    {
        match read_scan_column(&items[i]) {
            Ok(c) => {
                out.push(c);
            },
            Err(e) => {
                proof {
                    lemma_scan_fault_kept(items@, i + 1, items@.len() as int);
                }
                return Err(e);
            },
        }
        i = i + 1;
    }
    Ok(out)
}

/// The plan under a required key.
pub open spec fn plan_at(d: WireDict, key: Seq<char>, complaint: Seq<char>) -> Result<
    PlanShape,
    Fault,
>
    decreases d, 0int,
{
    match required_dict(d, key, complaint) {
        Err(e) => Err(e),
        Ok(sub) => {
            proof {
                lemma_required_dict_smaller(d, key, complaint);
            }
            plan_of(sub)
        },
    }
}

/// The plan that a mapping describes.
pub open spec fn plan_of(d: WireDict) -> Result<PlanShape, Fault>
    decreases d, 1int,
{
    match required_text(d, "kind"@, "plan dict missing 'kind'"@) {
        Err(e) => Err(e),
        Ok(kind) => if kind@ == "Scan"@ {
            match required(d, "n_rows"@, "Scan missing 'n_rows'"@) {
                Err(e) => Err(e),
                Ok(v) => match v.unsigned() {
                    Err(c) => Err(Fault::Conversion(c)),
                    Ok(n_rows) => match required(d, "columns"@, "Scan missing 'columns'"@) {
                        Err(e) => Err(e),
                        Ok(cols) => match cols.list() {
                            Err(c) => Err(Fault::Conversion(c)),
                            Ok(items) => match scan_columns(items, items.len() as int) {
                                Err(e) => Err(e),
                                Ok(scanned) => Ok(PlanShape::Scan { n_rows, scanned }),
                            },
                        },
                    },
                },
            }
        } else if kind@ == "Project"@ {
            match plan_at(d, "input"@, "Project missing 'input'"@) {
                Err(e) => Err(e),
                Ok(input) => match required(d, "columns"@, "Project missing 'columns'"@) {
                    Err(e) => Err(e),
                    Ok(v) => match v.texts() {
                        Err(c) => Err(Fault::Conversion(c)),
                        Ok(selected) => Ok(
                            PlanShape::Project { input: Box::new(input), selected },
                        ),
                    },
                },
            }
        } else if kind@ == "Filter"@ {
            match plan_at(d, "input"@, "Filter missing 'input'"@) {
                Err(e) => Err(e),
                Ok(input) => match required_dict(
                    d,
                    "predicate"@,
                    "Filter missing 'predicate'"@,
                ) {
                    Err(e) => Err(e),
                    Ok(sub) => match predicate_of(sub) {
                        Err(e) => Err(e),
                        Ok(predicate) => Ok(
                            PlanShape::Filter { input: Box::new(input), predicate },
                        ),
                    },
                },
            }
        } else {
            Err(Fault::Value("polars_metal: unknown plan kind "@ + quoted(kind@)))
        },
    }
}

/// The plan under a required key.
fn deserialize_input(d: &WireDict, key: &str, complaint: &str) -> (r: Result<
    MetalPlanNode,
    Failure,
>)
    ensures
        match r {
            Ok(p) => plan_at(*d, key@, complaint@) == Ok::<PlanShape, Fault>(p.shape()),
            Err(e) => plan_at(*d, key@, complaint@) == Err::<PlanShape, Fault>(e@),
        },
    decreases d, 0int,
{
    match get_required_dict(d, key, complaint) {
        Err(e) => Err(e),
        Ok(sub) => deserialize_plan(sub),
    }
}

/// Reads a plan of scans, projections and filters.
pub fn deserialize_plan(d: &WireDict) -> (r: Result<MetalPlanNode, Failure>)
    ensures
        match r {
            Ok(p) => plan_of(*d) == Ok::<PlanShape, Fault>(p.shape()),
            Err(e) => plan_of(*d) == Err::<PlanShape, Fault>(e@),
        },
    decreases d, 1int,
{
    let kind: String = match get_required_text(d, "kind", "plan dict missing 'kind'") {
        Ok(s) => s,
        Err(e) => return Err(e),
    };
    if text::same(kind.as_str(), "Scan") {
        let n_rows: usize = match get_required(d, "n_rows", "Scan missing 'n_rows'") {
            Err(e) => return Err(e),
            Ok(v) => match v.to_unsigned() {
                Ok(n) => n,
                Err(c) => return Err(Failure::Conversion(c)),
            },
        };
        let columns: Vec<(String, MetalDtype)> = match get_required(
            d,
            "columns",
            "Scan missing 'columns'",
        ) {
            Err(e) => return Err(e),
            Ok(v) => match v.to_list() {
                Err(c) => return Err(Failure::Conversion(c)),
                Ok(items) => match read_scan_columns(items) {
                    Ok(c) => c,
                    Err(e) => return Err(e),
                },
            },
        };
        Ok(MetalPlanNode::Scan { n_rows, columns })
    } else if text::same(kind.as_str(), "Project") {
        let input: MetalPlanNode = match deserialize_input(
            d,
            "input",
            "Project missing 'input'",
        ) {
            Ok(p) => p,
            Err(e) => return Err(e),
        };
        match get_required(d, "columns", "Project missing 'columns'") {
            Err(e) => Err(e),
            Ok(v) => match v.to_texts() {
                Ok(columns) => Ok(MetalPlanNode::Project { input: Box::new(input), columns }),
                Err(c) => Err(Failure::Conversion(c)),
            },
        }
    } else if text::same(kind.as_str(), "Filter") {
        let input: MetalPlanNode = match deserialize_input(d, "input", "Filter missing 'input'") {
            Ok(p) => p,
            Err(e) => return Err(e),
        };
        match get_required_dict(d, "predicate", "Filter missing 'predicate'") {
            Err(e) => Err(e),
            Ok(sub) => match deserialize_predicate(sub) {
                Ok(predicate) => Ok(MetalPlanNode::Filter { input: Box::new(input), predicate }),
                Err(e) => Err(e),
            },
        }
    } else {
        let mut out: String = "polars_metal: unknown plan kind ".to_owned();
        text::push_quoted(&mut out, kind.as_str());
        Err(Failure::Value(out))
    }
}

/// The column selections that a plan amounts to, in the order in which they
/// are applied to the captured frame.
pub open spec fn selections(plan: PlanShape) -> Result<Seq<Seq<String>>, Fault>
    decreases plan,
{
    match plan {
        PlanShape::Scan { n_rows, scanned } => Ok(Seq::empty()),
        PlanShape::Project { input, selected } => match selections(*input) {
            Err(e) => Err(e),
            Ok(before) => Ok(before.push(selected)),
        },
        PlanShape::Filter { input, predicate } => Err(
            Fault::NotImplemented(
                "polars_metal: Filter nodes must be dispatched via execute_filter_compact, not execute_plan (the Python UDF handles the routing)"@,
            ),
        ),
        PlanShape::GroupBy { input, keys, aggs } => Err(
            Fault::NotImplemented(
                "polars_metal: GroupBy execution not yet implemented (lands in Phase 2)"@,
            ),
        ),
    }
}

/// The contents of a list of selections.
pub open spec fn selected(v: Seq<Vec<String>>) -> Seq<Seq<String>> {
    v.map_values(|s: Vec<String>| s@)
}

/// Interprets a plan as column selections. Filters and group-bys have entry
/// points of their own and are refused.
pub fn execute_node(node: MetalPlanNode) -> (r: Result<Vec<Vec<String>>, Failure>)
    ensures
        match r {
            Ok(v) => selections(node.shape()) == Ok::<Seq<Seq<String>>, Fault>(selected(v@)),
            Err(e) => selections(node.shape()) == Err::<Seq<Seq<String>>, Fault>(e@),
        },
    decreases node,
{
    match node {
        MetalPlanNode::Scan { n_rows, columns } => {
            let none: Vec<Vec<String>> = Vec::new();
            assert(selected(none@) =~= Seq::empty());
            Ok(none)
        },
        MetalPlanNode::Project { input, columns } => match execute_node(*input) {
            Err(e) => Err(e),
            Ok(v) => {
                let mut all: Vec<Vec<String>> = v;
                let ghost before = selected(all@);
                let ghost own = columns@;
                all.push(columns);
                assert(selected(all@) =~= before.push(own));
                Ok(all)
            },
        },
        MetalPlanNode::Filter { input, predicate } => Err(
            Failure::NotImplemented(
                "polars_metal: Filter nodes must be dispatched via execute_filter_compact, not execute_plan (the Python UDF handles the routing)".to_owned(),
            ),
        ),
        MetalPlanNode::GroupBy { input, keys, aggs } => Err(
            Failure::NotImplemented(
                "polars_metal: GroupBy execution not yet implemented (lands in Phase 2)".to_owned(),
            ),
        ),
    }
}

/// What executing a received plan comes to.
pub open spec fn plan_selections(d: WireDict) -> Result<Seq<Seq<String>>, Fault> {
    match plan_of(d) {
        Err(e) => Err(e),
        Ok(plan) => selections(plan),
    }
}

/// Reads a plan and interprets it as column selections.
pub fn execute_plan(d: &WireDict) -> (r: Result<Vec<Vec<String>>, Failure>)
    ensures
        match r {
            Ok(v) => plan_selections(*d) == Ok::<Seq<Seq<String>>, Fault>(selected(v@)),
            Err(e) => plan_selections(*d) == Err::<Seq<Seq<String>>, Fault>(e@),
        },
{
    match deserialize_plan(d) {
        Ok(node) => execute_node(node),
        Err(e) => Err(e),
    }
}

/// The number of projections above the node that a plan rests on.
pub open spec fn projections(plan: PlanShape) -> nat
    decreases plan,
{
    match plan {
        PlanShape::Project { input, selected } => 1 + projections(*input),
        _ => 0,
    }
}

/// The node that the projections of a plan rest on.
pub open spec fn base(plan: PlanShape) -> PlanShape
    decreases plan,
{
    match plan {
        PlanShape::Project { input, selected } => base(*input),
        _ => plan,
    }
}

/// A plan executes exactly when its projections rest on a scan, with one
/// selection for each projection.
pub proof fn projections_over_a_scan_execute(plan: PlanShape)
    ensures
        selections(plan) is Ok <==> base(plan) is Scan,
        selections(plan) matches Ok(s) ==> s.len() == projections(plan),
    decreases plan,
{
    match plan {
        PlanShape::Project { input, selected } => {
            projections_over_a_scan_execute(*input);
        },
        _ => {},
    }
}

/// Selections come in the order in which they apply, the outermost last.
pub proof fn the_outermost_selection_comes_last(plan: PlanShape, s: Seq<Seq<String>>)
    requires
        selections(plan) == Ok::<Seq<Seq<String>>, Fault>(s),
    ensures
        plan matches PlanShape::Project { input, selected } ==> s.len() > 0 && s.last() == selected
            && selections(*input) == Ok::<Seq<Seq<String>>, Fault>(s.drop_last()),
        plan is Scan ==> s.len() == 0,
        plan is Project || plan is Scan,
{
    match plan {
        PlanShape::Project { input, selected } => {
            let before = selections(*input)->Ok_0;
            assert(before.push(selected).drop_last() =~= before);
        },
        _ => {},
    }
}

} // verus!
