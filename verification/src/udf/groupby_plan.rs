//! Parsing of group-by plans received from the plan walker.

use vstd::prelude::*;

use crate::plan::{
    agg_op_tagged, dtype_tagged, AggExpr, AggOp, BinaryOp, MetalDtype, MAX_EXPR_DEPTH,
};
use crate::text;
use crate::wire::{WireDict, WireValue};

verus! {

/// A group-by plan.
#[derive(Debug)]
pub struct ParsedGroupByPlan {
    pub keys: Vec<ParsedKey>,
    pub aggs: Vec<ParsedAgg>,
}

/// One key column of a group-by plan.
#[derive(Debug)]
pub struct ParsedKey {
    pub name: String,
    pub dtype: MetalDtype,
}

/// One aggregation of a group-by plan.
#[derive(Debug)]
pub enum ParsedAgg {
    Simple { input_col: String, op: AggOp, output_alias: String },
    Expression { expr: AggExpr, op: AggOp, output_alias: String },
    Length { output_alias: String },
}

impl ParsedAgg {
    /// The name of the result column.
    pub open spec fn alias(self) -> String {
        match self {
            ParsedAgg::Simple { input_col, op, output_alias } => output_alias,
            ParsedAgg::Expression { expr, op, output_alias } => output_alias,
            ParsedAgg::Length { output_alias } => output_alias,
        }
    }

    /// The columns that the aggregation reads, from left to right, each once.
    pub open spec fn inputs(self) -> Seq<Seq<char>> {
        match self {
            ParsedAgg::Simple { input_col, op, output_alias } => seq![input_col@],
            ParsedAgg::Expression { expr, op, output_alias } => text::first_seen(
                expr.leaf_columns(),
            ),
            ParsedAgg::Length { output_alias } => Seq::empty(),
        }
    }

    pub fn output_alias(&self) -> (r: &str)
        ensures
            r@ == self.alias()@,
    {
        match self {
            ParsedAgg::Simple { input_col, op, output_alias } => output_alias.as_str(),
            ParsedAgg::Expression { expr, op, output_alias } => output_alias.as_str(),
            ParsedAgg::Length { output_alias } => output_alias.as_str(),
        }
    }

    /// Whether the aggregation is over an inline expression.
    pub fn is_expression(&self) -> (r: bool)
        ensures
            r == (self is Expression),
    {
        match self {
            ParsedAgg::Expression { expr, op, output_alias } => true,
            _ => false,
        }
    }

    /// The columns that the aggregation reads.
    pub fn input_columns(&self) -> (r: Vec<String>)
        ensures
            text::views(r@) == self.inputs(),
    {
        match self {
            ParsedAgg::Length { output_alias } => {
                let none: Vec<String> = Vec::new();
                assert(text::views(none@) =~= Seq::empty());
                none
            },
            ParsedAgg::Simple { input_col, op, output_alias } => {
                let mut one: Vec<String> = Vec::new();
                one.push(input_col.clone());
                assert(text::views(one@) =~= seq![input_col@]);
                one
            },
            ParsedAgg::Expression { expr, op, output_alias } => expr.referenced_columns(),
        }
    }
}

/// Why a group-by plan was refused.
#[derive(Debug)]
pub enum GroupByParseError {
    Missing(&'static str),
    WrongType(&'static str),
    UnknownDtype(String),
    UnknownOp(String),
}

/// The content of a [`GroupByParseError`].
pub enum ParseFault {
    Missing(Seq<char>),
    WrongType(Seq<char>),
    UnknownDtype(Seq<char>),
    UnknownOp(Seq<char>),
}

impl View for GroupByParseError {
    type V = ParseFault;

    open spec fn view(&self) -> ParseFault {
        match *self {
            GroupByParseError::Missing(s) => ParseFault::Missing(s@),
            GroupByParseError::WrongType(s) => ParseFault::WrongType(s@),
            GroupByParseError::UnknownDtype(s) => ParseFault::UnknownDtype(s@),
            GroupByParseError::UnknownOp(s) => ParseFault::UnknownOp(s@),
        }
    }
}

impl ParseFault {
    /// The text shown for the error.
    pub open spec fn message(self) -> Seq<char> {
        match self {
            ParseFault::Missing(s) => "missing required field: "@ + s,
            ParseFault::WrongType(s) => "wrong type for field: "@ + s,
            ParseFault::UnknownDtype(s) => "unknown dtype: "@ + s,
            ParseFault::UnknownOp(s) => "unknown agg op: "@ + s,
        }
    }
}

impl GroupByParseError {
    /// The text shown for the error.
    pub fn message(&self) -> (r: String)
        ensures
            r@ == self@.message(),
    {
        let (lead, detail): (&str, &str) = match self {
            GroupByParseError::Missing(s) => ("missing required field: ", s),
            GroupByParseError::WrongType(s) => ("wrong type for field: ", s),
            GroupByParseError::UnknownDtype(s) => ("unknown dtype: ", s.as_str()),
            GroupByParseError::UnknownOp(s) => ("unknown agg op: ", s.as_str()),
        };
        let mut out: String = lead.to_owned();
        out.append(detail);
        out
    }
}

/// The binary operation that a wire tag names.
pub open spec fn binary_op_tagged(tag: Seq<char>) -> Option<BinaryOp> {
    if tag == "Add"@ {
        Some(BinaryOp::Add)
    } else if tag == "Sub"@ {
        Some(BinaryOp::Sub)
    } else if tag == "Mul"@ {
        Some(BinaryOp::Mul)
    } else if tag == "Div"@ {
        Some(BinaryOp::Div)
    } else {
        None
    }
}

fn binary_op_from_wire(s: &str) -> (r: Option<BinaryOp>)
    ensures
        r == binary_op_tagged(s@),
{
    if text::same(s, "Add") {
        Some(BinaryOp::Add)
    } else if text::same(s, "Sub") {
        Some(BinaryOp::Sub)
    } else if text::same(s, "Mul") {
        Some(BinaryOp::Mul)
    } else if text::same(s, "Div") {
        Some(BinaryOp::Div)
    } else {
        None
    }
}

/// The mapping under `key`. An absent key and a value of another type are
/// told apart by the field that the error names.
pub open spec fn sub_dict(d: WireDict, key: Seq<char>, absent: Seq<char>, not_dict: Seq<char>) -> Result<
    WireDict,
    ParseFault,
> {
    match d.lookup(key) {
        None => Err(ParseFault::WrongType(absent)),
        Some(WireValue::Dict(sub)) => Ok(sub),
        Some(_) => Err(ParseFault::WrongType(not_dict)),
    }
}

fn get_sub_dict<'a, 'b>(
    d: &'a WireDict<'b>,
    key: &str,
    absent: &'static str,
    not_dict: &'static str,
) -> (r: Result<&'a WireDict<'b>, GroupByParseError>)
    ensures
        match r {
            Ok(sub) => sub_dict(*d, key@, absent@, not_dict@) == Ok::<WireDict, ParseFault>(*sub)
                && d.lookup(key@) == Some(WireValue::Dict(*sub)),
            Err(e) => sub_dict(*d, key@, absent@, not_dict@) == Err::<WireDict, ParseFault>(e@),
        },
{
    match d.get(key) {
        None => Err(GroupByParseError::WrongType(absent)),
        Some(WireValue::Dict(sub)) => Ok(sub),
        Some(_) => Err(GroupByParseError::WrongType(not_dict)),
    }
}

/// The expression that a mapping describes.
pub open spec fn expr_of(d: WireDict) -> Result<AggExpr, ParseFault>
    decreases d,
{
    match d.text_at("kind"@) {
        None => Err(ParseFault::WrongType("expr.kind"@)),
        Some(kind) => if kind@ == "Column"@ {
            match d.text_at("name"@) {
                Some(name) => Ok(AggExpr::Column(name)),
                None => Err(ParseFault::WrongType("expr.name"@)),
            }
        } else if kind@ == "LiteralF64"@ {
            match d.lookup("value"@) {
                Some(v) => match v.float() {
                    Ok(f) => Ok(AggExpr::LiteralF64(f)),
                    Err(_) => Err(ParseFault::WrongType("expr.value(f64)"@)),
                },
                None => Err(ParseFault::WrongType("expr.value(f64)"@)),
            }
        } else if kind@ == "LiteralI64"@ {
            match d.lookup("value"@) {
                Some(v) => match v.signed() {
                    Ok(i) => Ok(AggExpr::LiteralI64(i)),
                    Err(_) => Err(ParseFault::WrongType("expr.value(i64)"@)),
                },
                None => Err(ParseFault::WrongType("expr.value(i64)"@)),
            }
        } else if kind@ == "Binary"@ {
            match d.text_at("op"@) {
                None => Err(ParseFault::WrongType("expr.op"@)),
                Some(tag) => match binary_op_tagged(tag@) {
                    None => Err(ParseFault::UnknownOp("binary op "@ + tag@)),
                    Some(op) => match sub_dict(d, "lhs"@, "expr.lhs"@, "expr.lhs(dict)"@) {
                        Err(e) => Err(e),
                        Ok(lhs) => match sub_dict(d, "rhs"@, "expr.rhs"@, "expr.rhs(dict)"@) {
                            Err(e) => Err(e),
                            Ok(rhs) => {
                                proof {
                                    d.lemma_lookup_smaller("lhs"@);
                                    d.lemma_lookup_smaller("rhs"@);
                                }
                                match expr_of(lhs) {
                                    Err(e) => Err(e),
                                    Ok(l) => match expr_of(rhs) {
                                        Err(e) => Err(e),
                                        Ok(r) => Ok(
                                            AggExpr::Binary {
                                                op,
                                                lhs: Box::new(l),
                                                rhs: Box::new(r),
                                            },
                                        ),
                                    },
                                }
                            },
                        },
                    },
                },
            }
        } else {
            Err(ParseFault::UnknownOp("expr kind="@ + kind@))
        },
    }
}

/// `UnknownOp` naming `detail` after a fixed lead.
fn unknown_op(lead: &str, detail: &str) -> (r: GroupByParseError)
    ensures
        r@ == ParseFault::UnknownOp(lead@ + detail@),
{
    let mut s: String = lead.to_owned();
    s.append(detail);
    GroupByParseError::UnknownOp(s)
}

/// Parses an expression mapping.
pub fn parse_agg_expr_dict(d: &WireDict) -> (r: Result<AggExpr, GroupByParseError>)
    ensures
        match r {
            Ok(e) => expr_of(*d) == Ok::<AggExpr, ParseFault>(e),
            Err(e) => expr_of(*d) == Err::<AggExpr, ParseFault>(e@),
        },
    decreases d,
{
    let kind: String = match d.get_text("kind") {
        Some(k) => k,
        None => return Err(GroupByParseError::WrongType("expr.kind")),
    };
    if text::same(kind.as_str(), "Column") {
        match d.get_text("name") {
            Some(name) => Ok(AggExpr::Column(name)),
            None => Err(GroupByParseError::WrongType("expr.name")),
        }
    } else if text::same(kind.as_str(), "LiteralF64") {
        match d.get("value") {
            Some(v) => match v.to_float() {
                Ok(f) => Ok(AggExpr::LiteralF64(f)),
                Err(_) => Err(GroupByParseError::WrongType("expr.value(f64)")),
            },
            None => Err(GroupByParseError::WrongType("expr.value(f64)")),
        }
    } else if text::same(kind.as_str(), "LiteralI64") {
        match d.get("value") {
            Some(v) => match v.to_signed() {
                Ok(i) => Ok(AggExpr::LiteralI64(i)),
                Err(_) => Err(GroupByParseError::WrongType("expr.value(i64)")),
            },
            None => Err(GroupByParseError::WrongType("expr.value(i64)")),
        }
    } else if text::same(kind.as_str(), "Binary") {
        let tag: String = match d.get_text("op") {
            Some(t) => t,
            None => return Err(GroupByParseError::WrongType("expr.op")),
        };
        let op: BinaryOp = match binary_op_from_wire(tag.as_str()) {
            Some(op) => op,
            None => return Err(unknown_op("binary op ", tag.as_str())),
        };
        let lhs: &WireDict = match get_sub_dict(d, "lhs", "expr.lhs", "expr.lhs(dict)") {
            Ok(s) => s,
            Err(e) => return Err(e),
        };
        let rhs: &WireDict = match get_sub_dict(d, "rhs", "expr.rhs", "expr.rhs(dict)") {
            Ok(s) => s,
            Err(e) => return Err(e),
        };
        proof {
            d.lemma_lookup_smaller("lhs"@);
            d.lemma_lookup_smaller("rhs"@);
        }
        let l: AggExpr = match parse_agg_expr_dict(lhs) {
            Ok(e) => e,
            Err(e) => return Err(e),
        };
        let r: AggExpr = match parse_agg_expr_dict(rhs) {
            Ok(e) => e,
            Err(e) => return Err(e),
        };
        Ok(AggExpr::Binary { op, lhs: Box::new(l), rhs: Box::new(r) })
    } else {
        Err(unknown_op("expr kind=", kind.as_str()))
    }
}

/// The key column that a list of name and type tag describes. Items after the
/// second are ignored.
pub open spec fn key_of(item: WireValue) -> Result<ParsedKey, ParseFault> {
    match item {
        WireValue::List(entry) => if entry@.len() < 2 {
            Err(ParseFault::WrongType("key entry"@))
        } else {
            match entry@[0].as_text() {
                None => Err(ParseFault::WrongType("key name"@)),
                Some(name) => match entry@[1].as_text() {
                    None => Err(ParseFault::WrongType("key dtype"@)),
                    Some(tag) => match dtype_tagged(tag@) {
                        None => Err(ParseFault::UnknownDtype(tag@)),
                        Some(dtype) => Ok(ParsedKey { name, dtype }),
                    },
                },
            }
        },
        _ => Err(ParseFault::WrongType("key entry"@)),
    }
}

fn parse_key(item: &WireValue) -> (r: Result<ParsedKey, GroupByParseError>)
    ensures
        match r {
            Ok(k) => key_of(*item) == Ok::<ParsedKey, ParseFault>(k),
            Err(e) => key_of(*item) == Err::<ParsedKey, ParseFault>(e@),
        },
{
    let entry: &Vec<WireValue> = match item {
        WireValue::List(v) => v,
        _ => return Err(GroupByParseError::WrongType("key entry")),
    };
    if entry.len() < 2 {
        return Err(GroupByParseError::WrongType("key entry"));
    }
    let name: String = match &entry[0] {
        WireValue::Str(s) => s.clone(),
        _ => return Err(GroupByParseError::WrongType("key name")),
    };
    let tag: String = match &entry[1] {
        WireValue::Str(s) => s.clone(),
        _ => return Err(GroupByParseError::WrongType("key dtype")),
    };
    match MetalDtype::from_wire(tag.as_str()) {
        Some(dtype) => Ok(ParsedKey { name, dtype }),
        None => Err(GroupByParseError::UnknownDtype(tag)),
    }
}

/// The kind of an aggregation entry: its `kind` text, or, without one, the
/// kind that its operator implies.
pub open spec fn agg_kind_of(d: WireDict) -> Seq<char> {
    match d.text_at("kind"@) {
        Some(kind) => kind@,
        None => if d.text_at("op"@) matches Some(op) && op@ == "Len"@ {
            "Length"@
        } else {
            "Simple"@
        },
    }
}

/// The operator of an aggregation entry.
pub open spec fn agg_entry_op(d: WireDict) -> Result<AggOp, ParseFault> {
    match d.text_at("op"@) {
        None => Err(ParseFault::WrongType("op"@)),
        Some(tag) => match agg_op_tagged(tag@) {
            None => Err(ParseFault::UnknownOp(tag@)),
            Some(op) => Ok(op),
        },
    }
}

fn parse_entry_op(d: &WireDict) -> (r: Result<AggOp, GroupByParseError>)
    ensures
        match r {
            Ok(op) => agg_entry_op(*d) == Ok::<AggOp, ParseFault>(op),
            Err(e) => agg_entry_op(*d) == Err::<AggOp, ParseFault>(e@),
        },
{
    match d.get_text("op") {
        None => Err(GroupByParseError::WrongType("op")),
        Some(tag) => match AggOp::from_wire(tag.as_str()) {
            Some(op) => Ok(op),
            None => Err(GroupByParseError::UnknownOp(tag)),
        },
    }
}

/// What an aggregation entry must parse to: the aggregation, or the fault.
/// An absent input column reads as the empty name.
pub open spec fn agg_matches(item: WireValue, r: Result<ParsedAgg, ParseFault>) -> bool {
    match item {
        WireValue::Dict(d) => {
            let kind = agg_kind_of(d);
            match d.text_at("output_alias"@) {
                None => r == Err::<ParsedAgg, ParseFault>(ParseFault::WrongType("output_alias"@)),
                Some(output_alias) => if kind == "Length"@ {
                    r == Ok::<ParsedAgg, ParseFault>(ParsedAgg::Length { output_alias })
                } else if kind == "Simple"@ {
                    match agg_entry_op(d) {
                        Err(e) => r == Err::<ParsedAgg, ParseFault>(e),
                        Ok(op) => match r {
                            Ok(ParsedAgg::Simple { input_col, op: o, output_alias: a }) => {
                                &&& o == op
                                &&& a == output_alias
                                &&& input_col@ == (match d.text_at("input_col"@) {
                                    Some(c) => c@,
                                    None => Seq::empty(),
                                })
                            },
                            _ => false,
                        },
                    }
                } else if kind == "Expression"@ {
                    match agg_entry_op(d) {
                        Err(e) => r == Err::<ParsedAgg, ParseFault>(e),
                        Ok(op) => match sub_dict(d, "expr"@, "expr"@, "expr(dict)"@) {
                            Err(e) => r == Err::<ParsedAgg, ParseFault>(e),
                            Ok(sub) => match expr_of(sub) {
                                Err(e) => r == Err::<ParsedAgg, ParseFault>(e),
                                Ok(expr) => if expr.tree_depth() > MAX_EXPR_DEPTH {
                                    r == Err::<ParsedAgg, ParseFault>(
                                        ParseFault::WrongType("expr(too deep)"@),
                                    )
                                } else {
                                    r == Ok::<ParsedAgg, ParseFault>(
                                        ParsedAgg::Expression { expr, op, output_alias },
                                    )
                                },
                            },
                        },
                    }
                } else {
                    r == Err::<ParsedAgg, ParseFault>(ParseFault::UnknownOp("kind="@ + kind))
                },
            }
        },
        _ => r == Err::<ParsedAgg, ParseFault>(ParseFault::WrongType("agg entry"@)),
    }
}

/// A parse result with its error reduced to content.
pub open spec fn faulted<T>(r: Result<T, GroupByParseError>) -> Result<T, ParseFault> {
    match r {
        Ok(v) => Ok(v),
        Err(e) => Err(e@),
    }
}

fn parse_agg(item: &WireValue) -> (r: Result<ParsedAgg, GroupByParseError>)
    ensures
        agg_matches(*item, faulted(r)),
{
    let d: &WireDict = match item {
        WireValue::Dict(d) => d,
        _ => return Err(GroupByParseError::WrongType("agg entry")),
    };
    let kind: String = match d.get_text("kind") {
        Some(k) => k,
        None => match d.get_text("op") {
            Some(op) => if text::same(op.as_str(), "Len") {
                "Length".to_owned()
            } else {
                "Simple".to_owned()
            },
            None => "Simple".to_owned(),
        },
    };
    let output_alias: String = match d.get_text("output_alias") {
        Some(a) => a,
        None => return Err(GroupByParseError::WrongType("output_alias")),
    };
    if text::same(kind.as_str(), "Length") {
        Ok(ParsedAgg::Length { output_alias })
    } else if text::same(kind.as_str(), "Simple") {
        let input_col: String = match d.get_text("input_col") {
            Some(c) => c,
            None => String::new(),
        };
        match parse_entry_op(d) {
            Ok(op) => Ok(ParsedAgg::Simple { input_col, op, output_alias }),
            Err(e) => Err(e),
        }
    } else if text::same(kind.as_str(), "Expression") {
        let op: AggOp = match parse_entry_op(d) {
            Ok(op) => op,
            Err(e) => return Err(e),
        };
        let sub: &WireDict = match get_sub_dict(d, "expr", "expr", "expr(dict)") {
            Ok(s) => s,
            Err(e) => return Err(e),
        };
        let expr: AggExpr = match parse_agg_expr_dict(sub) {
            Ok(e) => e,
            Err(e) => return Err(e),
        };
        match expr.validate() {
            Ok(_) => Ok(ParsedAgg::Expression { expr, op, output_alias }),
            Err(_) => Err(GroupByParseError::WrongType("expr(too deep)")),
        }
    } else {
        Err(unknown_op("kind=", kind.as_str()))
    }
}

/// The items of the list under a required field.
pub open spec fn required_list(d: WireDict, field: Seq<char>) -> Result<
    Seq<WireValue>,
    ParseFault,
> {
    match d.lookup(field) {
        None => Err(ParseFault::Missing(field)),
        Some(WireValue::List(v)) => Ok(v@),
        Some(_) => Err(ParseFault::WrongType(field)),
    }
}

fn get_required_list<'a, 'b>(d: &'a WireDict<'b>, field: &'static str) -> (r: Result<
    &'a Vec<WireValue<'b>>,
    GroupByParseError,
>)
    ensures
        match r {
            Ok(v) => required_list(*d, field@) == Ok::<Seq<WireValue>, ParseFault>(v@),
            Err(e) => required_list(*d, field@) == Err::<Seq<WireValue>, ParseFault>(e@),
        },
{
    match d.get(field) {
        None => Err(GroupByParseError::Missing(field)),
        Some(WireValue::List(v)) => Ok(v),
        Some(_) => Err(GroupByParseError::WrongType(field)),
    }
}

/// The first `n` key entries all parse, to `keys`.
pub open spec fn keys_parse(items: Seq<WireValue>, keys: Seq<ParsedKey>, n: int) -> bool {
    &&& keys.len() == n
    &&& forall|i: int|
        0 <= i < n ==> key_of(#[trigger] items[i]) == Ok::<ParsedKey, ParseFault>(keys[i])
}

/// Entry `i` is the first that does not parse as a key, for the reason `e`.
pub open spec fn first_bad_key(items: Seq<WireValue>, i: int, e: ParseFault) -> bool {
    &&& 0 <= i < items.len()
    &&& key_of(items[i]) == Err::<ParsedKey, ParseFault>(e)
    &&& forall|j: int| 0 <= j < i ==> key_of(#[trigger] items[j]) is Ok
}

/// The first `n` aggregation entries all parse, to `aggs`.
pub open spec fn aggs_parse(items: Seq<WireValue>, aggs: Seq<ParsedAgg>, n: int) -> bool {
    &&& aggs.len() == n
    &&& forall|i: int| 0 <= i < n ==> agg_matches(#[trigger] items[i], Ok(aggs[i]))
}

/// The entry parses as an aggregation.
pub open spec fn agg_parses(item: WireValue) -> bool {
    exists|a: ParsedAgg| agg_matches(item, Ok(a))
}

/// Entry `i` is the first that does not parse as an aggregation, for the
/// reason `e`.
pub open spec fn first_bad_agg(items: Seq<WireValue>, i: int, e: ParseFault) -> bool {
    &&& 0 <= i < items.len()
    &&& agg_matches(items[i], Err(e))
    &&& forall|j: int| 0 <= j < i ==> agg_parses(#[trigger] items[j])
}

/// Some key entry is the first that does not parse, for the reason `e`.
pub open spec fn keys_fault(items: Seq<WireValue>, e: ParseFault) -> bool {
    exists|i: int| first_bad_key(items, i, e)
}

/// Some aggregation entry is the first that does not parse, for the reason
/// `e`.
pub open spec fn aggs_fault(items: Seq<WireValue>, e: ParseFault) -> bool {
    exists|i: int| first_bad_agg(items, i, e)
}

/// Every key entry parses.
pub open spec fn keys_accepted(items: Seq<WireValue>) -> bool {
    forall|j: int| 0 <= j < items.len() ==> key_of(#[trigger] items[j]) is Ok
}

/// The outcome that a group-by plan must have: the keys are read before the
/// aggregations, entries in order, and the first fault is the one reported.
pub open spec fn plan_outcome(plan: WireDict, r: Result<ParsedGroupByPlan, ParseFault>) -> bool {
    match r {
        Ok(p) => {
            &&& required_list(plan, "keys"@) matches Ok(key_items) && keys_parse(
                key_items,
                p.keys@,
                key_items.len() as int,
            )
            &&& required_list(plan, "aggs"@) matches Ok(agg_items) && aggs_parse(
                agg_items,
                p.aggs@,
                agg_items.len() as int,
            )
        },
        Err(e) => match required_list(plan, "keys"@) {
            Err(f) => e == f,
            Ok(key_items) => if keys_accepted(key_items) {
                match required_list(plan, "aggs"@) {
                    Err(f) => e == f,
                    Ok(agg_items) => aggs_fault(agg_items, e),
                }
            } else {
                keys_fault(key_items, e)
            },
        },
    }
}

/// Parses a group-by plan: a mapping with a list of `keys`, each a list of
/// name and type tag, and a list of `aggs`, each a mapping.
pub fn parse_groupby_plan(plan: &WireDict) -> (r: Result<ParsedGroupByPlan, GroupByParseError>)
    ensures
        plan_outcome(*plan, faulted(r)),
{
    let key_items: &Vec<WireValue> = match get_required_list(plan, "keys") {
        Ok(v) => v,
        Err(e) => return Err(e),
    };
    let mut keys: Vec<ParsedKey> = Vec::new();
    let mut i: usize = 0;
    while i < key_items.len()
        invariant
            i <= key_items@.len(),
            required_list(*plan, "keys"@) == Ok::<Seq<WireValue>, ParseFault>(key_items@),
            keys_parse(key_items@, keys@, i as int),
        decreases key_items@.len() - i,
    {
        match parse_key(&key_items[i]) {
            Ok(k) => {
                keys.push(k);
            },
            Err(e) => {
                assert(first_bad_key(key_items@, i as int, e@));
                assert(!(key_of(key_items@[i as int]) is Ok));
                return Err(e);
            },
        }
        i = i + 1;
    }
    assert(keys_accepted(key_items@)) by {
        assert forall|j: int| 0 <= j < key_items@.len() implies key_of(
            #[trigger] key_items@[j],
        ) is Ok by {
            assert(key_of(key_items@[j]) == Ok::<ParsedKey, ParseFault>(keys@[j]));
        }
    }
    let agg_items: &Vec<WireValue> = match get_required_list(plan, "aggs") {
        Ok(v) => v,
        Err(e) => return Err(e),
    };
    let mut aggs: Vec<ParsedAgg> = Vec::new();
    let mut i: usize = 0;
    while i < agg_items.len()
        invariant
            i <= agg_items@.len(),
            required_list(*plan, "keys"@) == Ok::<Seq<WireValue>, ParseFault>(key_items@),
            keys_parse(key_items@, keys@, key_items@.len() as int),
            keys_accepted(key_items@),
            required_list(*plan, "aggs"@) == Ok::<Seq<WireValue>, ParseFault>(agg_items@),
            aggs_parse(agg_items@, aggs@, i as int),
        decreases agg_items@.len() - i,
    {
        match parse_agg(&agg_items[i]) {
            Ok(a) => {
                aggs.push(a);
            },
            Err(e) => {
                assert forall|j: int| 0 <= j < i implies agg_parses(#[trigger] agg_items@[j]) by {
                    assert(agg_matches(agg_items@[j], Ok(aggs@[j])));
                }
                assert(first_bad_agg(agg_items@, i as int, e@));
                return Err(e);
            },
        }
        i = i + 1;
    }
    Ok(ParsedGroupByPlan { keys, aggs })
}

} // verus!
