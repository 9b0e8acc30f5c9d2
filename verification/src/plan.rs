//! The intermediate representation between the plan walker and the kernel
//! dispatch layer: column types, aggregation specifications, predicates and
//! plan nodes.

use vstd::prelude::*;

use crate::text;
use crate::text::{decimal, first_seen, first_seen_keeps_the_beginning, views};
use crate::wire::F64Bits;

verus! {

/// Physical column types.
#[derive(Debug, Clone, Copy, PartialEq, Eq, Structural)]
pub enum MetalDtype {
    I64,
    F64,
    Bool,
    I32,
    F32,
    /// The narrow integer types are accepted as composite-key components only.
    I8,
    I16,
    U8,
    U16,
    U32,
    U64,
    /// Dictionary-encoded text, accepted as a key only.
    Utf8,
}

#[derive(Debug, Clone, Copy, PartialEq, Eq, Structural)]
pub enum CompareOp {
    Eq,
    Ne,
    Lt,
    Le,
    Gt,
    Ge,
}

/// Predicate expressions: columns, literals, comparisons and the two binary
/// connectives.
#[derive(Debug)]
pub enum PredicateAst {
    Column { name: String, dtype: MetalDtype },
    LiteralI64(i64),
    LiteralF64(F64Bits),
    LiteralBool(bool),
    Compare { op: CompareOp, lhs: Box<PredicateAst>, rhs: Box<PredicateAst> },
    And(Box<PredicateAst>, Box<PredicateAst>),
    Or(Box<PredicateAst>, Box<PredicateAst>),
}

/// Aggregation operators. `Len` is the row count per group and reads no input
/// column; `Count` counts the non-null values of its input column.
#[derive(Debug, Clone, Copy, PartialEq, Eq, Structural)]
pub enum AggOp {
    Sum,
    Mean,
    Count,
    Min,
    Max,
    Len,
}

/// The type that a wire tag names.
pub open spec fn dtype_tagged(tag: Seq<char>) -> Option<MetalDtype> {
    if tag == "I64"@ {
        Some(MetalDtype::I64)
    } else if tag == "F64"@ {
        Some(MetalDtype::F64)
    } else if tag == "Bool"@ {
        Some(MetalDtype::Bool)
    } else if tag == "I32"@ || tag == "Date"@ {
        Some(MetalDtype::I32)
    } else if tag == "F32"@ {
        Some(MetalDtype::F32)
    } else if tag == "I8"@ {
        Some(MetalDtype::I8)
    } else if tag == "I16"@ {
        Some(MetalDtype::I16)
    } else if tag == "U8"@ {
        Some(MetalDtype::U8)
    } else if tag == "U16"@ {
        Some(MetalDtype::U16)
    } else if tag == "U32"@ {
        Some(MetalDtype::U32)
    } else if tag == "Utf8"@ || tag == "String"@ {
        Some(MetalDtype::Utf8)
    } else {
        None
    }
}

/// The aggregation operator that a wire tag names.
pub open spec fn agg_op_tagged(tag: Seq<char>) -> Option<AggOp> {
    if tag == "Sum"@ {
        Some(AggOp::Sum)
    } else if tag == "Mean"@ {
        Some(AggOp::Mean)
    } else if tag == "Count"@ {
        Some(AggOp::Count)
    } else if tag == "Min"@ {
        Some(AggOp::Min)
    } else if tag == "Max"@ {
        Some(AggOp::Max)
    } else if tag == "Len"@ {
        Some(AggOp::Len)
    } else {
        None
    }
}

impl MetalDtype {
    /// The name of the type: the tag it has on the wire.
    pub open spec fn tag(self) -> Seq<char> {
        match self {
            MetalDtype::I64 => "I64"@,
            MetalDtype::F64 => "F64"@,
            MetalDtype::Bool => "Bool"@,
            MetalDtype::I32 => "I32"@,
            MetalDtype::F32 => "F32"@,
            MetalDtype::I8 => "I8"@,
            MetalDtype::I16 => "I16"@,
            MetalDtype::U8 => "U8"@,
            MetalDtype::U16 => "U16"@,
            MetalDtype::U32 => "U32"@,
            MetalDtype::U64 => "U64"@,
            MetalDtype::Utf8 => "Utf8"@,
        }
    }

    /// Parses the tag that the plan walker emits. A date is stored as 32-bit
    /// days since 1970 and is read as `I32`.
    pub fn from_wire(s: &str) -> (r: Option<Self>)
        ensures
            r == dtype_tagged(s@),
    {
        if text::same(s, "I64") {
            Some(MetalDtype::I64)
        } else if text::same(s, "F64") {
            Some(MetalDtype::F64)
        } else if text::same(s, "Bool") {
            Some(MetalDtype::Bool)
        } else if text::same(s, "I32") || text::same(s, "Date") {
            Some(MetalDtype::I32)
        } else if text::same(s, "F32") {
            Some(MetalDtype::F32)
        } else if text::same(s, "I8") {
            Some(MetalDtype::I8)
        } else if text::same(s, "I16") {
            Some(MetalDtype::I16)
        } else if text::same(s, "U8") {
            Some(MetalDtype::U8)
        } else if text::same(s, "U16") {
            Some(MetalDtype::U16)
        } else if text::same(s, "U32") {
            Some(MetalDtype::U32)
        } else if text::same(s, "Utf8") || text::same(s, "String") {
            Some(MetalDtype::Utf8)
        } else {
            None
        }
    }

    /// The name of the type.
    pub fn name(self) -> (r: &'static str)
        ensures
            r@ == self.tag(),
    {
        match self {
            MetalDtype::I64 => "I64",
            MetalDtype::F64 => "F64",
            MetalDtype::Bool => "Bool",
            MetalDtype::I32 => "I32",
            MetalDtype::F32 => "F32",
            MetalDtype::I8 => "I8",
            MetalDtype::I16 => "I16",
            MetalDtype::U8 => "U8",
            MetalDtype::U16 => "U16",
            MetalDtype::U32 => "U32",
            MetalDtype::U64 => "U64",
            MetalDtype::Utf8 => "Utf8",
        }
    }
}

/// Every type but the 64-bit unsigned one is what its own tag parses to.
pub proof fn dtype_tags_parse_back(d: MetalDtype)
    requires
        d != MetalDtype::U64,
    ensures
        dtype_tagged(d.tag()) == Some(d),
{
    reveal_strlit("I64");
    reveal_strlit("F64");
    reveal_strlit("Bool");
    reveal_strlit("I32");
    reveal_strlit("Date");
    reveal_strlit("F32");
    reveal_strlit("I8");
    reveal_strlit("I16");
    reveal_strlit("U8");
    reveal_strlit("U16");
    reveal_strlit("U32");
    reveal_strlit("Utf8");
    reveal_strlit("String");
    assert("I64"@ =~= seq!['I', '6', '4']);
    assert("F64"@ =~= seq!['F', '6', '4']);
    assert("Bool"@ =~= seq!['B', 'o', 'o', 'l']);
    assert("I32"@ =~= seq!['I', '3', '2']);
    assert("Date"@ =~= seq!['D', 'a', 't', 'e']);
    assert("F32"@ =~= seq!['F', '3', '2']);
    assert("I8"@ =~= seq!['I', '8']);
    assert("I16"@ =~= seq!['I', '1', '6']);
    assert("U8"@ =~= seq!['U', '8']);
    assert("U16"@ =~= seq!['U', '1', '6']);
    assert("U32"@ =~= seq!['U', '3', '2']);
    assert("Utf8"@ =~= seq!['U', 't', 'f', '8']);
    assert("String"@ =~= seq!['S', 't', 'r', 'i', 'n', 'g']);
}

impl AggOp {
    /// The name of the operator: the tag it has on the wire.
    pub open spec fn tag(self) -> Seq<char> {
        match self {
            AggOp::Sum => "Sum"@,
            AggOp::Mean => "Mean"@,
            AggOp::Count => "Count"@,
            AggOp::Min => "Min"@,
            AggOp::Max => "Max"@,
            AggOp::Len => "Len"@,
        }
    }

    /// Parses the tag that the plan walker emits.
    pub fn from_wire(s: &str) -> (r: Option<Self>)
        ensures
            r == agg_op_tagged(s@),
    {
        if text::same(s, "Sum") {
            Some(AggOp::Sum)
        } else if text::same(s, "Mean") {
            Some(AggOp::Mean)
        } else if text::same(s, "Count") {
            Some(AggOp::Count)
        } else if text::same(s, "Min") {
            Some(AggOp::Min)
        } else if text::same(s, "Max") {
            Some(AggOp::Max)
        } else if text::same(s, "Len") {
            Some(AggOp::Len)
        } else {
            None
        }
    }

    /// The name of the operator.
    pub fn name(self) -> (r: &'static str)
        ensures
            r@ == self.tag(),
    {
        match self {
            AggOp::Sum => "Sum",
            AggOp::Mean => "Mean",
            AggOp::Count => "Count",
            AggOp::Min => "Min",
            AggOp::Max => "Max",
            AggOp::Len => "Len",
        }
    }
}

/// Every aggregation operator is what its own tag parses to.
pub proof fn agg_op_tags_parse_back(op: AggOp)
    ensures
        agg_op_tagged(op.tag()) == Some(op),
{
    reveal_strlit("Sum");
    reveal_strlit("Mean");
    reveal_strlit("Count");
    reveal_strlit("Min");
    reveal_strlit("Max");
    reveal_strlit("Len");
    assert("Sum"@ =~= seq!['S', 'u', 'm']);
    assert("Mean"@ =~= seq!['M', 'e', 'a', 'n']);
    assert("Count"@ =~= seq!['C', 'o', 'u', 'n', 't']);
    assert("Min"@ =~= seq!['M', 'i', 'n']);
    assert("Max"@ =~= seq!['M', 'a', 'x']);
    assert("Len"@ =~= seq!['L', 'e', 'n']);
}

/// Binary operations of inline aggregation expressions.
#[derive(Debug, Clone, Copy, PartialEq, Eq, Structural)]
pub enum BinaryOp {
    Add,
    Sub,
    Mul,
    Div,
}

/// Expression tree consumed by the fused aggregation kernel: columns and
/// literals combined by binary arithmetic.
#[derive(Debug, PartialEq)]
pub enum AggExpr {
    Column(String),
    LiteralF64(F64Bits),
    LiteralI64(i64),
    Binary { op: BinaryOp, lhs: Box<AggExpr>, rhs: Box<AggExpr> },
}

/// The deepest expression that the kernel template accepts.
pub const MAX_EXPR_DEPTH: usize = 4;

impl AggExpr {
    /// The column of every column leaf, from left to right.
    pub open spec fn leaf_columns(self) -> Seq<Seq<char>>
        decreases self,
    {
        match self {
            AggExpr::Column(name) => seq![name@],
            AggExpr::LiteralF64(_) => Seq::empty(),
            AggExpr::LiteralI64(_) => Seq::empty(),
            AggExpr::Binary { op, lhs, rhs } => lhs.leaf_columns() + rhs.leaf_columns(),
        }
    }

    /// The length of the longest path of binary nodes.
    pub open spec fn tree_depth(self) -> nat
        decreases self,
    {
        match self {
            AggExpr::Binary { op, lhs, rhs } => {
                let l = lhs.tree_depth();
                let r = rhs.tree_depth();
                1 + if l > r {
                    l
                } else {
                    r
                }
            },
            _ => 0,
        }
    }

    /// Adds the columns of this tree to `out`, skipping those already there.
    fn collect_columns(&self, out: &mut Vec<String>, seen: Ghost<Seq<Seq<char>>>)
        requires
            views(old(out)@) == first_seen(seen@),
        ensures
            views(final(out)@) == first_seen(seen@ + self.leaf_columns()),
        decreases self,
    {
        match self {
            AggExpr::Column(name) => {
                let ghost all = seen@ + seq![name@];
                assert(all.drop_last() =~= seen@);
                if !text::any_same(out, name.as_str()) {
                    out.push(name.clone());
                    assert(views(out@) =~= views(old(out)@).push(name@));
                }
            },
            AggExpr::LiteralF64(_) | AggExpr::LiteralI64(_) => {
                assert(seen@ + Seq::<Seq<char>>::empty() =~= seen@);
            },
            AggExpr::Binary { op, lhs, rhs } => {
                lhs.collect_columns(out, seen);
                rhs.collect_columns(out, Ghost(seen@ + lhs.leaf_columns()));
                assert(seen@ + lhs.leaf_columns() + rhs.leaf_columns() =~= seen@ + (
                lhs.leaf_columns() + rhs.leaf_columns()));
            },
        }
    }

    /// The columns referenced anywhere in the tree, from left to right, each
    /// once.
    pub fn referenced_columns(&self) -> (r: Vec<String>)
        ensures
            views(r@) == first_seen(self.leaf_columns()),
    {
        let mut out: Vec<String> = Vec::new();
        assert(views(out@) =~= first_seen(Seq::empty()));
        self.collect_columns(&mut out, Ghost(Seq::empty()));
        assert(Seq::<Seq<char>>::empty() + self.leaf_columns() =~= self.leaf_columns());
        out
    }

    /// Depth of the tree: leaves have depth zero.
    pub fn depth(&self) -> (r: usize)
        requires
            self.tree_depth() <= usize::MAX,
        ensures
            r == self.tree_depth(),
        decreases self,
    {
        match self {
            AggExpr::Binary { op, lhs, rhs } => {
                let l: usize = lhs.depth();
                let r: usize = rhs.depth();
                1 + if l > r {
                    l
                } else {
                    r
                }
            },
            _ => 0,
        }
    }

    /// The depth of the tree, but at most `cap`.
    fn depth_up_to(&self, cap: usize) -> (r: usize)
        ensures
            r == (if self.tree_depth() < cap {
                self.tree_depth()
            } else {
                cap as nat
            }),
        decreases self,
    {
        match self {
            AggExpr::Binary { op, lhs, rhs } => if cap == 0 {
                0
            } else {
                let l: usize = lhs.depth_up_to(cap - 1);
                let r: usize = rhs.depth_up_to(cap - 1);
                1 + if l > r {
                    l
                } else {
                    r
                }
            },
            _ => 0,
        }
    }

    /// Applies the depth cap. The error names the depth found.
    pub fn validate(&self) -> (r: Result<(), String>)
        ensures
            r is Ok <==> self.tree_depth() <= MAX_EXPR_DEPTH,
            r matches Err(e) ==> self.tree_depth() <= usize::MAX ==> e@ == "expression depth "@
                + decimal(self.tree_depth()) + " exceeds M3 cap of 4"@,
    {
        let depth: usize = self.depth_up_to(usize::MAX);
        if depth > MAX_EXPR_DEPTH {
            let mut message: String = String::new();
            message.append("expression depth ");
            text::push_decimal(&mut message, depth as u128);
            message.append(" exceeds M3 cap of 4");
            assert(message@ =~= "expression depth "@ + decimal(depth as nat)
                + " exceeds M3 cap of 4"@);
            return Err(message);
        }
        Ok(())
    }
}

/// Aggregation specification: one input column, an inline expression, or the
/// row count of each group.
#[derive(Debug, PartialEq)]
pub enum AggSpec {
    Simple { input_col: String, op: AggOp, output_alias: String },
    Expression { expr: AggExpr, op: AggOp, output_alias: String },
    Length { output_alias: String },
}

/// A lowered plan: one variant per accepted node type.
#[allow(inconsistent_fields)]
#[derive(Debug)]
pub enum MetalPlanNode {
    Scan { n_rows: usize, columns: Vec<(String, MetalDtype)> },
    Project { input: Box<MetalPlanNode>, columns: Vec<String> },
    Filter { input: Box<MetalPlanNode>, predicate: PredicateAst },
    GroupBy { input: Box<MetalPlanNode>, keys: Vec<(String, MetalDtype)>, aggs: Vec<AggSpec> },
}

/// The content of a plan.
pub enum PlanShape {
    Scan { n_rows: usize, scanned: Seq<(String, MetalDtype)> },
    Project { input: Box<PlanShape>, selected: Seq<String> },
    Filter { input: Box<PlanShape>, predicate: PredicateAst },
    GroupBy { input: Box<PlanShape>, keys: Seq<(String, MetalDtype)>, aggs: Seq<AggSpec> },
}

impl MetalPlanNode {
    /// The content of the plan.
    pub open spec fn shape(self) -> PlanShape
        decreases self,
    {
        match self {
            MetalPlanNode::Scan { n_rows, columns } => PlanShape::Scan {
                n_rows,
                scanned: columns@,
            },
            MetalPlanNode::Project { input, columns } => PlanShape::Project {
                input: Box::new(input.shape()),
                selected: columns@,
            },
            MetalPlanNode::Filter { input, predicate } => PlanShape::Filter {
                input: Box::new(input.shape()),
                predicate,
            },
            MetalPlanNode::GroupBy { input, keys, aggs } => PlanShape::GroupBy {
                input: Box::new(input.shape()),
                keys: keys@,
                aggs: aggs@,
            },
        }
    }
}

/// The shape of a plan keeps what the plan holds, node by node.
pub proof fn shapes_keep_their_parts(node: MetalPlanNode)
    ensures
        node matches MetalPlanNode::Scan { n_rows, columns } ==> (node.shape()
            matches PlanShape::Scan { n_rows: n, scanned } && n == n_rows && scanned == columns@),
        node matches MetalPlanNode::Project { input, columns } ==> (node.shape()
            matches PlanShape::Project { input: i, selected } && *i == input.shape() && selected
            == columns@),
        node matches MetalPlanNode::Filter { input, predicate } ==> (node.shape()
            matches PlanShape::Filter { input: i, predicate: p } && *i == input.shape() && p
            == predicate),
        node matches MetalPlanNode::GroupBy { input, keys, aggs } ==> (node.shape()
            matches PlanShape::GroupBy { input: i, keys: k, aggs: a } && *i == input.shape() && k
            == keys@ && a == aggs@),
{
}

/// What is on the left of an expression is read first: the columns of its left
/// side begin its columns, also without repeats.
pub proof fn left_columns_come_first(op: BinaryOp, lhs: Box<AggExpr>, rhs: Box<AggExpr>)
    ensures
        ({
            let all = (AggExpr::Binary { op, lhs, rhs }).leaf_columns();
            let left = lhs.leaf_columns();
            let right = rhs.leaf_columns();
            &&& left.is_prefix_of(all)
            &&& right == all.skip(left.len() as int)
            &&& first_seen(left).is_prefix_of(first_seen(all))
        }),
{
    let all = (AggExpr::Binary { op, lhs, rhs }).leaf_columns();
    let left = lhs.leaf_columns();
    assert(all.take(left.len() as int) =~= left);
    assert(all.skip(left.len() as int) =~= rhs.leaf_columns());
    first_seen_keeps_the_beginning(all, left.len() as int);
}

} // verus!
