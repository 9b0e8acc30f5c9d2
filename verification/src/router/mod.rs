//! Per-node decisions between the GPU and the CPU.
//!
//! Given a lowered plan, the router produces a [`LiftingPlan`]: one decision
//! for each node, numbered from the leaf up.

use vstd::prelude::*;

use crate::plan::{AggSpec, MetalDtype, MetalPlanNode};
use crate::text;
use crate::text::decimal;

pub mod affinity;
pub mod cost;
pub mod laws;

verus! {

/// The identifier of a plan node: its kind and its number in post-order.
#[derive(Debug, PartialEq, Eq, Hash)]
pub struct NodeId {
    kind: String,
    seq: u32,
}

/// The content of a [`NodeId`].
pub type NodeKey = (Seq<char>, u32);

impl View for NodeId {
    type V = NodeKey;

    closed spec fn view(&self) -> NodeKey {
        (self.kind@, self.seq)
    }
}

/// The wire form of an identifier: kind and number around a `#`.
pub open spec fn wire_id(key: NodeKey) -> Seq<char> {
    key.0 + "#"@ + decimal(key.1 as nat)
}

impl NodeId {
    pub fn new(kind: &str, seq: u32) -> (r: Self)
        ensures
            r@ == (kind@, seq),
    {
        NodeId { kind: kind.to_owned(), seq }
    }

    pub fn kind(&self) -> (r: &str)
        ensures
            r@ == self@.0,
    {
        self.kind.as_str()
    }

    pub fn seq(&self) -> (r: u32)
        ensures
            r == self@.1,
    {
        self.seq
    }

    /// The wire form that the plan walker receives.
    pub fn to_wire(&self) -> (r: String)
        ensures
            r@ == wire_id(self@),
    {
        let mut out: String = self.kind.clone();
        out.append("#");
        text::push_decimal(&mut out, self.seq as u128);
        out
    }

    /// Whether two identifiers are the same.
    pub fn same(&self, other: &NodeId) -> (r: bool)
        ensures
            r == (self@ == other@),
    {
        self.seq == other.seq && text::same(self.kind.as_str(), other.kind.as_str())
    }
}

impl Clone for NodeId {
    fn clone(&self) -> (r: Self)
        ensures
            r@ == self@,
    {
        NodeId { kind: self.kind.clone(), seq: self.seq }
    }
}

/// The decision for a node.
#[derive(Debug, Eq)]
pub enum NodeDecision {
    /// The engine runs the subtree on the GPU.
    GpuLift,
    /// The subtree is left to the CPU executor.
    CpuLeave,
    /// The subtree is unsupported, for the reason given; the whole query goes
    /// to the CPU.
    Fallback(String),
}

/// The content of a [`NodeDecision`].
pub enum Routing {
    GpuLift,
    CpuLeave,
    Fallback(Seq<char>),
}

impl View for NodeDecision {
    type V = Routing;

    open spec fn view(&self) -> Routing {
        match *self {
            NodeDecision::GpuLift => Routing::GpuLift,
            NodeDecision::CpuLeave => Routing::CpuLeave,
            NodeDecision::Fallback(reason) => Routing::Fallback(reason@),
        }
    }
}

impl PartialEq for NodeDecision {
    fn eq(&self, other: &NodeDecision) -> (r: bool) {
        match (self, other) {
            (NodeDecision::GpuLift, NodeDecision::GpuLift) => true,
            (NodeDecision::CpuLeave, NodeDecision::CpuLeave) => true,
            (NodeDecision::Fallback(a), NodeDecision::Fallback(b)) => text::same(
                a.as_str(),
                b.as_str(),
            ),
            _ => false,
        }
    }
}

impl vstd::std_specs::cmp::PartialEqSpecImpl for NodeDecision {
    open spec fn obeys_eq_spec() -> bool {
        true
    }

    open spec fn eq_spec(&self, other: &NodeDecision) -> bool {
        self@ == other@
    }
}

impl Clone for NodeDecision {
    fn clone(&self) -> (r: Self)
        ensures
            r@ == self@,
    {
        match self {
            NodeDecision::GpuLift => NodeDecision::GpuLift,
            NodeDecision::CpuLeave => NodeDecision::CpuLeave,
            NodeDecision::Fallback(reason) => NodeDecision::Fallback(reason.clone()),
        }
    }
}

impl NodeDecision {
    pub fn is_fallback(&self) -> (r: bool)
        ensures
            r == (self@ is Fallback),
    {
        match self {
            NodeDecision::Fallback(_) => true,
            _ => false,
        }
    }
}

/// The decisions of a plan, in the order in which their nodes were recorded.
pub type Entries = Seq<(NodeKey, Routing)>;

/// The position of the entry of a node, or the number of entries.
pub open spec fn position(entries: Entries, key: NodeKey, from: int) -> int
    decreases entries.len() - from,
{
    if from < 0 || from >= entries.len() {
        entries.len() as int
    } else if entries[from].0 == key {
        from
    } else {
        position(entries, key, from + 1)
    }
}

/// The decision recorded for a node.
pub open spec fn recorded(entries: Entries, key: NodeKey) -> Option<Routing> {
    let i = position(entries, key, 0);
    if i < entries.len() {
        Some(entries[i].1)
    } else {
        None
    }
}

/// The entries once a decision is recorded: it takes the place of an earlier
/// one for the same node.
pub open spec fn with_decision(entries: Entries, key: NodeKey, d: Routing) -> Entries {
    let i = position(entries, key, 0);
    if i < entries.len() {
        entries.update(i, (key, d))
    } else {
        entries.push((key, d))
    }
}

/// No node has two entries.
pub open spec fn one_each(entries: Entries) -> bool {
    forall|i: int, j: int|
        0 <= i < j < entries.len() ==> (#[trigger] entries[i]).0 != (#[trigger] entries[j]).0
}

/// What `position` finds.
pub proof fn lemma_position(entries: Entries, key: NodeKey, from: int)
    requires
        0 <= from <= entries.len(),
    ensures
        from <= position(entries, key, from) <= entries.len(),
        position(entries, key, from) < entries.len() ==> entries[position(entries, key, from)].0
            == key,
        forall|j: int| from <= j < position(entries, key, from) ==> (#[trigger] entries[j]).0 != key,
    decreases entries.len() - from,
{
    if from < entries.len() && entries[from].0 != key {
        lemma_position(entries, key, from + 1);
    }
}

/// The content of recorded decisions.
pub open spec fn views_of(decisions: Seq<(NodeId, NodeDecision)>) -> Entries {
    decisions.map_values(|e: (NodeId, NodeDecision)| (e.0@, e.1@))
}

/// The full set of decisions for one query, at most one for each node.
#[derive(Debug)]
pub struct LiftingPlan {
    decisions: Vec<(NodeId, NodeDecision)>,
}

impl LiftingPlan {
    /// The decisions in the order in which their nodes were recorded.
    pub closed spec fn entries(self) -> Entries {
        views_of(self.decisions@)
    }

    /// No node has two decisions.
    #[verifier::type_invariant]
    pub open spec fn wf(self) -> bool {
        one_each(self.entries())
    }

    pub fn new() -> (r: Self)
        ensures
            r.entries() == Entries::empty(),
    {
        let r: LiftingPlan = LiftingPlan { decisions: Vec::new() };
        assert(r.entries() =~= Entries::empty());
        r
    }

    /// Where the decision of a node is, if there is one.
    fn find(&self, id: &NodeId) -> (r: Option<usize>)
        ensures
            match r {
                Some(i) => i < self.entries().len() && i == position(self.entries(), id@, 0),
                None => position(self.entries(), id@, 0) == self.entries().len(),
            },
            self.entries().len() == self.decisions@.len(),
    {
        let ghost entries = self.entries();
        let mut i: usize = 0;
        while i < self.decisions.len()
            invariant
                i <= self.decisions@.len(),
                entries == self.entries(),
                entries.len() == self.decisions@.len(),
                position(entries, id@, 0) == position(entries, id@, i as int),
            decreases self.decisions@.len() - i,
        {
            assert(entries[i as int].0 == self.decisions@[i as int].0@);
            if self.decisions[i].0.same(id) {
                return Some(i);
            }
            i = i + 1;
        }
        None
    }

    /// Records the decision for a node, in place of an earlier one.
    pub fn set(&mut self, id: NodeId, decision: NodeDecision)
        ensures
            final(self).entries() == with_decision(old(self).entries(), id@, decision@),
    {
        let ghost before = self.entries();
        let ghost key = id@;
        let ghost d = decision@;
        proof {
            use_type_invariant(&*self);
            lemma_position(before, key, 0);
        }
        let found: Option<usize> = self.find(&id);
        let mut decisions: Vec<(NodeId, NodeDecision)> = Vec::new();
        std::mem::swap(&mut decisions, &mut self.decisions);
        match found {
            Some(i) => {
                decisions.set(i, (id, decision));
                assert(views_of(decisions@) =~= before.update(i as int, (key, d)));
            },
            None => {
                decisions.push((id, decision));
                assert(views_of(decisions@) =~= before.push((key, d)));
            },
        }
        self.decisions = decisions;
    }

    /// The decision recorded for a node.
    pub fn get(&self, id: &NodeId) -> (r: Option<&NodeDecision>)
        ensures
            match r {
                Some(d) => recorded(self.entries(), id@) == Some(d@),
                None => recorded(self.entries(), id@) is None,
            },
    {
        match self.find(id) {
            Some(i) => Some(&self.decisions[i].1),
            None => None,
        }
    }

    /// The number of nodes with a decision.
    pub fn len(&self) -> (r: usize)
        ensures
            r == self.entries().len(),
    {
        self.decisions.len()
    }

    pub fn is_empty(&self) -> (r: bool)
        ensures
            r == (self.entries().len() == 0),
    {
        self.decisions.len() == 0
    }

    /// The nodes with their decisions.
    pub fn iter(&self) -> (r: Vec<(&NodeId, &NodeDecision)>)
        ensures
            r@.len() == self.entries().len(),
            forall|i: int|
                0 <= i < r@.len() ==> ((#[trigger] r@[i]).0@, r@[i].1@) == self.entries()[i],
    {
        let mut out: Vec<(&NodeId, &NodeDecision)> = Vec::new();
        let mut i: usize = 0;
        while i < self.decisions.len()
            invariant
                i <= self.decisions@.len(),
                self.entries().len() == self.decisions@.len(),
                out@.len() == i,
                forall|j: int|
                    0 <= j < i ==> ((#[trigger] out@[j]).0@, out@[j].1@) == self.entries()[j],
            decreases self.decisions@.len() - i,
        {
            out.push((&self.decisions[i].0, &self.decisions[i].1));
            i = i + 1;
        }
        out
    }

    /// Whether any node falls back: the whole plan is then dropped.
    pub fn has_fallback(&self) -> (r: bool)
        ensures
            r == falls_back(self.entries()),
    {
        let ghost entries = self.entries();
        let mut i: usize = 0;
        while i < self.decisions.len()
            invariant
                i <= self.decisions@.len(),
                entries == self.entries(),
                entries.len() == self.decisions@.len(),
                forall|j: int| 0 <= j < i ==> !((#[trigger] entries[j]).1 is Fallback),
            decreases self.decisions@.len() - i,
        {
            assert(entries[i as int].1 == self.decisions@[i as int].1@);
            if self.decisions[i].1.is_fallback() {
                return true;
            }
            i = i + 1;
        }
        false
    }
}

impl Default for LiftingPlan {
    fn default() -> (r: Self)
        ensures
            r.entries() == Entries::empty(),
    {
        LiftingPlan::new()
    }
}

impl Clone for LiftingPlan {
    fn clone(&self) -> (r: Self)
        ensures
            r.entries() == self.entries(),
    {
        let mut out: Vec<(NodeId, NodeDecision)> = Vec::new();
        let mut i: usize = 0;
        while i < self.decisions.len()
            invariant
                i <= self.decisions@.len(),
                out@.len() == i,
                forall|j: int|
                    0 <= j < i ==> (#[trigger] out@[j]).0@ == self.decisions@[j].0@ && out@[j].1@
                        == self.decisions@[j].1@,
            decreases self.decisions@.len() - i,
        {
            out.push((self.decisions[i].0.clone(), self.decisions[i].1.clone()));
            i = i + 1;
        }
        assert(views_of(out@) =~= self.entries());
        proof {
            use_type_invariant(self);
        }
        LiftingPlan { decisions: out }
    }
}

/// Some node falls back.
pub open spec fn falls_back(entries: Entries) -> bool {
    exists|i: int| 0 <= i < entries.len() && (#[trigger] entries[i]).1 is Fallback
}

/// The number of nodes of a plan.
pub open spec fn node_count(node: MetalPlanNode) -> nat
    decreases node,
{
    match node {
        MetalPlanNode::Scan { n_rows, columns } => 1,
        MetalPlanNode::Project { input, columns } => 1 + node_count(*input),
        MetalPlanNode::Filter { input, predicate } => 1 + node_count(*input),
        MetalPlanNode::GroupBy { input, keys, aggs } => 1 + node_count(*input),
    }
}

/// The row count that a group-by above the node is judged by: that of the scan
/// below projections and filters, and zero above another group-by.
pub open spec fn row_count(node: MetalPlanNode) -> usize
    decreases node,
{
    match node {
        MetalPlanNode::Scan { n_rows, columns } => n_rows,
        MetalPlanNode::Project { input, columns } => row_count(*input),
        MetalPlanNode::Filter { input, predicate } => row_count(*input),
        MetalPlanNode::GroupBy { input, keys, aggs } => 0,
    }
}

/// The columns of the scan below projections and filters; none above a
/// group-by.
pub open spec fn scan_schema(node: MetalPlanNode) -> Seq<(String, MetalDtype)>
    decreases node,
{
    match node {
        MetalPlanNode::Scan { n_rows, columns } => columns@,
        MetalPlanNode::Project { input, columns } => scan_schema(*input),
        MetalPlanNode::Filter { input, predicate } => scan_schema(*input),
        MetalPlanNode::GroupBy { input, keys, aggs } => Seq::empty(),
    }
}

/// The type of a column of a schema: that of the last column with the name.
pub open spec fn schema_dtype(schema: Seq<(String, MetalDtype)>, name: Seq<char>) -> Option<
    MetalDtype,
>
    decreases schema.len(),
{
    if schema.len() == 0 {
        None
    } else if schema.last().0@ == name {
        Some(schema.last().1)
    } else {
        schema_dtype(schema.drop_last(), name)
    }
}

/// The column is 64 bits wide.
pub open spec fn is_wide(schema: Seq<(String, MetalDtype)>, name: Seq<char>) -> bool {
    schema_dtype(schema, name) == Some(MetalDtype::F64) || schema_dtype(schema, name) == Some(
        MetalDtype::I64,
    )
}

/// The aggregation is over an expression that reads a 64-bit column.
pub open spec fn reads_wide(schema: Seq<(String, MetalDtype)>, agg: AggSpec) -> bool {
    match agg {
        AggSpec::Expression { expr, op, output_alias } => exists|k: int|
            0 <= k < expr.leaf_columns().len() && is_wide(
                schema,
                #[trigger] expr.leaf_columns()[k],
            ),
        _ => false,
    }
}

/// Some aggregation is over an expression that reads a 64-bit column.
pub open spec fn any_reads_wide(schema: Seq<(String, MetalDtype)>, aggs: Seq<AggSpec>) -> bool {
    exists|i: int| 0 <= i < aggs.len() && reads_wide(schema, #[trigger] aggs[i])
}

/// The decision for a group-by over `input`: it falls back when an expression
/// reads a 64-bit column of the scan, and otherwise goes by the rows of the
/// scan, the keys and the aggregations.
pub open spec fn groupby_decision(
    input: MetalPlanNode,
    keys: Seq<(String, MetalDtype)>,
    aggs: Seq<AggSpec>,
) -> Routing {
    if any_reads_wide(scan_schema(input), aggs) {
        Routing::Fallback(
            "Expression agg references 64-bit-wide column; fused kernel requires 32-bit-or-narrower inputs (Apple Silicon Metal lacks 64-bit atomics)"@,
        )
    } else {
        cost::groupby_routing(row_count(input), keys, aggs)
    }
}

/// The decision for the topmost node of a plan.
pub open spec fn routing(node: MetalPlanNode) -> Routing
    decreases node,
{
    match node {
        MetalPlanNode::Scan { n_rows, columns } => Routing::CpuLeave,
        MetalPlanNode::Project { input, columns } => routing(*input),
        MetalPlanNode::Filter { input, predicate } => Routing::CpuLeave,
        MetalPlanNode::GroupBy { input, keys, aggs } => groupby_decision(*input, keys@, aggs@),
    }
}

/// The decisions for all nodes of a plan, from the leaf up, numbered from zero.
pub open spec fn routed(node: MetalPlanNode) -> Entries
    decreases node,
{
    match node {
        MetalPlanNode::Scan { n_rows, columns } => seq![(("Scan"@, 0u32), routing(node))],
        MetalPlanNode::Project { input, columns } => routed(*input).push(
            (("Project"@, node_count(*input) as u32), routing(node)),
        ),
        MetalPlanNode::Filter { input, predicate } => routed(*input).push(
            (("Filter"@, node_count(*input) as u32), routing(node)),
        ),
        MetalPlanNode::GroupBy { input, keys, aggs } => routed(*input).push(
            (("GroupBy"@, node_count(*input) as u32), routing(node)),
        ),
    }
}

/// The entries are numbered from zero.
pub open spec fn numbered(entries: Entries) -> bool {
    forall|i: int| 0 <= i < entries.len() ==> (#[trigger] entries[i]).0.1 == i
}

/// Recording the next number appends an entry.
pub proof fn lemma_next_number(entries: Entries, kind: Seq<char>, d: Routing)
    requires
        numbered(entries),
        entries.len() <= u32::MAX,
    ensures
        with_decision(entries, (kind, entries.len() as u32), d) == entries.push(
            ((kind, entries.len() as u32), d),
        ),
        numbered(entries.push(((kind, entries.len() as u32), d))),
        one_each(entries),
{
    lemma_position(entries, (kind, entries.len() as u32), 0);
}

/// Every node of a plan gets exactly one decision: there are as many entries as
/// nodes, numbered from zero in post-order.
pub proof fn one_decision_per_node(node: MetalPlanNode)
    requires
        node_count(node) <= u32::MAX,
    ensures
        routed(node).len() == node_count(node),
        numbered(routed(node)),
        one_each(routed(node)),
    decreases node,
{
    match node {
        MetalPlanNode::Scan { n_rows, columns } => {},
        MetalPlanNode::Project { input, columns } => {
            one_decision_per_node(*input);
        },
        MetalPlanNode::Filter { input, predicate } => {
            one_decision_per_node(*input);
        },
        MetalPlanNode::GroupBy { input, keys, aggs } => {
            one_decision_per_node(*input);
        },
    }
}

/// Filters are always left to the CPU.
pub proof fn filters_stay_on_the_cpu(node: MetalPlanNode, i: int)
    requires
        0 <= i < routed(node).len(),
        routed(node)[i].0.0 == "Filter"@,
    ensures
        routed(node)[i].1 == Routing::CpuLeave,
    decreases node,
{
    reveal_strlit("Scan");
    reveal_strlit("Project");
    reveal_strlit("Filter");
    reveal_strlit("GroupBy");
    assert("Scan"@[0] != "Filter"@[0]);
    assert("Project"@[0] != "Filter"@[0]);
    assert("GroupBy"@[0] != "Filter"@[0]);
    match node {
        MetalPlanNode::Scan { n_rows, columns } => {},
        MetalPlanNode::Project { input, columns } => {
            if i < routed(*input).len() {
                filters_stay_on_the_cpu(*input, i);
            }
        },
        MetalPlanNode::Filter { input, predicate } => {
            if i < routed(*input).len() {
                filters_stay_on_the_cpu(*input, i);
            }
        },
        MetalPlanNode::GroupBy { input, keys, aggs } => {
            if i < routed(*input).len() {
                filters_stay_on_the_cpu(*input, i);
            }
        },
    }
}

/// A fallback below poisons the plan: whatever stands above a node that falls
/// back, the plan as a whole falls back.
pub proof fn a_fallback_poisons_the_plan(node: MetalPlanNode, below: MetalPlanNode)
    requires
        below_of(node) == Some(below),
        falls_back(routed(below)),
    ensures
        falls_back(routed(node)),
{
    let i = choose|i: int| 0 <= i < routed(below).len() && (#[trigger] routed(below)[i]).1 is Fallback;
    assert(routed(node)[i] == routed(below)[i]);
}

/// The input of a node.
pub open spec fn below_of(node: MetalPlanNode) -> Option<MetalPlanNode> {
    match node {
        MetalPlanNode::Scan { n_rows, columns } => None,
        MetalPlanNode::Project { input, columns } => Some(*input),
        MetalPlanNode::Filter { input, predicate } => Some(*input),
        MetalPlanNode::GroupBy { input, keys, aggs } => Some(*input),
    }
}

/// The row count that a group-by above the node is judged by.
fn input_row_count(node: &MetalPlanNode) -> (r: usize)
    ensures
        r == row_count(*node),
    decreases node,
{
    match node {
        MetalPlanNode::Scan { n_rows, columns } => *n_rows,
        MetalPlanNode::Project { input, columns } => input_row_count(input),
        MetalPlanNode::Filter { input, predicate } => input_row_count(input),
        MetalPlanNode::GroupBy { input, keys, aggs } => 0,
    }
}

/// The columns that expressions above the node read.
fn input_schema_lookup(node: &MetalPlanNode) -> (r: Option<&Vec<(String, MetalDtype)>>)
    ensures
        match r {
            Some(v) => v@ == scan_schema(*node),
            None => scan_schema(*node) == Seq::<(String, MetalDtype)>::empty(),
        },
    decreases node,
{
    match node {
        MetalPlanNode::Scan { n_rows, columns } => Some(columns),
        MetalPlanNode::Project { input, columns } => input_schema_lookup(input),
        MetalPlanNode::Filter { input, predicate } => input_schema_lookup(input),
        MetalPlanNode::GroupBy { input, keys, aggs } => None,
    }
}

/// Whether a column is 64 bits wide.
fn column_is_wide(schema: &Vec<(String, MetalDtype)>, name: &str) -> (r: bool)
    ensures
        r == is_wide(schema@, name@),
{
    let mut i: usize = schema.len();
    assert(schema@.take(i as int) =~= schema@);
    while i > 0
        invariant
            i <= schema@.len(),
            schema_dtype(schema@.take(i as int), name@) == schema_dtype(schema@, name@),
        decreases i,
    {
        assert(schema@.take(i as int).drop_last() =~= schema@.take(i - 1));
        assert(schema@.take(i as int).last() == schema@[i - 1]);
        if text::same(schema[i - 1].0.as_str(), name) {
            let d: MetalDtype = schema[i - 1].1;
            return d == MetalDtype::F64 || d == MetalDtype::I64;
        }
        i = i - 1;
    }
    false
}

/// Whether an aggregation is over an expression that reads a 64-bit column.
fn agg_reads_wide(schema: &Vec<(String, MetalDtype)>, agg: &AggSpec) -> (r: bool)
    ensures
        r == reads_wide(schema@, *agg),
{
    match agg {
        AggSpec::Expression { expr, op, output_alias } => {
            let names: Vec<String> = expr.referenced_columns();
            let ghost leaves = expr.leaf_columns();
            proof {
                text::first_seen_is_a_set_of_the_items(leaves);
            }
            let mut i: usize = 0;
            while i < names.len()
                invariant
                    i <= names@.len(),
                    leaves == expr.leaf_columns(),
                    reads_wide(schema@, *agg) == (exists|k: int|
                        0 <= k < leaves.len() && is_wide(schema@, #[trigger] leaves[k])),
                    text::views(names@) == text::first_seen(leaves),
                    forall|x: Seq<char>| #[trigger]
                        text::first_seen(leaves).contains(x) <==> leaves.contains(x),
                    forall|j: int| 0 <= j < i ==> !is_wide(schema@, #[trigger] names@[j]@),
                decreases names@.len() - i,
            {
                if column_is_wide(schema, names[i].as_str()) {
                    proof {
                        let name = names@[i as int]@;
                        assert(text::first_seen(leaves)[i as int] == name);
                        assert(text::first_seen(leaves).contains(name));
                        let k = choose|k: int| 0 <= k < leaves.len() && leaves[k] == name;
                        assert(is_wide(schema@, leaves[k]));
                    }
                    return true;
                }
                i = i + 1;
            }
            proof {
                assert forall|k: int| 0 <= k < leaves.len() implies !is_wide(
                    schema@,
                    #[trigger] leaves[k],
                ) by {
                    assert(leaves.contains(leaves[k]));
                    let f = text::first_seen(leaves);
                    assert(f.contains(leaves[k]));
                    let j = choose|j: int| 0 <= j < f.len() && f[j] == leaves[k];
                    assert(names@[j]@ == leaves[k]);
                }
            }
            false
        },
        _ => false,
    }
}

/// Whether some aggregation is over an expression that reads a 64-bit column.
fn some_reads_wide(input: &MetalPlanNode, aggs: &Vec<AggSpec>) -> (r: bool)
    ensures
        r == any_reads_wide(scan_schema(*input), aggs@),
{
    let none: Vec<(String, MetalDtype)> = Vec::new();
    let schema: &Vec<(String, MetalDtype)> = match input_schema_lookup(input) {
        Some(s) => s,
        None => &none,
    };
    assert(schema@ =~= scan_schema(*input));
    let mut i: usize = 0;
    while i < aggs.len()
        invariant
            i <= aggs@.len(),
            schema@ == scan_schema(*input),
            forall|j: int| 0 <= j < i ==> !reads_wide(schema@, #[trigger] aggs@[j]),
        decreases aggs@.len() - i,
    {
        if agg_reads_wide(schema, &aggs[i]) {
            assert(reads_wide(schema@, aggs@[i as int]));
            return true;
        }
        i = i + 1;
    }
    false
}

/// Records a decision under the next number.
pub(crate) fn record(plan: &mut LiftingPlan, next_seq: &mut u32, kind: &str, decision: NodeDecision)
    requires
        numbered(old(plan).entries()),
        old(plan).entries().len() == *old(next_seq),
        *old(next_seq) < u32::MAX,
    ensures
        numbered(final(plan).entries()),
        *final(next_seq) == *old(next_seq) + 1,
        final(plan).entries() == old(plan).entries().push(
            ((kind@, *old(next_seq)), decision@),
        ),
{
    proof {
        lemma_next_number(plan.entries(), kind@, decision@);
    }
    plan.set(NodeId::new(kind, *next_seq), decision);
    *next_seq = *next_seq + 1;
}

/// The kind of a node.
pub open spec fn kind_of(node: MetalPlanNode) -> Seq<char> {
    match node {
        MetalPlanNode::Scan { n_rows, columns } => "Scan"@,
        MetalPlanNode::Project { input, columns } => "Project"@,
        MetalPlanNode::Filter { input, predicate } => "Filter"@,
        MetalPlanNode::GroupBy { input, keys, aggs } => "GroupBy"@,
    }
}

/// The key of the topmost node of a plan whose nodes are numbered from `first`.
pub open spec fn top_key(node: MetalPlanNode, first: nat) -> NodeKey {
    (kind_of(node), (first + node_count(node) - 1) as u32)
}

/// The entries once the decisions of a plan are recorded, from the leaf up and
/// numbered from `first`.
pub open spec fn walked(node: MetalPlanNode, entries: Entries, first: nat) -> Entries
    decreases node,
{
    let below = match node {
        MetalPlanNode::Scan { n_rows, columns } => entries,
        MetalPlanNode::Project { input, columns } => walked(*input, entries, first),
        MetalPlanNode::Filter { input, predicate } => walked(*input, entries, first),
        MetalPlanNode::GroupBy { input, keys, aggs } => walked(*input, entries, first),
    };
    with_decision(below, top_key(node, first), routing(node))
}

/// What was recorded last for a node is its decision.
proof fn lemma_recorded(entries: Entries, key: NodeKey, d: Routing)
    ensures
        recorded(with_decision(entries, key, d), key) == Some(d),
{
    let after = with_decision(entries, key, d);
    let i = position(entries, key, 0);
    lemma_position(entries, key, 0);
    lemma_position(after, key, 0);
    assert(after[i].0 == key);
    assert forall|j: int| 0 <= j < i implies (#[trigger] after[j]).0 != key by {
        assert(after[j] == entries[j]);
    }
}

/// A decision that is recorded stays when an entry is appended.
proof fn lemma_recorded_kept(entries: Entries, key: NodeKey, more: (NodeKey, Routing))
    requires
        recorded(entries, key) is Some,
    ensures
        recorded(entries.push(more), key) == recorded(entries, key),
{
    let after = entries.push(more);
    let i = position(entries, key, 0);
    lemma_position(entries, key, 0);
    lemma_position(after, key, 0);
    assert(after[i] == entries[i]);
    assert forall|j: int| 0 <= j < i implies (#[trigger] after[j]).0 != key by {
        assert(after[j] == entries[j]);
    }
}

/// Walking a plan with nothing recorded gives the decisions of all its nodes.
pub proof fn walking_afresh_routes_the_plan(node: MetalPlanNode)
    requires
        node_count(node) <= u32::MAX,
    ensures
        walked(node, Entries::empty(), 0) == routed(node),
    decreases node,
{
    let below = match node {
        MetalPlanNode::Scan { n_rows, columns } => Entries::empty(),
        MetalPlanNode::Project { input, columns } => {
            walking_afresh_routes_the_plan(*input);
            one_decision_per_node(*input);
            routed(*input)
        },
        MetalPlanNode::Filter { input, predicate } => {
            walking_afresh_routes_the_plan(*input);
            one_decision_per_node(*input);
            routed(*input)
        },
        MetalPlanNode::GroupBy { input, keys, aggs } => {
            walking_afresh_routes_the_plan(*input);
            one_decision_per_node(*input);
            routed(*input)
        },
    };
    lemma_next_number(below, kind_of(node), routing(node));
    assert(walked(node, Entries::empty(), 0) =~= routed(node));
}

/// A group-by is judged by the scan below it, through projections and filters
/// only, whatever was recorded before the walk and whatever the walk numbers
/// its nodes from: it falls back when an expression reads a 64-bit column of
/// the scan, whatever its rows and keys, and otherwise goes by the rows, the
/// keys and the aggregations.
pub proof fn groupbys_are_judged_by_their_scan(
    input: Box<MetalPlanNode>,
    keys: Vec<(String, MetalDtype)>,
    aggs: Vec<AggSpec>,
    entries: Entries,
    first: nat,
)
    ensures
        ({
            let node = MetalPlanNode::GroupBy { input, keys, aggs };
            let decided = recorded(walked(node, entries, first), top_key(node, first));
            &&& top_key(node, first).0 == "GroupBy"@
            &&& any_reads_wide(scan_schema(*input), aggs@) ==> (decided matches Some(d)
                && d is Fallback)
            &&& !any_reads_wide(scan_schema(*input), aggs@) ==> decided == Some(
                cost::groupby_routing(row_count(*input), keys@, aggs@),
            )
        }),
{
    let node = MetalPlanNode::GroupBy { input, keys, aggs };
    lemma_recorded(walked(*input, entries, first), top_key(node, first), routing(node));
}

/// The node is the plan or stands somewhere below its topmost node.
pub open spec fn within(root: MetalPlanNode, node: MetalPlanNode) -> bool
    decreases root,
{
    root == node || match root {
        MetalPlanNode::Scan { n_rows, columns } => false,
        MetalPlanNode::Project { input, columns } => within(*input, node),
        MetalPlanNode::Filter { input, predicate } => within(*input, node),
        MetalPlanNode::GroupBy { input, keys, aggs } => within(*input, node),
    }
}

/// Every node of a plan is decided for as if it were the topmost one: what
/// stands above it does not matter.
pub proof fn nodes_are_judged_by_what_is_below(root: MetalPlanNode, node: MetalPlanNode)
    requires
        node_count(root) <= u32::MAX,
        within(root, node),
    ensures
        recorded(routed(root), top_key(node, 0)) == Some(routing(node)),
    decreases root,
{
    if root == node {
        walking_afresh_routes_the_plan(root);
        match root {
            MetalPlanNode::Scan { n_rows, columns } => {
                lemma_recorded(Entries::empty(), top_key(root, 0), routing(root));
            },
            MetalPlanNode::Project { input, columns } => {
                let below = walked(*input, Entries::empty(), 0);
                lemma_recorded(below, top_key(root, 0), routing(root));
            },
            MetalPlanNode::Filter { input, predicate } => {
                let below = walked(*input, Entries::empty(), 0);
                lemma_recorded(below, top_key(root, 0), routing(root));
            },
            MetalPlanNode::GroupBy { input, keys, aggs } => {
                let below = walked(*input, Entries::empty(), 0);
                lemma_recorded(below, top_key(root, 0), routing(root));
            },
        }
    } else {
        match root {
            MetalPlanNode::Scan { n_rows, columns } => {},
            MetalPlanNode::Project { input, columns } => {
                nodes_are_judged_by_what_is_below(*input, node);
                lemma_recorded_kept(routed(*input), top_key(node, 0), routed(root).last());
            },
            MetalPlanNode::Filter { input, predicate } => {
                nodes_are_judged_by_what_is_below(*input, node);
                lemma_recorded_kept(routed(*input), top_key(node, 0), routed(root).last());
            },
            MetalPlanNode::GroupBy { input, keys, aggs } => {
                nodes_are_judged_by_what_is_below(*input, node);
                lemma_recorded_kept(routed(*input), top_key(node, 0), routed(root).last());
            },
        }
    }
}

/// Records the decisions of a subtree, numbered from `next_seq`, and returns
/// the identifier of its topmost node.
pub fn walk(node: &MetalPlanNode, plan: &mut LiftingPlan, next_seq: &mut u32) -> (id: NodeId)
    requires
        *old(next_seq) + node_count(*node) <= u32::MAX,
    ensures
        final(plan).entries() == walked(*node, old(plan).entries(), *old(next_seq) as nat),
        *final(next_seq) == *old(next_seq) + node_count(*node),
        id@ == top_key(*node, *old(next_seq) as nat),
        recorded(final(plan).entries(), id@) == Some(routing(*node)),
    decreases node,
{
    let (kind, decision): (&str, NodeDecision) = match node {
        MetalPlanNode::Scan { n_rows, columns } => ("Scan", cost::decide_scan_initial()),
        MetalPlanNode::Project { input, columns } => {
            let child: NodeId = walk(input, plan, next_seq);
            let below: NodeDecision = match plan.get(&child) {
                Some(d) => d.clone(),
                None => NodeDecision::Fallback("missing child decision".to_owned()),
            };
            ("Project", cost::decide_project(&below))
        },
        MetalPlanNode::Filter { input, predicate } => {
            let _ = walk(input, plan, next_seq);
            ("Filter", cost::decide_filter(0))
        },
        MetalPlanNode::GroupBy { input, keys, aggs } => {
            let rows: usize = input_row_count(input);
            let wide: bool = some_reads_wide(input, aggs);
            let _ = walk(input, plan, next_seq);
            let decision: NodeDecision = if wide {
                NodeDecision::Fallback(
                    "Expression agg references 64-bit-wide column; fused kernel requires 32-bit-or-narrower inputs (Apple Silicon Metal lacks 64-bit atomics)".to_owned(),
                )
            } else {
                cost::decide_groupby_with_keys(rows, keys.as_slice(), aggs.as_slice())
            };
            ("GroupBy", decision)
        },
    };
    let id: NodeId = NodeId::new(kind, *next_seq);
    *next_seq = *next_seq + 1;
    proof {
        lemma_recorded(plan.entries(), id@, decision@);
    }
    plan.set(id.clone(), decision);
    id
}

/// Decides for every node of a plan, from the leaf up. The nodes must be
/// countable in 32 bits.
pub fn compute_lifting_plan(root: &MetalPlanNode) -> (r: LiftingPlan)
    requires
        node_count(*root) <= u32::MAX,
    ensures
        r.entries() == routed(*root),
{
    let mut plan: LiftingPlan = LiftingPlan::new();
    let mut next_seq: u32 = 0;
    let _ = walk(root, &mut plan, &mut next_seq);
    proof {
        walking_afresh_routes_the_plan(*root);
    }
    plan
}

} // verus!
