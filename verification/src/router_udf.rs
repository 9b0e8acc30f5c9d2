//! Routing of received plans: the decisions for a plan mapping and their wire
//! form.

use vstd::prelude::*;

use crate::error::{Failure, Fault};
use crate::fields::{
    get_required, get_required_dict, get_required_text, lemma_required_dict_smaller, required,
    required_dict, required_text,
};
use crate::plan::{MetalPlanNode, PlanShape};
use crate::router::cost;
use crate::router::cost::rows_routing;
use crate::router::{
    node_count, numbered, one_each, record, routed, routing, wire_id, Entries, LiftingPlan,
    NodeDecision, NodeId, NodeKey, Routing,
};
use crate::text;
use crate::text::{decimal, decimals_are_digits, decimals_are_distinct};
use crate::udf::predicate::{plan_at, plan_of};
use crate::wire::{WireDict, WireNumber, WireValue};

verus! {

/// The mapping under `input`, where there is one.
pub open spec fn input_of<'a>(d: WireDict<'a>) -> Option<WireDict<'a>> {
    match d.lookup("input"@) {
        Some(WireValue::Dict(sub)) => Some(sub),
        _ => None,
    }
}

/// The number of nodes along the inputs of a plan mapping.
pub open spec fn chain_length(d: WireDict) -> nat
    decreases d,
{
    match input_of(d) {
        Some(sub) => {
            proof {
                d.lemma_lookup_smaller("input"@);
            }
            1 + chain_length(sub)
        },
        None => 1,
    }
}

/// Whether the nodes along the inputs of a plan mapping can be numbered.
pub fn fits_numbering(plan: &WireDict) -> (r: bool)
    ensures
        r == (chain_length(*plan) <= u32::MAX),
{
    let mut at: &WireDict = plan;
    let mut nodes: u32 = 1;
    loop
        invariant
            1 <= nodes,
            chain_length(*plan) == nodes - 1 + chain_length(*at),
        decreases chain_length(*at),
    {
        match at.get("input") {
            Some(WireValue::Dict(input)) => {
                assert(chain_length(*input) >= 1);
                if nodes == u32::MAX {
                    return false;
                }
                nodes = nodes + 1;
                at = input;
            },
            _ => return true,
        }
    }
}

/// The row count that a group-by above a plan mapping is judged by: that of
/// the scan below projections, filters and group-bys, and zero below anything
/// else.
pub open spec fn peeked_rows(d: WireDict) -> Result<usize, Fault>
    decreases d,
{
    match required_text(d, "kind"@, "missing 'kind'"@) {
        Err(e) => Err(e),
        Ok(kind) => if kind@ == "Scan"@ {
            match required(d, "n_rows"@, "Scan: missing n_rows"@) {
                Err(e) => Err(e),
                Ok(v) => match v.unsigned() {
                    Err(c) => Err(Fault::Conversion(c)),
                    Ok(n) => Ok(n),
                },
            }
        } else if kind@ == "Project"@ || kind@ == "Filter"@ || kind@ == "GroupBy"@ {
            match required_dict(d, "input"@, "missing 'input' in row-count peek"@) {
                Err(e) => Err(e),
                Ok(sub) => {
                    proof {
                        lemma_required_dict_smaller(
                            d,
                            "input"@,
                            "missing 'input' in row-count peek"@,
                        );
                    }
                    peeked_rows(sub)
                },
            }
        } else {
            Ok(0)
        },
    }
}

/// Finds the row count that a group-by above a plan mapping is judged by.
pub fn peek_input_row_count(d: &WireDict) -> (r: Result<usize, Failure>)
    ensures
        match r {
            Ok(n) => peeked_rows(*d) == Ok::<usize, Fault>(n),
            Err(e) => peeked_rows(*d) == Err::<usize, Fault>(e@),
        },
    decreases d,
{
    let kind: String = match get_required_text(d, "kind", "missing 'kind'") {
        Ok(k) => k,
        Err(e) => return Err(e),
    };
    if text::same(kind.as_str(), "Scan") {
        match get_required(d, "n_rows", "Scan: missing n_rows") {
            Err(e) => Err(e),
            Ok(v) => match v.to_unsigned() {
                Ok(n) => Ok(n),
                Err(c) => Err(Failure::Conversion(c)),
            },
        }
    } else if text::same(kind.as_str(), "Project") || text::same(kind.as_str(), "Filter")
        || text::same(kind.as_str(), "GroupBy") {
        match get_required_dict(d, "input", "missing 'input' in row-count peek") {
            Err(e) => Err(e),
            Ok(sub) => peek_input_row_count(sub),
        }
    } else {
        Ok(0)
    }
}

/// The entries of a plan once its topmost node is recorded under the next
/// number.
pub open spec fn topped(below: Entries, kind: Seq<char>, d: Routing) -> Entries {
    below.push(((kind, below.len() as u32), d))
}

/// The decisions for the input under a required key.
pub open spec fn input_routes(d: WireDict, complaint: Seq<char>) -> Result<Entries, Fault>
    decreases d, 0int,
{
    match required_dict(d, "input"@, complaint) {
        Err(e) => Err(e),
        Ok(sub) => {
            proof {
                lemma_required_dict_smaller(d, "input"@, complaint);
            }
            routes(sub)
        },
    }
}

/// The decisions for all nodes of a plan mapping, from the leaf up. A node of
/// unknown kind falls back; its input, where there is one, is still numbered.
pub open spec fn routes(d: WireDict) -> Result<Entries, Fault>
    decreases d, 1int,
{
    match required_text(d, "kind"@, "router: missing 'kind'"@) {
        Err(e) => Err(e),
        Ok(kind) => if kind@ == "Scan"@ {
            Ok(topped(Seq::empty(), "Scan"@, Routing::CpuLeave))
        } else if kind@ == "Project"@ {
            match input_routes(d, "Project: missing input"@) {
                Err(e) => Err(e),
                Ok(below) => Ok(topped(below, "Project"@, below.last().1)),
            }
        } else if kind@ == "Filter"@ {
            match input_routes(d, "Filter: missing input"@) {
                Err(e) => Err(e),
                Ok(below) => Ok(topped(below, "Filter"@, Routing::CpuLeave)),
            }
        } else if kind@ == "GroupBy"@ {
            match required_dict(d, "input"@, "GroupBy: missing input"@) {
                Err(e) => Err(e),
                Ok(sub) => match peeked_rows(sub) {
                    Err(e) => Err(e),
                    Ok(n) => match input_routes(d, "GroupBy: missing input"@) {
                        Err(e) => Err(e),
                        Ok(below) => Ok(topped(below, "GroupBy"@, rows_routing(n))),
                    },
                },
            }
        } else {
            let below = match input_of(d) {
                Some(sub) => {
                    proof {
                        d.lemma_lookup_smaller("input"@);
                    }
                    routes(sub)
                },
                None => Ok(Seq::empty()),
            };
            match below {
                Err(e) => Err(e),
                Ok(b) => Ok(
                    topped(b, kind@, Routing::Fallback("unsupported IR node: "@ + kind@)),
                ),
            }
        },
    }
}

/// Every routed plan mapping has a decision, numbered from zero, and no more
/// decisions than there are nodes along its inputs.
pub proof fn routes_are_numbered(d: WireDict)
    requires
        chain_length(d) <= u32::MAX,
    ensures
        routes(d) matches Ok(entries) ==> {
            &&& 1 <= entries.len() <= chain_length(d)
            &&& numbered(entries)
            &&& one_each(entries)
        },
    decreases d,
{
    reveal_with_fuel(routes, 2);
    reveal_with_fuel(input_routes, 2);
    d.lemma_lookup_smaller("input"@);
    match input_of(d) {
        Some(sub) => {
            routes_are_numbered(sub);
        },
        None => {},
    }
}

/// Records the decisions for the input under a required key.
fn route_input(
    d: &WireDict,
    complaint: &str,
    next_seq: &mut u32,
    lifting: &mut LiftingPlan,
) -> (r: Result<NodeDecision, Failure>)
    requires
        old(lifting).entries() == Entries::empty(),
        *old(next_seq) == 0,
        chain_length(*d) <= u32::MAX,
    ensures
        match r {
            Ok(top) => {
                &&& input_routes(*d, complaint@) == Ok::<Entries, Fault>(final(lifting).entries())
                &&& numbered(final(lifting).entries())
                &&& *final(next_seq) == final(lifting).entries().len()
                &&& 1 <= final(lifting).entries().len() < chain_length(*d)
                &&& top@ == final(lifting).entries().last().1
            },
            Err(e) => input_routes(*d, complaint@) == Err::<Entries, Fault>(e@),
        },
    decreases d, 0int,
{
    match get_required_dict(d, "input", complaint) {
        Err(e) => Err(e),
        Ok(sub) => {
            assert(input_of(*d) == Some(*sub));
            parse_and_route(sub, next_seq, lifting)
        },
    }
}

/// Records the decisions for a plan mapping and returns that of its topmost
/// node.
fn parse_and_route(d: &WireDict, next_seq: &mut u32, lifting: &mut LiftingPlan) -> (r: Result<
    NodeDecision,
    Failure,
>)
    requires
        old(lifting).entries() == Entries::empty(),
        *old(next_seq) == 0,
        chain_length(*d) <= u32::MAX,
    ensures
        match r {
            Ok(top) => {
                &&& routes(*d) == Ok::<Entries, Fault>(final(lifting).entries())
                &&& numbered(final(lifting).entries())
                &&& *final(next_seq) == final(lifting).entries().len()
                &&& 1 <= final(lifting).entries().len() <= chain_length(*d)
                &&& top@ == final(lifting).entries().last().1
            },
            Err(e) => routes(*d) == Err::<Entries, Fault>(e@),
        },
    decreases d, 1int,
{
    let kind: String = match get_required_text(d, "kind", "router: missing 'kind'") {
        Ok(k) => k,
        Err(e) => return Err(e),
    };
    if text::same(kind.as_str(), "Scan") {
        let top: NodeDecision = cost::decide_scan_initial();
        record(lifting, next_seq, "Scan", top.clone());
        Ok(top)
    } else if text::same(kind.as_str(), "Project") {
        let child: NodeDecision = match route_input(
            d,
            "Project: missing input",
            next_seq,
            lifting,
        ) {
            Ok(c) => c,
            Err(e) => return Err(e),
        };
        let top: NodeDecision = cost::decide_project(&child);
        record(lifting, next_seq, "Project", top.clone());
        Ok(top)
    } else if text::same(kind.as_str(), "Filter") {
        match route_input(d, "Filter: missing input", next_seq, lifting) {
            Ok(_) => {},
            Err(e) => return Err(e),
        }
        let top: NodeDecision = cost::decide_filter(0);
        record(lifting, next_seq, "Filter", top.clone());
        Ok(top)
    } else if text::same(kind.as_str(), "GroupBy") {
        let sub: &WireDict = match get_required_dict(d, "input", "GroupBy: missing input") {
            Ok(s) => s,
            Err(e) => return Err(e),
        };
        let rows: usize = match peek_input_row_count(sub) {
            Ok(n) => n,
            Err(e) => return Err(e),
        };
        match route_input(d, "GroupBy: missing input", next_seq, lifting) {
            Ok(_) => {},
            Err(e) => return Err(e),
        }
        let top: NodeDecision = cost::decide_groupby(rows);
        record(lifting, next_seq, "GroupBy", top.clone());
        Ok(top)
    } else {
        match d.get("input") {
            Some(WireValue::Dict(sub)) => {
                proof {
                    d.lemma_lookup_smaller("input"@);
                }
                match parse_and_route(sub, next_seq, lifting) {
                    Ok(_) => {},
                    Err(e) => return Err(e),
                }
            },
            _ => {},
        }
        let mut reason: String = "unsupported IR node: ".to_owned();
        reason.append(kind.as_str());
        let top: NodeDecision = NodeDecision::Fallback(reason);
        record(lifting, next_seq, kind.as_str(), top.clone());
        Ok(top)
    }
}

/// The decision of the topmost node comes last.
proof fn lemma_top_is_last(node: MetalPlanNode)
    ensures
        routed(node).len() == node_count(node),
        routed(node).len() > 0,
        routed(node).last().1 == routing(node),
    decreases node,
{
    match node {
        MetalPlanNode::Scan { n_rows, columns } => {},
        MetalPlanNode::Project { input, columns } => {
            lemma_top_is_last(*input);
        },
        MetalPlanNode::Filter { input, predicate } => {
            lemma_top_is_last(*input);
        },
        MetalPlanNode::GroupBy { input, keys, aggs } => {
            lemma_top_is_last(*input);
        },
    }
}

/// A plan mapping is routed like the plan that it is lowered to: the same
/// nodes, under the same numbers, with the same decisions.
pub proof fn received_plans_route_like_lowered_plans(d: WireDict, node: MetalPlanNode)
    requires
        plan_of(d) == Ok::<PlanShape, Fault>(node.shape()),
    ensures
        routes(d) == Ok::<Entries, Fault>(routed(node)),
    decreases d,
{
    reveal_with_fuel(routes, 2);
    reveal_with_fuel(input_routes, 2);
    reveal_with_fuel(plan_of, 2);
    reveal_with_fuel(plan_at, 2);
    lemma_required_dict_smaller(d, "input"@, "Project missing 'input'"@);
    match node {
        MetalPlanNode::Scan { n_rows, columns } => {
            assert(topped(Seq::empty(), "Scan"@, Routing::CpuLeave) =~= routed(node));
        },
        MetalPlanNode::Project { input, columns } => {
            let sub = required_dict(d, "input"@, "Project missing 'input'"@)->Ok_0;
            received_plans_route_like_lowered_plans(sub, *input);
            lemma_top_is_last(*input);
        },
        MetalPlanNode::Filter { input, predicate } => {
            let sub = required_dict(d, "input"@, "Filter missing 'input'"@)->Ok_0;
            received_plans_route_like_lowered_plans(sub, *input);
            lemma_top_is_last(*input);
        },
        MetalPlanNode::GroupBy { input, keys, aggs } => {},
    }
}

/// The wire form of a decision.
pub open spec fn wire_decision(d: Routing) -> Seq<char> {
    match d {
        Routing::GpuLift => "gpu_lift"@,
        Routing::CpuLeave => "cpu_leave"@,
        Routing::Fallback(reason) => "fallback:"@ + reason,
    }
}

/// Words a decision for the wire.
pub fn decision_to_wire(d: &NodeDecision) -> (r: String)
    ensures
        r@ == wire_decision(d@),
{
    match d {
        NodeDecision::GpuLift => "gpu_lift".to_owned(),
        NodeDecision::CpuLeave => "cpu_leave".to_owned(),
        NodeDecision::Fallback(reason) => {
            let mut out: String = "fallback:".to_owned();
            out.append(reason.as_str());
            out
        },
    }
}

/// The wire form of decisions: node identifiers and what is done with them.
pub open spec fn wire_entries(entries: Entries) -> Seq<(Seq<char>, Seq<char>)> {
    entries.map_values(|e: (NodeKey, Routing)| (wire_id(e.0), wire_decision(e.1)))
}

/// The characters of pairs of texts.
pub open spec fn pair_views(pairs: Seq<(String, String)>) -> Seq<(Seq<char>, Seq<char>)> {
    pairs.map_values(|p: (String, String)| (p.0@, p.1@))
}

/// Routes a received plan and returns the decision of every node in wire form.
/// The nodes must be countable in 32 bits.
pub fn compute_lifting_plan_py(plan: &WireDict) -> (r: Result<Vec<(String, String)>, Failure>)
    requires
        chain_length(*plan) <= u32::MAX,
    ensures
        match r {
            Ok(v) => routes(*plan) matches Ok(entries) && pair_views(v@) == wire_entries(entries),
            Err(e) => routes(*plan) == Err::<Entries, Fault>(e@),
        },
{
    let mut next_seq: u32 = 0;
    let mut lifting: LiftingPlan = LiftingPlan::new();
    match parse_and_route(plan, &mut next_seq, &mut lifting) {
        Ok(_) => {},
        Err(e) => return Err(e),
    }
    let all: Vec<(&NodeId, &NodeDecision)> = lifting.iter();
    let ghost entries = lifting.entries();
    let mut out: Vec<(String, String)> = Vec::new();
    let mut i: usize = 0;
    while i < all.len()
        invariant
            i <= all@.len(),
            all@.len() == entries.len(),
            forall|j: int|
                0 <= j < all@.len() ==> ((#[trigger] all@[j]).0@, all@[j].1@) == entries[j],
            pair_views(out@) =~= wire_entries(entries.take(i as int)),
        decreases all@.len() - i,
    {
        let (id, decision): (&NodeId, &NodeDecision) = all[i];
        assert((all@[i as int].0@, all@[i as int].1@) == entries[i as int]);
        let ghost before = pair_views(out@);
        out.push((id.to_wire(), decision_to_wire(decision)));
        assert(pair_views(out@) =~= before.push(
            (wire_id(entries[i as int].0), wire_decision(entries[i as int].1)),
        ));
        assert(entries.take(i + 1) =~= entries.take(i as int).push(entries[i as int]));
        i = i + 1;
    }
    assert(entries.take(i as int) =~= entries);
    Ok(out)
}

/// Different nodes have different wire identifiers, whatever their kinds hold.
pub proof fn wire_ids_are_distinct(a: NodeKey, b: NodeKey)
    requires
        wire_id(a) == wire_id(b),
    ensures
        a == b,
{
    reveal_strlit("#");
    let x = wire_id(a);
    let p = a.0.len() as int;
    let q = b.0.len() as int;
    let m = decimal(a.1 as nat);
    let n = decimal(b.1 as nat);
    assert("#"@.len() == 1);
    assert(x.len() == p + 1 + m.len());
    assert(x.len() == q + 1 + n.len());
    assert(x[p] == '#');
    assert(wire_id(b)[q] == '#');
    if p < q {
        assert(q - p - 1 < m.len()) by {
            assert(q < x.len());
        }
        decimals_are_digits(a.1 as nat, q - p - 1);
        assert(x[q] == m[q - p - 1]);
    }
    if q < p {
        decimals_are_digits(b.1 as nat, p - q - 1);
        assert(x[p] == n[p - q - 1]);
    }
    assert(a.0 =~= x.take(p));
    assert(b.0 =~= x.take(q));
    assert(decimal(a.1 as nat) =~= x.skip(p + 1));
    assert(decimal(b.1 as nat) =~= x.skip(q + 1));
    decimals_are_distinct(a.1 as nat, b.1 as nat);
}

/// Different decisions are written differently, the reason of a fallback
/// included; the first letter tells the GPU, the CPU and a fallback apart.
pub proof fn written_decisions_are_distinct(a: Routing, b: Routing)
    ensures
        wire_decision(a) == wire_decision(b) ==> a == b,
        wire_decision(a)[0] == (match a {
            Routing::GpuLift => 'g',
            Routing::CpuLeave => 'c',
            Routing::Fallback(_) => 'f',
        }),
{
    reveal_strlit("gpu_lift");
    reveal_strlit("cpu_leave");
    reveal_strlit("fallback:");
    assert("gpu_lift"@[0] == 'g');
    assert("cpu_leave"@[0] == 'c');
    assert("fallback:"@[0] == 'f');
    match (a, b) {
        (Routing::Fallback(x), Routing::Fallback(y)) => {
            assert(wire_decision(a).skip(9) =~= x);
            assert(wire_decision(b).skip(9) =~= y);
        },
        (Routing::Fallback(_), _) => {
            assert(wire_decision(a)[0] == 'f');
        },
        (_, Routing::Fallback(_)) => {
            assert(wire_decision(b)[0] == 'f');
        },
        _ => {},
    }
}

/// The rows of a received plan are those of its scan: a projection, a filter
/// and a group-by have the rows of their input, and a node of another kind has
/// none.
pub proof fn rows_are_those_of_the_scan(d: WireDict, kind: String, sub: WireDict, n: WireNumber)
    requires
        d.lookup("kind"@) == Some(WireValue::Str(kind)),
    ensures
        kind@ == "Project"@ || kind@ == "Filter"@ || kind@ == "GroupBy"@ ==> (d.lookup("input"@)
            == Some(WireValue::Dict(sub)) ==> peeked_rows(d) == peeked_rows(sub)),
        kind@ == "Scan"@ && d.lookup("n_rows"@) == Some(WireValue::Number(n)) ==> (n.integer
            matches Some(i) ==> (0 <= i <= usize::MAX ==> peeked_rows(d) == Ok::<usize, Fault>(
            i as usize,
        ))),
        kind@ != "Scan"@ && kind@ != "Project"@ && kind@ != "Filter"@ && kind@ != "GroupBy"@
            ==> peeked_rows(d) == Ok::<usize, Fault>(0),
{
    lemma_node_kinds();
}

/// The four kinds of nodes have different names.
proof fn lemma_node_kinds()
    ensures
        "Scan"@ != "Project"@,
        "Scan"@ != "Filter"@,
        "Scan"@ != "GroupBy"@,
        "Project"@ != "Filter"@,
        "Project"@ != "GroupBy"@,
        "Filter"@ != "GroupBy"@,
{
    reveal_strlit("Scan");
    reveal_strlit("Project");
    reveal_strlit("Filter");
    reveal_strlit("GroupBy");
    assert("Scan"@[0] == 'S');
    assert("Project"@[0] == 'P');
    assert("Filter"@[0] == 'F');
    assert("GroupBy"@[0] == 'G');
}

/// The decisions for a received plan are those for its input and one more, by
/// the kind of the plan and the next number: a projection follows its input, a
/// filter is left to the CPU, a group-by goes to the GPU exactly when the scan
/// below has more than a hundred thousand rows, and a node of another kind
/// falls back.
pub proof fn received_decisions_follow_the_plan(
    d: WireDict,
    kind: String,
    sub: WireDict,
    all: Entries,
)
    requires
        d.lookup("kind"@) == Some(WireValue::Str(kind)),
        d.lookup("input"@) == Some(WireValue::Dict(sub)),
        kind@ != "Scan"@,
        routes(d) == Ok::<Entries, Fault>(all),
    ensures
        routes(sub) is Ok,
        all.len() > 0,
        all.drop_last() == routes(sub)->Ok_0,
        all.last().0 == (kind@, (all.len() - 1) as u32),
        kind@ == "Project"@ ==> all.last().1 == routes(sub)->Ok_0.last().1,
        kind@ == "Filter"@ ==> all.last().1 == Routing::CpuLeave,
        kind@ == "GroupBy"@ ==> peeked_rows(sub) is Ok && all.last().1 == (if peeked_rows(
            sub,
        )->Ok_0 > 100_000 {
            Routing::GpuLift
        } else {
            Routing::CpuLeave
        }),
        kind@ != "Project"@ ==> (all.last().1 is Fallback <==> kind@ != "Filter"@ && kind@
            != "GroupBy"@),
{
    lemma_node_kinds();
    let below = routes(sub)->Ok_0;
    assert(input_routes(d, "Project: missing input"@) == routes(sub));
    assert(input_routes(d, "Filter: missing input"@) == routes(sub));
    assert(input_routes(d, "GroupBy: missing input"@) == routes(sub));
    assert(input_of(d) == Some(sub));
    assert(all.drop_last() =~= below);
}

/// A received scan is left to the CPU, whatever it holds, and is numbered zero.
pub proof fn received_scans_stay_on_the_cpu(d: WireDict, kind: String)
    requires
        d.lookup("kind"@) == Some(WireValue::Str(kind)),
        kind@ == "Scan"@,
    ensures
        routes(d) matches Ok(all) && all.len() == 1 && all[0].0 == ("Scan"@, 0u32) && all[0].1
            == Routing::CpuLeave,
{
}

/// The written plan lists the decisions in order, each by the name of its node.
pub proof fn decisions_are_written_in_order(entries: Entries, i: int)
    requires
        0 <= i < entries.len(),
    ensures
        wire_entries(entries).len() == entries.len(),
        wire_entries(entries)[i] == (wire_id(entries[i].0), wire_decision(entries[i].1)),
{
}

/// The length of a received plan is the number of mappings that lie one in the
/// other under `input`.
pub proof fn plans_are_as_long_as_their_inputs(d: WireDict, sub: WireDict)
    ensures
        d.lookup("input"@) == Some(WireValue::Dict(sub)) ==> chain_length(d) == chain_length(sub)
            + 1,
        !(d.lookup("input"@) matches Some(WireValue::Dict(_))) ==> chain_length(d) == 1,
{
}

} // verus!
