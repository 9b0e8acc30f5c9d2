//! What the decisions for a plan go by: the width of the keys, the rows and the
//! types of the scan below, and the decisions of the neighbours.

use vstd::prelude::*;

use crate::complaints::{tells, tells_what_is_between};
use crate::plan::{AggSpec, MetalDtype, MetalPlanNode};
use crate::router::affinity::{neighbors_are_found_by_number, numbered_from, smoothing};
use crate::router::cost::{composite_bits, groupby_routing, key_data_bits};
use crate::router::{
    any_reads_wide, groupby_decision, is_wide, kind_of, lemma_position, node_count, numbered,
    one_decision_per_node, one_each, position, reads_wide, recorded, routed, routing, row_count,
    scan_schema, schema_dtype, with_decision, within, Entries, NodeKey, Routing,
};
use crate::text::{decimal, numeral_value};
use crate::udf::agg_laws::{expressions_are_measured_by_their_leaves, mentions};

verus! {

/// The number in the name of a key's type is its width in bits; a truth value
/// takes one bit, and text the 32 bits of its code.
pub proof fn keys_are_as_wide_as_their_types(d: MetalDtype)
    ensures
        d != MetalDtype::Bool && d != MetalDtype::Utf8 ==> numeral_value(d.tag().skip(1), 10)
            == key_data_bits(d),
        d == MetalDtype::Bool ==> key_data_bits(d) == 1,
        d == MetalDtype::Utf8 ==> key_data_bits(d) == 32,
{
    reveal_strlit("I64");
    reveal_strlit("F64");
    reveal_strlit("I32");
    reveal_strlit("F32");
    reveal_strlit("I8");
    reveal_strlit("I16");
    reveal_strlit("U8");
    reveal_strlit("U16");
    reveal_strlit("U32");
    reveal_strlit("U64");
    reveal_with_fuel(numeral_value, 3);
    if d != MetalDtype::Bool && d != MetalDtype::Utf8 {
        let digits = d.tag().skip(1);
        assert(digits.drop_last().len() == digits.len() - 1);
        if digits.len() == 2 {
            assert(digits.drop_last()[0] == digits[0]);
            assert(digits.drop_last().drop_last().len() == 0);
        }
    }
}

/// A composite key is as wide as its parts, each with one bit for its validity.
pub proof fn composite_keys_add_up(
    some: Seq<(String, MetalDtype)>,
    last: (String, MetalDtype),
)
    ensures
        composite_bits(Seq::empty(), 0) == 0,
        composite_bits(some.push(last), some.len() as int + 1) == composite_bits(
            some,
            some.len() as int,
        ) + key_data_bits(last.1) + 1,
{
    lemma_bits_of_prefix(some, last, some.len() as int);
}

proof fn lemma_bits_of_prefix(
    some: Seq<(String, MetalDtype)>,
    last: (String, MetalDtype),
    n: int,
)
    requires
        n <= some.len(),
    ensures
        composite_bits(some.push(last), n) == composite_bits(some, n),
    decreases n,
{
    if n > 0 {
        lemma_bits_of_prefix(some, last, n - 1);
        assert(some.push(last)[n - 1] == some[n - 1]);
    }
}

/// A group-by falls back when its key has more than 128 bits or some
/// aggregation is over an expression. Otherwise it goes to the GPU exactly when
/// it has more than a hundred thousand rows.
pub proof fn groupbys_go_by_keys_and_rows(
    n_rows: usize,
    keys: Seq<(String, MetalDtype)>,
    aggs: Seq<AggSpec>,
)
    ensures
        ({
            let bits = composite_bits(keys, keys.len() as int);
            let inline = exists|i: int| 0 <= i < aggs.len() && #[trigger] aggs[i] is Expression;
            let d = groupby_routing(n_rows, keys, aggs);
            &&& d is Fallback <==> bits > 128 || inline
            &&& d == Routing::GpuLift <==> bits <= 128 && !inline && n_rows > 100_000
            &&& d == Routing::CpuLeave <==> bits <= 128 && !inline && n_rows <= 100_000
        }),
{
}

/// A name has the type of the last column that has it.
pub proof fn later_columns_give_the_type(
    schema: Seq<(String, MetalDtype)>,
    name: Seq<char>,
    i: int,
)
    requires
        0 <= i < schema.len(),
        schema[i].0@ == name,
        forall|j: int| i < j < schema.len() ==> (#[trigger] schema[j]).0@ != name,
    ensures
        schema_dtype(schema, name) == Some(schema[i].1),
    decreases schema.len(),
{
    if i < schema.len() - 1 {
        assert(schema.last() == schema[schema.len() - 1]);
        later_columns_give_the_type(schema.drop_last(), name, i);
    }
}

/// A name that no column has has no type.
pub proof fn absent_columns_have_no_type(schema: Seq<(String, MetalDtype)>, name: Seq<char>)
    requires
        forall|j: int| 0 <= j < schema.len() ==> (#[trigger] schema[j]).0@ != name,
    ensures
        schema_dtype(schema, name) is None,
    decreases schema.len(),
{
    if schema.len() > 0 {
        assert(schema.last() == schema[schema.len() - 1]);
        absent_columns_have_no_type(schema.drop_last(), name);
    }
}

/// Where no group-by lies between a node and the scan below it, the node has
/// the rows and the columns of the scan.
pub proof fn rows_and_columns_come_from_the_scan(node: MetalPlanNode, scan: MetalPlanNode)
    requires
        within(node, scan),
        scan is Scan,
        forall|g: MetalPlanNode| #[trigger] within(node, g) ==> !(g is GroupBy),
    ensures
        scan matches MetalPlanNode::Scan { n_rows, columns } && row_count(node) == n_rows
            && scan_schema(node) == columns@,
    decreases node,
{
    assert(within(node, node));
    match node {
        MetalPlanNode::Project { input, columns } => {
            assert forall|g: MetalPlanNode| #[trigger] within(*input, g) implies !(g is GroupBy) by {
                assert(within(node, g));
            }
            rows_and_columns_come_from_the_scan(*input, scan);
        },
        MetalPlanNode::Filter { input, predicate } => {
            assert forall|g: MetalPlanNode| #[trigger] within(*input, g) implies !(g is GroupBy) by {
                assert(within(node, g));
            }
            rows_and_columns_come_from_the_scan(*input, scan);
        },
        _ => {},
    }
}

/// Above a group-by the number of rows is not known and taken as none, and no
/// column has a known type.
pub proof fn nothing_is_known_above_a_groupby(node: MetalPlanNode, groupby: MetalPlanNode)
    requires
        within(node, groupby),
        groupby is GroupBy,
    ensures
        row_count(node) == 0,
        scan_schema(node).len() == 0,
    decreases node,
{
    match node {
        MetalPlanNode::Project { input, columns } => {
            nothing_is_known_above_a_groupby(*input, groupby);
        },
        MetalPlanNode::Filter { input, predicate } => {
            nothing_is_known_above_a_groupby(*input, groupby);
        },
        _ => {},
    }
}

/// The decisions of a plan are those of its nodes from the scan up, each by the
/// kind and number of its node: scans and filters are left to the CPU,
/// projections follow their input, and a group-by is judged by what is below.
pub proof fn decisions_follow_the_plan(node: MetalPlanNode, input: MetalPlanNode)
    requires
        node_count(node) <= u32::MAX,
        node matches MetalPlanNode::Project { input: below, columns } ==> *below == input,
        node matches MetalPlanNode::Filter { input: below, predicate } ==> *below == input,
        node matches MetalPlanNode::GroupBy { input: below, keys, aggs } ==> *below == input,
    ensures
        ({
            let all = routed(node);
            let below = routed(input);
            &&& all.len() >= 1
            &&& all.last().0 == (kind_of(node), (all.len() - 1) as u32)
            &&& node is Scan ==> all.len() == 1 && all[0].1 == Routing::CpuLeave
            &&& !(node is Scan) ==> all.drop_last() == below
            &&& node is Filter ==> all.last().1 == Routing::CpuLeave
            &&& node is Project ==> all.last().1 == below.last().1
            &&& node matches MetalPlanNode::GroupBy { input: i, keys, aggs } ==> all.last().1
                == groupby_decision(input, keys@, aggs@)
        }),
{
    one_decision_per_node(node);
    match node {
        MetalPlanNode::Scan { n_rows, columns } => {},
        MetalPlanNode::Project { input: below, columns } => {
            lemma_last_is_own(input);
            one_decision_per_node(input);
            assert(routed(node).drop_last() =~= routed(input));
        },
        MetalPlanNode::Filter { input: below, predicate } => {
            one_decision_per_node(input);
            assert(routed(node).drop_last() =~= routed(input));
        },
        MetalPlanNode::GroupBy { input: below, keys, aggs } => {
            one_decision_per_node(input);
            assert(routed(node).drop_last() =~= routed(input));
        },
    }
}

/// The last decision is that of the top node.
proof fn lemma_last_is_own(node: MetalPlanNode)
    ensures
        routed(node).len() > 0,
        routed(node).last().1 == routing(node),
    decreases node,
{
    match node {
        MetalPlanNode::Scan { n_rows, columns } => {},
        MetalPlanNode::Project { input, columns } => {},
        MetalPlanNode::Filter { input, predicate } => {},
        MetalPlanNode::GroupBy { input, keys, aggs } => {},
    }
}

/// A group-by with an expression falls back; one without goes by its keys and
/// the rows below.
pub proof fn expressions_fall_back(
    input: MetalPlanNode,
    keys: Seq<(String, MetalDtype)>,
    aggs: Seq<AggSpec>,
    i: int,
)
    ensures
        0 <= i < aggs.len() && aggs[i] is Expression ==> groupby_decision(input, keys, aggs)
            is Fallback,
        (forall|j: int| 0 <= j < aggs.len() ==> !(#[trigger] aggs[j] is Expression))
            ==> groupby_decision(input, keys, aggs) == groupby_routing(
            row_count(input),
            keys,
            aggs,
        ),
{
    groupbys_go_by_keys_and_rows(row_count(input), keys, aggs);
}

/// The expression of an aggregation mentions a 64-bit column of the schema.
pub open spec fn mentions_wide(
    schema: Seq<(String, MetalDtype)>,
    agg: AggSpec,
    name: Seq<char>,
) -> bool {
    &&& agg matches AggSpec::Expression { expr, op, output_alias } && mentions(expr, name)
    &&& schema_dtype(schema, name) == Some(MetalDtype::I64) || schema_dtype(schema, name) == Some(
        MetalDtype::F64,
    )
}

/// Whether an expression mentions a 64-bit column is asked first: if one does,
/// the group-by falls back for that, whatever its keys; if none does, it goes
/// by its keys and the rows below.
pub proof fn wide_columns_are_the_first_reason(
    input: MetalPlanNode,
    keys: Seq<(String, MetalDtype)>,
    others: Seq<(String, MetalDtype)>,
    aggs: Seq<AggSpec>,
)
    ensures
        (exists|i: int, name: Seq<char>|
            0 <= i < aggs.len() && #[trigger] mentions_wide(scan_schema(input), aggs[i], name))
            ==> groupby_decision(input, keys, aggs) is Fallback && groupby_decision(
            input,
            keys,
            aggs,
        ) == groupby_decision(input, others, aggs),
        (forall|i: int, name: Seq<char>|
            0 <= i < aggs.len() ==> !(#[trigger] mentions_wide(scan_schema(input), aggs[i], name)))
            ==> groupby_decision(input, keys, aggs) == groupby_routing(
            row_count(input),
            keys,
            aggs,
        ),
{
    let schema = scan_schema(input);
    if exists|i: int, name: Seq<char>|
        0 <= i < aggs.len() && #[trigger] mentions_wide(schema, aggs[i], name) {
        let (i, name) = choose|i: int, name: Seq<char>|
            0 <= i < aggs.len() && #[trigger] mentions_wide(schema, aggs[i], name);
        match aggs[i] {
            AggSpec::Expression { expr, op, output_alias } => {
                expressions_are_measured_by_their_leaves(expr, name, 0);
                let k = choose|k: int|
                    0 <= k < expr.leaf_columns().len() && expr.leaf_columns()[k] == name;
                assert(is_wide(schema, expr.leaf_columns()[k]));
                assert(reads_wide(schema, aggs[i]));
            },
            _ => {},
        }
    } else if any_reads_wide(schema, aggs) {
        let i = choose|i: int| 0 <= i < aggs.len() && reads_wide(schema, #[trigger] aggs[i]);
        match aggs[i] {
            AggSpec::Expression { expr, op, output_alias } => {
                let k = choose|k: int|
                    0 <= k < expr.leaf_columns().len() && is_wide(
                        schema,
                        #[trigger] expr.leaf_columns()[k],
                    );
                let name = expr.leaf_columns()[k];
                expressions_are_measured_by_their_leaves(expr, name, 0);
                assert(mentions_wide(schema, aggs[i], name));
            },
            _ => {},
        }
    }
}

/// No entry has a number from the number of entries on.
proof fn lemma_no_such_number(entries: Entries, seq: int, from: int)
    requires
        numbered(entries),
        0 <= from <= entries.len(),
        seq < 0 || seq >= entries.len(),
    ensures
        numbered_from(entries, seq, from) is None,
    decreases entries.len() - from,
{
    if from < entries.len() {
        lemma_no_such_number(entries, seq, from + 1);
    }
}

/// Smoothing a numbered plan: a candidate between two nodes that agree joins
/// them, the top candidate joins the node below it, and any other stays. A
/// fallback neither moves nor is joined. All candidates look at the decisions
/// before smoothing.
pub proof fn candidates_join_their_neighbours(
    entries: Entries,
    candidates: Seq<NodeKey>,
    i: int,
)
    requires
        numbered(entries),
        0 <= i < entries.len(),
        candidates.contains(entries[i].0),
        !(entries[i].1 is Fallback),
    ensures
        ({
            let after = smoothing(entries, candidates)[i].1;
            let last = entries.len() - 1;
            &&& i == 0 ==> after == entries[i].1
            &&& 0 < i < last && entries[i - 1].1 == entries[i + 1].1 && !(entries[i - 1].1
                is Fallback) ==> after == entries[i - 1].1
            &&& 0 < i < last && (entries[i - 1].1 != entries[i + 1].1 || entries[i - 1].1
                is Fallback) ==> after == entries[i].1
            &&& 0 < i == last && !(entries[i - 1].1 is Fallback) ==> after == entries[i - 1].1
            &&& 0 < i == last && entries[i - 1].1 is Fallback ==> after == entries[i].1
        }),
{
    let key = entries[i].0;
    assert(key.1 == i);
    if i > 0 {
        neighbors_are_found_by_number(entries, key, -1, i - 1);
    } else {
        lemma_no_such_number(entries, -1, 0);
    }
    if i < entries.len() - 1 {
        neighbors_are_found_by_number(entries, key, 1, i + 1);
    } else {
        lemma_no_such_number(entries, i + 1, 0);
    }
}

/// What was decided last for a node is what is found for it, and deciding for
/// one node leaves the decisions for the others.
pub proof fn decisions_are_found_by_node(
    entries: Entries,
    key: NodeKey,
    d: Routing,
    other: NodeKey,
)
    requires
        one_each(entries),
    ensures
        recorded(with_decision(entries, key, d), key) == Some(d),
        other != key ==> recorded(with_decision(entries, key, d), other) == recorded(entries, other),
        one_each(with_decision(entries, key, d)),
        recorded(Seq::empty(), key) is None,
{
    let after = with_decision(entries, key, d);
    lemma_position(entries, key, 0);
    lemma_position(entries, other, 0);
    lemma_position(after, key, 0);
    lemma_position(after, other, 0);
    let i = position(entries, key, 0);
    let k = position(after, key, 0);
    assert(after[i].0 == key);
    assert(k == i) by {
        if k < i {
            assert(entries[k].0 == key);
        } else if i < k {
            assert(after[i].0 != key);
        }
    }
    if other != key {
        let a = position(entries, other, 0);
        let b = position(after, other, 0);
        if a < entries.len() {
            assert(after[a] == entries[a]);
            if b < a {
                assert(after[b].0 == other);
                assert(entries[b].0 == other);
            } else if a < b {
                assert(after[a].0 != other);
            }
        } else if b < after.len() {
            assert(after[b].0 == other);
            assert(entries[b].0 == other);
        }
    }
}

/// Too wide a key is the reason whatever the aggregations are, and is told by
/// its width.
pub proof fn wide_keys_are_told_by_their_width(
    n_rows: usize,
    keys: Seq<(String, MetalDtype)>,
    aggs: Seq<AggSpec>,
    others: Seq<AggSpec>,
)
    requires
        composite_bits(keys, keys.len() as int) > 128,
    ensures
        groupby_routing(n_rows, keys, aggs) == groupby_routing(n_rows, keys, others),
        groupby_routing(n_rows, keys, aggs) matches Routing::Fallback(reason) && tells(
            reason,
            seq![decimal(composite_bits(keys, keys.len() as int))],
        ),
{
    let bits = composite_bits(keys, keys.len() as int);
    tells_what_is_between("composite key total "@, decimal(bits), " bits; M2 supports ≤ 128"@);
}

} // verus!
