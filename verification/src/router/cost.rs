//! The cost model: one rule for each kind of node, and its thresholds.

use vstd::prelude::*;

use crate::plan::{AggSpec, MetalDtype};
use crate::router::{NodeDecision, Routing};
use crate::text;
use crate::text::decimal;

verus! {

/// The largest row count at which group-by is left to the CPU: above it the
/// kernel is expected to win.
pub const GROUPBY_GPU_MIN_ROWS: usize = 100_000;

/// The width in bits of the composite keys that the encoder packs.
pub const MAX_KEY_BITS: usize = 128;

/// A filter is always left to the CPU.
pub fn decide_filter(n_rows: usize) -> (r: NodeDecision)
    ensures
        r@ == Routing::CpuLeave,
{
    NodeDecision::CpuLeave
}

/// The decision for a group-by by row count alone.
pub open spec fn rows_routing(n_rows: usize) -> Routing {
    if n_rows > GROUPBY_GPU_MIN_ROWS {
        Routing::GpuLift
    } else {
        Routing::CpuLeave
    }
}

/// Decides for a group-by by row count alone.
pub fn decide_groupby(n_rows: usize) -> (r: NodeDecision)
    ensures
        r@ == rows_routing(n_rows),
{
    if n_rows > GROUPBY_GPU_MIN_ROWS {
        NodeDecision::GpuLift
    } else {
        NodeDecision::CpuLeave
    }
}

/// A projection inherits the decision of its input.
pub fn decide_project(input: &NodeDecision) -> (r: NodeDecision)
    ensures
        r@ == input@,
{
    input.clone()
}

/// A scan starts out on the CPU.
pub fn decide_scan_initial() -> (r: NodeDecision)
    ensures
        r@ == Routing::CpuLeave,
{
    NodeDecision::CpuLeave
}

/// The data width of a key in bits. Text keys are encoded by 32-bit codes.
pub open spec fn key_data_bits(dtype: MetalDtype) -> nat {
    match dtype {
        MetalDtype::Bool => 1,
        MetalDtype::I64 | MetalDtype::F64 | MetalDtype::U64 => 64,
        MetalDtype::I32 | MetalDtype::F32 | MetalDtype::U32 | MetalDtype::Utf8 => 32,
        MetalDtype::I16 | MetalDtype::U16 => 16,
        MetalDtype::I8 | MetalDtype::U8 => 8,
    }
}

/// The width of a key in bits: its data and a null flag.
pub fn key_width_bits(dtype: MetalDtype) -> (r: usize)
    ensures
        r == 1 + key_data_bits(dtype),
{
    match dtype {
        MetalDtype::Bool => 1 + 1,
        MetalDtype::I64 | MetalDtype::F64 | MetalDtype::U64 => 1 + 64,
        MetalDtype::I32 | MetalDtype::F32 | MetalDtype::U32 | MetalDtype::Utf8 => 1 + 32,
        MetalDtype::I16 | MetalDtype::U16 => 1 + 16,
        MetalDtype::I8 | MetalDtype::U8 => 1 + 8,
    }
}

/// The width of the composite of the first `n` keys.
pub open spec fn composite_bits(keys: Seq<(String, MetalDtype)>, n: int) -> nat
    decreases n,
{
    if n <= 0 {
        0
    } else {
        composite_bits(keys, n - 1) + 1 + key_data_bits(keys[n - 1].1)
    }
}

/// Some aggregation is over an inline expression.
pub open spec fn has_expression_agg(aggs: Seq<AggSpec>) -> bool {
    exists|i: int| 0 <= i < aggs.len() && #[trigger] aggs[i] is Expression
}

/// The decision for a group-by: keys too wide for the encoder and aggregations
/// over expressions fall back, the keys first; otherwise the row count
/// decides.
pub open spec fn groupby_routing(
    n_rows: usize,
    keys: Seq<(String, MetalDtype)>,
    aggs: Seq<AggSpec>,
) -> Routing {
    let bits = composite_bits(keys, keys.len() as int);
    if bits > MAX_KEY_BITS {
        Routing::Fallback(
            "composite key total "@ + decimal(bits) + " bits; M2 supports ≤ 128"@,
        )
    } else if has_expression_agg(aggs) {
        Routing::Fallback(
            "AggSpec::Expression dispatch awaits Phase 3 fused-kernel consumer"@,
        )
    } else {
        rows_routing(n_rows)
    }
}

/// Whether some aggregation is over an inline expression.
fn any_expression_agg(aggs: &[AggSpec]) -> (r: bool)
    ensures
        r == has_expression_agg(aggs@),
{
    let mut i: usize = 0;
    while i < aggs.len()
        invariant
            i <= aggs@.len(),
            forall|j: int| 0 <= j < i ==> !(#[trigger] aggs@[j] is Expression),
        decreases aggs@.len() - i,
    {
        match &aggs[i] {
            AggSpec::Expression { expr, op, output_alias } => {
                assert(aggs@[i as int] is Expression);
                return true;
            },
            _ => {},
        }
        i = i + 1;
    }
    false
}

/// Decides for a group-by from its row count, keys and aggregations.
pub fn decide_groupby_with_keys(
    n_rows: usize,
    keys: &[(String, MetalDtype)],
    aggs: &[AggSpec],
) -> (r: NodeDecision)
    ensures
        r@ == groupby_routing(n_rows, keys@, aggs@),
{
    let mut total: u128 = 0;
    let mut i: usize = 0;
    while i < keys.len()
        invariant
            i <= keys@.len(),
            total == composite_bits(keys@, i as int),
            total <= 65 * i,
        decreases keys@.len() - i,
    {
        total = total + key_width_bits(keys[i].1) as u128;
        i = i + 1;
    }
    if total > MAX_KEY_BITS as u128 {
        let mut reason: String = "composite key total ".to_owned();
        text::push_decimal(&mut reason, total);
        reason.append(" bits; M2 supports ≤ 128");
        return NodeDecision::Fallback(reason);
    }
    if any_expression_agg(aggs) {
        return NodeDecision::Fallback(
            "AggSpec::Expression dispatch awaits Phase 3 fused-kernel consumer".to_owned(),
        );
    }
    decide_groupby(n_rows)
}

/// More rows never take a group-by off the GPU.
pub proof fn more_rows_stay_on_the_gpu(
    fewer: usize,
    more: usize,
    keys: Seq<(String, MetalDtype)>,
    aggs: Seq<AggSpec>,
)
    requires
        fewer <= more,
        groupby_routing(fewer, keys, aggs) == Routing::GpuLift,
    ensures
        groupby_routing(more, keys, aggs) == Routing::GpuLift,
{
}

} // verus!
