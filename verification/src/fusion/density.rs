//! Where a scope runs: on the GPU when it does enough work on enough rows.

use vstd::prelude::*;

use crate::fusion::scope::{work_grows_with_rows, FusionScope};

verus! {

/// The least estimated work for the GPU.
pub const MIN_FLOPS_THRESHOLD: u64 = 50_000_000;

/// The least number of rows for the GPU.
pub const MIN_ROWS_THRESHOLD: usize = 100_000;

/// Why a scope is left to the CPU.
#[derive(Clone, Copy, Debug, PartialEq, Eq, Structural)]
pub enum CpuReason {
    BelowRowsThreshold,
    BelowFlopsThreshold,
    EmptyScope,
}

/// Where a scope runs.
#[derive(Clone, Copy, Debug, PartialEq, Eq, Structural)]
pub enum RouteDecision {
    Gpu,
    Cpu(CpuReason),
}

/// Where a scope runs on `rows` rows.
pub open spec fn density_route(scope: FusionScope, rows: nat) -> RouteDecision {
    if scope.ops@.len() == 0 {
        RouteDecision::Cpu(CpuReason::EmptyScope)
    } else if rows < MIN_ROWS_THRESHOLD {
        RouteDecision::Cpu(CpuReason::BelowRowsThreshold)
    } else if scope.total_work(rows) < MIN_FLOPS_THRESHOLD {
        RouteDecision::Cpu(CpuReason::BelowFlopsThreshold)
    } else {
        RouteDecision::Gpu
    }
}

/// Decides where a scope runs.
pub fn density_routes_gpu(scope: &FusionScope, n_rows: usize) -> (r: RouteDecision)
    ensures
        r == density_route(*scope, n_rows as nat),
{
    if scope.ops.len() == 0 {
        return RouteDecision::Cpu(CpuReason::EmptyScope);
    }
    if n_rows < MIN_ROWS_THRESHOLD {
        return RouteDecision::Cpu(CpuReason::BelowRowsThreshold);
    }
    match scope.est_flops_checked(n_rows) {
        Some(flops) => if flops < MIN_FLOPS_THRESHOLD {
            RouteDecision::Cpu(CpuReason::BelowFlopsThreshold)
        } else {
            RouteDecision::Gpu
        },
        None => RouteDecision::Gpu,
    }
}

/// More rows never take a scope off the GPU.
pub proof fn more_rows_stay_on_the_gpu(scope: FusionScope, fewer: nat, more: nat)
    requires
        fewer <= more,
        density_route(scope, fewer) == RouteDecision::Gpu,
    ensures
        density_route(scope, more) == RouteDecision::Gpu,
{
    work_grows_with_rows(scope.ops@, fewer, more, scope.ops@.len() as int);
}

} // verus!
