//! Evaluation of a fused expression over column buffers: how the buffers are
//! staged, what is built next, and how much of the result is copied out.

use vstd::arithmetic::power2::is_pow2;
use vstd::prelude::*;

use crate::alignment;
use crate::alignment::aligned;
use crate::error::{Failure, Fault};
use crate::fusion::scope::FusionScope;
use crate::fusion::subgraph::{
    buffer_outcome, enough_args, readback_outcome, BuildError, BuildFault, BuildStep, MlxDtype,
    MlxSubgraph,
};

verus! {

/// How an input column is staged: the length of its buffer, and whether it is
/// copied. A column that begins on a page is borrowed.
#[derive(Debug, Clone, Copy, PartialEq, Eq, Structural)]
pub struct StagedInput {
    pub bytes: usize,
    pub copied: bool,
}

/// Decides how a column of `n` elements at an address is staged.
pub fn stage_input(ptr: usize, n: usize, dtype: MlxDtype, page: usize) -> (r: StagedInput)
    requires
        n * dtype.width() <= usize::MAX,
        is_pow2(page as int),
    ensures
        r.bytes == n * dtype.width(),
        r.copied == !aligned(ptr as int, page as int),
{
    StagedInput { bytes: n * dtype.element_size(), copied: !alignment::is_aligned(ptr, page) }
}

/// The failure raised when a subgraph cannot be built.
pub open spec fn build_fault(f: BuildFault) -> Fault {
    Fault::Value("polars_metal: subgraph build: "@ + f.text())
}

/// The failure raised when a subgraph cannot be evaluated or read back.
pub open spec fn eval_fault(f: BuildFault) -> Fault {
    Fault::Runtime("polars_metal: subgraph eval: "@ + f.text())
}

/// Raises a failure to build a subgraph.
pub fn build_failure(e: &BuildError) -> (r: Failure)
    ensures
        r@ == build_fault(e@),
{
    let mut out: String = "polars_metal: subgraph build: ".to_owned();
    out.append(e.message().as_str());
    Failure::Value(out)
}

/// Raises a failure to evaluate a subgraph.
pub fn eval_failure(e: &BuildError) -> (r: Failure)
    ensures
        r@ == eval_fault(e@),
{
    let mut out: String = "polars_metal: subgraph eval: ".to_owned();
    out.append(e.message().as_str());
    Failure::Runtime(out)
}

/// Decides what evaluating a scope over staged buffers asks for, when `handles`
/// nodes are built.
pub fn execute_fused_expr(
    scope: &FusionScope,
    byte_lens: &Vec<usize>,
    handles: usize,
    first_dim: Option<usize>,
) -> (r: Result<BuildStep, Failure>)
    requires
        byte_lens@.len() == scope.inputs@.len() ==> {
            &&& handles <= scope.node_count()
            &&& scope.inputs@.len() <= handles < scope.node_count() ==> enough_args(
                scope.ops@[handles - scope.inputs@.len()],
                handles as nat,
            )
        },
    ensures
        match r {
            Ok(step) => buffer_outcome(*scope, byte_lens@, handles, first_dim, Ok(step)),
            Err(f) => exists|e: BuildError|
                #[trigger] buffer_outcome(*scope, byte_lens@, handles, first_dim, Err(e)) && f@
                    == build_fault(e@),
        },
{
    match MlxSubgraph::from_fusion_scope_buffers(scope, byte_lens, handles, first_dim) {
        Ok(step) => Ok(step),
        Err(e) => {
            let f: Failure = build_failure(&e);
            assert(buffer_outcome(*scope, byte_lens@, handles, first_dim, Err(e)));
            Err(f)
        },
    }
}

/// Decides how many elements of the result are copied to an output of the
/// declared type with room for `capacity` of them.
pub fn read_result(
    declared: MlxDtype,
    evaluated: MlxDtype,
    n: usize,
    capacity: usize,
) -> (r: Result<usize, Failure>)
    ensures
        match r {
            Ok(m) => readback_outcome(declared, evaluated, n, capacity) == Ok::<usize, BuildFault>(
                m,
            ),
            Err(e) => readback_outcome(declared, evaluated, n, capacity) matches Err(f) && e@
                == eval_fault(f),
        },
{
    match MlxSubgraph::eval_into_typed(declared, evaluated, n, capacity) {
        Ok(m) => Ok(m),
        Err(e) => Err(eval_failure(&e)),
    }
}

} // verus!
