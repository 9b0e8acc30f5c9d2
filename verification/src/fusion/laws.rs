//! What the calls of a subgraph compute, and how the registry hangs together.

use vstd::prelude::*;

use crate::error::Fault;
use crate::fusion::density::{density_route, CpuReason, RouteDecision};
use crate::fusion::py::{
    digits_value, input_dtype_named, op_fault, route_text, without_closing, without_prefixes, word_written,
};
use crate::fusion::scope::{is_terminator, work, FusionScope, InputDtype, NodeIdx, OpNode};
use crate::fusion::subgraph::{
    buffer_outcome, build_outcome, elements, enough_args, first_undefined, input_element, op_outcome,
    read_outcome, readback_outcome, scope_outcome, BuildError, BuildFault, BuildStep, InputView, MlxCall, MlxDtype,
    MlxSubgraph, ReadStep,
};
use crate::fusion::supported_ops::{DtypeOut, DtypeReq, OpId};
use crate::text::{decimal, decimals_are_digits, digit, numeral_value};

verus! {

/// The functions of an array library over arrays of some kind: whatever they
/// compute.
#[verifier::reject_recursive_types(V)]
pub ghost struct Algebra<V> {
    pub unary: spec_fn(OpId, V) -> V,
    pub binary: spec_fn(OpId, V, V) -> V,
    pub select: spec_fn(V, V, V) -> V,
    pub cast: spec_fn(MlxDtype, V) -> V,
    pub scan: spec_fn(OpId, V) -> V,
    pub shift: spec_fn(V, i64) -> V,
    pub iota: spec_fn(usize) -> V,
}

/// What a call gives when the handles stand for `values`.
pub open spec fn call_value<V>(f: Algebra<V>, call: MlxCall, values: Seq<V>) -> V {
    match call {
        MlxCall::Unary { op, a } => (f.unary)(op, values[a as int]),
        MlxCall::Binary { op, a, b } => (f.binary)(op, values[a as int], values[b as int]),
        MlxCall::Select { condition, a, b } => (f.select)(
            values[condition as int],
            values[a as int],
            values[b as int],
        ),
        MlxCall::Cast { a, to } => (f.cast)(to, values[a as int]),
        MlxCall::Scan { op, a } => (f.scan)(op, values[a as int]),
        MlxCall::Shift { a, by } => (f.shift)(values[a as int], by),
        MlxCall::Iota { n } => (f.iota)(n),
    }
}

/// What an operation means on the values of its arguments, in their order.
pub open spec fn op_value<V>(
    f: Algebra<V>,
    op: OpId,
    args: Seq<V>,
    param: Option<i64>,
    first_dim: Option<usize>,
) -> V {
    match op {
        OpId::Add | OpId::Sub | OpId::Mul | OpId::Div | OpId::Mod | OpId::Pow | OpId::Eq
        | OpId::Ne | OpId::Lt | OpId::Le | OpId::Gt | OpId::Ge | OpId::LogicalAnd
        | OpId::LogicalOr | OpId::Atan2 | OpId::MatMul | OpId::Take => (f.binary)(
            op,
            args[0],
            args[1],
        ),
        OpId::Where => (f.select)(args[0], args[1], args[2]),
        OpId::CastF32 => (f.cast)(MlxDtype::F32, args[0]),
        OpId::CastF64 => (f.cast)(MlxDtype::F64, args[0]),
        OpId::CastI32 => (f.cast)(MlxDtype::I32, args[0]),
        OpId::CastBool => (f.cast)(MlxDtype::Bool, args[0]),
        OpId::CumSum | OpId::CumProd | OpId::CumMax | OpId::CumMin => (f.scan)(op, args[0]),
        OpId::Shift => (f.shift)(args[0], param->Some_0),
        OpId::RowIndex => (f.iota)(first_dim->Some_0),
        _ => (f.unary)(op, args[0]),
    }
}

/// The values of some arguments.
pub open spec fn arg_values<V>(args: Seq<NodeIdx>, values: Seq<V>) -> Seq<V> {
    args.map_values(|a: NodeIdx| values[a.0 as int])
}

/// The call that an operation becomes computes the operation on the values of
/// its arguments, in their order, whatever the library computes.
pub proof fn calls_compute_their_operations<V>(
    f: Algebra<V>,
    node: OpNode,
    handles: nat,
    first_dim: Option<usize>,
    call: MlxCall,
    values: Seq<V>,
)
    requires
        op_outcome(node, handles, first_dim) == Ok::<MlxCall, BuildFault>(call),
        enough_args(node, handles),
    ensures
        node.args@.len() >= node.op.arity(),
        call_value(f, call, values) == op_value(
            f,
            node.op,
            arg_values(node.args@, values),
            node.param,
            first_dim,
        ),
        node.op == OpId::Shift ==> node.param is Some,
        node.op == OpId::RowIndex ==> first_dim is Some,
        node.op != OpId::ArgPartition && node.op != OpId::Fft && node.op != OpId::Ifft,
        forall|i: int| 0 <= i < node.args@.len() ==> (#[trigger] node.args@[i]).0 < handles,
{
    lemma_no_undefined(node.args@, handles, 0);
}

proof fn lemma_no_undefined(args: Seq<NodeIdx>, handles: nat, from: int)
    requires
        0 <= from <= args.len(),
    ensures
        first_undefined(args, handles, from) is None <==> forall|i: int|
            from <= i < args.len() ==> (#[trigger] args[i]).0 < handles,
        first_undefined(args, handles, from) matches Some(n) ==> exists|i: int|
            from <= i < args.len() && (#[trigger] args[i]).0 == n && n >= handles && forall|j: int|
                from <= j < i ==> (#[trigger] args[j]).0 < handles,
    decreases args.len() - from,
{
    if from < args.len() {
        lemma_no_undefined(args, handles, from + 1);
        if args[from].0 >= handles {
            assert(args[from].0 >= handles);
        } else if first_undefined(args, handles, from + 1) is Some {
            let n = first_undefined(args, handles, from + 1)->Some_0;
            let i = choose|i: int|
                from + 1 <= i < args.len() && (#[trigger] args[i]).0 == n && n >= handles && forall|
                    j: int,
                |
                    from + 1 <= j < i ==> (#[trigger] args[j]).0 < handles;
            assert(args[i].0 == n);
        }
    }
}

/// The values of the nodes when the first `n` calls are made in order, each
/// with the values so far.
pub open spec fn evaluated<V>(
    f: Algebra<V>,
    inputs: Seq<V>,
    calls: Seq<MlxCall>,
    n: int,
) -> Seq<V>
    decreases n,
{
    if n <= 0 {
        inputs
    } else {
        let before = evaluated(f, inputs, calls, n - 1);
        before.push(call_value(f, calls[n - 1], before))
    }
}

/// Later calls leave the values of earlier nodes as they are.
proof fn lemma_values_stay<V>(
    f: Algebra<V>,
    inputs: Seq<V>,
    calls: Seq<MlxCall>,
    n: int,
    m: int,
)
    requires
        0 <= n <= m,
    ensures
        evaluated(f, inputs, calls, n).len() == inputs.len() + n,
        evaluated(f, inputs, calls, n).is_prefix_of(evaluated(f, inputs, calls, m)),
    decreases m,
{
    if n < m {
        lemma_values_stay(f, inputs, calls, n, m - 1);
    } else if n > 0 {
        lemma_values_stay(f, inputs, calls, n - 1, n - 1);
    }
}

/// Making the calls of a scope in order gives, at each node, its operation on
/// the values of its arguments in their order.
pub proof fn evaluation_follows_the_scope<V>(
    f: Algebra<V>,
    scope: FusionScope,
    first_dim: Option<usize>,
    inputs: Seq<V>,
    calls: Seq<MlxCall>,
    i: int,
)
    requires
        0 <= i < scope.ops@.len(),
        inputs.len() == scope.inputs@.len(),
        calls.len() == scope.ops@.len(),
        enough_args(scope.ops@[i], (scope.inputs@.len() + i) as nat),
        op_outcome(scope.ops@[i], (scope.inputs@.len() + i) as nat, first_dim) == Ok::<
            MlxCall,
            BuildFault,
        >(calls[i]),
    ensures
        ({
            let values = evaluated(f, inputs, calls, calls.len() as int);
            values[inputs.len() + i] == op_value(
                f,
                scope.ops@[i].op,
                arg_values(scope.ops@[i].args@, values),
                scope.ops@[i].param,
                first_dim,
            )
        }),
{
    let handles = (scope.inputs@.len() + i) as nat;
    let node = scope.ops@[i];
    let values = evaluated(f, inputs, calls, calls.len() as int);
    let before = evaluated(f, inputs, calls, i);
    lemma_values_stay(f, inputs, calls, i, calls.len() as int);
    lemma_values_stay(f, inputs, calls, i + 1, calls.len() as int);
    calls_compute_their_operations(f, node, handles, first_dim, calls[i], before);
    assert(arg_values(node.args@, before) =~= arg_values(node.args@, values)) by {
        assert forall|k: int| 0 <= k < node.args@.len() implies before[(
        #[trigger] node.args@[k]).0 as int] == values[node.args@[k].0 as int] by {
            assert(node.args@[k].0 < handles);
        }
    }
    assert(evaluated(f, inputs, calls, i + 1)[inputs.len() + i] == call_value(f, calls[i], before));
}

/// An operation is refused for the first argument that is not built, then for
/// a wrong number of arguments; arithmetic, choices, shifts and gathers take
/// exactly as many as they have operands.
pub proof fn refusals_of_operations(node: OpNode, handles: nat, first_dim: Option<usize>, i: int)
    ensures
        0 <= i < node.args@.len() && node.args@[i].0 >= handles && (forall|j: int|
            0 <= j < i ==> (#[trigger] node.args@[j]).0 < handles) ==> op_outcome(
            node,
            handles,
            first_dim,
        ) == Err::<MlxCall, BuildFault>(BuildFault::UndefinedNode(node.args@[i].0)),
        (forall|j: int| 0 <= j < node.args@.len() ==> (#[trigger] node.args@[j]).0 < handles) ==> {
            let n = node.args@.len();
            let built = op_outcome(node, handles, first_dim) is Ok;
            &&& match node.op {
                OpId::Add | OpId::Sub | OpId::Mul | OpId::Div | OpId::Mod | OpId::Pow
                | OpId::Take => built == (n == 2),
                OpId::Neg | OpId::Abs | OpId::Square => built == (n == 1),
                OpId::Where => built == (n == 3),
                OpId::Shift => built == (n == 1 && node.param is Some),
                OpId::RowIndex => built == (n == 0 && first_dim is Some),
                OpId::ArgPartition | OpId::Fft | OpId::Ifft => !built,
                _ => built,
            }
        },
{
    lemma_no_undefined(node.args@, handles, 0);
    if 0 <= i < node.args@.len() && node.args@[i].0 >= handles && (forall|j: int|
        0 <= j < i ==> (#[trigger] node.args@[j]).0 < handles) {
        let n = first_undefined(node.args@, handles, 0);
        assert(!(node.args@[i].0 < handles));
        assert(n is Some);
        let k = choose|k: int|
            0 <= k < node.args@.len() && (#[trigger] node.args@[k]).0 == n->Some_0 && n->Some_0
                >= handles && forall|j: int| 0 <= j < k ==> (#[trigger] node.args@[j]).0 < handles;
        assert(k == i) by {
            if k < i {
                assert(node.args@[k].0 < handles);
            } else if i < k {
                assert(node.args@[i].0 < handles);
            }
        }
    }
}

/// A built subgraph has the outputs of its scope, in order, and a handle for
/// every node.
pub proof fn built_subgraphs_have_the_outputs_of_their_scope(
    scope: FusionScope,
    handles: usize,
    first_dim: Option<usize>,
    g: MlxSubgraph,
    i: int,
)
    requires
        build_outcome(scope, handles, first_dim, Ok(BuildStep::Built(g))),
        handles <= scope.inputs@.len() + scope.ops@.len(),
    ensures
        g.handles == scope.inputs@.len() + scope.ops@.len(),
        g.outputs@.len() == scope.outputs@.len(),
        0 <= i < g.outputs@.len() ==> g.outputs@[i] == scope.outputs@[i].0,
{
}

/// Building goes node by node: the call asked for when `handles` nodes are
/// built is that of the operation whose number is `handles`.
pub proof fn calls_are_asked_for_in_order(
    scope: FusionScope,
    handles: usize,
    first_dim: Option<usize>,
    call: MlxCall,
)
    requires
        build_outcome(scope, handles, first_dim, Ok(BuildStep::Call(call))),
        scope.inputs@.len() <= handles,
    ensures
        handles < scope.inputs@.len() + scope.ops@.len(),
        op_outcome(scope.ops@[handles - scope.inputs@.len()], handles as nat, first_dim) == Ok::<
            MlxCall,
            BuildFault,
        >(call),
{
}

/// The name of an input type.
pub open spec fn input_name(d: InputDtype) -> Seq<char> {
    match d {
        InputDtype::F32 => "F32"@,
        InputDtype::F64 => "F64"@,
        InputDtype::Bool => "Bool"@,
        InputDtype::I32 => "I32"@,
        InputDtype::I8 => "I8"@,
        InputDtype::I16 => "I16"@,
        InputDtype::I64 => "I64"@,
        InputDtype::U8 => "U8"@,
        InputDtype::U16 => "U16"@,
        InputDtype::U32 => "U32"@,
        InputDtype::U64 => "U64"@,
        InputDtype::ArrayF32(n) => "ArrayF32"@,
        InputDtype::ListF32 => "ListF32"@,
    }
}

/// An input column is viewed as elements of the type of the same name, as many
/// as its bytes hold whole; doubles, arrays and lists are not viewed.
pub proof fn inputs_are_viewed_by_their_own_type(d: InputDtype)
    ensures
        match input_element(d) {
            Ok(m) => m.label() == input_name(d),
            Err(_) => d == InputDtype::F64 || d is ArrayF32 || d == InputDtype::ListF32,
        },
{
}

/// The name of a numeric element type gives its width in bits; a truth value
/// takes a byte.
pub proof fn names_give_the_width(d: MlxDtype)
    ensures
        d != MlxDtype::Bool ==> digits_value(d.label().skip(1), d.label().len() - 1) == Some(
            (8 * d.width()) as nat,
        ),
        d == MlxDtype::Bool ==> d.width() == 1,
{
    reveal_strlit("F32");
    reveal_strlit("F64");
    reveal_strlit("Bool");
    reveal_strlit("I8");
    reveal_strlit("I16");
    reveal_strlit("I32");
    reveal_strlit("I64");
    reveal_strlit("U8");
    reveal_strlit("U16");
    reveal_strlit("U32");
    reveal_strlit("U64");
    reveal_with_fuel(digits_value, 3);
    let s = d.label().skip(1);
    if d != MlxDtype::Bool {
        assert(s[0] == d.label()[1]);
        if d.label().len() == 3 {
            assert(s[1] == d.label()[2]);
        }
    }
}

/// Operations that need the whole column are those whose result is a single
/// value, a position, a sorted column or a spectrum, and the matrix product.
pub proof fn terminators_change_the_shape(op: OpId)
    ensures
        is_terminator(op) <==> op.produces() == DtypeOut::ScalarF32 || op.produces() == DtypeOut::I32
            || op.produces() == DtypeOut::SortedSameAsInput || op.produces() == DtypeOut::ComplexF32
            || op == OpId::MatMul,
{
}

/// An operation gives truth values when it compares, connects or casts to
/// them; connectives also take them. Reductions give single values, searches
/// positions, and casts to numbers, products and row numbers floats.
pub proof fn truth_values_come_from_comparisons(op: OpId)
    ensures
        op.produces() == DtypeOut::Bool <==> op == OpId::Eq || op == OpId::Ne || op == OpId::Lt
            || op == OpId::Le || op == OpId::Gt || op == OpId::Ge || op.accepts() == DtypeReq::Bool
            || op == OpId::CastBool,
        op.accepts() == DtypeReq::Bool <==> op == OpId::LogicalAnd || op == OpId::LogicalOr || op
            == OpId::LogicalNot,
        op.accepts() == DtypeReq::ListOrArrayF32 <==> op == OpId::MatMul,
        op.accepts() == DtypeReq::F32 <==> op.produces() == DtypeOut::ComplexF32,
        op.produces() == DtypeOut::ComplexF32 <==> op == OpId::Fft || op == OpId::Ifft,
        op.produces() == DtypeOut::SortedSameAsInput <==> op == OpId::Sort,
        op.produces() == DtypeOut::ScalarF32 <==> family(op) == OpId::Sum || family(op) == OpId::Std,
        op.produces() == DtypeOut::I32 <==> family(op) == OpId::ArgMin || op == OpId::ArgPartition,
        op.produces() == DtypeOut::F32 <==> family(op) == OpId::CastF32 || op == OpId::MatMul || op
            == OpId::RowIndex,
        !op.entry().allows_null,
{
}

/// The families of operations that take, do and give the same.
pub open spec fn family(op: OpId) -> OpId {
    match op {
        OpId::Sub | OpId::Mul => OpId::Add,
        OpId::Abs | OpId::Square => OpId::Neg,
        OpId::Ne | OpId::Lt | OpId::Le | OpId::Gt | OpId::Ge => OpId::Eq,
        OpId::LogicalOr => OpId::LogicalAnd,
        OpId::Cos | OpId::Tan | OpId::Sinh | OpId::Cosh | OpId::Tanh | OpId::Asin | OpId::Acos
        | OpId::Atan | OpId::Log | OpId::Log2 | OpId::Log10 | OpId::Log1p | OpId::Exp
        | OpId::Exp2 => OpId::Sin,
        OpId::Cbrt => OpId::Sqrt,
        OpId::Ceil | OpId::Round => OpId::Floor,
        OpId::CastF64 | OpId::CastI32 => OpId::CastF32,
        OpId::Mean | OpId::Min | OpId::Max => OpId::Sum,
        OpId::Var => OpId::Std,
        OpId::ArgMax => OpId::ArgMin,
        OpId::CumProd | OpId::CumMax | OpId::CumMin => OpId::CumSum,
        OpId::Ifft => OpId::Fft,
        _ => op,
    }
}

/// Operations of one family have the same registry entry: an operation and its
/// inverse, a function and its variants, a scan and another. In units of an
/// addition, a scan does two, a deviation three, a division or root four, a
/// transcendental function ten, and a power twelve; what is left and goes by
/// the row does one.
pub proof fn families_have_one_entry(op: OpId)
    ensures
        op.entry() == family(op).entry(),
        OpId::Add.flops() == 1,
        OpId::CumSum.flops() == 2 * OpId::Add.flops(),
        OpId::Std.flops() == 3 * OpId::Add.flops(),
        OpId::Div.flops() == 4 * OpId::Add.flops(),
        OpId::Mod.flops() == OpId::Div.flops(),
        OpId::Sqrt.flops() == OpId::Div.flops(),
        OpId::Sin.flops() == 10 * OpId::Add.flops(),
        OpId::Pow.flops() == 12 * OpId::Add.flops(),
        OpId::Atan2.flops() == OpId::Pow.flops(),
        OpId::Neg.flops() == OpId::Add.flops(),
        OpId::Eq.flops() == OpId::Add.flops(),
        OpId::LogicalAnd.flops() == OpId::Add.flops(),
        OpId::LogicalNot.flops() == OpId::Add.flops(),
        OpId::Where.flops() == OpId::Add.flops(),
        OpId::Floor.flops() == OpId::Add.flops(),
        OpId::CastF32.flops() == OpId::Add.flops(),
        OpId::CastBool.flops() == OpId::Add.flops(),
        OpId::Sum.flops() == OpId::Add.flops(),
        OpId::ArgMin.flops() == OpId::Add.flops(),
        OpId::Shift.flops() == OpId::Add.flops(),
        OpId::RowIndex.flops() == OpId::Add.flops(),
        OpId::Take.flops() == OpId::Add.flops(),
{
}

/// What needs floating-point numbers: whatever does ten or more times the work
/// of an addition, roots, rounding, and the remainder.
pub proof fn costly_functions_take_floats(op: OpId)
    ensures
        op.accepts() == DtypeReq::F32OrF64 <==> op.flops() >= 10 || family(op) == OpId::Sqrt
            || family(op) == OpId::Floor || op == OpId::Mod,
{
}

/// Work that does not go by the row is that of sorting, partial sorting,
/// products and transforms: of what needs the whole column, all but what gives
/// a single value or its position.
pub proof fn work_beyond_rows_needs_the_column(op: OpId)
    ensures
        op.entry().dynamic_flops <==> is_terminator(op) && op.produces() != DtypeOut::ScalarF32
            && family(op) != OpId::ArgMin,
        op.entry().dynamic_flops ==> op.entry().flops_per_row == 0,
{
}

/// The number of arguments goes with the kind of operation: none for the row
/// numbers, three for a choice, two for arithmetic on two columns,
/// comparisons, connectives, products and gathers, and otherwise one.
pub proof fn arity_goes_with_the_kind(op: OpId)
    ensures
        op.entry().n_args == 0 <==> op == OpId::RowIndex,
        op.entry().n_args == 3 <==> op == OpId::Where,
        op.entry().n_args == 2 <==> (op == OpId::Add || op == OpId::Sub || op == OpId::Mul || op
            == OpId::Div || op == OpId::Mod || op == OpId::Pow || op == OpId::Atan2 || op
            == OpId::MatMul || op == OpId::Take || op == OpId::Eq || op == OpId::Ne || op
            == OpId::Lt || op == OpId::Le || op == OpId::Gt || op == OpId::Ge || op
            == OpId::LogicalAnd || op == OpId::LogicalOr),
        op.entry().n_args <= 3,
{
}

/// One more operation adds its own work per row for each row, and nothing when
/// its work is not by the row; the work of no operations is nothing.
pub proof fn each_operation_adds_its_work(ops: Seq<OpNode>, node: OpNode, rows: nat)
    ensures
        work(ops, rows, 0) == 0,
        work(ops.push(node), rows, ops.len() as int + 1) == work(ops, rows, ops.len() as int) + if node.op.entry().dynamic_flops {
            0
        } else {
            node.op.entry().flops_per_row as int * rows
        },
{
    lemma_work_of_prefix(ops, node, rows, ops.len() as int);
}

proof fn lemma_work_of_prefix(ops: Seq<OpNode>, node: OpNode, rows: nat, n: int)
    requires
        n <= ops.len(),
    ensures
        work(ops.push(node), rows, n) == work(ops, rows, n),
    decreases n,
{
    if n > 0 {
        lemma_work_of_prefix(ops, node, rows, n - 1);
        assert(ops.push(node)[n - 1] == ops[n - 1]);
    }
}

/// A scope runs on the GPU exactly when it has an operation, a hundred thousand
/// rows and fifty million floating-point operations; each reason says what is
/// missing, the emptiness before the rows before the work.
pub proof fn routes_go_by_rows_and_work(scope: FusionScope, rows: nat)
    ensures
        density_route(scope, rows) == RouteDecision::Gpu <==> scope.ops@.len() > 0 && rows
            >= 100_000 && scope.total_work(rows) >= 50_000_000,
        density_route(scope, rows) == RouteDecision::Cpu(CpuReason::EmptyScope)
            <==> scope.ops@.len() == 0,
        density_route(scope, rows) == RouteDecision::Cpu(CpuReason::BelowRowsThreshold)
            <==> scope.ops@.len() > 0 && rows < 100_000,
        density_route(scope, rows) == RouteDecision::Cpu(CpuReason::BelowFlopsThreshold)
            <==> scope.ops@.len() > 0 && rows >= 100_000 && scope.total_work(rows) < 50_000_000,
        scope.total_work(rows) == work(scope.ops@, rows, scope.ops@.len() as int),
{
}

/// Reading back asks for each output in order, with its own type, until all are
/// read, and stops at truth values and doubles.
pub proof fn outputs_are_read_in_order(outputs: Seq<usize>, read: int, dtypes: Seq<MlxDtype>)
    requires
        0 <= read <= outputs.len(),
    ensures
        read == outputs.len() <==> read_outcome(outputs, read, dtypes) == Ok::<ReadStep, BuildFault>(
            ReadStep::Done,
        ),
        read < outputs.len() && dtypes[read] != MlxDtype::Bool && dtypes[read] != MlxDtype::F64
            ==> read_outcome(outputs, read, dtypes) == Ok::<ReadStep, BuildFault>(
            ReadStep::Read { handle: outputs[read], dtype: dtypes[read] },
        ),
        read < outputs.len() && (dtypes[read] == MlxDtype::Bool || dtypes[read] == MlxDtype::F64)
            ==> read_outcome(outputs, read, dtypes) is Err,
{
}

/// Names of related operations are built from each other.
pub proof fn names_of_related_operations()
    ensures
        OpId::Sinh.label() == OpId::Sin.label() + "h"@,
        OpId::Cosh.label() == OpId::Cos.label() + "h"@,
        OpId::Tanh.label() == OpId::Tan.label() + "h"@,
        OpId::Atan2.label() == OpId::Atan.label() + "2"@,
        OpId::Log2.label() == OpId::Log.label() + "2"@,
        OpId::Log10.label() == OpId::Log.label() + "10"@,
        OpId::Log1p.label() == OpId::Log.label() + "1p"@,
        OpId::Exp2.label() == OpId::Exp.label() + "2"@,
        OpId::CumSum.label() == "Cum"@ + OpId::Sum.label(),
        OpId::CumMax.label() == "Cum"@ + OpId::Max.label(),
        OpId::CumMin.label() == "Cum"@ + OpId::Min.label(),
        OpId::ArgMin.label() == "Arg"@ + OpId::Min.label(),
        OpId::ArgMax.label() == "Arg"@ + OpId::Max.label(),
        OpId::CastF32.label() == "Cast"@ + MlxDtype::F32.label(),
        OpId::CastF64.label() == "Cast"@ + MlxDtype::F64.label(),
        OpId::CastI32.label() == "Cast"@ + MlxDtype::I32.label(),
        OpId::CastBool.label() == "Cast"@ + MlxDtype::Bool.label(),
        OpId::Asin.label().skip(1) == OpId::Sin.label().update(0, 's'),
        OpId::Acos.label().skip(1) == OpId::Cos.label().update(0, 'c'),
        OpId::Atan.label().skip(1) == OpId::Tan.label().update(0, 't'),
        OpId::Ifft.label().skip(1) == OpId::Fft.label().update(0, 'f'),
{
    reveal_strlit("Sin");
    reveal_strlit("Cos");
    reveal_strlit("Tan");
    reveal_strlit("Sinh");
    reveal_strlit("Cosh");
    reveal_strlit("Tanh");
    reveal_strlit("h");
    reveal_strlit("Asin");
    reveal_strlit("Acos");
    reveal_strlit("Atan");
    reveal_strlit("Atan2");
    reveal_strlit("2");
    reveal_strlit("10");
    reveal_strlit("1p");
    reveal_strlit("Log");
    reveal_strlit("Log2");
    reveal_strlit("Log10");
    reveal_strlit("Log1p");
    reveal_strlit("Exp");
    reveal_strlit("Exp2");
    reveal_strlit("Cum");
    reveal_strlit("Arg");
    reveal_strlit("Cast");
    reveal_strlit("Sum");
    reveal_strlit("Max");
    reveal_strlit("Min");
    reveal_strlit("CumSum");
    reveal_strlit("CumMax");
    reveal_strlit("CumMin");
    reveal_strlit("ArgMin");
    reveal_strlit("ArgMax");
    reveal_strlit("F32");
    reveal_strlit("F64");
    reveal_strlit("I32");
    reveal_strlit("Bool");
    reveal_strlit("CastF32");
    reveal_strlit("CastF64");
    reveal_strlit("CastI32");
    reveal_strlit("CastBool");
    reveal_strlit("Fft");
    reveal_strlit("Ifft");
    assert(OpId::Sinh.label() =~= OpId::Sin.label() + "h"@);
    assert(OpId::Cosh.label() =~= OpId::Cos.label() + "h"@);
    assert(OpId::Tanh.label() =~= OpId::Tan.label() + "h"@);
    assert(OpId::Atan2.label() =~= OpId::Atan.label() + "2"@);
    assert(OpId::Log2.label() =~= OpId::Log.label() + "2"@);
    assert(OpId::Log10.label() =~= OpId::Log.label() + "10"@);
    assert(OpId::Log1p.label() =~= OpId::Log.label() + "1p"@);
    assert(OpId::Exp2.label() =~= OpId::Exp.label() + "2"@);
    assert(OpId::CumSum.label() =~= "Cum"@ + OpId::Sum.label());
    assert(OpId::CumMax.label() =~= "Cum"@ + OpId::Max.label());
    assert(OpId::CumMin.label() =~= "Cum"@ + OpId::Min.label());
    assert(OpId::ArgMin.label() =~= "Arg"@ + OpId::Min.label());
    assert(OpId::ArgMax.label() =~= "Arg"@ + OpId::Max.label());
    assert(OpId::CastF32.label() =~= "Cast"@ + MlxDtype::F32.label());
    assert(OpId::CastF64.label() =~= "Cast"@ + MlxDtype::F64.label());
    assert(OpId::CastI32.label() =~= "Cast"@ + MlxDtype::I32.label());
    assert(OpId::CastBool.label() =~= "Cast"@ + MlxDtype::Bool.label());
    assert(OpId::Asin.label().skip(1) =~= OpId::Sin.label().update(0, 's'));
    assert(OpId::Acos.label().skip(1) =~= OpId::Cos.label().update(0, 'c'));
    assert(OpId::Atan.label().skip(1) =~= OpId::Tan.label().update(0, 't'));
    assert(OpId::Ifft.label().skip(1) =~= OpId::Fft.label().update(0, 'f'));
}

/// A view holds as many whole elements as its bytes make up, of the type of its
/// input; with a wrong number of buffers nothing is viewed or called.
pub proof fn views_hold_whole_elements(
    scope: FusionScope,
    byte_lens: Seq<usize>,
    handles: usize,
    first_dim: Option<usize>,
    v: InputView,
)
    requires
        buffer_outcome(scope, byte_lens, handles, first_dim, Ok(BuildStep::View(v))),
    ensures
        byte_lens.len() == scope.inputs@.len(),
        handles < scope.inputs@.len(),
        v.dtype.label() == input_name(scope.inputs@[handles as int].dtype),
        v.elements * v.dtype.width() <= byte_lens[handles as int],
        byte_lens[handles as int] < (v.elements + 1) * v.dtype.width(),
{
    inputs_are_viewed_by_their_own_type(scope.inputs@[handles as int].dtype);
    let bytes = byte_lens[handles as int] as int;
    let width = v.dtype.width() as int;
    assert(bytes / width * width <= bytes < (bytes / width + 1) * width) by (nonlinear_arith)
        requires
            width > 0,
            bytes >= 0,
    ;
}

/// A result is read back exactly when it has the declared type, fits, and is
/// empty or of a readable type; then it is read whole.
pub proof fn results_are_read_back_whole(
    declared: MlxDtype,
    evaluated: MlxDtype,
    n: usize,
    capacity: usize,
)
    ensures
        readback_outcome(declared, evaluated, n, capacity) is Ok <==> declared == evaluated && n
            <= capacity && (n == 0 || (declared != MlxDtype::Bool && declared != MlxDtype::F64)),
        readback_outcome(declared, evaluated, n, capacity) matches Ok(m) ==> m == n,
{
}

/// One more dimension multiplies the number of elements by its length, and a
/// scalar has one element.
pub proof fn elements_multiply(shape: Seq<usize>, last: usize)
    ensures
        elements(Seq::empty(), 0) == 1,
        elements(shape.push(last), shape.len() as int + 1) == elements(shape, shape.len() as int)
            * last,
{
    lemma_elements_of_prefix(shape, last, shape.len() as int);
}

proof fn lemma_elements_of_prefix(shape: Seq<usize>, last: usize, n: int)
    requires
        n <= shape.len(),
    ensures
        elements(shape.push(last), n) == elements(shape, n),
    decreases n,
{
    if n > 0 {
        lemma_elements_of_prefix(shape, last, n - 1);
        assert(shape.push(last)[n - 1] == shape[n - 1]);
    }
}

/// The digits of a prefix do not depend on what follows.
proof fn lemma_digits_of_prefix(s: Seq<char>, c: char, n: int)
    requires
        n <= s.len(),
    ensures
        digits_value(s.push(c), n) == digits_value(s, n),
    decreases n,
{
    if n > 0 {
        lemma_digits_of_prefix(s, c, n - 1);
        assert(s.push(c)[n - 1] == s[n - 1]);
    }
}

/// The digits of a decimal stand for its number.
proof fn lemma_decimal_is_read(n: nat)
    ensures
        digits_value(decimal(n), decimal(n).len() as int) == Some(n),
        decimal(n).len() >= 1,
    decreases n,
{
    reveal_with_fuel(digits_value, 2);
    if n < 10 {
        assert(decimal(n) =~= seq![digit(n)]);
    } else {
        let front = decimal(n / 10);
        lemma_decimal_is_read(n / 10);
        lemma_digits_of_prefix(front, digit(n % 10), front.len() as int);
        assert(decimal(n) == front.push(digit(n % 10)));
        assert(10 * (n / 10) + n % 10 == n);
    }
}

/// A decimal, with or without a plus before it, is read as its number.
pub proof fn words_read_back(n: usize)
    ensures
        word_written(decimal(n as nat)) == Some(n),
        word_written("+"@ + decimal(n as nat)) == Some(n),
{
    reveal_strlit("+");
    let s = decimal(n as nat);
    lemma_decimal_is_read(n as nat);
    decimals_are_digits(n as nat, 0);
    assert(("+"@ + s).skip(1) =~= s);
}

/// Every input type that can be named is read back from its name, an array
/// type with its length in brackets after it.
pub proof fn input_types_read_back(d: InputDtype)
    ensures
        d == InputDtype::F32 || d == InputDtype::F64 || d == InputDtype::Bool || d
            == InputDtype::I32 || d == InputDtype::ListF32 ==> input_dtype_named(input_name(d))
            == Ok::<InputDtype, Fault>(d),
        d matches InputDtype::ArrayF32(n) ==> input_dtype_named(
            input_name(d) + "("@ + decimal(n as nat) + ")"@,
        ) == Ok::<InputDtype, Fault>(d),
{
    reveal_strlit("F32");
    reveal_strlit("F64");
    reveal_strlit("Bool");
    reveal_strlit("I32");
    reveal_strlit("ListF32");
    reveal_strlit("ArrayF32");
    reveal_strlit("ArrayF32(");
    reveal_strlit("(");
    reveal_strlit(")");
    assert("F32"@[0] == 'F' && "F32"@[1] == '3');
    assert("F64"@[0] == 'F' && "F64"@[1] == '6');
    assert("Bool"@[0] == 'B');
    assert("I32"@[0] == 'I');
    assert("ListF32"@[0] == 'L');
    match d {
        InputDtype::ArrayF32(n) => {
            let digits = decimal(n as nat);
            let lead = "ArrayF32("@;
            let s = input_name(d) + "("@ + digits + ")"@;
            let rest = digits + ")"@;
            lemma_decimal_is_read(n as nat);
            decimals_are_digits(n as nat, 0);
            decimals_are_digits(n as nat, digits.len() - 1);
            assert(s =~= lead + rest);
            assert(lead.is_prefix_of(s));
            assert(s.skip(lead.len() as int) =~= rest);
            assert(s[0] == 'A');
            assert(rest[0] == digits[0]);
            assert(!lead.is_prefix_of(rest)) by {
                if lead.is_prefix_of(rest) {
                    assert(rest[0] == lead[0]);
                }
            }
            reveal_with_fuel(without_prefixes, 3);
            assert(without_prefixes(s, lead) == rest);
            reveal_with_fuel(without_closing, 3);
            assert(rest.drop_last() =~= digits);
            assert(without_closing(rest) == digits);
            words_read_back(n);
        },
        _ => {},
    }
}

/// The name of a reason to stay on the CPU.
pub open spec fn reason_name(r: CpuReason) -> Seq<char> {
    match r {
        CpuReason::BelowRowsThreshold => "BelowRowsThreshold"@,
        CpuReason::BelowFlopsThreshold => "BelowFlopsThreshold"@,
        CpuReason::EmptyScope => "EmptyScope"@,
    }
}

/// A decision for the CPU is shown with its reason in brackets; different
/// decisions are shown with different texts.
pub proof fn route_texts_show_the_decision(a: RouteDecision, b: RouteDecision)
    ensures
        a == RouteDecision::Gpu ==> route_text(a) == "Gpu"@,
        a matches RouteDecision::Cpu(r) ==> route_text(a) == "Cpu("@ + reason_name(r) + ")"@,
        route_text(a) == route_text(b) ==> a == b,
{
    reveal_strlit("Gpu");
    reveal_strlit("Cpu(");
    reveal_strlit(")");
    reveal_strlit("BelowRowsThreshold");
    reveal_strlit("BelowFlopsThreshold");
    reveal_strlit("EmptyScope");
    reveal_strlit("Cpu(BelowRowsThreshold)");
    reveal_strlit("Cpu(BelowFlopsThreshold)");
    reveal_strlit("Cpu(EmptyScope)");
    assert("Gpu"@.len() == 3);
    assert("Cpu(BelowRowsThreshold)"@.len() == 23);
    assert("Cpu(BelowFlopsThreshold)"@.len() == 24);
    assert("Cpu(EmptyScope)"@.len() == 15);
    match a {
        RouteDecision::Cpu(r) => {
            assert(route_text(a) =~= "Cpu("@ + reason_name(r) + ")"@);
        },
        _ => {},
    }
}

/// Nothing is built from a wrong number of inputs: the number expected and the
/// number given are reported.
pub proof fn inputs_are_counted_first(
    scope: FusionScope,
    given: usize,
    byte_lens: Seq<usize>,
    handles: usize,
    first_dim: Option<usize>,
    r: Result<BuildStep, BuildError>,
)
    requires
        scope_outcome(scope, given, handles, first_dim, r) && given != scope.inputs@.len() || (
        buffer_outcome(scope, byte_lens, handles, first_dim, r) && byte_lens.len() == given && given
            != scope.inputs@.len()),
    ensures
        r matches Err(BuildError::InputCountMismatch { expected, actual }) && expected
            == scope.inputs@.len() && actual == given,
{
}

/// An operation can be pushed exactly when it is known and has as many
/// arguments as it takes, counted in 32 bits.
pub proof fn operations_are_pushed_with_their_arguments(
    op: Option<OpId>,
    name: Seq<char>,
    args: usize,
)
    ensures
        op_fault(op, name, args) is None <==> op is Some && args as u32 == op->Some_0.entry().n_args,
        args <= 3 && op is Some ==> (op_fault(op, name, args) is None <==> args
            == op->Some_0.entry().n_args),
        op is None ==> (op_fault(op, name, args) matches Some(Fault::Value(m)) && m.skip(
            m.len() - name.len(),
        ) == name),
{
    if op is None {
        let m = op_fault(op, name, args)->Some_0->Value_0;
        assert(m.skip(m.len() - name.len()) =~= name);
    }
}

/// Reading digits gives the number that they stand for.
proof fn lemma_digits_are_a_numeral(s: Seq<char>, n: int)
    requires
        0 <= n <= s.len(),
    ensures
        digits_value(s, n) is Some <==> forall|i: int| 0 <= i < n ==> '0' <= #[trigger] s[i] <= '9',
        digits_value(s, n) matches Some(v) ==> v == numeral_value(s.take(n), 10),
    decreases n,
{
    if n > 0 {
        lemma_digits_are_a_numeral(s, n - 1);
        assert(s.take(n).drop_last() =~= s.take(n - 1));
        assert(s.take(n).last() == s[n - 1]);
    }
}

/// A word is one or more digits, and is the number that they stand for if it
/// fits; nothing else is a word, but for a plus before the digits.
pub proof fn words_are_digits(s: Seq<char>, n: usize)
    requires
        s.len() > 0,
        s[0] != '+',
    ensures
        word_written(s) == Some(n) <==> (forall|i: int|
            0 <= i < s.len() ==> '0' <= #[trigger] s[i] <= '9') && numeral_value(s, 10) == n,
        word_written(Seq::empty()) is None,
        word_written(seq!['+'] + s) == word_written(s),
{
    lemma_digits_are_a_numeral(s, s.len() as int);
    assert(s.take(s.len() as int) =~= s);
    assert((seq!['+'] + s).skip(1) =~= s);
}

} // verus!
