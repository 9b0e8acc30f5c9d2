//! Building of array subgraphs from fusion scopes: which call of the array
//! library each operation becomes, on which handles, and how results are read
//! back. The calls themselves are made by the caller, which keeps one handle
//! per node: the inputs first, then the results in the order of the operations.

use vstd::prelude::*;

use crate::fusion::scope::{FusionScope, InputDtype, NodeIdx, OpNode};
use crate::fusion::supported_ops::{op_spec, OpId};
use crate::text;
use crate::text::decimal;

verus! {

/// Why a subgraph cannot be built or read back.
#[derive(Debug)]
pub enum BuildError {
    InputCountMismatch { expected: usize, actual: usize },
    UndefinedNode(u32),
    MlxError(String),
    UnsupportedOp(OpId),
    ArgCountMismatch { op: OpId, expected: usize, actual: usize },
    UnsupportedInputDtype(String),
}

/// The content of a [`BuildError`].
pub enum BuildFault {
    InputCountMismatch { expected: usize, actual: usize },
    UndefinedNode(u32),
    MlxError(Seq<char>),
    UnsupportedOp(OpId),
    ArgCountMismatch { op: OpId, expected: usize, actual: usize },
    UnsupportedInputDtype(Seq<char>),
}

impl View for BuildError {
    type V = BuildFault;

    open spec fn view(&self) -> BuildFault {
        match *self {
            BuildError::InputCountMismatch { expected, actual } => BuildFault::InputCountMismatch {
                expected,
                actual,
            },
            BuildError::UndefinedNode(n) => BuildFault::UndefinedNode(n),
            BuildError::MlxError(s) => BuildFault::MlxError(s@),
            BuildError::UnsupportedOp(op) => BuildFault::UnsupportedOp(op),
            BuildError::ArgCountMismatch { op, expected, actual } => BuildFault::ArgCountMismatch {
                op,
                expected,
                actual,
            },
            BuildError::UnsupportedInputDtype(s) => BuildFault::UnsupportedInputDtype(s@),
        }
    }
}

impl BuildFault {
    /// The text shown for the error.
    pub open spec fn text(self) -> Seq<char> {
        match self {
            BuildFault::InputCountMismatch { expected, actual } => "scope expected "@ + decimal(
                expected as nat,
            ) + " inputs, got "@ + decimal(actual as nat),
            BuildFault::UndefinedNode(n) => "scope references undefined node index "@ + decimal(
                n as nat,
            ),
            BuildFault::MlxError(s) => "MLX FFI error: "@ + s,
            BuildFault::UnsupportedOp(op) => "op "@ + op.label()
                + " not yet supported by the subgraph builder"@,
            BuildFault::ArgCountMismatch { op, expected, actual } => "op "@ + op.label()
                + " expected "@ + decimal(expected as nat) + " arg(s), got "@ + decimal(
                actual as nat,
            ),
            BuildFault::UnsupportedInputDtype(s) => "unsupported input dtype for buffer path: "@
                + s,
        }
    }
}

impl BuildError {
    /// The text shown for the error.
    pub fn message(&self) -> (r: String)
        ensures
            r@ == self@.text(),
    {
        match self {
            BuildError::InputCountMismatch { expected, actual } => {
                let mut out: String = "scope expected ".to_owned();
                text::push_decimal(&mut out, *expected as u128);
                out.append(" inputs, got ");
                text::push_decimal(&mut out, *actual as u128);
                out
            },
            BuildError::UndefinedNode(n) => {
                let mut out: String = "scope references undefined node index ".to_owned();
                text::push_decimal(&mut out, *n as u128);
                out
            },
            BuildError::MlxError(s) => {
                let mut out: String = "MLX FFI error: ".to_owned();
                out.append(s.as_str());
                out
            },
            BuildError::UnsupportedOp(op) => {
                let mut out: String = "op ".to_owned();
                out.append(op.name());
                out.append(" not yet supported by the subgraph builder");
                out
            },
            BuildError::ArgCountMismatch { op, expected, actual } => {
                let mut out: String = "op ".to_owned();
                out.append(op.name());
                out.append(" expected ");
                text::push_decimal(&mut out, *expected as u128);
                out.append(" arg(s), got ");
                text::push_decimal(&mut out, *actual as u128);
                out
            },
            BuildError::UnsupportedInputDtype(s) => {
                let mut out: String = "unsupported input dtype for buffer path: ".to_owned();
                out.append(s.as_str());
                out
            },
        }
    }
}

/// A result of the array library, whose failures are carried by their texts.
pub fn ffi<T>(r: Result<T, String>) -> (out: Result<T, BuildError>)
    ensures
        match r {
            Ok(v) => out == Ok::<T, BuildError>(v),
            Err(s) => out == Err::<T, BuildError>(BuildError::MlxError(s)),
        },
{
    match r {
        Ok(v) => Ok(v),
        Err(s) => Err(BuildError::MlxError(s)),
    }
}

/// Element types of the array library.
#[derive(Clone, Copy, Debug, PartialEq, Eq, Structural)]
pub enum MlxDtype {
    F32,
    F64,
    Bool,
    I8,
    I16,
    I32,
    I64,
    U8,
    U16,
    U32,
    U64,
}

impl MlxDtype {
    /// Bytes per element.
    pub open spec fn width(self) -> nat {
        match self {
            MlxDtype::Bool | MlxDtype::I8 | MlxDtype::U8 => 1,
            MlxDtype::I16 | MlxDtype::U16 => 2,
            MlxDtype::F32 | MlxDtype::I32 | MlxDtype::U32 => 4,
            MlxDtype::F64 | MlxDtype::I64 | MlxDtype::U64 => 8,
        }
    }

    /// The name of the type.
    pub open spec fn label(self) -> Seq<char> {
        match self {
            MlxDtype::F32 => "F32"@,
            MlxDtype::F64 => "F64"@,
            MlxDtype::Bool => "Bool"@,
            MlxDtype::I8 => "I8"@,
            MlxDtype::I16 => "I16"@,
            MlxDtype::I32 => "I32"@,
            MlxDtype::I64 => "I64"@,
            MlxDtype::U8 => "U8"@,
            MlxDtype::U16 => "U16"@,
            MlxDtype::U32 => "U32"@,
            MlxDtype::U64 => "U64"@,
        }
    }

    pub fn element_size(self) -> (r: usize)
        ensures
            r == self.width(),
    {
        match self {
            MlxDtype::Bool | MlxDtype::I8 | MlxDtype::U8 => 1,
            MlxDtype::I16 | MlxDtype::U16 => 2,
            MlxDtype::F32 | MlxDtype::I32 | MlxDtype::U32 => 4,
            MlxDtype::F64 | MlxDtype::I64 | MlxDtype::U64 => 8,
        }
    }

    pub fn name(self) -> (r: &'static str)
        ensures
            r@ == self.label(),
    {
        match self {
            MlxDtype::F32 => "F32",
            MlxDtype::F64 => "F64",
            MlxDtype::Bool => "Bool",
            MlxDtype::I8 => "I8",
            MlxDtype::I16 => "I16",
            MlxDtype::I32 => "I32",
            MlxDtype::I64 => "I64",
            MlxDtype::U8 => "U8",
            MlxDtype::U16 => "U16",
            MlxDtype::U32 => "U32",
            MlxDtype::U64 => "U64",
        }
    }
}

/// The element type of an input column. Doubles, arrays and lists are not flat
/// columns that the buffer path takes: they give the name of the type.
pub open spec fn input_element(dtype: InputDtype) -> Result<MlxDtype, BuildFault> {
    match dtype {
        InputDtype::F32 => Ok(MlxDtype::F32),
        InputDtype::I32 => Ok(MlxDtype::I32),
        InputDtype::Bool => Ok(MlxDtype::Bool),
        InputDtype::I8 => Ok(MlxDtype::I8),
        InputDtype::I16 => Ok(MlxDtype::I16),
        InputDtype::I64 => Ok(MlxDtype::I64),
        InputDtype::U8 => Ok(MlxDtype::U8),
        InputDtype::U16 => Ok(MlxDtype::U16),
        InputDtype::U32 => Ok(MlxDtype::U32),
        InputDtype::U64 => Ok(MlxDtype::U64),
        InputDtype::F64 => Err(BuildFault::UnsupportedInputDtype("F64"@)),
        InputDtype::ArrayF32(n) => Err(
            BuildFault::UnsupportedInputDtype("ArrayF32("@ + decimal(n as nat) + ")"@),
        ),
        InputDtype::ListF32 => Err(BuildFault::UnsupportedInputDtype("ListF32"@)),
    }
}

/// Maps an input type to an element type.
pub fn input_dtype_to_mlx(dtype: InputDtype) -> (r: Result<MlxDtype, BuildError>)
    ensures
        match r {
            Ok(d) => input_element(dtype) == Ok::<MlxDtype, BuildFault>(d),
            Err(e) => input_element(dtype) == Err::<MlxDtype, BuildFault>(e@),
        },
{
    match dtype {
        InputDtype::F32 => Ok(MlxDtype::F32),
        InputDtype::I32 => Ok(MlxDtype::I32),
        InputDtype::Bool => Ok(MlxDtype::Bool),
        InputDtype::I8 => Ok(MlxDtype::I8),
        InputDtype::I16 => Ok(MlxDtype::I16),
        InputDtype::I64 => Ok(MlxDtype::I64),
        InputDtype::U8 => Ok(MlxDtype::U8),
        InputDtype::U16 => Ok(MlxDtype::U16),
        InputDtype::U32 => Ok(MlxDtype::U32),
        InputDtype::U64 => Ok(MlxDtype::U64),
        InputDtype::F64 => Err(BuildError::UnsupportedInputDtype("F64".to_owned())),
        InputDtype::ArrayF32(n) => {
            let mut out: String = "ArrayF32(".to_owned();
            text::push_decimal(&mut out, n as u128);
            out.append(")");
            Err(BuildError::UnsupportedInputDtype(out))
        },
        InputDtype::ListF32 => Err(BuildError::UnsupportedInputDtype("ListF32".to_owned())),
    }
}

/// A view of an input buffer as a one-dimensional array.
#[derive(Clone, Copy, Debug, PartialEq, Eq, Structural)]
pub struct InputView {
    pub dtype: MlxDtype,
    pub elements: usize,
}

/// How a buffer of `byte_len` bytes is viewed for an input of the given type:
/// as many whole elements as fit.
pub fn input_view(dtype: InputDtype, byte_len: usize) -> (r: Result<InputView, BuildError>)
    ensures
        match r {
            Ok(v) => input_element(dtype) == Ok::<MlxDtype, BuildFault>(v.dtype) && v.elements
                == byte_len as nat / v.dtype.width(),
            Err(e) => input_element(dtype) == Err::<MlxDtype, BuildFault>(e@),
        },
{
    match input_dtype_to_mlx(dtype) {
        Ok(d) => {
            let width: usize = d.element_size();
            Ok(InputView { dtype: d, elements: byte_len / width })
        },
        Err(e) => Err(e),
    }
}

/// Checks that a scope is given as many inputs as it declares.
pub fn check_input_count(scope: &FusionScope, given: usize) -> (r: Result<(), BuildError>)
    ensures
        match r {
            Ok(_) => given == scope.inputs@.len(),
            Err(e) => given != scope.inputs@.len() && (e matches BuildError::InputCountMismatch {
                expected,
                actual,
            } && expected == scope.inputs@.len() && actual == given),
        },
{
    if given != scope.inputs.len() {
        return Err(
            BuildError::InputCountMismatch { expected: scope.inputs.len(), actual: given },
        );
    }
    Ok(())
}

/// A call of the array library on handles given by their numbers.
#[derive(Clone, Copy, Debug, PartialEq, Eq, Structural)]
pub enum MlxCall {
    /// The function of an operation on one array.
    Unary { op: OpId, a: usize },
    /// The function of an operation on two arrays.
    Binary { op: OpId, a: usize, b: usize },
    /// A choice between two arrays by a condition.
    Select { condition: usize, a: usize, b: usize },
    /// A cast to an element type.
    Cast { a: usize, to: MlxDtype },
    /// The cumulative scan of an operation along the first axis.
    Scan { op: OpId, a: usize },
    /// A forward shift with zero fill.
    Shift { a: usize, by: i64 },
    /// The numbers from zero, `n` of them.
    Iota { n: usize },
}

/// The first argument that is not among the first `handles` nodes.
pub open spec fn first_undefined(args: Seq<NodeIdx>, handles: nat, from: int) -> Option<u32>
    decreases args.len() - from,
{
    if from < 0 || from >= args.len() {
        None
    } else if args[from].0 >= handles {
        Some(args[from].0)
    } else {
        first_undefined(args, handles, from + 1)
    }
}

/// The operation is refused with another number of arguments; any other
/// operation takes its arguments from the front.
pub open spec fn counts_args(op: OpId) -> bool {
    match op {
        OpId::Add | OpId::Sub | OpId::Mul | OpId::Div | OpId::Mod | OpId::Pow | OpId::Neg
        | OpId::Abs | OpId::Square | OpId::Where | OpId::Shift | OpId::RowIndex
        | OpId::Take => true,
        _ => false,
    }
}

/// The builder has no call for the operation: it carries no pivot for a
/// partial sort, and complex results cannot be folded back.
pub open spec fn has_no_call(op: OpId) -> bool {
    op == OpId::ArgPartition || op == OpId::Fft || op == OpId::Ifft
}

/// The element type of a cast.
pub open spec fn cast_target(op: OpId) -> Option<MlxDtype> {
    match op {
        OpId::CastF32 => Some(MlxDtype::F32),
        OpId::CastF64 => Some(MlxDtype::F64),
        OpId::CastI32 => Some(MlxDtype::I32),
        OpId::CastBool => Some(MlxDtype::Bool),
        _ => None,
    }
}

/// The operation is a cumulative scan.
pub open spec fn is_scan(op: OpId) -> bool {
    op == OpId::CumSum || op == OpId::CumProd || op == OpId::CumMax || op == OpId::CumMin
}

/// The call that an operation becomes on defined arguments of the right number.
/// `first_dim` is the length of the first handle, if there is one.
pub open spec fn call_for(
    op: OpId,
    args: Seq<NodeIdx>,
    param: Option<i64>,
    first_dim: Option<usize>,
) -> Result<MlxCall, BuildFault> {
    if has_no_call(op) {
        Err(BuildFault::UnsupportedOp(op))
    } else if op == OpId::RowIndex {
        match first_dim {
            Some(n) => Ok(MlxCall::Iota { n }),
            None => Err(BuildFault::UnsupportedOp(op)),
        }
    } else if op == OpId::Shift {
        match param {
            Some(by) => Ok(MlxCall::Shift { a: args[0].0 as usize, by }),
            None => Err(BuildFault::UnsupportedOp(op)),
        }
    } else if op == OpId::Where {
        Ok(
            MlxCall::Select {
                condition: args[0].0 as usize,
                a: args[1].0 as usize,
                b: args[2].0 as usize,
            },
        )
    } else if is_scan(op) {
        Ok(MlxCall::Scan { op, a: args[0].0 as usize })
    } else {
        match cast_target(op) {
            Some(to) => Ok(MlxCall::Cast { a: args[0].0 as usize, to }),
            None => if op.arity() == 2 {
                Ok(MlxCall::Binary { op, a: args[0].0 as usize, b: args[1].0 as usize })
            } else {
                Ok(MlxCall::Unary { op, a: args[0].0 as usize })
            },
        }
    }
}

/// What an operation becomes when `handles` nodes are built: undefined
/// arguments are reported first, then a wrong number of arguments.
pub open spec fn op_outcome(node: OpNode, handles: nat, first_dim: Option<usize>) -> Result<
    MlxCall,
    BuildFault,
> {
    match first_undefined(node.args@, handles, 0) {
        Some(n) => Err(BuildFault::UndefinedNode(n)),
        None => if counts_args(node.op) && node.args@.len() != node.op.arity() {
            Err(
                BuildFault::ArgCountMismatch {
                    op: node.op,
                    expected: node.op.arity() as usize,
                    actual: node.args@.len() as usize,
                },
            )
        } else {
            call_for(node.op, node.args@, node.param, first_dim)
        },
    }
}

/// An operation that does not count its arguments has enough of them, unless
/// one is undefined or it has no call.
pub open spec fn enough_args(node: OpNode, handles: nat) -> bool {
    ||| first_undefined(node.args@, handles, 0) is Some
    ||| counts_args(node.op)
    ||| has_no_call(node.op)
    ||| node.args@.len() >= node.op.arity()
}

/// The handles that a call reads are all built.
pub open spec fn reads_built(call: MlxCall, handles: nat) -> bool {
    match call {
        MlxCall::Unary { op, a } => a < handles,
        MlxCall::Binary { op, a, b } => a < handles && b < handles,
        MlxCall::Select { condition, a, b } => condition < handles && a < handles && b < handles,
        MlxCall::Cast { a, to } => a < handles,
        MlxCall::Scan { op, a } => a < handles,
        MlxCall::Shift { a, by } => a < handles,
        MlxCall::Iota { n } => true,
    }
}

proof fn lemma_defined(args: Seq<NodeIdx>, handles: nat, from: int)
    requires
        0 <= from <= args.len(),
        first_undefined(args, handles, from) is None,
    ensures
        forall|i: int| from <= i < args.len() ==> (#[trigger] args[i]).0 < handles,
    decreases args.len() - from,
{
    if from < args.len() {
        lemma_defined(args, handles, from + 1);
    }
}

/// Finds the first argument that is not built.
fn find_undefined(args: &Vec<NodeIdx>, handles: usize) -> (r: Option<u32>)
    ensures
        r == first_undefined(args@, handles as nat, 0),
{
    let mut i: usize = 0;
    while i < args.len()
        invariant
            i <= args@.len(),
            first_undefined(args@, handles as nat, 0) == first_undefined(
                args@,
                handles as nat,
                i as int,
            ),
        decreases args@.len() - i,
    {
        if args[i].0 as u128 >= handles as u128 {
            return Some(args[i].0);
        }
        i = i + 1;
    }
    None
}

fn needs_count(op: OpId) -> (r: bool)
    ensures
        r == counts_args(op),
{
    match op {
        OpId::Add | OpId::Sub | OpId::Mul | OpId::Div | OpId::Mod | OpId::Pow | OpId::Neg
        | OpId::Abs | OpId::Square | OpId::Where | OpId::Shift | OpId::RowIndex
        | OpId::Take => true,
        _ => false,
    }
}

/// Checks the number of arguments of an operation.
pub fn arg_count(op: OpId, expected: usize, actual: usize) -> (r: Result<(), BuildError>)
    ensures
        match r {
            Ok(_) => actual == expected,
            Err(e) => actual != expected && e == (BuildError::ArgCountMismatch {
                op,
                expected,
                actual,
            }),
        },
{
    if actual != expected {
        return Err(BuildError::ArgCountMismatch { op, expected, actual });
    }
    Ok(())
}

/// Decides which call an operation becomes, when `handles` nodes are built and
/// the first of them has the length `first_dim`.
pub fn build_op(node: &OpNode, handles: usize, first_dim: Option<usize>) -> (r: Result<
    MlxCall,
    BuildError,
>)
    requires
        enough_args(*node, handles as nat),
    ensures
        match r {
            Ok(c) => op_outcome(*node, handles as nat, first_dim) == Ok::<MlxCall, BuildFault>(c)
                && reads_built(c, handles as nat),
            Err(e) => op_outcome(*node, handles as nat, first_dim) == Err::<MlxCall, BuildFault>(
                e@,
            ),
        },
{
    match find_undefined(&node.args, handles) {
        Some(n) => return Err(BuildError::UndefinedNode(n)),
        None => {},
    }
    proof {
        lemma_defined(node.args@, handles as nat, 0);
    }
    let op: OpId = node.op;
    let arity: usize = op_spec(op).n_args as usize;
    if needs_count(op) {
        match arg_count(op, arity, node.args.len()) {
            Ok(_) => {},
            Err(e) => return Err(e),
        }
    }
    match op {
        OpId::ArgPartition | OpId::Fft | OpId::Ifft => Err(BuildError::UnsupportedOp(op)),
        OpId::RowIndex => match first_dim {
            Some(n) => Ok(MlxCall::Iota { n }),
            None => Err(BuildError::UnsupportedOp(op)),
        },
        OpId::Shift => match node.param {
            Some(by) => Ok(MlxCall::Shift { a: node.args[0].0 as usize, by }),
            None => Err(BuildError::UnsupportedOp(op)),
        },
        OpId::Where => Ok(
            MlxCall::Select {
                condition: node.args[0].0 as usize,
                a: node.args[1].0 as usize,
                b: node.args[2].0 as usize,
            },
        ),
        OpId::CumSum | OpId::CumProd | OpId::CumMax | OpId::CumMin => Ok(
            MlxCall::Scan { op, a: node.args[0].0 as usize },
        ),
        OpId::CastF32 => Ok(MlxCall::Cast { a: node.args[0].0 as usize, to: MlxDtype::F32 }),
        OpId::CastF64 => Ok(MlxCall::Cast { a: node.args[0].0 as usize, to: MlxDtype::F64 }),
        OpId::CastI32 => Ok(MlxCall::Cast { a: node.args[0].0 as usize, to: MlxDtype::I32 }),
        OpId::CastBool => Ok(MlxCall::Cast { a: node.args[0].0 as usize, to: MlxDtype::Bool }),
        _ => if arity == 2 {
            Ok(
                MlxCall::Binary {
                    op,
                    a: node.args[0].0 as usize,
                    b: node.args[1].0 as usize,
                },
            )
        } else {
            Ok(MlxCall::Unary { op, a: node.args[0].0 as usize })
        },
    }
}

/// Finds the handles of a scope's outputs once all `handles` nodes are built.
pub fn output_handles(scope: &FusionScope, handles: usize) -> (r: Result<Vec<usize>, BuildError>)
    ensures
        match r {
            Ok(v) => {
                &&& first_undefined(scope.outputs@, handles as nat, 0) is None
                &&& v@.len() == scope.outputs@.len()
                &&& forall|i: int|
                    0 <= i < v@.len() ==> #[trigger] v@[i] == scope.outputs@[i].0 && v@[i]
                        < handles
            },
            Err(e) => first_undefined(scope.outputs@, handles as nat, 0) matches Some(n) && e
                == BuildError::UndefinedNode(n),
        },
{
    match find_undefined(&scope.outputs, handles) {
        Some(n) => return Err(BuildError::UndefinedNode(n)),
        None => {},
    }
    proof {
        lemma_defined(scope.outputs@, handles as nat, 0);
    }
    let mut out: Vec<usize> = Vec::new();
    let mut i: usize = 0;
    while i < scope.outputs.len()
        invariant
            i <= scope.outputs@.len(),
            out@.len() == i,
            forall|j: int|
                0 <= j < scope.outputs@.len() ==> (#[trigger] scope.outputs@[j]).0 < handles,
            forall|j: int|
                0 <= j < i ==> #[trigger] out@[j] == scope.outputs@[j].0 && out@[j] < handles,
        decreases scope.outputs@.len() - i,
    {
        assert(scope.outputs@[i as int].0 < handles);
        out.push(scope.outputs[i].0 as usize);
        i = i + 1;
    }
    Ok(out)
}

/// A subgraph whose nodes are all built: how many handles there are, and which
/// of them are its outputs.
#[derive(Debug)]
pub struct MlxSubgraph {
    pub handles: usize,
    pub outputs: Vec<usize>,
}

/// What building a subgraph asks for next.
#[derive(Debug)]
pub enum BuildStep {
    /// The view of an input buffer that gives the next handle.
    View(InputView),
    /// The call that gives the next handle.
    Call(MlxCall),
    /// Nothing: the subgraph is built.
    Built(MlxSubgraph),
}

/// What building asks for when the inputs and the first `handles` nodes in all
/// are built: the call of the next operation, or nothing once all are built and
/// every output is one of them.
pub open spec fn build_outcome(
    scope: FusionScope,
    handles: usize,
    first_dim: Option<usize>,
    r: Result<BuildStep, BuildError>,
) -> bool {
    if handles < scope.node_count() {
        let outcome = op_outcome(
            scope.ops@[handles - scope.inputs@.len()],
            handles as nat,
            first_dim,
        );
        match r {
            Ok(BuildStep::Call(c)) => outcome == Ok::<MlxCall, BuildFault>(c) && reads_built(
                c,
                handles as nat,
            ),
            Ok(_) => false,
            Err(e) => outcome == Err::<MlxCall, BuildFault>(e@),
        }
    } else {
        match r {
            Ok(BuildStep::Built(g)) => {
                &&& first_undefined(scope.outputs@, handles as nat, 0) is None
                &&& g.handles == handles
                &&& g.outputs@.len() == scope.outputs@.len()
                &&& forall|i: int|
                    0 <= i < g.outputs@.len() ==> #[trigger] g.outputs@[i] == scope.outputs@[i].0
                        && g.outputs@[i] < handles
            },
            Ok(_) => false,
            Err(e) => first_undefined(scope.outputs@, handles as nat, 0) matches Some(n) && e
                == BuildError::UndefinedNode(n),
        }
    }
}

/// The answer to a number of inputs other than the scope declares.
pub open spec fn miscounted(scope: FusionScope, given: nat, r: Result<BuildStep, BuildError>) -> bool {
    r matches Err(BuildError::InputCountMismatch { expected, actual }) && expected
        == scope.inputs@.len() && actual == given
}

/// What building over `given` inputs asks for when the inputs and the first
/// `handles` nodes in all are built.
pub open spec fn scope_outcome(
    scope: FusionScope,
    given: usize,
    handles: usize,
    first_dim: Option<usize>,
    r: Result<BuildStep, BuildError>,
) -> bool {
    if given != scope.inputs@.len() {
        miscounted(scope, given as nat, r)
    } else {
        build_outcome(scope, handles, first_dim, r)
    }
}

/// What building over buffers asks for when the first `handles` nodes are
/// built: a buffer for every input, then a view of each, then the operations.
pub open spec fn buffer_outcome(
    scope: FusionScope,
    byte_lens: Seq<usize>,
    handles: usize,
    first_dim: Option<usize>,
    r: Result<BuildStep, BuildError>,
) -> bool {
    if byte_lens.len() != scope.inputs@.len() {
        miscounted(scope, byte_lens.len(), r)
    } else if handles < scope.inputs@.len() {
        let element = input_element(scope.inputs@[handles as int].dtype);
        match r {
            Ok(BuildStep::View(v)) => element == Ok::<MlxDtype, BuildFault>(v.dtype) && v.elements
                == byte_lens[handles as int] as nat / v.dtype.width(),
            Ok(_) => false,
            Err(e) => element == Err::<MlxDtype, BuildFault>(e@),
        }
    } else {
        build_outcome(scope, handles, first_dim, r)
    }
}

/// Whether an operation has enough arguments to be built.
pub fn has_enough_args(node: &OpNode, handles: usize) -> (r: bool)
    ensures
        r == enough_args(*node, handles as nat),
{
    if needs_count(node.op) {
        return true;
    }
    match find_undefined(&node.args, handles) {
        Some(_) => return true,
        None => {},
    }
    match node.op {
        OpId::ArgPartition | OpId::Fft | OpId::Ifft => true,
        _ => node.args.len() >= op_spec(node.op).n_args as usize,
    }
}

/// The failure for a result type that is not read back.
pub open spec fn unreadable(dtype: MlxDtype) -> BuildFault {
    BuildFault::UnsupportedInputDtype("output "@ + dtype.label())
}

/// Results of the type are read back.
pub open spec fn readable(dtype: MlxDtype) -> bool {
    dtype != MlxDtype::Bool && dtype != MlxDtype::F64
}

/// Checks that results of a type are read back.
pub fn check_readable(dtype: MlxDtype) -> (r: Result<(), BuildError>)
    ensures
        match r {
            Ok(_) => readable(dtype),
            Err(e) => !readable(dtype) && e@ == unreadable(dtype),
        },
{
    match dtype {
        MlxDtype::Bool | MlxDtype::F64 => {
            let mut out: String = "output ".to_owned();
            out.append(dtype.name());
            Err(BuildError::UnsupportedInputDtype(out))
        },
        _ => Ok(()),
    }
}

/// The number of elements of the first `n` axes of a shape.
pub open spec fn elements(shape: Seq<usize>, n: int) -> nat
    decreases n,
{
    if n <= 0 {
        1
    } else {
        elements(shape, n - 1) * shape[n - 1] as nat
    }
}

/// Counts the elements of a shape, axis by axis; `None` when a product on the
/// way does not fit a machine word.
pub fn element_count(shape: &[usize]) -> (r: Option<usize>)
    ensures
        match r {
            Some(n) => n == elements(shape@, shape@.len() as int) && forall|i: int|
                0 <= i <= shape@.len() ==> #[trigger] elements(shape@, i) <= usize::MAX,
            None => exists|i: int|
                0 <= i <= shape@.len() && #[trigger] elements(shape@, i) > usize::MAX,
        },
{
    let mut n: usize = 1;
    let mut i: usize = 0;
    while i < shape.len()
        invariant
            i <= shape@.len(),
            n == elements(shape@, i as int),
            forall|j: int| 0 <= j <= i ==> #[trigger] elements(shape@, j) <= usize::MAX,
        decreases shape@.len() - i,
    {
        match n.checked_mul(shape[i]) {
            Some(m) => {
                assert(m == elements(shape@, i + 1));
                n = m;
            },
            None => {
                assert(elements(shape@, i + 1) > usize::MAX);
                return None;
            },
        }
        i = i + 1;
    }
    Some(n)
}

/// What reading back a single result of `n` elements comes to: the number of
/// elements to copy. The declared type must be the evaluated one, and the
/// elements must fit; nothing is copied of an empty result, whatever its type.
pub open spec fn readback_outcome(
    declared: MlxDtype,
    evaluated: MlxDtype,
    n: usize,
    capacity: usize,
) -> Result<usize, BuildFault> {
    if evaluated != declared {
        Err(
            BuildFault::MlxError(
                "output dtype mismatch: declared "@ + declared.label() + ", eval'd "@
                    + evaluated.label(),
            ),
        )
    } else if n > capacity {
        Err(
            BuildFault::MlxError(
                "output too large: "@ + decimal(n as nat) + " > capacity "@ + decimal(
                    capacity as nat,
                ),
            ),
        )
    } else if n == 0 {
        Ok(0)
    } else if !readable(declared) {
        Err(unreadable(declared))
    } else {
        Ok(n)
    }
}

/// What reading back all outputs of an evaluated subgraph asks for next.
#[derive(Debug, Clone, Copy, PartialEq, Eq, Structural)]
pub enum ReadStep {
    /// The elements of the array with this handle, of this type.
    Read { handle: usize, dtype: MlxDtype },
    /// Nothing: every output is read.
    Done,
}

/// What reading back all outputs asks for once `read` of them are read: the
/// next output in order, unless results of its type are not read back.
pub open spec fn read_outcome(
    outputs: Seq<usize>,
    read: int,
    dtypes: Seq<MlxDtype>,
) -> Result<ReadStep, BuildFault> {
    if read >= outputs.len() {
        Ok(ReadStep::Done)
    } else if readable(dtypes[read]) {
        Ok(ReadStep::Read { handle: outputs[read], dtype: dtypes[read] })
    } else {
        Err(unreadable(dtypes[read]))
    }
}

impl MlxSubgraph {
    /// Decides what building a subgraph over `given` inputs asks for, when
    /// `handles` nodes are built: the inputs at least. The first of them has
    /// the length `first_dim`.
    pub fn from_fusion_scope(
        scope: &FusionScope,
        given: usize,
        handles: usize,
        first_dim: Option<usize>,
    ) -> (r: Result<BuildStep, BuildError>)
        requires
            given == scope.inputs@.len() ==> {
                &&& scope.inputs@.len() <= handles <= scope.node_count()
                &&& handles < scope.node_count() ==> enough_args(
                    scope.ops@[handles - scope.inputs@.len()],
                    handles as nat,
                )
            },
        ensures
            scope_outcome(*scope, given, handles, first_dim, r),
    {
        match check_input_count(scope, given) {
            Ok(_) => {},
            Err(e) => return Err(e),
        }
        let at: usize = handles - scope.inputs.len();
        if at < scope.ops.len() {
            match build_op(&scope.ops[at], handles, first_dim) {
                Ok(c) => Ok(BuildStep::Call(c)),
                Err(e) => Err(e),
            }
        } else {
            match output_handles(scope, handles) {
                Ok(outputs) => Ok(BuildStep::Built(MlxSubgraph { handles, outputs })),
                Err(e) => Err(e),
            }
        }
    }

    /// Decides what building a subgraph over buffers of the given lengths asks
    /// for, when `handles` nodes are built.
    pub fn from_fusion_scope_buffers(
        scope: &FusionScope,
        byte_lens: &Vec<usize>,
        handles: usize,
        first_dim: Option<usize>,
    ) -> (r: Result<BuildStep, BuildError>)
        requires
            byte_lens@.len() == scope.inputs@.len() ==> {
                &&& handles <= scope.node_count()
                &&& scope.inputs@.len() <= handles < scope.node_count() ==> enough_args(
                    scope.ops@[handles - scope.inputs@.len()],
                    handles as nat,
                )
            },
        ensures
            buffer_outcome(*scope, byte_lens@, handles, first_dim, r),
    {
        match check_input_count(scope, byte_lens.len()) {
            Ok(_) => {},
            Err(e) => return Err(e),
        }
        if handles < scope.inputs.len() {
            return match input_view(scope.inputs[handles].dtype, byte_lens[handles]) {
                Ok(v) => Ok(BuildStep::View(v)),
                Err(e) => Err(e),
            };
        }
        Self::from_fusion_scope(scope, byte_lens.len(), handles, first_dim)
    }

    /// Checks that the subgraph has a single output, and gives its handle.
    pub fn single_output(&self) -> (r: Result<usize, BuildError>)
        ensures
            match r {
                Ok(h) => self.outputs@.len() == 1 && h == self.outputs@[0],
                Err(e) => self.outputs@.len() != 1 && e == (BuildError::InputCountMismatch {
                    expected: 1,
                    actual: self.outputs@.len() as usize,
                }),
            },
    {
        if self.outputs.len() != 1 {
            return Err(
                BuildError::InputCountMismatch { expected: 1, actual: self.outputs.len() },
            );
        }
        Ok(self.outputs[0])
    }

    /// Decides how many elements of an evaluated result are copied out.
    pub fn eval_into_typed(
        declared: MlxDtype,
        evaluated: MlxDtype,
        n: usize,
        capacity: usize,
    ) -> (r: Result<usize, BuildError>)
        ensures
            match r {
                Ok(m) => readback_outcome(declared, evaluated, n, capacity) == Ok::<
                    usize,
                    BuildFault,
                >(m),
                Err(e) => readback_outcome(declared, evaluated, n, capacity) == Err::<
                    usize,
                    BuildFault,
                >(e@),
            },
    {
        if evaluated != declared {
            let mut out: String = "output dtype mismatch: declared ".to_owned();
            out.append(declared.name());
            out.append(", eval'd ");
            out.append(evaluated.name());
            return Err(BuildError::MlxError(out));
        }
        if n > capacity {
            let mut out: String = "output too large: ".to_owned();
            text::push_decimal(&mut out, n as u128);
            out.append(" > capacity ");
            text::push_decimal(&mut out, capacity as u128);
            return Err(BuildError::MlxError(out));
        }
        if n == 0 {
            return Ok(0);
        }
        match check_readable(declared) {
            Ok(_) => Ok(n),
            Err(e) => Err(e),
        }
    }

    /// Decides what reading back all outputs asks for, when `read` of them are
    /// read. The types of the evaluated outputs are known up to the next one.
    pub fn eval_to_metal_buffers(&self, read: usize, dtypes: &Vec<MlxDtype>) -> (r: Result<
        ReadStep,
        BuildError,
    >)
        requires
            read < self.outputs@.len() ==> read < dtypes@.len(),
        ensures
            match r {
                Ok(step) => read_outcome(self.outputs@, read as int, dtypes@) == Ok::<
                    ReadStep,
                    BuildFault,
                >(step),
                Err(e) => read_outcome(self.outputs@, read as int, dtypes@) == Err::<
                    ReadStep,
                    BuildFault,
                >(e@),
            },
    {
        if read >= self.outputs.len() {
            return Ok(ReadStep::Done);
        }
        match check_readable(dtypes[read]) {
            Ok(_) => Ok(ReadStep::Read { handle: self.outputs[read], dtype: dtypes[read] }),
            Err(e) => Err(e),
        }
    }
}

/// An operation whose arguments are all earlier nodes never refers to an
/// undefined node when its turn comes.
pub proof fn earlier_nodes_are_defined(scope: FusionScope, at: int)
    requires
        0 <= at < scope.ops@.len(),
        forall|i: int|
            0 <= i < scope.ops@[at].args@.len() ==> (#[trigger] scope.ops@[at].args@[i]).0
                < scope.inputs@.len() + at,
    ensures
        first_undefined(scope.ops@[at].args@, (scope.inputs@.len() + at) as nat, 0) is None,
{
    lemma_all_defined(scope.ops@[at].args@, (scope.inputs@.len() + at) as nat, 0);
}

proof fn lemma_all_defined(args: Seq<NodeIdx>, handles: nat, from: int)
    requires
        0 <= from,
        forall|i: int| 0 <= i < args.len() ==> (#[trigger] args[i]).0 < handles,
    ensures
        first_undefined(args, handles, from) is None,
    decreases args.len() - from,
{
    if from < args.len() {
        lemma_all_defined(args, handles, from + 1);
    }
}

/// A copy never exceeds the capacity it is given.
pub proof fn readback_stays_in_capacity(
    declared: MlxDtype,
    evaluated: MlxDtype,
    n: usize,
    capacity: usize,
)
    ensures
        readback_outcome(declared, evaluated, n, capacity) matches Ok(m) ==> m <= capacity && m == n
            && declared == evaluated,
{
}

} // verus!
