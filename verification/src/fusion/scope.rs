//! Fusion scopes: a graph of inputs and operations with marked outputs. The
//! inputs are numbered first, the operations after them.

use vstd::prelude::*;

use crate::fusion::supported_ops::{op_spec, OpId, OpSpec};

verus! {

/// The type of an input column.
#[derive(Clone, Copy, Debug, PartialEq, Eq, Structural)]
pub enum InputDtype {
    F32,
    F64,
    Bool,
    I32,
    I8,
    I16,
    I64,
    U8,
    U16,
    U32,
    U64,
    ArrayF32(usize),
    ListF32,
}

/// An input column of a scope.
#[derive(Debug)]
pub struct InputRef {
    pub column_name: String,
    pub dtype: InputDtype,
}

impl Clone for InputRef {
    fn clone(&self) -> (r: Self)
        ensures
            r == *self,
    {
        InputRef { column_name: self.column_name.clone(), dtype: self.dtype }
    }
}

/// The number of a node: an input, or an operation after all inputs.
#[derive(Clone, Copy, Debug, PartialEq, Eq, Structural)]
pub struct NodeIdx(pub u32);

/// An operation with its arguments and, for a shift, its amount.
#[derive(Debug)]
pub struct OpNode {
    pub op: OpId,
    pub args: Vec<NodeIdx>,
    pub param: Option<i64>,
}

impl OpNode {
    /// The content of the node is the same.
    pub open spec fn same_as(self, other: OpNode) -> bool {
        &&& self.op == other.op
        &&& self.args@ == other.args@
        &&& self.param == other.param
    }
}

impl Clone for OpNode {
    fn clone(&self) -> (r: Self)
        ensures
            r.same_as(*self),
    {
        let args: Vec<NodeIdx> = self.args.clone();
        assert(args@ =~= self.args@);
        OpNode { op: self.op, args, param: self.param }
    }
}

/// A scope under construction.
#[derive(Debug)]
pub struct FusionScope {
    pub inputs: Vec<InputRef>,
    pub ops: Vec<OpNode>,
    pub outputs: Vec<NodeIdx>,
}

/// The operation needs the whole column: its result cannot feed a row-wise
/// operation.
pub open spec fn is_terminator(op: OpId) -> bool {
    match op {
        OpId::Sum | OpId::Mean | OpId::Min | OpId::Max | OpId::Std | OpId::Var | OpId::ArgMin
        | OpId::ArgMax | OpId::Sort | OpId::ArgPartition | OpId::MatMul | OpId::Fft
        | OpId::Ifft => true,
        _ => false,
    }
}

/// The work of the first `n` operations on `rows` rows. Operations of dynamic
/// work count as none.
pub open spec fn work(ops: Seq<OpNode>, rows: nat, n: int) -> nat
    decreases n,
{
    if n <= 0 {
        0
    } else {
        work(ops, rows, n - 1) + if ops[n - 1].op.dynamic() {
            0nat
        } else {
            (ops[n - 1].op.flops() as nat) * rows
        }
    }
}

proof fn lemma_work_grows(ops: Seq<OpNode>, rows: nat, n: int, m: int)
    requires
        0 <= n <= m,
    ensures
        work(ops, rows, n) <= work(ops, rows, m),
    decreases m,
{
    if n < m {
        lemma_work_grows(ops, rows, n, m - 1);
    }
}

impl FusionScope {
    /// The number of nodes.
    pub open spec fn node_count(self) -> nat {
        self.inputs@.len() + self.ops@.len()
    }

    /// The estimated work on `rows` rows.
    pub open spec fn total_work(self, rows: nat) -> nat {
        work(self.ops@, rows, self.ops@.len() as int)
    }

    pub fn new() -> (r: Self)
        ensures
            r.inputs@ == Seq::<InputRef>::empty(),
            r.ops@ == Seq::<OpNode>::empty(),
            r.outputs@ == Seq::<NodeIdx>::empty(),
    {
        FusionScope { inputs: Vec::new(), ops: Vec::new(), outputs: Vec::new() }
    }

    /// Adds an input column and returns its number. Inputs have to be counted
    /// in 32 bits.
    pub fn add_input(&mut self, name: &str, dtype: InputDtype) -> (r: NodeIdx)
        requires
            old(self).inputs@.len() <= u32::MAX,
        ensures
            r.0 == old(self).inputs@.len(),
            final(self).inputs@.len() == old(self).inputs@.len() + 1,
            final(self).inputs@.drop_last() == old(self).inputs@,
            final(self).inputs@.last().column_name@ == name@,
            final(self).inputs@.last().dtype == dtype,
            final(self).ops == old(self).ops,
            final(self).outputs == old(self).outputs,
    {
        let idx: NodeIdx = NodeIdx(self.inputs.len() as u32);
        self.inputs.push(InputRef { column_name: name.to_owned(), dtype });
        assert(self.inputs@.drop_last() =~= old(self).inputs@);
        idx
    }

    /// Adds an operation and returns its number. Nodes have to be counted in
    /// 32 bits.
    pub fn push_op(&mut self, op: OpId, args: Vec<NodeIdx>) -> (r: NodeIdx)
        requires
            old(self).node_count() <= u32::MAX,
        ensures
            r.0 == old(self).node_count(),
            final(self).ops@ == old(self).ops@.push(OpNode { op, args, param: None }),
            final(self).inputs == old(self).inputs,
            final(self).outputs == old(self).outputs,
    {
        self.push_op_param(op, args, None)
    }

    /// Adds an operation with a parameter and returns its number.
    pub fn push_op_param(&mut self, op: OpId, args: Vec<NodeIdx>, param: Option<i64>) -> (r:
        NodeIdx)
        requires
            old(self).node_count() <= u32::MAX,
        ensures
            r.0 == old(self).node_count(),
            final(self).ops@ == old(self).ops@.push(OpNode { op, args, param }),
            final(self).inputs == old(self).inputs,
            final(self).outputs == old(self).outputs,
    {
        let idx: NodeIdx = NodeIdx(self.inputs.len() as u32 + self.ops.len() as u32);
        self.ops.push(OpNode { op, args, param });
        idx
    }

    /// Marks a node as an output.
    pub fn mark_output(&mut self, idx: NodeIdx)
        ensures
            final(self).outputs@ == old(self).outputs@.push(idx),
            final(self).inputs == old(self).inputs,
            final(self).ops == old(self).ops,
    {
        self.outputs.push(idx);
    }

    /// The estimated work on `n_rows` rows, when it fits 64 bits.
    pub fn est_flops_checked(&self, n_rows: usize) -> (r: Option<u64>)
        ensures
            match r {
                Some(w) => w == self.total_work(n_rows as nat),
                None => self.total_work(n_rows as nat) > u64::MAX,
            },
    {
        let mut total: u64 = 0;
        let mut i: usize = 0;
        while i < self.ops.len()
            invariant
                i <= self.ops@.len(),
                total == work(self.ops@, n_rows as nat, i as int),
            decreases self.ops@.len() - i,
        {
            let spec: OpSpec = op_spec(self.ops[i].op);
            proof {
                lemma_work_grows(self.ops@, n_rows as nat, i + 1, self.ops@.len() as int);
            }
            if !spec.dynamic_flops {
                let own: u128 = wide_work(spec.flops_per_row, n_rows);
                let sum: u128 = total as u128 + own;
                if sum > u64::MAX as u128 {
                    return None;
                }
                total = sum as u64;
            }
            i = i + 1;
        }
        Some(total)
    }

    /// The estimated work on `n_rows` rows, which must fit 64 bits.
    pub fn est_flops_for(&self, n_rows: usize) -> (r: u64)
        requires
            self.total_work(n_rows as nat) <= u64::MAX,
        ensures
            r == self.total_work(n_rows as nat),
    {
        match self.est_flops_checked(n_rows) {
            Some(w) => w,
            None => 0,
        }
    }

    /// Whether some operation needs the whole column.
    pub fn has_terminator(&self) -> (r: bool)
        ensures
            r == exists|i: int| 0 <= i < self.ops@.len() && is_terminator((#[trigger] self.ops@[i]).op),
    {
        let mut i: usize = 0;
        while i < self.ops.len()
            invariant
                i <= self.ops@.len(),
                forall|j: int| 0 <= j < i ==> !is_terminator((#[trigger] self.ops@[j]).op),
            decreases self.ops@.len() - i,
        {
            let op: OpId = self.ops[i].op;
            let ends: bool = match op {
                OpId::Sum | OpId::Mean | OpId::Min | OpId::Max | OpId::Std | OpId::Var
                | OpId::ArgMin | OpId::ArgMax | OpId::Sort | OpId::ArgPartition | OpId::MatMul
                | OpId::Fft | OpId::Ifft => true,
                _ => false,
            };
            if ends {
                assert(is_terminator(self.ops@[i as int].op));
                return true;
            }
            i = i + 1;
        }
        false
    }
}

/// The work of one operation.
fn wide_work(flops: u32, rows: usize) -> (r: u128)
    ensures
        r == flops * rows,
        r <= 0xffff_ffff * 0xffff_ffff_ffff_ffff,
{
    assert(flops * rows <= 0xffff_ffff * 0xffff_ffff_ffff_ffff) by (nonlinear_arith)
        requires
            0 <= flops <= 0xffff_ffff,
            0 <= rows <= 0xffff_ffff_ffff_ffff,
    ;
    (flops as u128) * (rows as u128)
}

impl Default for FusionScope {
    fn default() -> (r: Self)
        ensures
            r.inputs@ == Seq::<InputRef>::empty(),
            r.ops@ == Seq::<OpNode>::empty(),
            r.outputs@ == Seq::<NodeIdx>::empty(),
    {
        FusionScope::new()
    }
}

impl Clone for FusionScope {
    fn clone(&self) -> (r: Self)
        ensures
            r.inputs@ == self.inputs@,
            r.outputs@ == self.outputs@,
            r.ops@.len() == self.ops@.len(),
            forall|i: int| 0 <= i < r.ops@.len() ==> (#[trigger] r.ops@[i]).same_as(self.ops@[i]),
    {
        let mut inputs: Vec<InputRef> = Vec::new();
        let mut i: usize = 0;
        while i < self.inputs.len()
            invariant
                i <= self.inputs@.len(),
                inputs@ =~= self.inputs@.take(i as int),
            decreases self.inputs@.len() - i,
        {
            inputs.push(self.inputs[i].clone());
            i = i + 1;
        }
        let mut ops: Vec<OpNode> = Vec::new();
        let mut i: usize = 0;
        while i < self.ops.len()
            invariant
                i <= self.ops@.len(),
                ops@.len() == i,
                forall|j: int| 0 <= j < i ==> (#[trigger] ops@[j]).same_as(self.ops@[j]),
            decreases self.ops@.len() - i,
        {
            ops.push(self.ops[i].clone());
            i = i + 1;
        }
        let outputs: Vec<NodeIdx> = self.outputs.clone();
        assert(outputs@ =~= self.outputs@);
        assert(inputs@ =~= self.inputs@);
        FusionScope { inputs, ops, outputs }
    }
}

/// More rows never mean less estimated work.
pub proof fn work_grows_with_rows(ops: Seq<OpNode>, fewer: nat, more: nat, n: int)
    requires
        fewer <= more,
    ensures
        work(ops, fewer, n) <= work(ops, more, n),
    decreases n,
{
    if n > 0 {
        work_grows_with_rows(ops, fewer, more, n - 1);
        let f = ops[n - 1].op.flops() as nat;
        assert(f * fewer <= f * more) by (nonlinear_arith)
            requires
                fewer <= more,
        ;
    }
}

} // verus!
