//! The registry of expression operations that the fusion analyzer recognises.

use vstd::prelude::*;

verus! {

/// Expression operations.
#[derive(Clone, Copy, Debug, PartialEq, Eq, Hash, Structural)]
pub enum OpId {
    // Arithmetic on two columns.
    Add,
    Sub,
    Mul,
    Div,
    Mod,
    Pow,
    // Arithmetic on one column.
    Neg,
    Abs,
    Square,
    // Comparisons, with a truth value as result.
    Eq,
    Ne,
    Lt,
    Le,
    Gt,
    Ge,
    // Connectives on truth values.
    LogicalAnd,
    LogicalOr,
    LogicalNot,
    // Choice between two columns by a condition.
    Where,
    // Transcendental functions and roots.
    Sin,
    Cos,
    Tan,
    Sinh,
    Cosh,
    Tanh,
    Asin,
    Acos,
    Atan,
    Atan2,
    Log,
    Log2,
    Log10,
    Log1p,
    Exp,
    Exp2,
    Sqrt,
    Cbrt,
    // Rounding.
    Floor,
    Ceil,
    Round,
    // Casts.
    CastF32,
    CastF64,
    CastI32,
    CastBool,
    // Reductions.
    Sum,
    Mean,
    Min,
    Max,
    Std,
    Var,
    ArgMin,
    ArgMax,
    // Sorting and partial sorting.
    Sort,
    ArgPartition,
    // Cumulative scans.
    CumSum,
    CumProd,
    CumMax,
    CumMin,
    // Matrix product.
    MatMul,
    // Fourier transforms.
    Fft,
    Ifft,
    // Forward shift by a parameter, with zero fill.
    Shift,
    // The row numbers.
    RowIndex,
    // Gather of a source column by an index column.
    Take,
}

/// What an operation accepts.
#[derive(Clone, Copy, Debug, PartialEq, Eq, Structural)]
pub enum DtypeReq {
    F32,
    F32OrF64,
    Bool,
    Numeric,
    ListOrArrayF32,
}

/// What an operation produces.
#[derive(Clone, Copy, Debug, PartialEq, Eq, Structural)]
pub enum DtypeOut {
    SameAsInput,
    Bool,
    F32,
    ScalarF32,
    ComplexF32,
    SortedSameAsInput,
    I32,
}

/// The registry entry of an operation. The work per row of an operation whose
/// work is not proportional to the rows is given as zero and marked dynamic.
#[derive(Clone, Copy, Debug, PartialEq, Eq, Structural)]
pub struct OpSpec {
    pub n_args: u32,
    pub flops_per_row: u32,
    pub input_dtype: DtypeReq,
    pub output_dtype: DtypeOut,
    pub dynamic_flops: bool,
    pub allows_null: bool,
}

impl OpId {
    /// The number of arguments.
    pub open spec fn arity(self) -> u32 {
        match self {
            OpId::RowIndex => 0,
            OpId::Add | OpId::Sub | OpId::Mul | OpId::Div | OpId::Mod | OpId::Pow | OpId::Eq
            | OpId::Ne | OpId::Lt | OpId::Le | OpId::Gt | OpId::Ge | OpId::LogicalAnd
            | OpId::LogicalOr | OpId::Atan2 | OpId::MatMul | OpId::Take => 2,
            OpId::Where => 3,
            _ => 1,
        }
    }

    /// The floating-point operations per row.
    pub open spec fn flops(self) -> u32 {
        match self {
            OpId::Div | OpId::Mod | OpId::Sqrt | OpId::Cbrt => 4,
            OpId::Pow | OpId::Atan2 => 12,
            OpId::Sin | OpId::Cos | OpId::Tan | OpId::Sinh | OpId::Cosh | OpId::Tanh
            | OpId::Asin | OpId::Acos | OpId::Atan | OpId::Log | OpId::Log2 | OpId::Log10
            | OpId::Log1p | OpId::Exp | OpId::Exp2 => 10,
            OpId::Std | OpId::Var => 3,
            OpId::CumSum | OpId::CumProd | OpId::CumMax | OpId::CumMin => 2,
            OpId::Sort | OpId::ArgPartition | OpId::MatMul | OpId::Fft | OpId::Ifft => 0,
            _ => 1,
        }
    }

    /// The work is not proportional to the number of rows.
    pub open spec fn dynamic(self) -> bool {
        match self {
            OpId::Sort | OpId::ArgPartition | OpId::MatMul | OpId::Fft | OpId::Ifft => true,
            _ => false,
        }
    }

    /// What the operation accepts.
    pub open spec fn accepts(self) -> DtypeReq {
        match self {
            OpId::Mod | OpId::Pow | OpId::Sin | OpId::Cos | OpId::Tan | OpId::Sinh
            | OpId::Cosh | OpId::Tanh | OpId::Asin | OpId::Acos | OpId::Atan | OpId::Atan2
            | OpId::Log | OpId::Log2 | OpId::Log10 | OpId::Log1p | OpId::Exp | OpId::Exp2
            | OpId::Sqrt | OpId::Cbrt | OpId::Floor | OpId::Ceil | OpId::Round => DtypeReq::F32OrF64,
            OpId::LogicalAnd | OpId::LogicalOr | OpId::LogicalNot => DtypeReq::Bool,
            OpId::MatMul => DtypeReq::ListOrArrayF32,
            OpId::Fft | OpId::Ifft => DtypeReq::F32,
            _ => DtypeReq::Numeric,
        }
    }

    /// What the operation produces.
    pub open spec fn produces(self) -> DtypeOut {
        match self {
            OpId::Eq | OpId::Ne | OpId::Lt | OpId::Le | OpId::Gt | OpId::Ge
            | OpId::LogicalAnd | OpId::LogicalOr | OpId::LogicalNot | OpId::CastBool => DtypeOut::Bool,
            OpId::CastF32 | OpId::CastF64 | OpId::CastI32 | OpId::MatMul | OpId::RowIndex => DtypeOut::F32,
            OpId::Sum | OpId::Mean | OpId::Min | OpId::Max | OpId::Std | OpId::Var => DtypeOut::ScalarF32,
            OpId::ArgMin | OpId::ArgMax | OpId::ArgPartition => DtypeOut::I32,
            OpId::Sort => DtypeOut::SortedSameAsInput,
            OpId::Fft | OpId::Ifft => DtypeOut::ComplexF32,
            _ => DtypeOut::SameAsInput,
        }
    }

    /// The registry entry. No operation takes nulls.
    pub open spec fn entry(self) -> OpSpec {
        OpSpec {
            n_args: self.arity(),
            flops_per_row: self.flops(),
            input_dtype: self.accepts(),
            output_dtype: self.produces(),
            dynamic_flops: self.dynamic(),
            allows_null: false,
        }
    }

    /// The name of the operation.
    pub open spec fn label(self) -> Seq<char> {
        match self {
            OpId::Add => "Add"@,
            OpId::Sub => "Sub"@,
            OpId::Mul => "Mul"@,
            OpId::Div => "Div"@,
            OpId::Mod => "Mod"@,
            OpId::Pow => "Pow"@,
            OpId::Neg => "Neg"@,
            OpId::Abs => "Abs"@,
            OpId::Square => "Square"@,
            OpId::Eq => "Eq"@,
            OpId::Ne => "Ne"@,
            OpId::Lt => "Lt"@,
            OpId::Le => "Le"@,
            OpId::Gt => "Gt"@,
            OpId::Ge => "Ge"@,
            OpId::LogicalAnd => "LogicalAnd"@,
            OpId::LogicalOr => "LogicalOr"@,
            OpId::LogicalNot => "LogicalNot"@,
            OpId::Where => "Where"@,
            OpId::Sin => "Sin"@,
            OpId::Cos => "Cos"@,
            OpId::Tan => "Tan"@,
            OpId::Sinh => "Sinh"@,
            OpId::Cosh => "Cosh"@,
            OpId::Tanh => "Tanh"@,
            OpId::Asin => "Asin"@,
            OpId::Acos => "Acos"@,
            OpId::Atan => "Atan"@,
            OpId::Atan2 => "Atan2"@,
            OpId::Log => "Log"@,
            OpId::Log2 => "Log2"@,
            OpId::Log10 => "Log10"@,
            OpId::Log1p => "Log1p"@,
            OpId::Exp => "Exp"@,
            OpId::Exp2 => "Exp2"@,
            OpId::Sqrt => "Sqrt"@,
            OpId::Cbrt => "Cbrt"@,
            OpId::Floor => "Floor"@,
            OpId::Ceil => "Ceil"@,
            OpId::Round => "Round"@,
            OpId::CastF32 => "CastF32"@,
            OpId::CastF64 => "CastF64"@,
            OpId::CastI32 => "CastI32"@,
            OpId::CastBool => "CastBool"@,
            OpId::Sum => "Sum"@,
            OpId::Mean => "Mean"@,
            OpId::Min => "Min"@,
            OpId::Max => "Max"@,
            OpId::Std => "Std"@,
            OpId::Var => "Var"@,
            OpId::ArgMin => "ArgMin"@,
            OpId::ArgMax => "ArgMax"@,
            OpId::Sort => "Sort"@,
            OpId::ArgPartition => "ArgPartition"@,
            OpId::CumSum => "CumSum"@,
            OpId::CumProd => "CumProd"@,
            OpId::CumMax => "CumMax"@,
            OpId::CumMin => "CumMin"@,
            OpId::MatMul => "MatMul"@,
            OpId::Fft => "Fft"@,
            OpId::Ifft => "Ifft"@,
            OpId::Shift => "Shift"@,
            OpId::RowIndex => "RowIndex"@,
            OpId::Take => "Take"@,
        }
    }

    /// The position of the operation in the registry.
    pub open spec fn number(self) -> int {
        match self {
            OpId::Add => 0,
            OpId::Sub => 1,
            OpId::Mul => 2,
            OpId::Div => 3,
            OpId::Mod => 4,
            OpId::Pow => 5,
            OpId::Neg => 6,
            OpId::Abs => 7,
            OpId::Square => 8,
            OpId::Eq => 9,
            OpId::Ne => 10,
            OpId::Lt => 11,
            OpId::Le => 12,
            OpId::Gt => 13,
            OpId::Ge => 14,
            OpId::LogicalAnd => 15,
            OpId::LogicalOr => 16,
            OpId::LogicalNot => 17,
            OpId::Where => 18,
            OpId::Sin => 19,
            OpId::Cos => 20,
            OpId::Tan => 21,
            OpId::Sinh => 22,
            OpId::Cosh => 23,
            OpId::Tanh => 24,
            OpId::Asin => 25,
            OpId::Acos => 26,
            OpId::Atan => 27,
            OpId::Atan2 => 28,
            OpId::Log => 29,
            OpId::Log2 => 30,
            OpId::Log10 => 31,
            OpId::Log1p => 32,
            OpId::Exp => 33,
            OpId::Exp2 => 34,
            OpId::Sqrt => 35,
            OpId::Cbrt => 36,
            OpId::Floor => 37,
            OpId::Ceil => 38,
            OpId::Round => 39,
            OpId::CastF32 => 40,
            OpId::CastF64 => 41,
            OpId::CastI32 => 42,
            OpId::CastBool => 43,
            OpId::Sum => 44,
            OpId::Mean => 45,
            OpId::Min => 46,
            OpId::Max => 47,
            OpId::Std => 48,
            OpId::Var => 49,
            OpId::ArgMin => 50,
            OpId::ArgMax => 51,
            OpId::Sort => 52,
            OpId::ArgPartition => 53,
            OpId::CumSum => 54,
            OpId::CumProd => 55,
            OpId::CumMax => 56,
            OpId::CumMin => 57,
            OpId::MatMul => 58,
            OpId::Fft => 59,
            OpId::Ifft => 60,
            OpId::Shift => 61,
            OpId::RowIndex => 62,
            OpId::Take => 63,
        }
    }

    /// The name of the operation.
    pub fn name(self) -> (r: &'static str)
        ensures
            r@ == self.label(),
    {
        match self {
            OpId::Add => "Add",
            OpId::Sub => "Sub",
            OpId::Mul => "Mul",
            OpId::Div => "Div",
            OpId::Mod => "Mod",
            OpId::Pow => "Pow",
            OpId::Neg => "Neg",
            OpId::Abs => "Abs",
            OpId::Square => "Square",
            OpId::Eq => "Eq",
            OpId::Ne => "Ne",
            OpId::Lt => "Lt",
            OpId::Le => "Le",
            OpId::Gt => "Gt",
            OpId::Ge => "Ge",
            OpId::LogicalAnd => "LogicalAnd",
            OpId::LogicalOr => "LogicalOr",
            OpId::LogicalNot => "LogicalNot",
            OpId::Where => "Where",
            OpId::Sin => "Sin",
            OpId::Cos => "Cos",
            OpId::Tan => "Tan",
            OpId::Sinh => "Sinh",
            OpId::Cosh => "Cosh",
            OpId::Tanh => "Tanh",
            OpId::Asin => "Asin",
            OpId::Acos => "Acos",
            OpId::Atan => "Atan",
            OpId::Atan2 => "Atan2",
            OpId::Log => "Log",
            OpId::Log2 => "Log2",
            OpId::Log10 => "Log10",
            OpId::Log1p => "Log1p",
            OpId::Exp => "Exp",
            OpId::Exp2 => "Exp2",
            OpId::Sqrt => "Sqrt",
            OpId::Cbrt => "Cbrt",
            OpId::Floor => "Floor",
            OpId::Ceil => "Ceil",
            OpId::Round => "Round",
            OpId::CastF32 => "CastF32",
            OpId::CastF64 => "CastF64",
            OpId::CastI32 => "CastI32",
            OpId::CastBool => "CastBool",
            OpId::Sum => "Sum",
            OpId::Mean => "Mean",
            OpId::Min => "Min",
            OpId::Max => "Max",
            OpId::Std => "Std",
            OpId::Var => "Var",
            OpId::ArgMin => "ArgMin",
            OpId::ArgMax => "ArgMax",
            OpId::Sort => "Sort",
            OpId::ArgPartition => "ArgPartition",
            OpId::CumSum => "CumSum",
            OpId::CumProd => "CumProd",
            OpId::CumMax => "CumMax",
            OpId::CumMin => "CumMin",
            OpId::MatMul => "MatMul",
            OpId::Fft => "Fft",
            OpId::Ifft => "Ifft",
            OpId::Shift => "Shift",
            OpId::RowIndex => "RowIndex",
            OpId::Take => "Take",
        }
    }
}

/// The registry entry of an operation.
pub fn op_spec(op: OpId) -> (r: OpSpec)
    ensures
        r == op.entry(),
{
    match op {
        OpId::Add | OpId::Sub | OpId::Mul | OpId::Take => OpSpec {
            n_args: 2,
            flops_per_row: 1,
            input_dtype: DtypeReq::Numeric,
            output_dtype: DtypeOut::SameAsInput,
            dynamic_flops: false,
            allows_null: false,
        },
        OpId::Div => OpSpec {
            n_args: 2,
            flops_per_row: 4,
            input_dtype: DtypeReq::Numeric,
            output_dtype: DtypeOut::SameAsInput,
            dynamic_flops: false,
            allows_null: false,
        },
        OpId::Mod => OpSpec {
            n_args: 2,
            flops_per_row: 4,
            input_dtype: DtypeReq::F32OrF64,
            output_dtype: DtypeOut::SameAsInput,
            dynamic_flops: false,
            allows_null: false,
        },
        OpId::Pow | OpId::Atan2 => OpSpec {
            n_args: 2,
            flops_per_row: 12,
            input_dtype: DtypeReq::F32OrF64,
            output_dtype: DtypeOut::SameAsInput,
            dynamic_flops: false,
            allows_null: false,
        },
        OpId::Neg | OpId::Abs | OpId::Square | OpId::Shift => OpSpec {
            n_args: 1,
            flops_per_row: 1,
            input_dtype: DtypeReq::Numeric,
            output_dtype: DtypeOut::SameAsInput,
            dynamic_flops: false,
            allows_null: false,
        },
        OpId::Eq | OpId::Ne | OpId::Lt | OpId::Le | OpId::Gt | OpId::Ge => OpSpec {
            n_args: 2,
            flops_per_row: 1,
            input_dtype: DtypeReq::Numeric,
            output_dtype: DtypeOut::Bool,
            dynamic_flops: false,
            allows_null: false,
        },
        OpId::LogicalAnd | OpId::LogicalOr => OpSpec {
            n_args: 2,
            flops_per_row: 1,
            input_dtype: DtypeReq::Bool,
            output_dtype: DtypeOut::Bool,
            dynamic_flops: false,
            allows_null: false,
        },
        OpId::LogicalNot => OpSpec {
            n_args: 1,
            flops_per_row: 1,
            input_dtype: DtypeReq::Bool,
            output_dtype: DtypeOut::Bool,
            dynamic_flops: false,
            allows_null: false,
        },
        OpId::Where => OpSpec {
            n_args: 3,
            flops_per_row: 1,
            input_dtype: DtypeReq::Numeric,
            output_dtype: DtypeOut::SameAsInput,
            dynamic_flops: false,
            allows_null: false,
        },
        OpId::Sin | OpId::Cos | OpId::Tan | OpId::Sinh | OpId::Cosh | OpId::Tanh
        | OpId::Asin | OpId::Acos | OpId::Atan | OpId::Log | OpId::Log2 | OpId::Log10
        | OpId::Log1p | OpId::Exp | OpId::Exp2 => OpSpec {
            n_args: 1,
            flops_per_row: 10,
            input_dtype: DtypeReq::F32OrF64,
            output_dtype: DtypeOut::SameAsInput,
            dynamic_flops: false,
            allows_null: false,
        },
        OpId::Sqrt | OpId::Cbrt => OpSpec {
            n_args: 1,
            flops_per_row: 4,
            input_dtype: DtypeReq::F32OrF64,
            output_dtype: DtypeOut::SameAsInput,
            dynamic_flops: false,
            allows_null: false,
        },
        OpId::Floor | OpId::Ceil | OpId::Round => OpSpec {
            n_args: 1,
            flops_per_row: 1,
            input_dtype: DtypeReq::F32OrF64,
            output_dtype: DtypeOut::SameAsInput,
            dynamic_flops: false,
            allows_null: false,
        },
        OpId::CastF32 | OpId::CastF64 | OpId::CastI32 => OpSpec {
            n_args: 1,
            flops_per_row: 1,
            input_dtype: DtypeReq::Numeric,
            output_dtype: DtypeOut::F32,
            dynamic_flops: false,
            allows_null: false,
        },
        OpId::CastBool => OpSpec {
            n_args: 1,
            flops_per_row: 1,
            input_dtype: DtypeReq::Numeric,
            output_dtype: DtypeOut::Bool,
            dynamic_flops: false,
            allows_null: false,
        },
        OpId::Sum | OpId::Mean | OpId::Min | OpId::Max => OpSpec {
            n_args: 1,
            flops_per_row: 1,
            input_dtype: DtypeReq::Numeric,
            output_dtype: DtypeOut::ScalarF32,
            dynamic_flops: false,
            allows_null: false,
        },
        OpId::Std | OpId::Var => OpSpec {
            n_args: 1,
            flops_per_row: 3,
            input_dtype: DtypeReq::Numeric,
            output_dtype: DtypeOut::ScalarF32,
            dynamic_flops: false,
            allows_null: false,
        },
        OpId::ArgMin | OpId::ArgMax => OpSpec {
            n_args: 1,
            flops_per_row: 1,
            input_dtype: DtypeReq::Numeric,
            output_dtype: DtypeOut::I32,
            dynamic_flops: false,
            allows_null: false,
        },
        OpId::Sort => OpSpec {
            n_args: 1,
            flops_per_row: 0,
            input_dtype: DtypeReq::Numeric,
            output_dtype: DtypeOut::SortedSameAsInput,
            dynamic_flops: true,
            allows_null: false,
        },
        OpId::ArgPartition => OpSpec {
            n_args: 1,
            flops_per_row: 0,
            input_dtype: DtypeReq::Numeric,
            output_dtype: DtypeOut::I32,
            dynamic_flops: true,
            allows_null: false,
        },
        OpId::CumSum | OpId::CumProd | OpId::CumMax | OpId::CumMin => OpSpec {
            n_args: 1,
            flops_per_row: 2,
            input_dtype: DtypeReq::Numeric,
            output_dtype: DtypeOut::SameAsInput,
            dynamic_flops: false,
            allows_null: false,
        },
        OpId::MatMul => OpSpec {
            n_args: 2,
            flops_per_row: 0,
            input_dtype: DtypeReq::ListOrArrayF32,
            output_dtype: DtypeOut::F32,
            dynamic_flops: true,
            allows_null: false,
        },
        OpId::Fft | OpId::Ifft => OpSpec {
            n_args: 1,
            flops_per_row: 0,
            input_dtype: DtypeReq::F32,
            output_dtype: DtypeOut::ComplexF32,
            dynamic_flops: true,
            allows_null: false,
        },
        OpId::RowIndex => OpSpec {
            n_args: 0,
            flops_per_row: 1,
            input_dtype: DtypeReq::Numeric,
            output_dtype: DtypeOut::F32,
            dynamic_flops: false,
            allows_null: false,
        },
    }
}

/// All operations, in registry order.
pub open spec fn all_ops() -> Seq<OpId> {
    seq![
        OpId::Add,
        OpId::Sub,
        OpId::Mul,
        OpId::Div,
        OpId::Mod,
        OpId::Pow,
        OpId::Neg,
        OpId::Abs,
        OpId::Square,
        OpId::Eq,
        OpId::Ne,
        OpId::Lt,
        OpId::Le,
        OpId::Gt,
        OpId::Ge,
        OpId::LogicalAnd,
        OpId::LogicalOr,
        OpId::LogicalNot,
        OpId::Where,
        OpId::Sin,
        OpId::Cos,
        OpId::Tan,
        OpId::Sinh,
        OpId::Cosh,
        OpId::Tanh,
        OpId::Asin,
        OpId::Acos,
        OpId::Atan,
        OpId::Atan2,
        OpId::Log,
        OpId::Log2,
        OpId::Log10,
        OpId::Log1p,
        OpId::Exp,
        OpId::Exp2,
        OpId::Sqrt,
        OpId::Cbrt,
        OpId::Floor,
        OpId::Ceil,
        OpId::Round,
        OpId::CastF32,
        OpId::CastF64,
        OpId::CastI32,
        OpId::CastBool,
        OpId::Sum,
        OpId::Mean,
        OpId::Min,
        OpId::Max,
        OpId::Std,
        OpId::Var,
        OpId::ArgMin,
        OpId::ArgMax,
        OpId::Sort,
        OpId::ArgPartition,
        OpId::CumSum,
        OpId::CumProd,
        OpId::CumMax,
        OpId::CumMin,
        OpId::MatMul,
        OpId::Fft,
        OpId::Ifft,
        OpId::Shift,
        OpId::RowIndex,
        OpId::Take,
    ]
}

/// All operations, in registry order.
pub fn all_op_ids() -> (r: Vec<OpId>)
    ensures
        r@ == all_ops(),
{
    let r: Vec<OpId> = vec![
        OpId::Add,
        OpId::Sub,
        OpId::Mul,
        OpId::Div,
        OpId::Mod,
        OpId::Pow,
        OpId::Neg,
        OpId::Abs,
        OpId::Square,
        OpId::Eq,
        OpId::Ne,
        OpId::Lt,
        OpId::Le,
        OpId::Gt,
        OpId::Ge,
        OpId::LogicalAnd,
        OpId::LogicalOr,
        OpId::LogicalNot,
        OpId::Where,
        OpId::Sin,
        OpId::Cos,
        OpId::Tan,
        OpId::Sinh,
        OpId::Cosh,
        OpId::Tanh,
        OpId::Asin,
        OpId::Acos,
        OpId::Atan,
        OpId::Atan2,
        OpId::Log,
        OpId::Log2,
        OpId::Log10,
        OpId::Log1p,
        OpId::Exp,
        OpId::Exp2,
        OpId::Sqrt,
        OpId::Cbrt,
        OpId::Floor,
        OpId::Ceil,
        OpId::Round,
        OpId::CastF32,
        OpId::CastF64,
        OpId::CastI32,
        OpId::CastBool,
        OpId::Sum,
        OpId::Mean,
        OpId::Min,
        OpId::Max,
        OpId::Std,
        OpId::Var,
        OpId::ArgMin,
        OpId::ArgMax,
        OpId::Sort,
        OpId::ArgPartition,
        OpId::CumSum,
        OpId::CumProd,
        OpId::CumMax,
        OpId::CumMin,
        OpId::MatMul,
        OpId::Fft,
        OpId::Ifft,
        OpId::Shift,
        OpId::RowIndex,
        OpId::Take,
    ];
    assert(r@ =~= all_ops());
    r
}

/// Every operation is in the registry exactly once.
pub proof fn registry_holds_each_op_once(op: OpId, i: int)
    ensures
        0 <= op.number() < all_ops().len(),
        all_ops()[op.number()] == op,
        0 <= i < all_ops().len() && all_ops()[i] == op ==> i == op.number(),
{
    if 0 <= i < all_ops().len() {
        lemma_numbered(i);
    }
}

/// The operation at a position of the registry has that number.
proof fn lemma_numbered(i: int)
    requires
        0 <= i < all_ops().len(),
    ensures
        all_ops()[i].number() == i,
{
}

/// Exactly the operations of dynamic work have no work per row.
pub proof fn dynamic_ops_have_no_static_work(op: OpId)
    ensures
        op.dynamic() <==> op.flops() == 0,
{
}

/// A number made from the length and four characters of a name.
spec fn fingerprint(name: Seq<char>) -> int {
    name.len() + name[0] as int + name[1] as int + 7 * (name[2 * name.len() as int / 3] as int)
        + 131 * (name[name.len() - 1] as int)
}

/// The operation that a fingerprint belongs to, by its number.
spec fn fingerprinted(print: int) -> int {
    if print == 13968 {
        0
    } else if print == 13727 {
        1
    } else if print == 15101 {
        2
    } else if print == 16460 {
        3
    } else if print == 13991 {
        4
    } else if print == 16616 {
        5
    } else if print == 14396 {
        6
    } else if print == 16036 {
        7
    } else if print == 14231 {
        8
    } else if print == 15778 {
        9
    } else if print == 14119 {
        10
    } else if print == 16202 {
        11
    } else if print == 14117 {
        12
    } else if print == 16197 {
        13
    } else if print == 14112 {
        14
    } else if print == 14053 {
        15
    } else if print == 15886 {
        16
    } else if print == 16149 {
        17
    } else if print == 14225 {
        18
    } else if print == 15371 {
        19
    } else if print == 16051 {
        20
    } else if print == 15364 {
        21
    } else if print == 14586 {
        22
    } else if print == 14611 {
        23
    } else if print == 14579 {
        24
    } else if print == 15329 {
        25
    } else if print == 16010 {
        26
    } else if print == 15274 {
        27
    } else if print == 7506 {
        28
    } else if print == 14404 {
        29
    } else if print == 7462 {
        30
    } else if print == 6823 {
        31
    } else if print == 15207 {
        32
    } else if print == 15648 {
        33
    } else if print == 7527 {
        34
    } else if print == 16194 {
        35
    } else if print == 16163 {
        36
    } else if print == 15894 {
        37
    } else if print == 15055 {
        38
    } else if print == 14068 {
        39
    } else if print == 7211 {
        40
    } else if print == 7473 {
        41
    } else if print == 7232 {
        42
    } else if print == 15097 {
        43
    } else if print == 15245 {
        44
    } else if print == 15271 {
        45
    } else if print == 15365 {
        46
    } else if print == 16737 {
        47
    } else if print == 14002 {
        48
    } else if print == 15918 {
        49
    } else if print == 15330 {
        50
    } else if print == 16584 {
        51
    } else if print == 16192 {
        52
    } else if print == 15413 {
        53
    } else if print == 15288 {
        54
    } else if print == 14089 {
        55
    } else if print == 16589 {
        56
    } else if print == 15335 {
        57
    } else if print == 15147 {
        58
    } else if print == 16183 {
        59
    } else if print == 16089 {
        60
    } else if print == 16102 {
        61
    } else if print == 16621 {
        62
    } else {
        63
    }
}

/// The fingerprint of a name leads back to the operation.
proof fn lemma_fingerprint(op: OpId)
    ensures
        fingerprinted(fingerprint(op.label())) == op.number(),
{
    match op {
        OpId::Add => {
            reveal_strlit("Add");
            assert(fingerprint("Add"@) == 13968);
        },
        OpId::Sub => {
            reveal_strlit("Sub");
            assert(fingerprint("Sub"@) == 13727);
        },
        OpId::Mul => {
            reveal_strlit("Mul");
            assert(fingerprint("Mul"@) == 15101);
        },
        OpId::Div => {
            reveal_strlit("Div");
            assert(fingerprint("Div"@) == 16460);
        },
        OpId::Mod => {
            reveal_strlit("Mod");
            assert(fingerprint("Mod"@) == 13991);
        },
        OpId::Pow => {
            reveal_strlit("Pow");
            assert(fingerprint("Pow"@) == 16616);
        },
        OpId::Neg => {
            reveal_strlit("Neg");
            assert(fingerprint("Neg"@) == 14396);
        },
        OpId::Abs => {
            reveal_strlit("Abs");
            assert(fingerprint("Abs"@) == 16036);
        },
        OpId::Square => {
            reveal_strlit("Square");
            assert(fingerprint("Square"@) == 14231);
        },
        OpId::Eq => {
            reveal_strlit("Eq");
            assert(fingerprint("Eq"@) == 15778);
        },
        OpId::Ne => {
            reveal_strlit("Ne");
            assert(fingerprint("Ne"@) == 14119);
        },
        OpId::Lt => {
            reveal_strlit("Lt");
            assert(fingerprint("Lt"@) == 16202);
        },
        OpId::Le => {
            reveal_strlit("Le");
            assert(fingerprint("Le"@) == 14117);
        },
        OpId::Gt => {
            reveal_strlit("Gt");
            assert(fingerprint("Gt"@) == 16197);
        },
        OpId::Ge => {
            reveal_strlit("Ge");
            assert(fingerprint("Ge"@) == 14112);
        },
        OpId::LogicalAnd => {
            reveal_strlit("LogicalAnd");
            assert(fingerprint("LogicalAnd"@) == 14053);
        },
        OpId::LogicalOr => {
            reveal_strlit("LogicalOr");
            assert(fingerprint("LogicalOr"@) == 15886);
        },
        OpId::LogicalNot => {
            reveal_strlit("LogicalNot");
            assert(fingerprint("LogicalNot"@) == 16149);
        },
        OpId::Where => {
            reveal_strlit("Where");
            assert(fingerprint("Where"@) == 14225);
        },
        OpId::Sin => {
            reveal_strlit("Sin");
            assert(fingerprint("Sin"@) == 15371);
        },
        OpId::Cos => {
            reveal_strlit("Cos");
            assert(fingerprint("Cos"@) == 16051);
        },
        OpId::Tan => {
            reveal_strlit("Tan");
            assert(fingerprint("Tan"@) == 15364);
        },
        OpId::Sinh => {
            reveal_strlit("Sinh");
            assert(fingerprint("Sinh"@) == 14586);
        },
        OpId::Cosh => {
            reveal_strlit("Cosh");
            assert(fingerprint("Cosh"@) == 14611);
        },
        OpId::Tanh => {
            reveal_strlit("Tanh");
            assert(fingerprint("Tanh"@) == 14579);
        },
        OpId::Asin => {
            reveal_strlit("Asin");
            assert(fingerprint("Asin"@) == 15329);
        },
        OpId::Acos => {
            reveal_strlit("Acos");
            assert(fingerprint("Acos"@) == 16010);
        },
        OpId::Atan => {
            reveal_strlit("Atan");
            assert(fingerprint("Atan"@) == 15274);
        },
        OpId::Atan2 => {
            reveal_strlit("Atan2");
            assert(fingerprint("Atan2"@) == 7506);
        },
        OpId::Log => {
            reveal_strlit("Log");
            assert(fingerprint("Log"@) == 14404);
        },
        OpId::Log2 => {
            reveal_strlit("Log2");
            assert(fingerprint("Log2"@) == 7462);
        },
        OpId::Log10 => {
            reveal_strlit("Log10");
            assert(fingerprint("Log10"@) == 6823);
        },
        OpId::Log1p => {
            reveal_strlit("Log1p");
            assert(fingerprint("Log1p"@) == 15207);
        },
        OpId::Exp => {
            reveal_strlit("Exp");
            assert(fingerprint("Exp"@) == 15648);
        },
        OpId::Exp2 => {
            reveal_strlit("Exp2");
            assert(fingerprint("Exp2"@) == 7527);
        },
        OpId::Sqrt => {
            reveal_strlit("Sqrt");
            assert(fingerprint("Sqrt"@) == 16194);
        },
        OpId::Cbrt => {
            reveal_strlit("Cbrt");
            assert(fingerprint("Cbrt"@) == 16163);
        },
        OpId::Floor => {
            reveal_strlit("Floor");
            assert(fingerprint("Floor"@) == 15894);
        },
        OpId::Ceil => {
            reveal_strlit("Ceil");
            assert(fingerprint("Ceil"@) == 15055);
        },
        OpId::Round => {
            reveal_strlit("Round");
            assert(fingerprint("Round"@) == 14068);
        },
        OpId::CastF32 => {
            reveal_strlit("CastF32");
            assert(fingerprint("CastF32"@) == 7211);
        },
        OpId::CastF64 => {
            reveal_strlit("CastF64");
            assert(fingerprint("CastF64"@) == 7473);
        },
        OpId::CastI32 => {
            reveal_strlit("CastI32");
            assert(fingerprint("CastI32"@) == 7232);
        },
        OpId::CastBool => {
            reveal_strlit("CastBool");
            assert(fingerprint("CastBool"@) == 15097);
        },
        OpId::Sum => {
            reveal_strlit("Sum");
            assert(fingerprint("Sum"@) == 15245);
        },
        OpId::Mean => {
            reveal_strlit("Mean");
            assert(fingerprint("Mean"@) == 15271);
        },
        OpId::Min => {
            reveal_strlit("Min");
            assert(fingerprint("Min"@) == 15365);
        },
        OpId::Max => {
            reveal_strlit("Max");
            assert(fingerprint("Max"@) == 16737);
        },
        OpId::Std => {
            reveal_strlit("Std");
            assert(fingerprint("Std"@) == 14002);
        },
        OpId::Var => {
            reveal_strlit("Var");
            assert(fingerprint("Var"@) == 15918);
        },
        OpId::ArgMin => {
            reveal_strlit("ArgMin");
            assert(fingerprint("ArgMin"@) == 15330);
        },
        OpId::ArgMax => {
            reveal_strlit("ArgMax");
            assert(fingerprint("ArgMax"@) == 16584);
        },
        OpId::Sort => {
            reveal_strlit("Sort");
            assert(fingerprint("Sort"@) == 16192);
        },
        OpId::ArgPartition => {
            reveal_strlit("ArgPartition");
            assert(fingerprint("ArgPartition"@) == 15413);
        },
        OpId::CumSum => {
            reveal_strlit("CumSum");
            assert(fingerprint("CumSum"@) == 15288);
        },
        OpId::CumProd => {
            reveal_strlit("CumProd");
            assert(fingerprint("CumProd"@) == 14089);
        },
        OpId::CumMax => {
            reveal_strlit("CumMax");
            assert(fingerprint("CumMax"@) == 16589);
        },
        OpId::CumMin => {
            reveal_strlit("CumMin");
            assert(fingerprint("CumMin"@) == 15335);
        },
        OpId::MatMul => {
            reveal_strlit("MatMul");
            assert(fingerprint("MatMul"@) == 15147);
        },
        OpId::Fft => {
            reveal_strlit("Fft");
            assert(fingerprint("Fft"@) == 16183);
        },
        OpId::Ifft => {
            reveal_strlit("Ifft");
            assert(fingerprint("Ifft"@) == 16089);
        },
        OpId::Shift => {
            reveal_strlit("Shift");
            assert(fingerprint("Shift"@) == 16102);
        },
        OpId::RowIndex => {
            reveal_strlit("RowIndex");
            assert(fingerprint("RowIndex"@) == 16621);
        },
        OpId::Take => {
            reveal_strlit("Take");
            assert(fingerprint("Take"@) == 14165);
        },
    }
}

/// Different operations have different names.
pub proof fn op_names_are_distinct(a: OpId, b: OpId)
    requires
        a.label() == b.label(),
    ensures
        a == b,
{
    lemma_fingerprint(a);
    lemma_fingerprint(b);
    registry_holds_each_op_once(a, b.number());
    registry_holds_each_op_once(b, a.number());
}

} // verus!
