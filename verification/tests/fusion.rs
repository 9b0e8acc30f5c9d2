use polars_metal::error::Failure;
use polars_metal::fusion::density::{density_routes_gpu, CpuReason, RouteDecision};
use polars_metal::fusion::py;
use polars_metal::fusion::scope::{FusionScope, InputDtype, NodeIdx, OpNode};
use polars_metal::fusion::subgraph::{
    arg_count, build_op, check_input_count, check_readable, element_count, ffi, has_enough_args,
    input_dtype_to_mlx, input_view, BuildError, BuildStep, InputView, MlxCall, MlxDtype,
    MlxSubgraph, ReadStep,
};
use polars_metal::fusion::supported_ops::{all_op_ids, op_spec, OpId, OpSpec};
use polars_metal::udf::fused_expr::{execute_fused_expr, read_result, stage_input, StagedInput};

#[test]
fn shift_op_carries_window_param() {
    let mut s = FusionScope::new();
    let a = s.add_input("x", InputDtype::F32);
    let sh = s.push_op_param(OpId::Shift, vec![a], Some(3));
    let n_inputs = s.inputs.len() as u32;
    let op_idx = (sh.0 - n_inputs) as usize;
    assert_eq!(s.ops[op_idx].param, Some(3));
}

#[test]
fn small_workload_routes_cpu() {
    let mut scope = FusionScope::new();
    let a = scope.add_input("a", InputDtype::F32);
    scope.push_op(OpId::Sqrt, vec![a]);
    let decision = density_routes_gpu(&scope, 1_000);
    assert_eq!(decision, RouteDecision::Cpu(CpuReason::BelowRowsThreshold));
}

#[test]
fn medium_workload_routes_cpu_if_too_few_flops() {
    let mut scope = FusionScope::new();
    let a = scope.add_input("a", InputDtype::F32);
    scope.push_op(OpId::Sqrt, vec![a]); // 4 operations per row
    let decision = density_routes_gpu(&scope, 1_000_000);
    assert_eq!(decision, RouteDecision::Cpu(CpuReason::BelowFlopsThreshold));
}

#[test]
fn black_scholes_at_10m_routes_gpu() {
    let mut scope = FusionScope::new();
    let s = scope.add_input("s", InputDtype::F32);
    let k = scope.add_input("k", InputDtype::F32);
    let t = scope.add_input("t", InputDtype::F32);
    let sk = scope.push_op(OpId::Div, vec![s, k]);
    let log_sk = scope.push_op(OpId::Log, vec![sk]);
    let sqrt_t = scope.push_op(OpId::Sqrt, vec![t]);
    let p1 = scope.push_op(OpId::Add, vec![log_sk, t]);
    let d1 = scope.push_op(OpId::Div, vec![p1, sqrt_t]);
    let tanh_d1 = scope.push_op(OpId::Tanh, vec![d1]);
    scope.mark_output(tanh_d1);
    // 4 + 10 + 4 + 1 + 4 + 10 = 33 operations per row.
    assert_eq!(scope.est_flops_for(10_000_000), 330_000_000);
    let decision = density_routes_gpu(&scope, 10_000_000);
    assert_eq!(decision, RouteDecision::Gpu);
}

#[test]
fn empty_scope_routes_cpu() {
    let scope = FusionScope::new();
    assert!(matches!(
        density_routes_gpu(&scope, 10_000_000),
        RouteDecision::Cpu(CpuReason::EmptyScope)
    ));
}

#[test]
fn just_above_flops_threshold_routes_gpu() {
    let mut scope = FusionScope::new();
    let a = scope.add_input("a", InputDtype::F32);
    let b = scope.add_input("b", InputDtype::F32);
    let s = scope.push_op(OpId::Sqrt, vec![a]); // 4
    scope.push_op(OpId::Square, vec![s]); // 1
    scope.push_op(OpId::Add, vec![a, b]); // 1
    assert_eq!(density_routes_gpu(&scope, 10_000_000), RouteDecision::Gpu);
}

#[test]
fn more_rows_never_leave_the_gpu() {
    let mut scope = FusionScope::new();
    let a = scope.add_input("a", InputDtype::F32);
    scope.push_op(OpId::Sin, vec![a]);
    let mut routed = false;
    for n in [0usize, 99_999, 100_000, 4_999_999, 5_000_000, 5_000_001, 1 << 40] {
        let gpu = density_routes_gpu(&scope, n) == RouteDecision::Gpu;
        assert!(gpu || !routed);
        routed = gpu;
    }
    assert!(routed);
}

#[test]
fn scope_records_ops_inputs_outputs() {
    let mut scope = FusionScope::new();
    let input_a = scope.add_input("a", InputDtype::F32);
    let input_b = scope.add_input("b", InputDtype::F32);
    let add = scope.push_op(OpId::Add, vec![input_a, input_b]);
    scope.mark_output(add);

    assert_eq!(scope.inputs.len(), 2);
    assert_eq!(scope.ops.len(), 1);
    assert_eq!(scope.outputs.len(), 1);
    assert_eq!(scope.outputs[0], NodeIdx(2));
}

#[test]
fn scope_est_flops_sums_per_op() {
    let mut scope = FusionScope::new();
    let a = scope.add_input("a", InputDtype::F32);
    let sin_a = scope.push_op(OpId::Sin, vec![a]);
    let cos_a = scope.push_op(OpId::Cos, vec![a]);
    let prod = scope.push_op(OpId::Mul, vec![sin_a, cos_a]);
    scope.mark_output(prod);

    let total = scope.est_flops_for(10_000_000);
    assert_eq!(total, 21 * 10_000_000);
    assert_eq!(scope.est_flops_checked(10_000_000), Some(210_000_000));
    assert_eq!(scope.est_flops_checked(usize::MAX), None);
}

#[test]
fn scope_clone_preserves_structure() {
    let mut s = FusionScope::new();
    let a = s.add_input("a", InputDtype::F32);
    s.push_op(OpId::Sqrt, vec![a]);
    let cloned = s.clone();
    assert_eq!(s.ops.len(), cloned.ops.len());
    assert_eq!(cloned.inputs[0].column_name, "a");
    assert_eq!(cloned.ops[0].op, OpId::Sqrt);
}

#[test]
fn matmul_scopes_are_terminated() {
    let mut s = FusionScope::new();
    let a = s.add_input("a", InputDtype::ArrayF32(4));
    assert!(!s.has_terminator());
    s.push_op(OpId::MatMul, vec![a, a]);
    assert!(s.has_terminator());
}

#[test]
fn registry_has_expected_op_count() {
    let n = all_op_ids().into_iter().count();
    assert!(n >= 35, "expected >= 35 supported ops, got {n}");
}

#[test]
fn add_op_is_supported() {
    let spec: OpSpec = op_spec(OpId::Add);
    assert_eq!(spec.n_args, 2);
    assert_eq!(spec.flops_per_row, 1);
}

#[test]
fn sin_op_is_supported() {
    let spec: OpSpec = op_spec(OpId::Sin);
    assert_eq!(spec.n_args, 1);
    assert_eq!(spec.flops_per_row, 10);
}

#[test]
fn matmul_flops_are_dynamic() {
    let spec = op_spec(OpId::MatMul);
    assert_eq!(spec.n_args, 2);
    assert_eq!(spec.flops_per_row, 0);
    assert!(spec.dynamic_flops);
}

#[test]
fn registry_lists_each_op_once_under_its_name() {
    let ops = all_op_ids();
    for (i, a) in ops.iter().enumerate() {
        for b in &ops[i + 1..] {
            assert_ne!(a, b);
            assert_ne!(a.name(), b.name());
        }
        if op_spec(*a).dynamic_flops {
            assert_eq!(op_spec(*a).flops_per_row, 0);
        }
    }
}

#[test]
fn op_names_are_read_from_text() {
    assert_eq!(py::op_id_from_str("Add"), Some(OpId::Add));
    assert_eq!(py::op_id_from_str("Shift"), Some(OpId::Shift));
    assert_eq!(py::op_id_from_str("add"), None);
}

#[test]
fn scopes_are_filled_by_name() {
    let mut s = FusionScope::new();
    assert_eq!(py::add_input(&mut s, "x", "F32").ok(), Some(0));
    assert_eq!(py::add_input(&mut s, "y", "ArrayF32(12)").ok(), Some(1));
    assert!(matches!(
        py::add_input(&mut s, "z", "Decimal"),
        Err(Failure::Value(m)) if m == "unknown InputDtype: Decimal"
    ));
    assert_eq!(
        py::push_op(&mut s, "Mul", &vec![0, 1], None).ok(),
        Some(2)
    );
    assert!(matches!(
        py::push_op(&mut s, "Mystery", &vec![0], None),
        Err(Failure::Value(m)) if m == "unknown OpId: Mystery"
    ));
    assert!(matches!(
        py::push_op(&mut s, "Mul", &vec![0], None),
        Err(Failure::Value(m)) if m == "Mul expects 2 args, got 1"
    ));
    assert!(matches!(
        py::add_input(&mut s, "z", "ArrayF32(x)"),
        Err(Failure::Value(m)) if m == "bad ArrayF32 dim: ArrayF32(x)"
    ));
    assert_eq!(s.inputs.len(), 2);
    assert_eq!(s.inputs[1].dtype, InputDtype::ArrayF32(12));
    assert_eq!(s.ops.len(), 1);
    assert_eq!(s.ops[0].args, vec![NodeIdx(0), NodeIdx(1)]);
    assert_eq!(py::route_decision(&s, 10), "Cpu(BelowRowsThreshold)");
    assert_eq!(py::route_decision(&s, 1_000_000), "Cpu(BelowFlopsThreshold)");
    assert_eq!(py::route_decision(&s, 1_000_000_000), "Gpu");
    assert_eq!(py::route_decision(&FusionScope::new(), 10), "Cpu(EmptyScope)");
}

#[test]
fn test_mlx_subgraph_input_count_mismatch_errors() {
    let mut scope = FusionScope::new();
    let a = scope.add_input("a", InputDtype::F32);
    let _ = scope.push_op(OpId::Sqrt, vec![a]);
    scope.mark_output(a);

    let result = MlxSubgraph::from_fusion_scope(&scope, 0, 0, None);
    assert!(result.is_err());
    assert!(matches!(
        result,
        Err(BuildError::InputCountMismatch {
            expected: 1,
            actual: 0
        })
    ));
}

#[test]
fn test_mlx_subgraph_metal_buffer_input_count_mismatch_errors() {
    let mut scope = FusionScope::new();
    let a = scope.add_input("a", InputDtype::F32);
    let b = scope.add_input("b", InputDtype::F32);
    let s = scope.push_op(OpId::Add, vec![a, b]);
    scope.mark_output(s);

    let result = MlxSubgraph::from_fusion_scope_buffers(&scope, &vec![4], 0, None);
    assert!(result.is_err());
    assert_eq!(
        result.err().map(|e| e.message()),
        Some("scope expected 2 inputs, got 1".to_string())
    );
    assert!(check_input_count(&scope, 2).is_ok());
}

#[test]
fn argpartition_is_unsupported_in_phase4() {
    let mut scope = FusionScope::new();
    let a = scope.add_input("a", InputDtype::F32);
    let p = scope.push_op(OpId::ArgPartition, vec![a]);
    scope.mark_output(p);

    let result = MlxSubgraph::from_fusion_scope(&scope, 1, 1, Some(3));
    assert!(matches!(
        result,
        Err(BuildError::UnsupportedOp(OpId::ArgPartition))
    ));
}

/// The calls that a scope is built by, with the handles of its outputs.
fn plan_of(scope: &FusionScope, first_dim: usize) -> (Vec<MlxCall>, Vec<usize>) {
    let mut calls = Vec::new();
    loop {
        let handles = scope.inputs.len() + calls.len();
        match MlxSubgraph::from_fusion_scope(scope, scope.inputs.len(), handles, Some(first_dim)) {
            Ok(BuildStep::Call(c)) => calls.push(c),
            Ok(BuildStep::Built(g)) => {
                assert_eq!(g.handles, handles);
                return (calls, g.outputs);
            }
            Ok(BuildStep::View(v)) => panic!("{v:?}"),
            Err(e) => panic!("{}", e.message()),
        }
    }
}

#[test]
fn sin_cos_mul_is_built_in_order() {
    let mut scope = FusionScope::new();
    let a = scope.add_input("a", InputDtype::F32);
    let s = scope.push_op(OpId::Sin, vec![a]);
    let c = scope.push_op(OpId::Cos, vec![a]);
    let m = scope.push_op(OpId::Mul, vec![s, c]);
    scope.mark_output(m);
    let (calls, outputs) = plan_of(&scope, 4);
    assert_eq!(
        calls,
        vec![
            MlxCall::Unary { op: OpId::Sin, a: 0 },
            MlxCall::Unary { op: OpId::Cos, a: 0 },
            MlxCall::Binary {
                op: OpId::Mul,
                a: 1,
                b: 2
            },
        ]
    );
    assert_eq!(outputs, vec![3]);
}

#[test]
fn take_then_sqrt_is_built_over_two_inputs() {
    let mut s = FusionScope::new();
    let src = s.add_input("src", InputDtype::F32);
    let idx = s.add_input("idx", InputDtype::I32);
    let t = s.push_op_param(OpId::Take, vec![src, idx], None);
    let r = s.push_op_param(OpId::Sqrt, vec![t], None);
    s.mark_output(r);
    let (calls, outputs) = plan_of(&s, 4);
    assert_eq!(
        calls,
        vec![
            MlxCall::Binary {
                op: OpId::Take,
                a: 0,
                b: 1
            },
            MlxCall::Unary {
                op: OpId::Sqrt,
                a: 2
            },
        ]
    );
    assert_eq!(outputs, vec![3]);
}

fn node(op: OpId, args: &[u32], param: Option<i64>) -> OpNode {
    OpNode {
        op,
        args: args.iter().map(|a| NodeIdx(*a)).collect(),
        param,
    }
}

#[test]
fn every_kind_of_call_is_chosen() {
    assert_eq!(
        build_op(&node(OpId::Shift, &[0], Some(2)), 1, Some(4)).ok(),
        Some(MlxCall::Shift { a: 0, by: 2 })
    );
    assert_eq!(
        build_op(&node(OpId::RowIndex, &[], None), 1, Some(4)).ok(),
        Some(MlxCall::Iota { n: 4 })
    );
    assert_eq!(
        build_op(&node(OpId::Where, &[2, 0, 1], None), 3, Some(4)).ok(),
        Some(MlxCall::Select {
            condition: 2,
            a: 0,
            b: 1
        })
    );
    assert_eq!(
        build_op(&node(OpId::CastI32, &[0], None), 1, None).ok(),
        Some(MlxCall::Cast {
            a: 0,
            to: MlxDtype::I32
        })
    );
    assert_eq!(
        build_op(&node(OpId::CumSum, &[0], None), 1, None).ok(),
        Some(MlxCall::Scan {
            op: OpId::CumSum,
            a: 0
        })
    );
}

#[test]
fn build_failures_are_reported() {
    let text = |n: OpNode, handles: usize| match build_op(&n, handles, None) {
        Ok(c) => panic!("built {c:?}"),
        Err(e) => e.message(),
    };
    assert_eq!(
        text(node(OpId::Sin, &[7], None), 1),
        "scope references undefined node index 7"
    );
    assert_eq!(
        text(node(OpId::Add, &[0], None), 1),
        "op Add expected 2 arg(s), got 1"
    );
    assert_eq!(
        text(node(OpId::Shift, &[0], None), 1),
        "op Shift not yet supported by the subgraph builder"
    );
    assert_eq!(
        text(node(OpId::RowIndex, &[], None), 0),
        "op RowIndex not yet supported by the subgraph builder"
    );
    assert_eq!(
        text(node(OpId::Fft, &[0], None), 1),
        "op Fft not yet supported by the subgraph builder"
    );
    assert!(!has_enough_args(&node(OpId::Sin, &[], None), 1));
    assert!(has_enough_args(&node(OpId::Sin, &[0], None), 1));
    assert!(arg_count(OpId::Mul, 2, 3).is_err());
    let failed: Result<u8, BuildError> = ffi(Err("boom".to_string()));
    assert_eq!(
        failed.err().map(|e| e.message()),
        Some("MLX FFI error: boom".to_string())
    );
}

#[test]
fn outputs_must_be_defined() {
    let mut scope = FusionScope::new();
    scope.add_input("a", InputDtype::F32);
    scope.mark_output(NodeIdx(5));
    assert!(matches!(
        MlxSubgraph::from_fusion_scope(&scope, 1, 1, None),
        Err(BuildError::UndefinedNode(5))
    ));
}

#[test]
fn fused_expressions_view_their_inputs_first() {
    let mut scope = FusionScope::new();
    let a = scope.add_input("a", InputDtype::F32);
    let b = scope.add_input("b", InputDtype::F64);
    let s = scope.push_op(OpId::Add, vec![a, b]);
    scope.mark_output(s);
    let lens = vec![16, 32];
    assert!(matches!(
        execute_fused_expr(&scope, &lens, 0, None),
        Ok(BuildStep::View(InputView {
            dtype: MlxDtype::F32,
            elements: 4
        }))
    ));
    assert!(matches!(
        execute_fused_expr(&scope, &lens, 1, Some(4)),
        Err(Failure::Value(m))
            if m == "polars_metal: subgraph build: unsupported input dtype for buffer path: F64"
    ));
    assert!(matches!(
        execute_fused_expr(&scope, &lens, 2, Some(4)),
        Ok(BuildStep::Call(MlxCall::Binary { a: 0, b: 1, .. }))
    ));
    assert!(matches!(
        execute_fused_expr(&scope, &lens, 3, Some(4)),
        Ok(BuildStep::Built(g)) if g.single_output().ok() == Some(2)
    ));
    assert!(matches!(
        execute_fused_expr(&scope, &vec![16], 0, None),
        Err(Failure::Value(m))
            if m == "polars_metal: subgraph build: scope expected 2 inputs, got 1"
    ));
    assert!(matches!(
        read_result(MlxDtype::F32, MlxDtype::F32, 9, 8),
        Err(Failure::Runtime(m))
            if m == "polars_metal: subgraph eval: MLX FFI error: output too large: 9 > capacity 8"
    ));
    assert_eq!(
        read_result(MlxDtype::F32, MlxDtype::F32, 7, 8).ok(),
        Some(7)
    );
}

#[test]
fn columns_that_begin_on_a_page_are_borrowed() {
    assert_eq!(
        stage_input(16384, 10, MlxDtype::I64, 16384),
        StagedInput {
            bytes: 80,
            copied: false
        }
    );
    assert_eq!(
        stage_input(16392, 10, MlxDtype::U16, 16384),
        StagedInput {
            bytes: 20,
            copied: true
        }
    );
}

#[test]
fn buffers_are_viewed_by_whole_elements() {
    assert_eq!(
        input_view(InputDtype::F32, 16).ok(),
        Some(InputView {
            dtype: MlxDtype::F32,
            elements: 4
        })
    );
    assert_eq!(
        input_view(InputDtype::I64, 23).ok(),
        Some(InputView {
            dtype: MlxDtype::I64,
            elements: 2
        })
    );
    assert_eq!(
        input_dtype_to_mlx(InputDtype::ArrayF32(3))
            .err()
            .map(|e| e.message()),
        Some("unsupported input dtype for buffer path: ArrayF32(3)".to_string())
    );
    assert!(input_dtype_to_mlx(InputDtype::F64).is_err());
    assert!(input_dtype_to_mlx(InputDtype::ListF32).is_err());
}

#[test]
fn results_are_read_back_inside_the_capacity() {
    assert_eq!(
        MlxSubgraph::eval_into_typed(MlxDtype::F32, MlxDtype::F32, 8, 8).ok(),
        Some(8)
    );
    assert_eq!(
        MlxSubgraph::eval_into_typed(MlxDtype::F64, MlxDtype::F64, 0, 8).ok(),
        Some(0)
    );
    let text = |d: MlxDtype, e: MlxDtype, n: usize| {
        match MlxSubgraph::eval_into_typed(d, e, n, 8) {
            Ok(m) => panic!("read {m}"),
            Err(e) => e.message(),
        }
    };
    assert_eq!(
        text(MlxDtype::I32, MlxDtype::F32, 1),
        "MLX FFI error: output dtype mismatch: declared I32, eval'd F32"
    );
    assert_eq!(
        text(MlxDtype::I32, MlxDtype::I32, 9),
        "MLX FFI error: output too large: 9 > capacity 8"
    );
    assert_eq!(
        text(MlxDtype::Bool, MlxDtype::Bool, 1),
        "unsupported input dtype for buffer path: output Bool"
    );
    assert!(check_readable(MlxDtype::U64).is_ok());
    let built = |outputs: Vec<usize>| MlxSubgraph {
        handles: 3,
        outputs,
    };
    assert_eq!(built(vec![2]).single_output().ok(), Some(2));
    assert!(matches!(
        built(vec![0, 1]).single_output(),
        Err(BuildError::InputCountMismatch {
            expected: 1,
            actual: 2
        })
    ));
    assert_eq!(element_count(&[3, 4, 5]), Some(60));
    assert_eq!(element_count(&[]), Some(1));
    assert_eq!(element_count(&[usize::MAX, 2, 0]), None);
}

#[test]
fn outputs_are_read_back_in_order() {
    let graph = MlxSubgraph {
        handles: 4,
        outputs: vec![3, 1],
    };
    let mut dtypes = vec![MlxDtype::F32];
    assert_eq!(
        graph.eval_to_metal_buffers(0, &dtypes).ok(),
        Some(ReadStep::Read {
            handle: 3,
            dtype: MlxDtype::F32
        })
    );
    dtypes.push(MlxDtype::I64);
    assert_eq!(
        graph.eval_to_metal_buffers(1, &dtypes).ok(),
        Some(ReadStep::Read {
            handle: 1,
            dtype: MlxDtype::I64
        })
    );
    assert_eq!(
        graph.eval_to_metal_buffers(2, &dtypes).ok(),
        Some(ReadStep::Done)
    );
    for unread in [MlxDtype::Bool, MlxDtype::F64] {
        assert!(matches!(
            graph.eval_to_metal_buffers(0, &vec![unread]),
            Err(BuildError::UnsupportedInputDtype(_))
        ));
    }
}
