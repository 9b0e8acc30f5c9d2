use polars_metal::error::Failure;
use polars_metal::plan::{AggExpr, AggOp, AggSpec, BinaryOp, MetalDtype, MetalPlanNode, PredicateAst};
use polars_metal::router::affinity::{neighbor_decision, smooth, SmoothingConfig};
use polars_metal::router::cost;
use polars_metal::router::{compute_lifting_plan, walk, LiftingPlan, NodeDecision, NodeId};
use polars_metal::router_udf::{compute_lifting_plan_py, fits_numbering, peek_input_row_count};
use polars_metal::wire::{ConversionError, Target, WireDict, WireNumber, WireValue};

fn scan(n_rows: usize) -> MetalPlanNode {
    MetalPlanNode::Scan {
        n_rows,
        columns: vec![("a".into(), MetalDtype::I64)],
    }
}

fn mask() -> PredicateAst {
    PredicateAst::Column {
        name: "mask".into(),
        dtype: MetalDtype::Bool,
    }
}

fn build(decisions: &[(&str, u32, NodeDecision)]) -> LiftingPlan {
    let mut p = LiftingPlan::new();
    for (kind, seq, d) in decisions {
        p.set(NodeId::new(kind, *seq), d.clone());
    }
    p
}

#[test]
fn filter_routes_to_cpu_at_all_sizes() {
    assert_eq!(cost::decide_filter(0), NodeDecision::CpuLeave);
    assert_eq!(cost::decide_filter(1_000), NodeDecision::CpuLeave);
    assert_eq!(cost::decide_filter(100_000_000), NodeDecision::CpuLeave);
}

#[test]
fn groupby_routes_to_gpu_above_100k_rows() {
    assert_eq!(cost::decide_groupby(50_000), NodeDecision::CpuLeave);
    assert_eq!(cost::decide_groupby(100_000), NodeDecision::CpuLeave);
    assert_eq!(cost::decide_groupby(100_001), NodeDecision::GpuLift);
    assert_eq!(cost::decide_groupby(10_000_000), NodeDecision::GpuLift);
}

#[test]
fn project_inherits_input_decision() {
    assert_eq!(
        cost::decide_project(&NodeDecision::GpuLift),
        NodeDecision::GpuLift
    );
    assert_eq!(
        cost::decide_project(&NodeDecision::CpuLeave),
        NodeDecision::CpuLeave
    );
    assert!(matches!(
        cost::decide_project(&NodeDecision::Fallback("x".into())),
        NodeDecision::Fallback(_)
    ));
}

#[test]
fn scan_inherits_parent_decision() {
    assert_eq!(cost::decide_scan_initial(), NodeDecision::CpuLeave);
}

#[test]
fn thresholds_are_named_constants_for_pr_tuning() {
    assert_eq!(cost::GROUPBY_GPU_MIN_ROWS, 100_000);
}

#[test]
fn groupby_with_composite_key_at_or_below_128_bits_routes_to_gpu() {
    let keys = vec![
        ("category".into(), MetalDtype::Bool),
        ("id".into(), MetalDtype::I64),
    ];
    let aggs: Vec<AggSpec> = vec![];
    let d = cost::decide_groupby_with_keys(1_000_000, &keys, &aggs);
    assert_eq!(d, NodeDecision::GpuLift);
}

#[test]
fn groupby_with_oversized_composite_key_falls_back_at_plan_time() {
    let keys = vec![
        ("a".into(), MetalDtype::I64),
        ("b".into(), MetalDtype::I64),
        ("c".into(), MetalDtype::I64),
    ];
    let aggs: Vec<AggSpec> = vec![];
    let d = cost::decide_groupby_with_keys(1_000_000, &keys, &aggs);
    assert!(matches!(&d, NodeDecision::Fallback(_)));
    if let NodeDecision::Fallback(reason) = d {
        assert!(
            reason.contains("128"),
            "reason should mention 128-bit limit: {reason}"
        );
        assert!(
            reason.contains("195"),
            "reason should mention total bits 195: {reason}"
        );
        assert_eq!(reason, "composite key total 195 bits; M2 supports ≤ 128");
    }
}

#[test]
fn router_falls_back_when_any_agg_is_expression() {
    let keys = vec![("k".to_string(), MetalDtype::I64)];
    let aggs = vec![
        AggSpec::Simple {
            input_col: "v".into(),
            op: AggOp::Sum,
            output_alias: "v_sum".into(),
        },
        AggSpec::Expression {
            expr: AggExpr::Binary {
                op: BinaryOp::Mul,
                lhs: Box::new(AggExpr::Column("a".into())),
                rhs: Box::new(AggExpr::Column("b".into())),
            },
            op: AggOp::Sum,
            output_alias: "sum_ab".into(),
        },
    ];
    let decision = cost::decide_groupby_with_keys(1_000_000, &keys, &aggs);
    match decision {
        NodeDecision::Fallback(reason) => {
            assert!(
                reason.contains("Expression"),
                "expected Expression reason, got: {reason}"
            );
        }
        other => panic!("expected Fallback, got: {other:?}"),
    }
}

#[test]
fn router_passes_when_only_simple_and_length_aggs() {
    let keys = vec![("k".to_string(), MetalDtype::I64)];
    let aggs = vec![
        AggSpec::Simple {
            input_col: "v".into(),
            op: AggOp::Sum,
            output_alias: "v_sum".into(),
        },
        AggSpec::Length {
            output_alias: "n".into(),
        },
    ];
    let decision = cost::decide_groupby_with_keys(1_000_000, &keys, &aggs);
    assert!(matches!(decision, NodeDecision::GpuLift));
}

#[test]
fn key_widths_count_the_null_flag() {
    assert_eq!(cost::key_width_bits(MetalDtype::Bool), 2);
    assert_eq!(cost::key_width_bits(MetalDtype::I64), 65);
    assert_eq!(cost::key_width_bits(MetalDtype::F64), 65);
    assert_eq!(cost::key_width_bits(MetalDtype::I32), 33);
    assert_eq!(cost::key_width_bits(MetalDtype::Utf8), 33);
    assert_eq!(cost::key_width_bits(MetalDtype::U16), 17);
    assert_eq!(cost::key_width_bits(MetalDtype::I8), 9);
}

#[test]
fn filter_over_scan_is_cpu_leave_throughout() {
    let plan = MetalPlanNode::Filter {
        input: Box::new(scan(1_000_000)),
        predicate: mask(),
    };
    let lifting = compute_lifting_plan(&plan);
    assert_eq!(
        lifting.get(&NodeId::new("Scan", 0)),
        Some(&NodeDecision::CpuLeave)
    );
    assert_eq!(
        lifting.get(&NodeId::new("Filter", 1)),
        Some(&NodeDecision::CpuLeave)
    );
}

#[test]
fn project_over_scan_is_cpu_leave_throughout() {
    let plan = MetalPlanNode::Project {
        input: Box::new(scan(1_000_000)),
        columns: vec!["a".into()],
    };
    let lifting = compute_lifting_plan(&plan);
    assert_eq!(
        lifting.get(&NodeId::new("Scan", 0)),
        Some(&NodeDecision::CpuLeave)
    );
    assert_eq!(
        lifting.get(&NodeId::new("Project", 1)),
        Some(&NodeDecision::CpuLeave)
    );
}

#[test]
fn project_after_filter_inherits_filter_decision() {
    let plan = MetalPlanNode::Project {
        input: Box::new(MetalPlanNode::Filter {
            input: Box::new(scan(1_000_000)),
            predicate: mask(),
        }),
        columns: vec!["a".into()],
    };
    let lifting = compute_lifting_plan(&plan);
    assert_eq!(
        lifting.get(&NodeId::new("Project", 2)),
        Some(&NodeDecision::CpuLeave)
    );
}

#[test]
fn lifting_plan_has_single_node_for_scan_only() {
    let plan = scan(1_000);
    let lifting = compute_lifting_plan(&plan);
    assert_eq!(lifting.len(), 1);
    assert_eq!(
        lifting.get(&NodeId::new("Scan", 0)),
        Some(&NodeDecision::CpuLeave)
    );
}

#[test]
fn node_ids_are_assigned_in_post_order() {
    let plan = MetalPlanNode::Filter {
        input: Box::new(scan(100)),
        predicate: mask(),
    };
    let lifting = compute_lifting_plan(&plan);
    assert!(lifting.get(&NodeId::new("Scan", 0)).is_some());
    assert!(lifting.get(&NodeId::new("Filter", 1)).is_some());
}

#[test]
fn every_node_gets_one_decision_and_filters_stay_on_the_cpu() {
    let mut plan = scan(5_000_000);
    for depth in 0..12 {
        plan = if depth % 3 == 0 {
            MetalPlanNode::Filter {
                input: Box::new(plan),
                predicate: mask(),
            }
        } else {
            MetalPlanNode::Project {
                input: Box::new(plan),
                columns: vec!["a".into()],
            }
        };
        let lifting = compute_lifting_plan(&plan);
        assert_eq!(lifting.len(), depth + 2);
        for (id, decision) in lifting.iter() {
            if id.kind() == "Filter" {
                assert_eq!(decision, &NodeDecision::CpuLeave);
            }
        }
    }
}

#[test]
fn groupby_above_a_large_scan_is_lifted_and_inherited() {
    let plan = MetalPlanNode::Project {
        input: Box::new(MetalPlanNode::GroupBy {
            input: Box::new(MetalPlanNode::Filter {
                input: Box::new(scan(100_001)),
                predicate: mask(),
            }),
            keys: vec![("a".into(), MetalDtype::I64)],
            aggs: vec![],
        }),
        columns: vec!["a".into()],
    };
    let lifting = compute_lifting_plan(&plan);
    assert_eq!(
        lifting.get(&NodeId::new("GroupBy", 2)),
        Some(&NodeDecision::GpuLift)
    );
    assert_eq!(
        lifting.get(&NodeId::new("Project", 3)),
        Some(&NodeDecision::GpuLift)
    );
    assert!(!lifting.has_fallback());
}

#[test]
fn expressions_over_wide_columns_fall_back() {
    let plan = MetalPlanNode::GroupBy {
        input: Box::new(scan(1_000_000)),
        keys: vec![("a".into(), MetalDtype::I64)],
        aggs: vec![AggSpec::Expression {
            expr: AggExpr::Column("a".into()),
            op: AggOp::Sum,
            output_alias: "s".into(),
        }],
    };
    let lifting = compute_lifting_plan(&plan);
    assert!(lifting.has_fallback());
    assert_eq!(
        lifting.get(&NodeId::new("GroupBy", 1)),
        Some(&NodeDecision::Fallback(
            "Expression agg references 64-bit-wide column; fused kernel requires 32-bit-or-narrower inputs (Apple Silicon Metal lacks 64-bit atomics)".into()
        ))
    );
}

#[test]
fn a_groupby_of_a_groupby_stays_on_the_cpu() {
    let inner = MetalPlanNode::GroupBy {
        input: Box::new(scan(1_000_000)),
        keys: vec![("a".into(), MetalDtype::I64)],
        aggs: vec![],
    };
    let outer = MetalPlanNode::GroupBy {
        input: Box::new(inner),
        keys: vec![("a".into(), MetalDtype::I64)],
        aggs: vec![],
    };
    let lifting = compute_lifting_plan(&outer);
    assert_eq!(
        lifting.get(&NodeId::new("GroupBy", 1)),
        Some(&NodeDecision::GpuLift)
    );
    assert_eq!(
        lifting.get(&NodeId::new("GroupBy", 2)),
        Some(&NodeDecision::CpuLeave)
    );
}

#[test]
fn isolated_gpu_in_cpu_run_is_flipped_to_cpu_at_close_cost() {
    let plan = build(&[
        ("Scan", 0, NodeDecision::CpuLeave),
        ("GroupBy", 1, NodeDecision::GpuLift),
        ("Filter", 2, NodeDecision::CpuLeave),
    ]);
    let config = SmoothingConfig {
        window_pct: 20,
        close_cost_node_ids: vec![NodeId::new("GroupBy", 1)],
    };
    let smoothed = smooth(plan, &config);
    assert_eq!(
        smoothed.get(&NodeId::new("GroupBy", 1)),
        Some(&NodeDecision::CpuLeave)
    );
}

#[test]
fn far_cost_decisions_are_preserved() {
    let plan = build(&[
        ("Scan", 0, NodeDecision::CpuLeave),
        ("GroupBy", 1, NodeDecision::GpuLift),
        ("Filter", 2, NodeDecision::CpuLeave),
    ]);
    let config = SmoothingConfig {
        window_pct: 20,
        close_cost_node_ids: vec![],
    };
    let smoothed = smooth(plan, &config);
    assert_eq!(
        smoothed.get(&NodeId::new("GroupBy", 1)),
        Some(&NodeDecision::GpuLift)
    );
}

#[test]
fn fallback_is_never_smoothed() {
    let plan = build(&[
        ("Scan", 0, NodeDecision::CpuLeave),
        ("GroupBy", 1, NodeDecision::Fallback("string keys".into())),
        ("Filter", 2, NodeDecision::CpuLeave),
    ]);
    let config = SmoothingConfig {
        window_pct: 20,
        close_cost_node_ids: vec![NodeId::new("GroupBy", 1)],
    };
    let smoothed = smooth(plan, &config);
    assert!(matches!(
        smoothed.get(&NodeId::new("GroupBy", 1)),
        Some(NodeDecision::Fallback(_))
    ));
}

#[test]
fn smoothing_reads_the_decisions_before_the_pass() {
    let plan = build(&[
        ("Scan", 0, NodeDecision::CpuLeave),
        ("GroupBy", 1, NodeDecision::GpuLift),
        ("Project", 2, NodeDecision::GpuLift),
    ]);
    assert_eq!(
        neighbor_decision(&plan, &NodeId::new("GroupBy", 1), -1),
        Some(NodeDecision::CpuLeave)
    );
    assert_eq!(neighbor_decision(&plan, &NodeId::new("Scan", 0), -1), None);
    let config = SmoothingConfig {
        close_cost_node_ids: vec![
            NodeId::new("GroupBy", 1),
            NodeId::new("Project", 2),
            NodeId::new("Scan", 0),
            NodeId::new("Sort", 9),
        ],
        ..SmoothingConfig::default()
    };
    assert_eq!(config.window_pct, 20);
    let smoothed = smooth(plan, &config);
    assert_eq!(smoothed.len(), 3);
    // Neighbours of the group-by disagree; the topmost node follows its
    // predecessor, which already agrees; the scan has no predecessor.
    assert_eq!(
        smoothed.get(&NodeId::new("GroupBy", 1)),
        Some(&NodeDecision::GpuLift)
    );
    assert_eq!(
        smoothed.get(&NodeId::new("Project", 2)),
        Some(&NodeDecision::GpuLift)
    );
    assert_eq!(
        smoothed.get(&NodeId::new("Scan", 0)),
        Some(&NodeDecision::CpuLeave)
    );
}

#[test]
fn node_decision_variants_construct() {
    let _ = NodeDecision::GpuLift;
    let _ = NodeDecision::CpuLeave;
    let _ = NodeDecision::Fallback("unsupported IR".to_string());
}

#[test]
fn lifting_plan_records_per_node_decisions() {
    let mut plan = LiftingPlan::new();
    assert!(plan.is_empty());
    let scan_id = NodeId::new("Scan", 0);
    let filter_id = NodeId::new("Filter", 1);
    plan.set(scan_id.clone(), NodeDecision::CpuLeave);
    plan.set(filter_id.clone(), NodeDecision::CpuLeave);
    assert_eq!(plan.get(&scan_id), Some(&NodeDecision::CpuLeave));
    assert_eq!(plan.get(&filter_id), Some(&NodeDecision::CpuLeave));
    assert_eq!(plan.len(), 2);
    plan.set(scan_id.clone(), NodeDecision::GpuLift);
    assert_eq!(plan.get(&scan_id), Some(&NodeDecision::GpuLift));
    assert_eq!(plan.len(), 2);
}

#[test]
fn fallback_carries_human_readable_reason() {
    let d = NodeDecision::Fallback("composite key > 128 bits".into());
    match d {
        NodeDecision::Fallback(reason) => assert!(reason.contains("128")),
        _ => panic!("expected Fallback"),
    }
}

#[test]
fn node_id_round_trips_kind_and_sequence() {
    let id = NodeId::new("GroupBy", 7);
    assert_eq!(id.kind(), "GroupBy");
    assert_eq!(id.seq(), 7);
    assert_eq!(id.to_wire(), "GroupBy#7");
}

#[test]
fn decisions_differ_by_reason() {
    assert_eq!(
        NodeDecision::Fallback("a".into()),
        NodeDecision::Fallback("a".into())
    );
    assert_ne!(
        NodeDecision::Fallback("a".into()),
        NodeDecision::Fallback("b".into())
    );
    assert_ne!(NodeDecision::GpuLift, NodeDecision::CpuLeave);
}

fn text(s: &str) -> WireValue<'static> {
    WireValue::Str(s.into())
}

fn dict<'a>(entries: Vec<(&str, WireValue<'a>)>) -> WireDict<'a> {
    WireDict {
        entries: entries.into_iter().map(|(k, v)| (k.into(), v)).collect(),
    }
}

fn number(i: i128) -> WireValue<'static> {
    WireValue::Number(WireNumber {
        integer: Some(i),
        float: None,
    })
}

fn node<'a>(kind: &str, input: WireDict<'a>) -> WireDict<'a> {
    dict(vec![("kind", text(kind)), ("input", WireValue::Dict(input))])
}

fn wire_scan(n: i128) -> WireDict<'static> {
    dict(vec![("kind", text("Scan")), ("n_rows", number(n))])
}

#[test]
fn received_plans_are_routed_in_post_order() {
    let plan = node("Project", node("GroupBy", node("Filter", wire_scan(200_000))));
    assert!(fits_numbering(&plan));
    let got = compute_lifting_plan_py(&plan).expect("routed");
    let want = [
        ("Scan#0", "cpu_leave"),
        ("Filter#1", "cpu_leave"),
        ("GroupBy#2", "gpu_lift"),
        ("Project#3", "gpu_lift"),
    ];
    assert_eq!(got.len(), want.len());
    for (g, w) in got.iter().zip(want) {
        assert_eq!((g.0.as_str(), g.1.as_str()), w);
    }
}

#[test]
fn unknown_nodes_fall_back_and_poison() {
    let plan = node("Project", node("Sort", wire_scan(1)));
    let got = compute_lifting_plan_py(&plan).expect("routed");
    assert_eq!(got[1].0, "Sort#1");
    assert_eq!(got[1].1, "fallback:unsupported IR node: Sort");
    assert_eq!(got[2].1, "fallback:unsupported IR node: Sort");
}

#[test]
fn row_counts_are_peeked_through_groupbys() {
    let plan = node("Filter", node("GroupBy", wire_scan(7)));
    assert_eq!(peek_input_row_count(&plan).ok(), Some(7));
    assert_eq!(
        peek_input_row_count(&dict(vec![("kind", text("Sort"))])).ok(),
        Some(0)
    );
}

#[test]
fn malformed_plans_are_refused() {
    let none = dict(vec![]);
    assert!(matches!(
        compute_lifting_plan_py(&none),
        Err(Failure::Key(m)) if m == "router: missing 'kind'"
    ));
    let bare = dict(vec![("kind", text("Filter"))]);
    assert!(matches!(
        compute_lifting_plan_py(&bare),
        Err(Failure::Key(m)) if m == "Filter: missing input"
    ));
    let odd = dict(vec![("kind", text("Project")), ("input", number(3))]);
    assert!(matches!(
        compute_lifting_plan_py(&odd),
        Err(Failure::Conversion(ConversionError::WrongType(Target::Mapping)))
    ));
    let negative = node("GroupBy", wire_scan(-1));
    assert!(matches!(
        compute_lifting_plan_py(&negative),
        Err(Failure::Conversion(ConversionError::OutOfRange(Target::Unsigned)))
    ));
}

fn groupby_over(dtype: MetalDtype, expr: bool) -> MetalPlanNode {
    let agg = if expr {
        AggSpec::Expression {
            expr: AggExpr::Column("a".into()),
            op: AggOp::Sum,
            output_alias: "s".into(),
        }
    } else {
        AggSpec::Simple {
            input_col: "a".into(),
            op: AggOp::Sum,
            output_alias: "s".into(),
        }
    };
    MetalPlanNode::GroupBy {
        input: Box::new(MetalPlanNode::Project {
            input: Box::new(MetalPlanNode::Scan {
                n_rows: 200_000,
                columns: vec![("a".into(), dtype)],
            }),
            columns: vec!["a".into()],
        }),
        keys: vec![("k".into(), MetalDtype::I64)],
        aggs: vec![agg],
    }
}

#[test]
fn a_groupby_is_judged_by_its_scan_wherever_the_walk_starts() {
    let mut plan = LiftingPlan::new();
    plan.set(NodeId::new("Scan", 0), NodeDecision::GpuLift);
    let mut next: u32 = 7;
    let id = walk(&groupby_over(MetalDtype::F64, true), &mut plan, &mut next);
    assert_eq!(next, 10);
    assert_eq!(id.to_wire(), "GroupBy#9");
    assert!(matches!(
        plan.get(&id),
        Some(NodeDecision::Fallback(m)) if m.starts_with("Expression agg references 64-bit-wide column")
    ));
    let id = walk(&groupby_over(MetalDtype::F64, false), &mut plan, &mut next);
    assert_eq!(id.seq(), 12);
    assert_eq!(plan.get(&id), Some(&NodeDecision::GpuLift));
    assert_eq!(plan.len(), 7);
}

#[test]
fn a_groupby_below_other_nodes_is_judged_alike() {
    let root = MetalPlanNode::Filter {
        input: Box::new(groupby_over(MetalDtype::F32, false)),
        predicate: mask(),
    };
    let plan = compute_lifting_plan(&root);
    assert_eq!(
        plan.get(&NodeId::new("GroupBy", 2)),
        Some(&NodeDecision::GpuLift)
    );
}
