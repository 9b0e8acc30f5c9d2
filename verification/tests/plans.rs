use polars_metal::plan::{
    AggExpr, AggOp, AggSpec, BinaryOp, CompareOp, MetalDtype, MetalPlanNode, PredicateAst,
};
use polars_metal::wire::F64Bits;

fn scan(n_rows: usize) -> MetalPlanNode {
    MetalPlanNode::Scan {
        n_rows,
        columns: vec![("k".into(), MetalDtype::I64), ("v".into(), MetalDtype::F64)],
    }
}

fn f64_literal(v: f64) -> AggExpr {
    AggExpr::LiteralF64(F64Bits(v.to_bits()))
}

#[test]
fn agg_expr_column_literal_constructs() {
    let expr = AggExpr::Binary {
        op: BinaryOp::Mul,
        lhs: Box::new(AggExpr::Column("l_extendedprice".into())),
        rhs: Box::new(AggExpr::Binary {
            op: BinaryOp::Sub,
            lhs: Box::new(f64_literal(1.0)),
            rhs: Box::new(AggExpr::Column("l_discount".into())),
        }),
    };
    let cols = expr.referenced_columns();
    assert_eq!(
        cols,
        vec!["l_extendedprice".to_string(), "l_discount".to_string()]
    );
}

#[test]
fn referenced_columns_are_listed_once() {
    let column = |n: &str| Box::new(AggExpr::Column(n.into()));
    let expr = AggExpr::Binary {
        op: BinaryOp::Add,
        lhs: Box::new(AggExpr::Binary {
            op: BinaryOp::Div,
            lhs: column("b"),
            rhs: column("a"),
        }),
        rhs: Box::new(AggExpr::Binary {
            op: BinaryOp::Mul,
            lhs: column("b"),
            rhs: Box::new(AggExpr::LiteralI64(3)),
        }),
    };
    assert_eq!(expr.referenced_columns(), vec!["b", "a"]);
}

#[test]
fn agg_spec_expression_carries_op_and_alias() {
    let spec = AggSpec::Expression {
        expr: AggExpr::Column("v".into()),
        op: AggOp::Sum,
        output_alias: "sum_v".into(),
    };
    match &spec {
        AggSpec::Expression {
            op, output_alias, ..
        } => {
            assert_eq!(*op, AggOp::Sum);
            assert_eq!(output_alias, "sum_v");
        }
        _ => panic!("expected Expression variant"),
    }
}

#[test]
fn agg_spec_length_carries_alias_only() {
    let spec = AggSpec::Length {
        output_alias: "n".into(),
    };
    match &spec {
        AggSpec::Length { output_alias } => assert_eq!(output_alias, "n"),
        _ => panic!("expected Length variant"),
    }
}

#[test]
fn agg_spec_simple_carries_input_col() {
    let spec = AggSpec::Simple {
        input_col: "v".into(),
        op: AggOp::Sum,
        output_alias: "v_sum".into(),
    };
    match &spec {
        AggSpec::Simple {
            input_col,
            op,
            output_alias,
        } => {
            assert_eq!(input_col, "v");
            assert_eq!(*op, AggOp::Sum);
            assert_eq!(output_alias, "v_sum");
        }
        _ => panic!("expected Simple variant"),
    }
}

#[test]
fn agg_expr_depth_check_rejects_overdeep_nesting() {
    let mut e = AggExpr::Column("v".into());
    for _ in 0..5 {
        e = AggExpr::Binary {
            op: BinaryOp::Add,
            lhs: Box::new(e),
            rhs: Box::new(f64_literal(0.0)),
        };
    }
    assert!(e.depth() > 4);
    assert!(e.validate().is_err());
    assert_eq!(
        e.validate(),
        Err("expression depth 5 exceeds M3 cap of 4".to_string())
    );
}

#[test]
fn agg_expr_depth_4_passes_validation() {
    let e = AggExpr::Binary {
        op: BinaryOp::Mul,
        lhs: Box::new(AggExpr::Binary {
            op: BinaryOp::Add,
            lhs: Box::new(AggExpr::Column("a".into())),
            rhs: Box::new(AggExpr::Column("b".into())),
        }),
        rhs: Box::new(AggExpr::Binary {
            op: BinaryOp::Sub,
            lhs: Box::new(AggExpr::Column("c".into())),
            rhs: Box::new(AggExpr::Column("d".into())),
        }),
    };
    assert_eq!(e.depth(), 2);
    assert!(e.validate().is_ok());
}

#[test]
fn groupby_variant_constructs() {
    let plan = MetalPlanNode::GroupBy {
        input: Box::new(scan(1_000_000)),
        keys: vec![("k".into(), MetalDtype::I64)],
        aggs: vec![AggSpec::Simple {
            input_col: "v".into(),
            op: AggOp::Sum,
            output_alias: "v_sum".into(),
        }],
    };
    let _ = format!("{plan:?}");
}

#[test]
fn agg_op_variants_all_present() {
    let ops = [
        AggOp::Sum,
        AggOp::Mean,
        AggOp::Count,
        AggOp::Min,
        AggOp::Max,
        AggOp::Len,
    ];
    assert_eq!(ops.len(), 6);
}

#[test]
fn agg_op_equality_distinguishes_variants() {
    assert_eq!(AggOp::Sum, AggOp::Sum);
    assert_ne!(AggOp::Sum, AggOp::Mean);
    assert_ne!(AggOp::Count, AggOp::Len);
}

#[test]
fn agg_spec_carries_all_three_fields() {
    let spec = AggSpec::Simple {
        input_col: "price".into(),
        op: AggOp::Mean,
        output_alias: "avg_price".into(),
    };
    match spec {
        AggSpec::Simple {
            input_col,
            op,
            output_alias,
        } => {
            assert_eq!(input_col, "price");
            assert_eq!(op, AggOp::Mean);
            assert_eq!(output_alias, "avg_price");
        }
        _ => panic!("expected Simple variant"),
    }
}

#[test]
fn groupby_supports_multiple_keys_and_aggs() {
    let simple = |input_col: &str, op: AggOp, alias: &str| AggSpec::Simple {
        input_col: input_col.into(),
        op,
        output_alias: alias.into(),
    };
    let plan = MetalPlanNode::GroupBy {
        input: Box::new(scan(10_000_000)),
        keys: vec![
            ("returnflag".into(), MetalDtype::I64),
            ("linestatus".into(), MetalDtype::I64),
        ],
        aggs: vec![
            simple("qty", AggOp::Sum, "sum_qty"),
            simple("qty", AggOp::Mean, "avg_qty"),
            simple("price", AggOp::Sum, "sum_price"),
            simple("price", AggOp::Min, "min_price"),
            simple("price", AggOp::Max, "max_price"),
            simple("qty", AggOp::Count, "count_qty"),
            AggSpec::Length {
                output_alias: "n_rows".into(),
            },
        ],
    };
    match plan {
        MetalPlanNode::GroupBy { keys, aggs, .. } => {
            assert_eq!(keys.len(), 2);
            assert_eq!(aggs.len(), 7);
        }
        _ => panic!("expected GroupBy"),
    }
}

#[test]
fn constructs_and_inspects_scan_node() {
    let scan = MetalPlanNode::Scan {
        n_rows: 100,
        columns: vec![("a".into(), MetalDtype::I64), ("b".into(), MetalDtype::F64)],
    };
    match scan {
        MetalPlanNode::Scan { n_rows, columns } => {
            assert_eq!(n_rows, 100);
            assert_eq!(columns.len(), 2);
            assert_eq!(columns[0].0, "a");
            assert!(matches!(columns[0].1, MetalDtype::I64));
            assert_eq!(columns[1].0, "b");
            assert!(matches!(columns[1].1, MetalDtype::F64));
        }
        _ => panic!("expected Scan variant"),
    }
}

#[test]
fn constructs_filter_with_compound_predicate() {
    let pred = PredicateAst::And(
        Box::new(PredicateAst::Compare {
            op: CompareOp::Gt,
            lhs: Box::new(PredicateAst::Column {
                name: "a".into(),
                dtype: MetalDtype::I64,
            }),
            rhs: Box::new(PredicateAst::LiteralI64(0)),
        }),
        Box::new(PredicateAst::Compare {
            op: CompareOp::Lt,
            lhs: Box::new(PredicateAst::Column {
                name: "b".into(),
                dtype: MetalDtype::I64,
            }),
            rhs: Box::new(PredicateAst::Column {
                name: "c".into(),
                dtype: MetalDtype::I64,
            }),
        }),
    );
    let _filter = MetalPlanNode::Filter {
        input: Box::new(MetalPlanNode::Scan {
            n_rows: 100,
            columns: vec![],
        }),
        predicate: pred,
    };
}

#[test]
fn project_nests_inside_filter() {
    let scan = MetalPlanNode::Scan {
        n_rows: 10,
        columns: vec![("a".into(), MetalDtype::I64), ("b".into(), MetalDtype::I64)],
    };
    let filter = MetalPlanNode::Filter {
        input: Box::new(scan),
        predicate: PredicateAst::Column {
            name: "a".into(),
            dtype: MetalDtype::Bool,
        },
    };
    let _project = MetalPlanNode::Project {
        input: Box::new(filter),
        columns: vec!["a".into()],
    };
}

#[test]
fn dtype_variants_distinct() {
    assert_ne!(
        std::mem::discriminant(&MetalDtype::I64),
        std::mem::discriminant(&MetalDtype::F64),
    );
    assert_ne!(
        std::mem::discriminant(&MetalDtype::I64),
        std::mem::discriminant(&MetalDtype::Bool),
    );
}

#[test]
fn all_six_compare_ops_distinguishable() {
    let ops = [
        CompareOp::Eq,
        CompareOp::Ne,
        CompareOp::Lt,
        CompareOp::Le,
        CompareOp::Gt,
        CompareOp::Ge,
    ];
    for i in 0..ops.len() {
        for j in (i + 1)..ops.len() {
            assert_ne!(
                std::mem::discriminant(&ops[i]),
                std::mem::discriminant(&ops[j])
            );
        }
    }
}

#[test]
fn dtype_tags_parse() {
    let pairs = [
        ("I64", MetalDtype::I64),
        ("F64", MetalDtype::F64),
        ("Bool", MetalDtype::Bool),
        ("I32", MetalDtype::I32),
        ("F32", MetalDtype::F32),
        ("I8", MetalDtype::I8),
        ("I16", MetalDtype::I16),
        ("U8", MetalDtype::U8),
        ("U16", MetalDtype::U16),
        ("U32", MetalDtype::U32),
        ("Utf8", MetalDtype::Utf8),
    ];
    for (tag, dtype) in pairs {
        assert_eq!(MetalDtype::from_wire(tag), Some(dtype));
        assert_eq!(dtype.name(), tag);
    }
    assert_eq!(MetalDtype::from_wire("String"), Some(MetalDtype::Utf8));
    assert_eq!(MetalDtype::from_wire("Date"), Some(MetalDtype::I32));
    assert_eq!(MetalDtype::from_wire("i64"), None);
    assert_eq!(MetalDtype::from_wire("U64"), None);
    assert_eq!(MetalDtype::from_wire(""), None);
}

#[test]
fn agg_op_tags_parse() {
    for op in [
        AggOp::Sum,
        AggOp::Mean,
        AggOp::Count,
        AggOp::Min,
        AggOp::Max,
        AggOp::Len,
    ] {
        assert_eq!(AggOp::from_wire(op.name()), Some(op));
    }
    assert_eq!(AggOp::from_wire("StdDev"), None);
}

#[test]
fn float_bits_compare_as_floats() {
    let bits = |v: f64| F64Bits(v.to_bits());
    assert_eq!(bits(1.5), bits(1.5));
    assert_ne!(bits(1.5), bits(2.5));
    assert_eq!(bits(0.0), bits(-0.0));
    assert_ne!(bits(f64::NAN), bits(f64::NAN));
    assert_eq!(bits(f64::INFINITY), bits(f64::INFINITY));
    assert_ne!(bits(f64::INFINITY), bits(f64::NEG_INFINITY));
}
