use polars_metal::corr::{corr_dimension, execute_corr};
use polars_metal::error::Failure;
use polars_metal::fft::{execute_fft, fft_core, FftPlan};
use polars_metal::plan::{CompareOp, MetalDtype, MetalPlanNode, PredicateAst};
use polars_metal::udf::common::{check_bitpacked_buffer, check_numeric_buffers};
use polars_metal::udf::compact::{
    check_predicate, compact_one_column, compacted_bytes, kernel_failure, CompactKernel,
    CompactStep, FilterAction, FilterRun, KernelOutput,
};
use polars_metal::udf::compare::{
    cmp_f64_col_col, cmp_f64_col_scalar, cmp_i64_col_col, cmp_i64_col_scalar,
};
use polars_metal::udf::dt::{execute_dt, DtDispatch, DtField};
use polars_metal::udf::dtw::{execute_dtw, DtwDispatch};
use polars_metal::udf::logical::{
    bool_and_dispatch, bool_or_dispatch, logical_failure, Connective, LogicalDispatch,
};
use polars_metal::udf::predicate::{
    deserialize_plan, deserialize_predicate, execute_node, execute_plan, parse_compare_op,
    parse_dtype,
};
use polars_metal::udf::rolling::{
    execute_rolling, rolling_kernel, RollingDispatch, RollingKernel,
};
use polars_metal::router::compute_lifting_plan;
use polars_metal::router_udf::{compute_lifting_plan_py, decision_to_wire};
use polars_metal::wire::{ConversionError, F64Bits, Target, WireDict, WireNumber, WireValue};

const PAGE: usize = 16384;

fn text(s: &str) -> WireValue<'static> {
    WireValue::Str(s.into())
}

fn number(i: i128) -> WireValue<'static> {
    WireValue::Number(WireNumber {
        integer: Some(i),
        float: Some(F64Bits((i as f64).to_bits())),
    })
}

fn dict<'a>(entries: Vec<(&str, WireValue<'a>)>) -> WireDict<'a> {
    WireDict {
        entries: entries.into_iter().map(|(k, v)| (k.into(), v)).collect(),
    }
}

fn tuple<'a>(name: &str, tag: &str, data: &'a [u8], valid: &'a [u8]) -> WireValue<'a> {
    WireValue::Tuple(vec![
        text(name),
        text(tag),
        WireValue::Bytes(data),
        WireValue::Bytes(valid),
    ])
}

fn value_text<T>(r: Result<T, Failure>) -> String {
    match r {
        Err(Failure::Value(m)) => m,
        Err(e) => panic!("unexpected {e:?}"),
        Ok(_) => panic!("expected a failure"),
    }
}

#[test]
fn short_buffers_are_reported_data_first() {
    assert!(check_numeric_buffers(&[0; 16], &[3], 2, 8).is_ok());
    assert_eq!(
        value_text(check_numeric_buffers(&[0; 15], &[], 2, 8)),
        "polars_metal: data buffer is 15 B, need at least 16 B for 2 rows"
    );
    assert_eq!(
        value_text(check_numeric_buffers(&[0; 16], &[], 2, 8)),
        "polars_metal: validity buffer is 0 B, need at least 1 B for 2 rows"
    );
    assert_eq!(
        value_text(check_bitpacked_buffer(&[0], 9, "pred_data")),
        "polars_metal: pred_data is 1 B, need at least 2 B for 9 rows"
    );
    assert!(check_numeric_buffers(&[0; 16], &[3], usize::MAX, 8).is_err());
}

#[test]
fn comparisons_are_planned() {
    let d = cmp_i64_col_scalar(&[0; 16], &[3], -5, "Ge", 2).expect("planned");
    assert_eq!(d.op, CompareOp::Ge);
    assert_eq!(d.rhs, -5);
    assert_eq!(d.out_bytes, 4);
    let d = cmp_f64_col_scalar(&[0; 16], &[3], F64Bits(1.5f64.to_bits()), "Eq", 2).expect("planned");
    assert_eq!(d.rhs, F64Bits(1.5f64.to_bits()));
    assert_eq!(
        value_text(cmp_i64_col_scalar(&[0; 8], &[3], 0, "Like", 2)),
        "polars_metal: unknown CompareOp tag \"Like\""
    );
    assert_eq!(
        value_text(cmp_i64_col_scalar(&[0; 8], &[3], 0, "Lt", 2)),
        "polars_metal: data buffer is 8 B, need at least 16 B for 2 rows"
    );
    let both = cmp_f64_col_col(&[0; 16], &[3], &[0; 16], &[3], "Ne", 2).expect("planned");
    assert_eq!(both.op, CompareOp::Ne);
    assert!(cmp_i64_col_col(&[0; 16], &[3], &[0; 15], &[3], "Ne", 2).is_err());
}

#[test]
fn connectives_are_planned() {
    assert_eq!(
        bool_and_dispatch(&[1], &[1], &[1], &[1], 8).ok(),
        Some(LogicalDispatch {
            connective: Connective::And,
            out_bytes: 4
        })
    );
    assert_eq!(
        value_text(bool_or_dispatch(&[1], &[1], &[], &[1], 8)),
        "polars_metal: rhs_data buffer is 0 B, need at least 1 B for 8 rows"
    );
    assert!(matches!(
        logical_failure(Connective::Or, "boom"),
        Failure::Runtime(m) if m == "polars_metal: bool_or dispatch failed: boom"
    ));
}

#[test]
fn tags_are_parsed_or_quoted() {
    assert_eq!(parse_dtype("I16").ok(), Some(MetalDtype::I16));
    assert_eq!(
        value_text(parse_dtype("a\"b\n")),
        "polars_metal: unknown MetalDtype tag \"a\\\"b\\n\""
    );
    for (tag, op) in [
        ("Eq", CompareOp::Eq),
        ("Ne", CompareOp::Ne),
        ("Lt", CompareOp::Lt),
        ("Le", CompareOp::Le),
        ("Gt", CompareOp::Gt),
        ("Ge", CompareOp::Ge),
    ] {
        assert_eq!(parse_compare_op(tag).ok(), Some(op));
    }
}

fn column_predicate(name: &str) -> WireDict<'static> {
    dict(vec![
        ("kind", text("Column")),
        ("name", text(name)),
        ("dtype", text("I64")),
    ])
}

#[test]
fn predicates_are_deserialized() {
    let gt = dict(vec![
        ("kind", text("Compare")),
        ("op", text("Gt")),
        ("lhs", WireValue::Dict(column_predicate("a"))),
        (
            "rhs",
            WireValue::Dict(dict(vec![("kind", text("LiteralI64")), ("value", number(3))])),
        ),
    ]);
    let and = dict(vec![
        ("kind", text("And")),
        ("lhs", WireValue::Dict(gt)),
        (
            "rhs",
            WireValue::Dict(dict(vec![
                ("kind", text("LiteralBool")),
                ("value", WireValue::Bool(true)),
            ])),
        ),
    ]);
    match deserialize_predicate(&and).expect("reads") {
        PredicateAst::And(l, r) => {
            assert!(matches!(*r, PredicateAst::LiteralBool(true)));
            match *l {
                PredicateAst::Compare { op, lhs, rhs } => {
                    assert_eq!(op, CompareOp::Gt);
                    assert!(matches!(*lhs, PredicateAst::Column { name, .. } if name == "a"));
                    assert!(matches!(*rhs, PredicateAst::LiteralI64(3)));
                }
                other => panic!("expected a comparison, got {other:?}"),
            }
        }
        other => panic!("expected a conjunction, got {other:?}"),
    }
    assert!(matches!(
        deserialize_predicate(&dict(vec![("kind", text("IsNull"))])),
        Err(Failure::NotImplemented(m))
            if m == "polars_metal: predicate kind \"IsNull\" lands in a later phase"
    ));
    assert!(matches!(
        deserialize_predicate(&dict(vec![("kind", text("Column"))])),
        Err(Failure::Key(m)) if m == "Column missing 'name'"
    ));
    let huge = WireValue::Number(WireNumber {
        integer: Some(i128::MAX),
        float: None,
    });
    assert!(matches!(
        deserialize_predicate(&dict(vec![("kind", text("LiteralF64")), ("value", huge)])),
        Err(Failure::Conversion(ConversionError::OutOfRange(Target::Float)))
    ));
    assert!(matches!(
        deserialize_predicate(&dict(vec![("kind", text("LiteralI64")), ("value", text("x"))])),
        Err(Failure::Conversion(ConversionError::WrongType(Target::Signed)))
    ));
}

fn scan() -> WireDict<'static> {
    dict(vec![
        ("kind", text("Scan")),
        ("n_rows", number(10)),
        (
            "columns",
            WireValue::List(vec![
                WireValue::Tuple(vec![text("a"), text("I64")]),
                WireValue::List(vec![text("b"), text("F64")]),
            ]),
        ),
    ])
}

fn project(columns: &[&str], input: WireDict<'static>) -> WireDict<'static> {
    dict(vec![
        ("kind", text("Project")),
        ("input", WireValue::Dict(input)),
        (
            "columns",
            WireValue::List(columns.iter().map(|c| text(c)).collect()),
        ),
    ])
}

#[test]
fn projections_select_from_the_scan_up() {
    let plan = project(&["a"], project(&["b", "a"], scan()));
    assert_eq!(
        execute_plan(&plan).ok(),
        Some(vec![vec!["b".to_string(), "a".into()], vec!["a".into()]])
    );
    assert_eq!(execute_plan(&scan()).ok(), Some(vec![]));
    match deserialize_plan(&scan()).expect("reads") {
        MetalPlanNode::Scan { n_rows, columns } => {
            assert_eq!(n_rows, 10);
            assert_eq!(columns[1], ("b".to_string(), MetalDtype::F64));
        }
        other => panic!("expected a scan, got {other:?}"),
    }
}

#[test]
fn received_plans_route_like_their_lowered_plans() {
    let filter = dict(vec![
        ("kind", text("Filter")),
        ("input", WireValue::Dict(scan())),
        ("predicate", WireValue::Dict(column_predicate("a"))),
    ]);
    let plan = project(&["a"], filter);
    let lowered = deserialize_plan(&plan).expect("reads");
    let routed = compute_lifting_plan(&lowered);
    let received = compute_lifting_plan_py(&plan).expect("routed");
    let expected: Vec<(String, String)> = routed
        .iter()
        .into_iter()
        .map(|(id, d)| (id.to_wire(), decision_to_wire(d)))
        .collect();
    assert_eq!(received, expected);
    assert_eq!(received.len(), 3);
    assert_eq!(received[2], ("Project#2".to_string(), "cpu_leave".to_string()));
}

#[test]
fn plans_that_are_not_executed_are_refused() {
    let filter = dict(vec![
        ("kind", text("Filter")),
        ("input", WireValue::Dict(scan())),
        ("predicate", WireValue::Dict(column_predicate("a"))),
    ]);
    assert!(matches!(
        execute_plan(&filter),
        Err(Failure::Value(m)) | Err(Failure::Runtime(m)) | Err(Failure::NotImplemented(m))
            if m.starts_with("polars_metal: Filter nodes must be dispatched via execute_filter_compact")
    ));
    assert!(execute_node(MetalPlanNode::GroupBy {
        input: Box::new(MetalPlanNode::Scan {
            n_rows: 1,
            columns: vec![]
        }),
        keys: vec![],
        aggs: vec![]
    })
    .is_err());
    assert_eq!(
        value_text(execute_plan(&dict(vec![("kind", text("Sort"))]))),
        "polars_metal: unknown plan kind \"Sort\""
    );
    let short = dict(vec![
        ("kind", text("Scan")),
        ("n_rows", number(1)),
        (
            "columns",
            WireValue::List(vec![WireValue::Tuple(vec![text("a")])]),
        ),
    ]);
    assert_eq!(
        value_text(execute_plan(&short)),
        "Scan.columns entry expected 2 elements, got 1"
    );
}

#[test]
fn surviving_rows_are_compacted_column_by_column() {
    let ints = [0u8; 64];
    let bits = [0u8; 1];
    let columns = vec![
        tuple("a", "I64", &ints, &[0xff]),
        tuple("flag", "Bool", &bits, &[0xff]),
    ];
    assert!(check_predicate(&[0xff], &[0xff], 8).is_ok());
    let mut run = FilterRun::new(8, 1);
    assert!(matches!(
        run.execute_filter_compact(&columns),
        Ok(FilterAction::Compact { kernel: CompactKernel::I64, name, .. }) if name == "a"
    ));
    let words = KernelOutput::Words {
        values: vec![7, 9],
        valid: vec![1, 0, 0, 0],
    };
    assert!(words.is_from(CompactKernel::I64, 1));
    assert!(!words.is_from(CompactKernel::F64, 3));
    assert!(!words.is_from(CompactKernel::Bool, 1));
    run.accept(CompactKernel::I64, words);
    assert!(matches!(
        run.execute_filter_compact(&columns),
        Ok(FilterAction::Compact { kernel: CompactKernel::Bool, .. })
    ));
    let bits = KernelOutput::Bits {
        data: vec![1, 0, 0, 0],
        valid: vec![1, 0, 0, 0],
    };
    assert!(bits.is_from(CompactKernel::Bool, 1));
    run.accept(CompactKernel::Bool, bits);
    assert!(matches!(
        run.execute_filter_compact(&columns),
        Ok(FilterAction::Finish)
    ));
    assert_eq!(run.done[0].data, vec![7, 0, 0, 0, 0, 0, 0, 0]);
    assert_eq!(run.done[0].valid, vec![1, 0, 0, 0]);
    assert_eq!(run.done[1].data, vec![1, 0, 0, 0]);
    assert_eq!(run.done.len(), 2);
    assert_eq!(compacted_bytes(&vec![1, 2, 3], 2).len(), 16);
}

#[test]
fn nothing_surviving_reads_nothing() {
    let columns = vec![
        tuple("a", "I64", &[], &[0]),
        tuple("b", "F64", &[], &[0]),
        tuple("c", "Utf8", &[], &[0]),
    ];
    let mut run = FilterRun::new(8, 0);
    assert!(matches!(
        run.execute_filter_compact(&columns),
        Ok(FilterAction::Finish)
    ));
    assert_eq!(run.done.len(), 3);
    assert!(run.done.iter().all(|c| c.data.is_empty()));
}

#[test]
fn compaction_failures_name_the_column() {
    let refused = |dtype: MetalDtype, data: &[u8], valid: &[u8]| match compact_one_column(
        dtype,
        8,
        data,
        valid,
        1,
        "a".into(),
    ) {
        Ok(_) => panic!("expected a failure"),
        Err(e) => e,
    };
    assert!(matches!(
        refused(MetalDtype::F32, &[], &[0]),
        Failure::NotImplemented(m)
            if m == "polars_metal: filter compaction for \"a\" (I32/F32) not yet implemented"
    ));
    assert!(matches!(
        refused(MetalDtype::Utf8, &[], &[0]),
        Failure::NotImplemented(m)
            if m == "polars_metal: filter on Utf8 columns (\"a\"): not yet wired"
    ));
    assert!(matches!(
        refused(MetalDtype::U8, &[], &[0]),
        Failure::NotImplemented(m)
            if m == "polars_metal: filter compaction for \"a\" (U8) not supported; filter should route CPU"
    ));
    assert!(matches!(
        refused(MetalDtype::I64, &[0; 63], &[0xff]),
        Failure::Value(m) if m == "polars_metal: column \"a\" (I64) data buffer is 63 B, need 64 B"
    ));
    assert!(matches!(
        refused(MetalDtype::I64, &[0; 64], &[]),
        Failure::Value(m)
            if m == "polars_metal: column \"a\" validity buffer is 0 B, need 1 B for 8 rows"
    ));
    assert!(matches!(
        kernel_failure(CompactKernel::F64, "a", "boom"),
        Failure::Runtime(m) if m == "polars_metal: compact_f64(\"a\") failed: boom"
    ));
    assert!(matches!(
        compact_one_column(MetalDtype::I64, 8, &[0; 64], &[0xff], 1, "a".into()),
        Ok(CompactStep::Run { kernel: CompactKernel::I64, .. })
    ));
}

#[test]
fn calendar_requests_are_planned() {
    assert_eq!(
        execute_dt((PAGE, 4), (PAGE * 2, 4), 1, PAGE).ok(),
        Some(DtDispatch::Run {
            n: 4,
            field: DtField::Month,
            stage_input: false,
            copy_back: false
        })
    );
    assert_eq!(
        execute_dt((PAGE + 8, 4), (PAGE + 4, 4), 0, PAGE).ok(),
        Some(DtDispatch::Run {
            n: 4,
            field: DtField::Year,
            stage_input: true,
            copy_back: true
        })
    );
    assert_eq!(
        execute_dt((0, 0), (0, 0), 9, PAGE).ok(),
        Some(DtDispatch::Nothing)
    );
    assert_eq!(
        value_text(execute_dt((0, 1), (0, 1), 9, PAGE)),
        "polars_metal: unknown dt field 9"
    );
    assert_eq!(
        value_text(execute_dt((0, 1), (0, 2), 0, PAGE)),
        "polars_metal: dt input/output length mismatch"
    );
    assert_eq!(
        value_text(execute_dt((0, 1 << 32), (0, 1 << 32), 0, PAGE)),
        "polars_metal: dt column exceeds u32::MAX rows"
    );
}

#[test]
fn rolling_requests_are_planned() {
    assert_eq!(
        execute_rolling(4, (PAGE, 4), PAGE).ok(),
        Some(RollingDispatch::Run {
            n: 4,
            copy_back: false
        })
    );
    assert_eq!(
        execute_rolling(0, (1, 0), PAGE).ok(),
        Some(RollingDispatch::Nothing)
    );
    assert_eq!(
        value_text(execute_rolling(4, (PAGE, 5), PAGE)),
        "polars_metal: rolling input/output length mismatch"
    );
    assert_eq!(
        rolling_kernel(3, 1).ok(),
        Some(RollingKernel::Var {
            ddof: 1,
            root: true
        })
    );
    assert_eq!(
        rolling_kernel(1, 0).ok(),
        Some(RollingKernel::Sum { mean: true })
    );
    assert_eq!(
        value_text(rolling_kernel(4, 0)),
        "polars_metal: unknown rolling op 4"
    );
}

#[test]
fn warping_requests_are_planned() {
    assert_eq!(
        execute_dtw(12, 4, (PAGE + 4, 3), 3, 4, PAGE).ok(),
        Some(DtwDispatch::Run {
            n_pairs: 3,
            seq_len: 4,
            copy_back: true
        })
    );
    assert_eq!(
        execute_dtw(0, 4, (0, 0), 0, 4, PAGE).ok(),
        Some(DtwDispatch::Nothing)
    );
    assert_eq!(
        value_text(execute_dtw(11, 4, (0, 3), 3, 4, PAGE)),
        "polars_metal: dtw dimension mismatch"
    );
    assert_eq!(
        value_text(execute_dtw(1 << 32, 1, (0, 1 << 32), 1 << 32, 1, PAGE)),
        "polars_metal: dtw n_pairs exceeds u32::MAX"
    );
    assert_eq!(
        value_text(execute_dtw(1 << 32, 1 << 32, (0, 1), 1, 1 << 32, PAGE)),
        "polars_metal: dtw seq_len exceeds u32::MAX"
    );
}

#[test]
fn correlation_and_transform_sizes_are_checked() {
    assert!(execute_corr(6, 2, 3).is_ok());
    assert_eq!(
        value_text(execute_corr(6, 2, 2)),
        "polars_metal: corr dimension mismatch (p*n != len)"
    );
    assert!(execute_corr(6, -2, -3).is_err());
    assert_eq!(corr_dimension(7), Ok(7));
    assert_eq!(corr_dimension(-3), Ok(-3));
    assert_eq!(corr_dimension(i64::from(i32::MIN) - 1), Ok(i32::MAX));
    assert_eq!(
        corr_dimension(1 << 31),
        Err("corr: column count 2147483648 exceeds i32::MAX".to_string())
    );
    assert!(execute_fft(4, Some(4), 4).is_ok());
    assert_eq!(
        value_text(execute_fft(4, None, 5)),
        "fft: real stream len 4 != n 5"
    );
    assert_eq!(
        value_text(execute_fft(4, Some(3), 4)),
        "fft: imag stream len 3 != n 4"
    );
    assert_eq!(
        fft_core(false, 4),
        Ok(FftPlan {
            plane_bytes: 16,
            zero_imaginary: true
        })
    );
    assert_eq!(
        fft_core(true, 0),
        Err("fft re staging: MTLBuffer allocation failed (requested 0 bytes)".to_string())
    );
}

#[test]
fn wire_values_convert_strictly() {
    let d = dict(vec![("a", number(7)), ("b", text("x"))]);
    assert_eq!(d.get_text("b"), Some("x".to_string()));
    assert_eq!(d.get_text("a"), None);
    assert!(d.get("c").is_none());
    assert_eq!(number(7).to_unsigned(), Ok(7));
    assert_eq!(
        number(-7).to_unsigned(),
        Err(ConversionError::OutOfRange(Target::Unsigned))
    );
    assert_eq!(number(-7).to_signed(), Ok(-7));
    assert_eq!(
        number(1 << 70).to_signed(),
        Err(ConversionError::OutOfRange(Target::Signed))
    );
    assert_eq!(
        text("x").to_truth(),
        Err(ConversionError::WrongType(Target::Truth))
    );
    assert_eq!(number(2).to_float(), Ok(F64Bits(2.0f64.to_bits())));
    let huge = WireValue::Number(WireNumber {
        integer: Some(i128::MAX),
        float: None,
    });
    assert_eq!(
        huge.to_float(),
        Err(ConversionError::OutOfRange(Target::Float))
    );
    assert_eq!(
        text("x").to_float(),
        Err(ConversionError::WrongType(Target::Float))
    );
    assert_eq!(
        WireValue::Other.to_text(),
        Err(ConversionError::WrongType(Target::Text))
    );
    assert_eq!(
        WireValue::List(vec![text("a"), text("b")]).to_texts(),
        Ok(vec!["a".to_string(), "b".to_string()])
    );
}
