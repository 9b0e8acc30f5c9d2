use polars_metal::error::Failure;
use polars_metal::plan::{AggExpr, AggOp, BinaryOp, MetalDtype};
use polars_metal::udf::common::{find_column, Column};
use polars_metal::udf::groupby::{
    encode_groupby_result, execute_groupby, AfterFused, FusedOutcome, GroupByAction, GroupByEvent,
};
use polars_metal::udf::groupby_agg::{
    build_agg_kind_and_vcol, build_value_column, decide_groupby_dispatch, distinct_inputs,
    execute_peragg, find_value_columns, wire_dtype_tag_to_kernel, AggKind, AggRequest, GroupByDispatchChoice,
    ValueColumn,
};
use polars_metal::udf::groupby_encode::{encode_agg_output, encode_decoded_column, AggOutput, DecodedColumn};
use polars_metal::udf::groupby_keys::{
    build_key_columns, metal_dtype_to_key_dtype, read_packed_column, words_to_bytes, KeyDtype,
};
use polars_metal::udf::groupby_plan::parse_agg_expr_dict;
use polars_metal::wire::{F64Bits, WireDict, WireNumber, WireValue};
use polars_metal::{parse_groupby_plan, GroupByParseError, ParsedAgg, ParsedGroupByPlan, ParsedKey};

fn text(s: &str) -> WireValue<'static> {
    WireValue::Str(s.into())
}

fn dict<'a>(entries: Vec<(&str, WireValue<'a>)>) -> WireDict<'a> {
    WireDict {
        entries: entries.into_iter().map(|(k, v)| (k.into(), v)).collect(),
    }
}

fn number(i: i128) -> WireValue<'static> {
    WireValue::Number(WireNumber {
        integer: Some(i),
        float: Some(F64Bits((i as f64).to_bits())),
    })
}

fn float(v: f64) -> WireValue<'static> {
    WireValue::Number(WireNumber {
        integer: None,
        float: Some(F64Bits(v.to_bits())),
    })
}

fn key_entry(name: &str, dtype: &str) -> WireValue<'static> {
    WireValue::List(vec![text(name), text(dtype)])
}

fn agg_entry(input_col: &str, op: &str, output_alias: &str) -> WireValue<'static> {
    WireValue::Dict(dict(vec![
        ("input_col", text(input_col)),
        ("op", text(op)),
        ("output_alias", text(output_alias)),
    ]))
}

fn plan_dict(
    keys: Vec<WireValue<'static>>,
    aggs: Vec<WireValue<'static>>,
) -> WireDict<'static> {
    dict(vec![
        ("keys", WireValue::List(keys)),
        ("aggs", WireValue::List(aggs)),
    ])
}

fn make_plan_dict(
    key_name: &str,
    key_dtype: &str,
    input_col: &str,
    op: &str,
    output_alias: &str,
) -> WireDict<'static> {
    plan_dict(
        vec![key_entry(key_name, key_dtype)],
        vec![agg_entry(input_col, op, output_alias)],
    )
}

#[test]
fn parser_extracts_single_key_single_agg() {
    let plan = make_plan_dict("k", "I64", "v", "Sum", "sum_v");
    let parsed: ParsedGroupByPlan = parse_groupby_plan(&plan).expect("parse must succeed");

    assert_eq!(parsed.keys.len(), 1);
    assert_eq!(parsed.keys[0].name, "k");
    assert_eq!(parsed.keys[0].dtype, MetalDtype::I64);

    assert_eq!(parsed.aggs.len(), 1);
    match &parsed.aggs[0] {
        ParsedAgg::Simple {
            input_col,
            op,
            output_alias,
        } => {
            assert_eq!(input_col, "v");
            assert_eq!(*op, AggOp::Sum);
            assert_eq!(output_alias, "sum_v");
        }
        other => panic!("expected ParsedAgg::Simple, got {other:?}"),
    }
}

#[test]
fn parser_extracts_f64_key_and_mean_agg() {
    let plan = make_plan_dict("price", "F64", "price", "Mean", "avg_price");
    let parsed = parse_groupby_plan(&plan).expect("parse must succeed");
    assert_eq!(parsed.keys[0].dtype, MetalDtype::F64);
    match &parsed.aggs[0] {
        ParsedAgg::Simple { op, .. } => assert_eq!(*op, AggOp::Mean),
        other => panic!("expected ParsedAgg::Simple, got {other:?}"),
    }
}

#[test]
fn parser_extracts_len_with_empty_input_col() {
    let plan = plan_dict(
        vec![key_entry("g", "I64")],
        vec![WireValue::Dict(dict(vec![
            ("op", text("Len")),
            ("output_alias", text("n")),
        ]))],
    );
    let parsed = parse_groupby_plan(&plan).expect("parse must succeed for Len with no input_col");
    match &parsed.aggs[0] {
        ParsedAgg::Length { output_alias } => assert_eq!(output_alias, "n"),
        other => panic!("expected ParsedAgg::Length, got {other:?}"),
    }
}

#[test]
fn parser_accepts_all_six_agg_ops() {
    let wire_ops = ["Sum", "Mean", "Count", "Min", "Max", "Len"];
    let expected_ops = [
        AggOp::Sum,
        AggOp::Mean,
        AggOp::Count,
        AggOp::Min,
        AggOp::Max,
        AggOp::Len,
    ];
    for (&wire, &expected) in wire_ops.iter().zip(expected_ops.iter()) {
        let plan = make_plan_dict("k", "I64", "x", wire, "out");
        let parsed = parse_groupby_plan(&plan)
            .unwrap_or_else(|e| panic!("parse failed for op {wire}: {}", e.message()));
        match &parsed.aggs[0] {
            ParsedAgg::Simple { op, .. } => {
                assert_eq!(
                    *op, expected,
                    "op wire string {wire} must parse to {expected:?}"
                );
            }
            ParsedAgg::Length { .. } => {
                assert_eq!(
                    expected,
                    AggOp::Len,
                    "Length variant should only be inferred for op=Len, got {wire}"
                );
            }
            ParsedAgg::Expression { .. } => {
                panic!("Simple/Length expected for legacy wire format")
            }
        }
    }
}

#[test]
fn parser_accepts_bool_key_dtype() {
    let plan = make_plan_dict("flag", "Bool", "v", "Count", "cnt");
    let parsed = parse_groupby_plan(&plan).expect("parse must succeed");
    assert_eq!(parsed.keys[0].dtype, MetalDtype::Bool);
}

#[test]
fn parser_accepts_multiple_keys_and_aggs() {
    let plan = plan_dict(
        vec![key_entry("returnflag", "I64"), key_entry("linestatus", "I64")],
        vec![
            agg_entry("qty", "Sum", "sum_qty"),
            agg_entry("price", "Mean", "avg_price"),
        ],
    );
    let parsed = parse_groupby_plan(&plan).expect("parse must succeed");
    assert_eq!(parsed.keys.len(), 2);
    assert_eq!(parsed.aggs.len(), 2);
    assert_eq!(parsed.keys[0].name, "returnflag");
    assert_eq!(parsed.keys[1].name, "linestatus");
    let ops: Vec<AggOp> = parsed
        .aggs
        .iter()
        .map(|a| match a {
            ParsedAgg::Simple { op, .. } | ParsedAgg::Expression { op, .. } => *op,
            ParsedAgg::Length { .. } => AggOp::Len,
        })
        .collect();
    assert_eq!(ops, vec![AggOp::Sum, AggOp::Mean]);
}

#[test]
fn parser_rejects_missing_keys_field() {
    let plan = dict(vec![("aggs", WireValue::List(vec![]))]);
    let err = parse_groupby_plan(&plan).expect_err("must fail on missing keys");
    assert!(
        matches!(err, GroupByParseError::Missing("keys")),
        "expected Missing(\"keys\"), got {err:?}"
    );
    assert_eq!(err.message(), "missing required field: keys");
}

#[test]
fn parser_rejects_missing_aggs_field() {
    let plan = dict(vec![("keys", WireValue::List(vec![]))]);
    let err = parse_groupby_plan(&plan).expect_err("must fail on missing aggs");
    assert!(
        matches!(err, GroupByParseError::Missing("aggs")),
        "expected Missing(\"aggs\"), got {err:?}"
    );
}

#[test]
fn parser_rejects_unknown_dtype() {
    let plan = make_plan_dict("k", "NotADtype", "v", "Sum", "sum_v");
    let err = parse_groupby_plan(&plan).expect_err("must fail on bad dtype");
    assert!(
        matches!(err, GroupByParseError::UnknownDtype(_)),
        "expected UnknownDtype, got {err:?}"
    );
    assert_eq!(err.message(), "unknown dtype: NotADtype");
}

#[test]
fn parser_rejects_unknown_op() {
    let plan = make_plan_dict("k", "I64", "v", "StdDev", "stddev_v");
    let err = parse_groupby_plan(&plan).expect_err("must fail on unknown op");
    assert!(
        matches!(err, GroupByParseError::UnknownOp(_)),
        "expected UnknownOp, got {err:?}"
    );
    assert_eq!(err.message(), "unknown agg op: StdDev");
}

#[test]
fn parser_rejects_missing_output_alias() {
    let plan = plan_dict(
        vec![key_entry("k", "I64")],
        vec![WireValue::Dict(dict(vec![
            ("input_col", text("v")),
            ("op", text("Sum")),
        ]))],
    );
    let err = parse_groupby_plan(&plan).expect_err("must fail on missing output_alias");
    assert!(
        matches!(err, GroupByParseError::WrongType("output_alias")),
        "expected WrongType(\"output_alias\"), got {err:?}"
    );
    assert_eq!(err.message(), "wrong type for field: output_alias");
}

fn column_expr(name: &str) -> WireDict<'static> {
    dict(vec![("kind", text("Column")), ("name", text(name))])
}

fn binary_expr(op: &str, lhs: WireDict<'static>, rhs: WireDict<'static>) -> WireDict<'static> {
    dict(vec![
        ("kind", text("Binary")),
        ("op", text(op)),
        ("lhs", WireValue::Dict(lhs)),
        ("rhs", WireValue::Dict(rhs)),
    ])
}

fn expression_agg(expr: WireDict<'static>) -> WireValue<'static> {
    WireValue::Dict(dict(vec![
        ("kind", text("Expression")),
        ("op", text("Sum")),
        ("output_alias", text("s")),
        ("expr", WireValue::Dict(expr)),
    ]))
}

#[test]
fn expressions_are_parsed() {
    let one = dict(vec![("kind", text("LiteralF64")), ("value", float(1.0))]);
    let plan = plan_dict(
        vec![key_entry("k", "I64")],
        vec![expression_agg(binary_expr(
            "Mul",
            column_expr("price"),
            binary_expr("Sub", one, column_expr("discount")),
        ))],
    );
    let parsed = parse_groupby_plan(&plan).expect("parses");
    let want = AggExpr::Binary {
        op: BinaryOp::Mul,
        lhs: Box::new(AggExpr::Column("price".into())),
        rhs: Box::new(AggExpr::Binary {
            op: BinaryOp::Sub,
            lhs: Box::new(AggExpr::LiteralF64(F64Bits(1.0f64.to_bits()))),
            rhs: Box::new(AggExpr::Column("discount".into())),
        }),
    };
    match &parsed.aggs[0] {
        ParsedAgg::Expression { expr, op, .. } => {
            assert_eq!(*expr, want);
            assert_eq!(*op, AggOp::Sum);
        }
        other => panic!("expected an expression, got {other:?}"),
    }
    assert!(parsed.aggs[0].is_expression());
    assert_eq!(parsed.aggs[0].input_columns(), vec!["price", "discount"]);
    assert_eq!(parsed.aggs[0].output_alias(), "s");
}

#[test]
fn bad_expressions_are_refused() {
    let complaint = |d: WireDict<'static>| match parse_agg_expr_dict(&d) {
        Ok(e) => panic!("parsed {e:?}"),
        Err(e) => e.message(),
    };
    assert_eq!(complaint(dict(vec![])), "wrong type for field: expr.kind");
    assert_eq!(
        complaint(dict(vec![("kind", text("Call"))])),
        "unknown agg op: expr kind=Call"
    );
    assert_eq!(
        complaint(dict(vec![("kind", text("LiteralI64")), ("value", float(1.5))])),
        "wrong type for field: expr.value(i64)"
    );
    assert_eq!(
        complaint(binary_expr("Mod", column_expr("a"), column_expr("b"))),
        "unknown agg op: binary op Mod"
    );
    assert_eq!(
        complaint(dict(vec![
            ("kind", text("Binary")),
            ("op", text("Add")),
            ("lhs", number(1)),
        ])),
        "wrong type for field: expr.lhs(dict)"
    );
}

#[test]
fn overdeep_expressions_are_refused_by_the_plan() {
    let mut e = column_expr("v");
    for _ in 0..5 {
        e = binary_expr("Add", e, column_expr("w"));
    }
    let plan = plan_dict(vec![key_entry("k", "I64")], vec![expression_agg(e)]);
    assert!(matches!(
        parse_groupby_plan(&plan),
        Err(GroupByParseError::WrongType("expr(too deep)"))
    ));
}

#[test]
fn malformed_entries_are_refused() {
    let bad_key = plan_dict(vec![number(1)], vec![]);
    assert!(matches!(
        parse_groupby_plan(&bad_key),
        Err(GroupByParseError::WrongType("key entry"))
    ));
    let bad_agg = plan_dict(vec![], vec![number(1)]);
    assert!(matches!(
        parse_groupby_plan(&bad_agg),
        Err(GroupByParseError::WrongType("agg entry"))
    ));
    let kind = plan_dict(
        vec![],
        vec![WireValue::Dict(dict(vec![
            ("kind", text("Window")),
            ("output_alias", text("w")),
        ]))],
    );
    assert_eq!(
        parse_groupby_plan(&kind).err().map(|e| e.message()),
        Some("unknown agg op: kind=Window".to_string())
    );
}

#[derive(Debug, PartialEq)]
enum Variant {
    I64,
    F64,
    I32,
    F32,
}

fn variant_of(v: &ValueColumn) -> Variant {
    match v {
        ValueColumn::I64 { .. } => Variant::I64,
        ValueColumn::F64 { .. } => Variant::F64,
        ValueColumn::I32 { .. } => Variant::I32,
        ValueColumn::F32 { .. } => Variant::F32,
    }
}

fn check_ok(op: AggOp, tag: &str, width: usize, kind: AggKind, variant: Variant) {
    let n = 4usize;
    let data = vec![0u8; n * width];
    let valid = vec![0u8; n.div_ceil(8)];
    let (k, vc) = build_agg_kind_and_vcol(op, tag, &data, &valid, n)
        .unwrap_or_else(|e| panic!("{op:?}/{tag} should be supported: {e:?}"));
    assert_eq!(k, kind, "{op:?}/{tag}: wrong AggKind");
    assert_eq!(variant_of(&vc), variant, "{op:?}/{tag}: wrong ValueColumn");
}

#[test]
fn dtype_agg_matrix_is_pinned() {
    // I64 (width 8)
    check_ok(AggOp::Sum, "I64", 8, AggKind::SumI64, Variant::I64);
    check_ok(AggOp::Mean, "I64", 8, AggKind::MeanI64, Variant::I64);
    check_ok(AggOp::Min, "I64", 8, AggKind::MinI64, Variant::I64);
    check_ok(AggOp::Max, "I64", 8, AggKind::MaxI64, Variant::I64);
    check_ok(AggOp::Count, "I64", 8, AggKind::Count, Variant::I64);
    // F64 (width 8)
    check_ok(AggOp::Sum, "F64", 8, AggKind::SumF64, Variant::F64);
    check_ok(AggOp::Mean, "F64", 8, AggKind::MeanF64, Variant::F64);
    check_ok(AggOp::Min, "F64", 8, AggKind::MinF64, Variant::F64);
    check_ok(AggOp::Max, "F64", 8, AggKind::MaxF64, Variant::F64);
    check_ok(AggOp::Count, "F64", 8, AggKind::Count, Variant::F64);
    // I32 (width 4)
    check_ok(AggOp::Sum, "I32", 4, AggKind::SumI32, Variant::I32);
    check_ok(AggOp::Mean, "I32", 4, AggKind::MeanI32, Variant::I32);
    check_ok(AggOp::Min, "I32", 4, AggKind::MinI32, Variant::I32);
    check_ok(AggOp::Max, "I32", 4, AggKind::MaxI32, Variant::I32);
    check_ok(AggOp::Count, "I32", 4, AggKind::Count, Variant::I32);
    // F32 (width 4)
    check_ok(AggOp::Sum, "F32", 4, AggKind::SumF32, Variant::F32);
    check_ok(AggOp::Mean, "F32", 4, AggKind::MeanF32, Variant::F32);
    check_ok(AggOp::Min, "F32", 4, AggKind::MinF32, Variant::F32);
    check_ok(AggOp::Max, "F32", 4, AggKind::MaxF32, Variant::F32);
    check_ok(AggOp::Count, "F32", 4, AggKind::Count, Variant::F32);
}

#[test]
fn buffer_too_short_errors() {
    // n=4 i64 needs 32 bytes; give 8.
    let short = vec![0u8; 8];
    let valid = vec![0u8; 1];
    assert!(build_agg_kind_and_vcol(AggOp::Sum, "I64", &short, &valid, 4).is_err());
}

#[test]
fn unsupported_dtype_errors() {
    let data = vec![0u8; 8];
    let valid = vec![0u8; 1];
    // Bool is not a supported agg value dtype.
    assert!(build_agg_kind_and_vcol(AggOp::Sum, "Bool", &data, &valid, 1).is_err());
    assert!(matches!(
        build_agg_kind_and_vcol(AggOp::Sum, "Bool", &data, &valid, 1),
        Err(Failure::Value(m))
            if m == "polars_metal: unsupported (agg_op, dtype) combination: Sum / Bool"
    ));
}

#[test]
fn fused_value_columns_are_narrow() {
    let data = [0u8; 8];
    assert!(matches!(
        build_value_column("I32", &data, &[1], 2),
        Ok(ValueColumn::I32 { .. })
    ));
    assert_eq!(
        build_value_column("F32", &data, &[1], 3).err(),
        Some("F32 data buffer too short: 8 < 12".to_string())
    );
    assert_eq!(
        build_value_column("I64", &data, &[1], 1).err(),
        Some("dtype I64 not supported by fused groupby (only I32/F32 currently)".to_string())
    );
    assert_eq!(wire_dtype_tag_to_kernel("I16"), Some(MetalDtype::I16));
    assert_eq!(wire_dtype_tag_to_kernel("Utf8"), None);
}

fn column<'a>(name: &str, tag: &str, data: &'a [u8], valid: &'a [u8]) -> Column<'a> {
    Column {
        name: name.into(),
        tag: tag.into(),
        data,
        valid,
    }
}

fn simple(input_col: &str, op: AggOp) -> ParsedAgg {
    ParsedAgg::Simple {
        input_col: input_col.into(),
        op,
        output_alias: "out".into(),
    }
}

fn expression(name: &str) -> ParsedAgg {
    ParsedAgg::Expression {
        expr: AggExpr::Column(name.into()),
        op: AggOp::Sum,
        output_alias: "out".into(),
    }
}

#[test]
fn dispatch_goes_by_ops_and_widths() {
    let data = [0u8; 32];
    let cols = vec![
        column("narrow", "F32", &data, &[0xff]),
        column("wide", "I64", &data, &[0xff]),
        column("double", "F64", &data, &[0xff]),
        column("text", "Utf8", &data, &[0xff]),
    ];
    let choice = |aggs: Vec<ParsedAgg>| decide_groupby_dispatch(&aggs, &cols);
    assert_eq!(
        choice(vec![simple("narrow", AggOp::Sum), simple("narrow", AggOp::Max)]),
        GroupByDispatchChoice::Fused
    );
    assert_eq!(
        choice(vec![simple("narrow", AggOp::Sum)]),
        GroupByDispatchChoice::PerAgg
    );
    assert_eq!(
        choice(vec![simple("narrow", AggOp::Sum), simple("wide", AggOp::Sum)]),
        GroupByDispatchChoice::PerAgg
    );
    assert_eq!(
        choice(vec![expression("narrow")]),
        GroupByDispatchChoice::Fused
    );
    assert_eq!(
        choice(vec![expression("wide")]),
        GroupByDispatchChoice::Fused
    );
    assert_eq!(
        choice(vec![expression("double")]),
        GroupByDispatchChoice::Fused
    );
    assert_eq!(
        choice(vec![simple("wide", AggOp::Sum), expression("narrow")]),
        GroupByDispatchChoice::Fused
    );
    assert_eq!(
        choice(vec![expression("text")]),
        GroupByDispatchChoice::PerAgg
    );
    assert_eq!(
        choice(vec![expression("absent")]),
        GroupByDispatchChoice::PerAgg
    );
}

#[test]
fn peragg_requests_follow_the_aggs() {
    let data = [0u8; 32];
    let cols = vec![column("v", "I64", &data, &[0xff]), column("w", "F32", &data, &[0xff])];
    let aggs = vec![
        simple("w", AggOp::Max),
        ParsedAgg::Length {
            output_alias: "n".into(),
        },
        simple("v", AggOp::Sum),
        simple("w", AggOp::Count),
    ];
    assert_eq!(distinct_inputs(&aggs), vec!["w", "v"]);
    let got = execute_peragg(&cols, &aggs, 4).expect("requests");
    let requests: Vec<AggRequest> = got.iter().map(|r| r.0).collect();
    assert_eq!(
        requests.iter().map(|r| r.kind).collect::<Vec<_>>(),
        vec![AggKind::MaxF32, AggKind::Len, AggKind::SumI64, AggKind::Count]
    );
    assert_eq!(
        requests.iter().map(|r| r.input_col_idx).collect::<Vec<_>>(),
        vec![0, 1, 2, 3]
    );
    assert!(matches!(
        execute_peragg(&cols, &vec![expression("v")], 4),
        Err(Failure::Value(m))
            if m == "polars_metal: AggSpec::Expression routed to per-agg path; this is a routing bug"
    ));
}

#[test]
fn missing_columns_are_named() {
    let cols: Vec<Column> = vec![];
    assert!(find_column(&cols, "v").is_none());
    assert!(matches!(
        execute_peragg(&cols, &vec![simple("v", AggOp::Sum)], 4),
        Err(Failure::Value(m))
            if m == "polars_metal: internal error: missing byte ref for Simple agg"
    ));
    assert!(matches!(
        find_value_columns(&cols, &vec![simple("v", AggOp::Sum)]),
        Err(Failure::Key(m))
            if m == "polars_metal: agg input column \"v\" not found in upstream columns"
    ));
    let keys = vec![ParsedKey {
        name: "tab\there".into(),
        dtype: MetalDtype::I64,
    }];
    assert!(matches!(
        build_key_columns(&cols, &keys, 4),
        Err(Failure::Key(m))
            if m == "polars_metal: key column \"tab\\there\" not found in upstream columns"
    ));
}

/// The packed form of strings: the row count, an end offset before each row
/// and after the last, and the text.
fn pack(rows: &[&[u8]]) -> Vec<u8> {
    let mut out = (rows.len() as u32).to_le_bytes().to_vec();
    let mut at = 0i32;
    out.extend(at.to_le_bytes());
    for r in rows {
        at += r.len() as i32;
        out.extend(at.to_le_bytes());
    }
    for r in rows {
        out.extend(*r);
    }
    out
}

#[test]
fn packed_strings_read_back() {
    let data = pack(&["añb".as_bytes(), b"", "日本".as_bytes(), b"x"]);
    let got = read_packed_column("s", &data, &[0b1101], 4).expect("reads");
    assert_eq!(got, vec![Some("añb"), None, Some("日本"), Some("x")]);
}

#[test]
fn malformed_packed_strings_are_refused() {
    let complaint = |data: &[u8], valid: &[u8], rows: usize| match read_packed_column(
        "s", data, valid, rows,
    ) {
        Ok(v) => panic!("read {v:?}"),
        Err(Failure::Value(m)) => m,
        Err(e) => panic!("unexpected {e:?}"),
    };
    let good = pack(&[b"ab", b"c"]);
    assert_eq!(
        complaint(&good[..3], &[3], 2),
        "polars_metal: Utf8 column \"s\" wire payload too short (3 B; need >= 4 for header)"
    );
    assert_eq!(
        complaint(&good, &[3], 3),
        "polars_metal: Utf8 column \"s\" wire n_rows=2 disagrees with column n_rows=3"
    );
    assert_eq!(
        complaint(&good[..9], &[3], 2),
        "polars_metal: Utf8 column \"s\" wire payload truncated in offsets (9 B; need >= 16)"
    );
    assert_eq!(
        complaint(&good, &[], 2),
        "polars_metal: Utf8 column \"s\" validity buffer is 0 B, need at least 1 B for 2 rows"
    );
    let mut backwards = good.clone();
    backwards[8] = 0xff;
    backwards[9] = 0xff;
    backwards[10] = 0xff;
    backwards[11] = 0xff;
    assert_eq!(
        complaint(&backwards, &[3], 2),
        "polars_metal: Utf8 column \"s\" row 0 has invalid offsets start=0 end=-1"
    );
    assert_eq!(
        complaint(&good[..18], &[3], 2),
        "polars_metal: Utf8 column \"s\" row 1 end offset 3 exceeds string buffer length 2"
    );
    let invalid = pack(&[b"a\xff"]);
    assert_eq!(
        complaint(&invalid, &[1], 1),
        "polars_metal: Utf8 column \"s\" row 0 is not valid UTF-8: invalid utf-8 sequence of 1 bytes from index 1"
    );
}

#[test]
fn string_keys_become_codes() {
    let data = pack(&[b"b", b"a", b"b"]);
    let ints = [1u8; 24];
    let cols = vec![column("s", "Utf8", &data, &[7]), column("i", "I64", &ints, &[7])];
    let keys = vec![
        ParsedKey {
            name: "i".into(),
            dtype: MetalDtype::I64,
        },
        ParsedKey {
            name: "s".into(),
            dtype: MetalDtype::Utf8,
        },
    ];
    let got = build_key_columns(&cols, &keys, 3).expect("keys");
    assert_eq!(got[0].dtype, KeyDtype::I64);
    assert_eq!(got[0].data.as_slice(), &ints);
    assert!(got[0].dict.is_none());
    assert_eq!(got[1].dtype, KeyDtype::Utf8);
    assert_eq!(got[1].data.as_slice(), words_to_bytes(&[0, 1, 0]).as_slice());
    assert_eq!(got[1].dict, Some(vec!["b".to_string(), "a".to_string()]));
    assert_eq!(words_to_bytes(&[0x0102_0304]), vec![4, 3, 2, 1]);
    assert_eq!(
        metal_dtype_to_key_dtype(MetalDtype::U32).ok(),
        Some(KeyDtype::U32)
    );
    assert!(metal_dtype_to_key_dtype(MetalDtype::U64).is_err());
}

#[test]
fn results_are_encoded_little_endian() {
    let e = encode_decoded_column(&DecodedColumn::I16 {
        values: vec![-2, 258],
        valid: vec![true, false],
    });
    assert_eq!(e.tag, "I16");
    assert_eq!(e.data, vec![0xfe, 0xff, 2, 1]);
    assert_eq!(e.valid, vec![1, 0, 0, 0]);
    let e = encode_decoded_column(&DecodedColumn::Utf8 {
        values: vec!["añ".into(), "".into(), "z".into()],
        valid: vec![true, false, true],
    });
    assert_eq!(e.tag, "Utf8");
    assert_eq!(e.data, pack(&["añ".as_bytes(), b"", b"z"]));
    let e = encode_decoded_column(&DecodedColumn::Bool {
        values: vec![true, false, true],
        valid: vec![true, true, true],
    });
    assert_eq!(e.tag, "Bool");
    let e = encode_agg_output(&AggOutput::U64 { values: vec![7] });
    assert_eq!(e.tag, "U32");
    assert_eq!(e.data, vec![7, 0, 0, 0]);
    assert_eq!(e.valid, vec![0xff; 4]);
    let e = encode_agg_output(&AggOutput::F32 {
        values: vec![1.5f32.to_bits()],
        valid: vec![true],
    });
    assert_eq!(e.data, 1.5f32.to_le_bytes());
}

#[test]
fn encoded_strings_read_back() {
    let e = encode_decoded_column(&DecodedColumn::Utf8 {
        values: vec!["один".into(), "".into(), "z".into()],
        valid: vec![true, true, false],
    });
    let got = read_packed_column("s", &e.data, &e.valid, 3).expect("reads");
    assert_eq!(got, vec![Some("один"), Some(""), None]);
}

fn tuple<'a>(name: &str, tag: &str, data: &'a [u8], valid: &'a [u8]) -> WireValue<'a> {
    WireValue::Tuple(vec![
        text(name),
        text(tag),
        WireValue::Bytes(data),
        WireValue::Bytes(valid),
    ])
}

#[test]
fn narrow_groupbys_run_fused_first() {
    let ints = [0u8; 32];
    let floats = [0u8; 16];
    let columns = vec![
        tuple("k", "I64", &ints, &[0xf]),
        tuple("v", "F32", &floats, &[0xf]),
    ];
    let plan = plan_dict(
        vec![key_entry("k", "I64")],
        vec![agg_entry("v", "Sum", "s"), agg_entry("v", "Max", "m")],
    );
    let run = execute_groupby(&plan, 4, &columns).expect("set up");
    assert_eq!(run.first_choice(), GroupByDispatchChoice::Fused);
    assert!(matches!(
        run.step(&GroupByEvent::Ready),
        Ok(GroupByAction::DispatchFused(v)) if v.len() == 1 && v[0].name == "v"
    ));
    assert!(matches!(
        run.step(&GroupByEvent::Fused(FusedOutcome::Done)),
        Ok(GroupByAction::Encode)
    ));
    assert!(matches!(
        run.step(&GroupByEvent::Fused(FusedOutcome::TooManyGroups("many".into()))),
        Ok(GroupByAction::DispatchPerAgg(v)) if v.len() == 2
    ));
    assert!(matches!(
        run.step(&GroupByEvent::Fused(FusedOutcome::Failed("boom".into()))),
        Err(Failure::Value(m)) if m == "polars_metal: fused groupby dispatch: boom"
    ));
    assert!(matches!(run.step(&GroupByEvent::PerAgg), Ok(GroupByAction::Encode)));
    assert!(matches!(
        run.step(&GroupByEvent::PerAggFailed("boom".into())),
        Err(Failure::Value(m)) if m == "polars_metal: dispatch_groupby failed: boom"
    ));
}

#[test]
fn wide_expressions_are_refused_by_the_fused_path() {
    let data = [0u8; 32];
    let columns = vec![
        tuple("k", "I64", &data, &[0xf]),
        tuple("v", "F64", &data, &[0xf]),
    ];
    let plan = plan_dict(
        vec![key_entry("k", "I64")],
        vec![expression_agg(column_expr("v"))],
    );
    let run = execute_groupby(&plan, 4, &columns).expect("set up");
    assert_eq!(run.first_choice(), GroupByDispatchChoice::Fused);
    assert!(matches!(
        run.step(&GroupByEvent::Ready),
        Err(Failure::Value(m))
            if m == "polars_metal: fused groupby — value column \"v\": dtype F64 not supported by fused groupby (only I32/F32 currently)"
    ));
}

#[test]
fn expressions_do_not_fall_back_to_per_agg() {
    let data = [0u8; 32];
    let columns = vec![
        tuple("k", "I64", &data, &[0xf]),
        tuple("v", "F32", &data, &[0xf]),
    ];
    let plan = plan_dict(
        vec![key_entry("k", "I64")],
        vec![expression_agg(column_expr("v"))],
    );
    let run = execute_groupby(&plan, 4, &columns).expect("set up");
    assert!(matches!(
        run.after_fused(&FusedOutcome::TooManyGroups("many".into())),
        Err(Failure::Value(m)) if m == "polars_metal: fused groupby dispatch: many"
    ));
    assert_eq!(
        run.after_fused(&FusedOutcome::Done).ok(),
        Some(AfterFused::UseResult)
    );
    assert!(run.peragg_requests().is_err());
}

#[test]
fn bad_groupby_calls_are_refused() {
    let plan = dict(vec![("aggs", WireValue::List(vec![]))]);
    assert!(matches!(
        execute_groupby(&plan, 4, &vec![]),
        Err(Failure::Value(m)) if m == "polars_metal: plan parse error: missing required field: keys"
    ));
    let plan = make_plan_dict("k", "I64", "v", "Sum", "s");
    assert!(execute_groupby(&plan, 4, &vec![number(1)]).is_err());
    assert!(execute_groupby(&plan, 4, &vec![]).is_err());
}

#[test]
fn results_carry_key_names_then_aliases() {
    let plan = ParsedGroupByPlan {
        keys: vec![ParsedKey {
            name: "k".into(),
            dtype: MetalDtype::I32,
        }],
        aggs: vec![simple("v", AggOp::Sum)],
    };
    let out = encode_groupby_result(
        &plan,
        &vec![DecodedColumn::I32 {
            values: vec![5],
            valid: vec![true],
        }],
        &vec![AggOutput::I64 {
            values: vec![-1],
            valid: vec![true],
        }],
    );
    assert_eq!(out.len(), 2);
    assert_eq!(out[0].name, "k");
    assert_eq!(out[0].encoded.data, vec![5, 0, 0, 0]);
    assert_eq!(out[1].name, "out");
    assert_eq!(out[1].encoded.tag, "I64");
    assert_eq!(out[1].encoded.data, vec![0xff; 8]);
}
