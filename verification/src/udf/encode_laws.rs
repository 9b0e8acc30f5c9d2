//! What reading an encoded result gives back of the values that were encoded,
//! and how a group-by goes from one dispatch to the next.

use vstd::prelude::*;

use crate::bytes::{from_le, radix};
use crate::error::Fault;
use crate::null_bitmap::{bitmaps_are_as_long_as_needed, bytes_hold_eight_rows, valid_at};
use crate::udf::agg_laws::{
    key_columns_are_built_in_order, requests_are_refused_for_what_cannot_be_served, servable,
};
use crate::udf::common::{columns_read_back, requests_read_back, Column};
use crate::udf::groupby::{
    fused_columns_fault, is_answer, is_fused_column, keys_refused, plan_refused, ready, refused,
    request_refused, step_outcome, wording, FusedOutcome, GroupByAction, GroupByEvent, GroupByRun, OutputColumn,
};
use crate::udf::groupby_agg::{all_inputs, has_expression, takes_fused};
use crate::udf::groupby_encode::{
    agg_encoding, bits_count, bits_i16, bits_i32, bits_i64, bits_i8, bits_u16, bits_u32, bits_u8,
    key_encoding, le_all, nats64, packed_utf8, AggOutput, DecodedColumn, Encoded,
};
use crate::udf::groupby_keys::{is_key_column, KeyColumn};
use crate::udf::groupby_laws::runs_read_back;
use crate::udf::groupby_plan::{
    agg_matches, first_bad_agg, key_of, keys_accepted, plan_outcome, required_list, ParseFault,
    ParsedAgg, ParsedGroupByPlan, ParsedKey,
};
use crate::wire::{WireDict, WireValue};

verus! {

/// The number that `width` bytes hold at place `i`.
pub open spec fn stored(data: Seq<u8>, width: int, i: int) -> int {
    from_le(data.subrange(width * i, width * i + width)) as int
}

/// A stored number as a signed one: the upper half of the range, from `half`
/// on, stands for the negative numbers.
pub open spec fn signed_at(data: Seq<u8>, width: int, half: int, i: int) -> int {
    let x = stored(data, width, i);
    if x < half {
        x
    } else {
        x - 2 * half
    }
}

/// The bitmap has the flag of each row.
pub open spec fn flagged(bitmap: Seq<u8>, flags: Seq<bool>) -> bool {
    forall|i: int| 0 <= i < flags.len() ==> #[trigger] flags[i] == valid_at(bitmap, i)
}

/// The data holds these unsigned numbers, each in `width` bytes.
pub open spec fn holds(data: Seq<u8>, width: int, n: int, value: spec_fn(int) -> int) -> bool {
    &&& data.len() == width * n
    &&& forall|i: int| 0 <= i < n ==> #[trigger] stored(data, width, i) == value(i)
}

/// The data holds these signed numbers, each in `width` bytes.
pub open spec fn holds_signed(
    data: Seq<u8>,
    width: int,
    half: int,
    n: int,
    value: spec_fn(int) -> int,
) -> bool {
    &&& data.len() == width * n
    &&& forall|i: int| 0 <= i < n ==> #[trigger] signed_at(data, width, half, i) == value(i)
}

/// A run of encoded bit patterns holds them.
proof fn lemma_run_holds(items: Seq<u64>, width: nat, i: int)
    requires
        0 <= i < items.len(),
        width == 1 || width == 2 || width == 4 || width == 8,
        items[i] < radix(width),
    ensures
        le_all(nats64(items), width).len() == width * items.len(),
        stored(le_all(nats64(items), width), width as int, i) == items[i],
{
    runs_read_back(nats64(items), width, i);
    assert(i * width == width * i && (i + 1) * width == width * i + width && items.len() * width
        == width * items.len()) by (nonlinear_arith);
}

/// An empty run is empty.
proof fn lemma_empty_run(items: Seq<u64>, width: nat)
    requires
        items.len() == 0,
    ensures
        le_all(nats64(items), width).len() == width * items.len(),
{
    assert(width * 0 == 0) by (nonlinear_arith);
}

/// The powers of 256 that bound the widths.
proof fn lemma_radixes()
    ensures
        radix(1) == 0x100,
        radix(2) == 0x1_0000,
        radix(4) == 0x1_0000_0000,
        radix(8) == 0x1_0000_0000_0000_0000,
{
    reveal_with_fuel(radix, 9);
}

/// A negative number's bit pattern is the number plus the whole range.
proof fn lemma_signed_bits(a: i64, b: i32, c: i16, d: i8)
    by (bit_vector)
    ensures
        (a as u64) as i128 == a as i128 + (if a < 0 {
            0x1_0000_0000_0000_0000i128
        } else {
            0i128
        }),
        (b as u32 as u64) as i64 == b as i64 + (if b < 0 {
            0x1_0000_0000i64
        } else {
            0i64
        }),
        (c as u16 as u64) as i64 == c as i64 + (if c < 0 {
            0x1_0000i64
        } else {
            0i64
        }),
        (d as u8 as u64) as i64 == d as i64 + (if d < 0 {
            0x100i64
        } else {
            0i64
        }),
{
}

/// Cutting to 32 bits is taking the remainder.
proof fn lemma_cut(v: u64)
    by (bit_vector)
    ensures
        (v as u32) as u64 == v % 0x1_0000_0000,
{
}

/// Signed 64-bit values are read back.
proof fn lemma_i64_back(values: Seq<i64>)
    ensures
        holds_signed(
            le_all(nats64(bits_i64(values)), 8),
            8,
            0x8000_0000_0000_0000,
            values.len() as int,
            |i: int| values[i] as int,
        ),
{
    lemma_radixes();
    let data = le_all(nats64(bits_i64(values)), 8);
    if values.len() == 0 {
        lemma_empty_run(bits_i64(values), 8);
    } else {
        lemma_run_holds(bits_i64(values), 8, 0);
    }
    assert forall|i: int| 0 <= i < values.len() implies #[trigger] signed_at(
        data,
        8,
        0x8000_0000_0000_0000,
        i,
    ) == values[i] by {
        lemma_run_holds(bits_i64(values), 8, i);
        lemma_signed_bits(values[i], 0, 0, 0);
    }
}

/// Signed 32-bit values are read back.
proof fn lemma_i32_back(values: Seq<i32>)
    ensures
        holds_signed(
            le_all(nats64(bits_i32(values)), 4),
            4,
            0x8000_0000,
            values.len() as int,
            |i: int| values[i] as int,
        ),
{
    lemma_radixes();
    let data = le_all(nats64(bits_i32(values)), 4);
    if values.len() == 0 {
        lemma_empty_run(bits_i32(values), 4);
    } else {
        lemma_signed_bits(0, values[0], 0, 0);
        lemma_run_holds(bits_i32(values), 4, 0);
    }
    assert forall|i: int| 0 <= i < values.len() implies #[trigger] signed_at(
        data,
        4,
        0x8000_0000,
        i,
    ) == values[i] by {
        lemma_signed_bits(0, values[i], 0, 0);
        lemma_run_holds(bits_i32(values), 4, i);
    }
}

/// Signed 16-bit values are read back.
proof fn lemma_i16_back(values: Seq<i16>)
    ensures
        holds_signed(
            le_all(nats64(bits_i16(values)), 2),
            2,
            0x8000,
            values.len() as int,
            |i: int| values[i] as int,
        ),
{
    lemma_radixes();
    let data = le_all(nats64(bits_i16(values)), 2);
    if values.len() == 0 {
        lemma_empty_run(bits_i16(values), 2);
    } else {
        lemma_signed_bits(0, 0, values[0], 0);
        lemma_run_holds(bits_i16(values), 2, 0);
    }
    assert forall|i: int| 0 <= i < values.len() implies #[trigger] signed_at(data, 2, 0x8000, i)
        == values[i] by {
        lemma_signed_bits(0, 0, values[i], 0);
        lemma_run_holds(bits_i16(values), 2, i);
    }
}

/// Signed 8-bit values are read back.
proof fn lemma_i8_back(values: Seq<i8>)
    ensures
        holds_signed(
            le_all(nats64(bits_i8(values)), 1),
            1,
            0x80,
            values.len() as int,
            |i: int| values[i] as int,
        ),
{
    lemma_radixes();
    let data = le_all(nats64(bits_i8(values)), 1);
    if values.len() == 0 {
        lemma_empty_run(bits_i8(values), 1);
    } else {
        lemma_signed_bits(0, 0, 0, values[0]);
        lemma_run_holds(bits_i8(values), 1, 0);
    }
    assert forall|i: int| 0 <= i < values.len() implies #[trigger] signed_at(data, 1, 0x80, i)
        == values[i] by {
        lemma_signed_bits(0, 0, 0, values[i]);
        lemma_run_holds(bits_i8(values), 1, i);
    }
}

/// Bit patterns that fit their width are read back.
proof fn lemma_bits_back(items: Seq<u64>, width: nat, value: spec_fn(int) -> int)
    requires
        width == 1 || width == 2 || width == 4 || width == 8,
        forall|i: int| 0 <= i < items.len() ==> #[trigger] items[i] < radix(width),
        forall|i: int| 0 <= i < items.len() ==> #[trigger] items[i] == value(i),
    ensures
        holds(le_all(nats64(items), width), width as int, items.len() as int, value),
{
    let data = le_all(nats64(items), width);
    if items.len() == 0 {
        lemma_empty_run(items, width);
    } else {
        lemma_run_holds(items, width, 0);
    }
    assert forall|i: int| 0 <= i < items.len() implies #[trigger] stored(data, width as int, i)
        == value(i) by {
        lemma_run_holds(items, width, i);
    }
}

/// The encoded column gives its decoded values back: their tag names their
/// type, the data holds each value at its place, and the bitmap has each row's
/// flag.
pub open spec fn gives_back_key(d: DecodedColumn, e: Encoded) -> bool {
    match d {
        DecodedColumn::I64 { values, valid } => e.tag@ == "I64"@ && flagged(e.valid@, valid@)
            && holds_signed(
            e.data@,
            8,
            0x8000_0000_0000_0000,
            values@.len() as int,
            |i: int| values@[i] as int,
        ),
        DecodedColumn::F64 { values, valid } => e.tag@ == "F64"@ && flagged(e.valid@, valid@)
            && holds(e.data@, 8, values@.len() as int, |i: int| values@[i] as int),
        DecodedColumn::Bool { values, valid } => e.tag@ == "Bool"@ && flagged(e.valid@, valid@)
            && flagged(e.data@, values@),
        DecodedColumn::I32 { values, valid } => e.tag@ == "I32"@ && flagged(e.valid@, valid@)
            && holds_signed(
            e.data@,
            4,
            0x8000_0000,
            values@.len() as int,
            |i: int| values@[i] as int,
        ),
        DecodedColumn::F32 { values, valid } => e.tag@ == "F32"@ && flagged(e.valid@, valid@)
            && holds(e.data@, 4, values@.len() as int, |i: int| values@[i] as int),
        DecodedColumn::I8 { values, valid } => e.tag@ == "I8"@ && flagged(e.valid@, valid@)
            && holds_signed(e.data@, 1, 0x80, values@.len() as int, |i: int| values@[i] as int),
        DecodedColumn::I16 { values, valid } => e.tag@ == "I16"@ && flagged(e.valid@, valid@)
            && holds_signed(e.data@, 2, 0x8000, values@.len() as int, |i: int| values@[i] as int),
        DecodedColumn::U8 { values, valid } => e.tag@ == "U8"@ && flagged(e.valid@, valid@)
            && holds(e.data@, 1, values@.len() as int, |i: int| values@[i] as int),
        DecodedColumn::U16 { values, valid } => e.tag@ == "U16"@ && flagged(e.valid@, valid@)
            && holds(e.data@, 2, values@.len() as int, |i: int| values@[i] as int),
        DecodedColumn::U32 { values, valid } => e.tag@ == "U32"@ && flagged(e.valid@, valid@)
            && holds(e.data@, 4, values@.len() as int, |i: int| values@[i] as int),
        DecodedColumn::Utf8 { values, valid } => e.tag@ == "Utf8"@ && flagged(e.valid@, valid@)
            && e.data@ == packed_utf8(values@, valid@),
    }
}

/// Reading an encoded key column gives back what was encoded.
pub proof fn key_columns_read_back(d: DecodedColumn, e: Encoded)
    requires
        key_encoding(d, e),
    ensures
        gives_back_key(d, e),
{
    lemma_radixes();
    match d {
        DecodedColumn::I64 { values, valid } => {
            lemma_i64_back(values@);
        },
        DecodedColumn::F64 { values, valid } => {
            lemma_bits_back(values@, 8, |i: int| values@[i] as int);
        },
        DecodedColumn::Bool { values, valid } => {},
        DecodedColumn::I32 { values, valid } => {
            lemma_i32_back(values@);
        },
        DecodedColumn::F32 { values, valid } => {
            lemma_bits_back(bits_u32(values@), 4, |i: int| values@[i] as int);
        },
        DecodedColumn::I8 { values, valid } => {
            lemma_i8_back(values@);
        },
        DecodedColumn::I16 { values, valid } => {
            lemma_i16_back(values@);
        },
        DecodedColumn::U8 { values, valid } => {
            lemma_bits_back(bits_u8(values@), 1, |i: int| values@[i] as int);
        },
        DecodedColumn::U16 { values, valid } => {
            lemma_bits_back(bits_u16(values@), 2, |i: int| values@[i] as int);
        },
        DecodedColumn::U32 { values, valid } => {
            lemma_bits_back(bits_u32(values@), 4, |i: int| values@[i] as int);
        },
        DecodedColumn::Utf8 { values, valid } => {},
    }
}

/// The encoded column gives its aggregated values back. Counts come back as
/// their remainders by the 32-bit range, and every row of counts is valid.
pub open spec fn gives_back_agg(o: AggOutput, e: Encoded) -> bool {
    match o {
        AggOutput::I64 { values, valid } => e.tag@ == "I64"@ && flagged(e.valid@, valid@)
            && holds_signed(
            e.data@,
            8,
            0x8000_0000_0000_0000,
            values@.len() as int,
            |i: int| values@[i] as int,
        ),
        AggOutput::F64 { values, valid } => e.tag@ == "F64"@ && flagged(e.valid@, valid@) && holds(
            e.data@,
            8,
            values@.len() as int,
            |i: int| values@[i] as int,
        ),
        AggOutput::U64 { values } => e.tag@ == "U32"@ && flagged(
            e.valid@,
            Seq::new(values@.len(), |i: int| true),
        ) && holds(
            e.data@,
            4,
            values@.len() as int,
            |i: int| values@[i] as int % 0x1_0000_0000,
        ),
        AggOutput::I32 { values, valid } => e.tag@ == "I32"@ && flagged(e.valid@, valid@)
            && holds_signed(
            e.data@,
            4,
            0x8000_0000,
            values@.len() as int,
            |i: int| values@[i] as int,
        ),
        AggOutput::F32 { values, valid } => e.tag@ == "F32"@ && flagged(e.valid@, valid@) && holds(
            e.data@,
            4,
            values@.len() as int,
            |i: int| values@[i] as int,
        ),
    }
}

/// Every bit of a full byte is set.
proof fn lemma_full_bit(i: u8)
    by (bit_vector)
    requires
        i < 8,
    ensures
        (0xffu8 >> i) & 1 == 1,
{
}

/// Reading an encoded aggregation gives back what was encoded.
pub proof fn agg_columns_read_back(o: AggOutput, e: Encoded)
    requires
        agg_encoding(o, e),
    ensures
        gives_back_agg(o, e),
{
    lemma_radixes();
    match o {
        AggOutput::I64 { values, valid } => {
            lemma_i64_back(values@);
        },
        AggOutput::F64 { values, valid } => {
            lemma_bits_back(values@, 8, |i: int| values@[i] as int);
        },
        AggOutput::U64 { values } => {
            assert forall|i: int| 0 <= i < values@.len() implies #[trigger] bits_count(values@)[i]
                == values@[i] as int % 0x1_0000_0000 by {
                lemma_cut(values@[i]);
            }
            lemma_bits_back(bits_count(values@), 4, |i: int| values@[i] as int % 0x1_0000_0000);
            bitmaps_are_as_long_as_needed(values@.len());
            assert forall|i: int| 0 <= i < values@.len() implies valid_at(e.valid@, i) by {
                lemma_full_bit((i % 8) as u8);
                bytes_hold_eight_rows(e.valid@, i / 8, i % 8);
            }
        },
        AggOutput::I32 { values, valid } => {
            lemma_i32_back(values@);
        },
        AggOutput::F32 { values, valid } => {
            lemma_bits_back(bits_u32(values@), 4, |i: int| values@[i] as int);
        },
    }
}

/// An answer names the keys and then the aggregations, in the order of the
/// plan, and each column gives back the values that it was made from.
pub proof fn answers_list_keys_and_aggregations(
    plan: ParsedGroupByPlan,
    decoded_keys: Seq<DecodedColumn>,
    agg_outputs: Seq<AggOutput>,
    out: Seq<OutputColumn>,
    i: int,
)
    requires
        is_answer(plan, decoded_keys, agg_outputs, out),
        0 <= i < out.len(),
    ensures
        out.len() == plan.keys@.len() + plan.aggs@.len(),
        i < plan.keys@.len() ==> out[i].name@ == plan.keys@[i].name@ && gives_back_key(
            decoded_keys[i],
            out[i].encoded,
        ),
        i >= plan.keys@.len() ==> {
            let j = i - plan.keys@.len();
            &&& out[i].name@ == (match plan.aggs@[j] {
                ParsedAgg::Simple { input_col, op, output_alias } => output_alias@,
                ParsedAgg::Expression { expr, op, output_alias } => output_alias@,
                ParsedAgg::Length { output_alias } => output_alias@,
            })
            &&& gives_back_agg(agg_outputs[j], out[i].encoded)
        },
{
    if i < plan.keys@.len() {
        key_columns_read_back(decoded_keys[i], out[i].encoded);
    } else {
        agg_columns_read_back(agg_outputs[i - plan.keys@.len()], out[i].encoded);
    }
}

/// A group-by goes forward: it is encoded exactly when a kernel is done. The
/// kernels are chosen at the start; only too many groups lead from the fused
/// kernel to one kernel per aggregation, and only if each aggregation has one.
/// A kernel's failure ends the run with the kernel's own text.
pub proof fn group_bys_go_forward(
    run: GroupByRun,
    event: GroupByEvent,
    r: Result<GroupByAction, Fault>,
)
    requires
        step_outcome(run, event, r),
    ensures
        (r matches Ok(a) && a is Encode) <==> event is PerAgg || event == GroupByEvent::Fused(
            FusedOutcome::Done,
        ),
        r matches Ok(a) && a is DispatchFused ==> event is Ready && takes_fused(
            run.columns@,
            run.plan.aggs@,
        ),
        event is Ready && !takes_fused(run.columns@, run.plan.aggs@) ==> ((r matches Ok(a)
            && a is DispatchPerAgg) <==> forall|i: int|
            0 <= i < run.plan.aggs@.len() ==> servable(
                run.columns@,
                #[trigger] run.plan.aggs@[i],
                run.n_rows as nat,
            )),
        event matches GroupByEvent::Fused(FusedOutcome::TooManyGroups(_)) ==> ((r matches Ok(a)
            && a is DispatchPerAgg) <==> !has_expression(run.plan.aggs@) && forall|i: int|
            0 <= i < run.plan.aggs@.len() ==> servable(
                run.columns@,
                #[trigger] run.plan.aggs@[i],
                run.n_rows as nat,
            )),
        r matches Ok(GroupByAction::DispatchPerAgg(v)) ==> v@.len() == run.plan.aggs@.len(),
        event matches GroupByEvent::Fused(FusedOutcome::Failed(text)) ==> (r matches Err(
            Fault::Value(m),
        ) && m.skip(m.len() - text@.len()) == text@),
        event matches GroupByEvent::PerAggFailed(text) ==> (r matches Err(Fault::Value(m)) && m.skip(
            m.len() - text@.len(),
        ) == text@),
{
    requests_are_refused_for_what_cannot_be_served(
        run.columns@,
        run.plan.aggs@,
        run.n_rows as nat,
        run.plan.aggs@.len() as int,
    );
    match event {
        GroupByEvent::Fused(FusedOutcome::Failed(text)) => {
            let m = r->Err_0->Value_0;
            assert(m.skip(m.len() - text@.len()) =~= text@);
        },
        GroupByEvent::PerAggFailed(text) => {
            let m = r->Err_0->Value_0;
            assert(m.skip(m.len() - text@.len()) =~= text@);
        },
        _ => {},
    }
}

/// The fused kernel gets the value columns, in order, each by its own name and
/// with its own values; it is refused exactly when one of them has not 32 bits
/// or not a value for each row.
pub proof fn fused_dispatches_pass_the_value_columns<'a>(
    run: GroupByRun<'a>,
    cols: Seq<Column<'a>>,
    r: Result<GroupByAction<'a>, Fault>,
)
    requires
        step_outcome(run, GroupByEvent::Ready, r),
        takes_fused(run.columns@, run.plan.aggs@),
        run.value_columns() == Ok::<Seq<Column<'a>>, Fault>(cols),
    ensures
        r is Ok <==> forall|i: int|
            0 <= i < cols.len() ==> ((#[trigger] cols[i]).tag@ == "I32"@ || cols[i].tag@ == "F32"@)
                && cols[i].data@.len() >= 4 * run.n_rows,
        r matches Ok(a) ==> (a matches GroupByAction::DispatchFused(v) && v@.len() == cols.len()
            && forall|i: int|
            0 <= i < cols.len() ==> is_fused_column(cols[i], run.n_rows as nat, #[trigger] v@[i])),
{
    lemma_fused_columns(cols, run.n_rows as nat, cols.len() as int);
}

/// The columns pass without complaint when each does.
proof fn lemma_fused_columns(cols: Seq<Column>, rows: nat, n: int)
    requires
        0 <= n <= cols.len(),
    ensures
        fused_columns_fault(cols, rows, n) is None <==> forall|i: int|
            0 <= i < n ==> ((#[trigger] cols[i]).tag@ == "I32"@ || cols[i].tag@ == "F32"@)
                && cols[i].data@.len() >= 4 * rows,
    decreases n,
{
    if n > 0 {
        lemma_fused_columns(cols, rows, n - 1);
    }
}

/// A request that is ready holds what was received: the plan that was written,
/// the columns in order, and a key column for each key of the plan.
pub proof fn ready_runs_hold_the_request<'a>(
    plan: WireDict,
    columns: Seq<WireValue<'a>>,
    rows: usize,
    run: GroupByRun<'a>,
    i: int,
)
    requires
        ready(plan, columns, rows, run),
    ensures
        run.n_rows == rows,
        run.columns@.len() == columns.len(),
        0 <= i < columns.len() ==> (columns[i] matches WireValue::Tuple(t) && t@.len() == 4 && t@[0]
            == WireValue::Str(run.columns@[i].name) && t@[1] == WireValue::Str(run.columns@[i].tag)
            && t@[2] == WireValue::Bytes(run.columns@[i].data) && t@[3] == WireValue::Bytes(
            run.columns@[i].valid,
        )),
        run.keys@.len() == run.plan.keys@.len(),
        0 <= i < run.keys@.len() ==> is_key_column(
            run.columns@,
            run.plan.keys@[i],
            rows,
            run.keys@[i],
        ),
        run.value_columns() is Ok,
{
    requests_read_back(wording(), columns, columns.len() as int, run.columns@, i);
    if 0 <= i < columns.len() {
        columns_read_back(wording(), i, columns[i], run.columns@[i]);
    }
    key_columns_are_built_in_order(run.columns@, run.plan.keys@, rows, Ok(run.keys@));
}

/// Two readings of one plan have the same keys and read the same columns.
proof fn lemma_same_plans(d: WireDict, a: ParsedGroupByPlan, b: ParsedGroupByPlan, n: int)
    requires
        plan_outcome(d, Ok(a)),
        plan_outcome(d, Ok(b)),
        0 <= n <= a.aggs@.len(),
    ensures
        a.keys@ == b.keys@,
        a.aggs@.len() == b.aggs@.len(),
        all_inputs(a.aggs@, n) == all_inputs(b.aggs@, n),
    decreases n,
{
    let keys = required_list(d, "keys"@)->Ok_0;
    assert(a.keys@ =~= b.keys@) by {
        assert forall|i: int| 0 <= i < keys.len() implies a.keys@[i] == b.keys@[i] by {
            assert(key_of(keys[i]) == Ok::<ParsedKey, ParseFault>(a.keys@[i]));
        }
    }
    if n > 0 {
        lemma_same_plans(d, a, b, n - 1);
        let item = required_list(d, "aggs"@)->Ok_0[n - 1];
        let x = a.aggs@[n - 1];
        let y = b.aggs@[n - 1];
        assert(agg_matches(item, Ok(x)));
        assert(agg_matches(item, Ok(y)));
        assert(x.inputs() =~= y.inputs());
    }
}

/// No request is both ready and refused.
pub proof fn ready_requests_are_not_refused<'a>(
    plan: WireDict,
    columns: Seq<WireValue<'a>>,
    rows: usize,
    run: GroupByRun<'a>,
    e: Fault,
)
    ensures
        !(ready(plan, columns, rows, run) && refused(plan, columns, rows, e)),
{
    if ready(plan, columns, rows, run) && refused(plan, columns, rows, e) {
        let cols = run.columns@;
        if exists|f: ParseFault| #[trigger]
            plan_refused(plan, f) && e == Fault::Value(
                "polars_metal: plan parse error: "@ + f.message(),
            ) {
            let f = choose|f: ParseFault| #[trigger]
                plan_refused(plan, f) && e == Fault::Value(
                    "polars_metal: plan parse error: "@ + f.message(),
                );
            let keys = required_list(plan, "keys"@)->Ok_0;
            let aggs = required_list(plan, "aggs"@)->Ok_0;
            if keys_accepted(keys) {
                let i = choose|i: int| first_bad_agg(aggs, i, f);
                assert(agg_matches(aggs[i], Ok(run.plan.aggs@[i])));
            }
        } else {
            let p = choose|p: ParsedGroupByPlan| #[trigger]
                plan_outcome(plan, Ok(p)) && request_refused(p, columns, rows, e);
            lemma_same_plans(plan, p, run.plan, p.aggs@.len() as int);
            key_columns_are_built_in_order(cols, run.plan.keys@, rows, Ok(run.keys@));
            if keys_refused(cols, p.keys@, rows, e) {
                key_columns_are_built_in_order(
                    cols,
                    p.keys@,
                    rows,
                    Err::<Seq<KeyColumn<'a>>, Fault>(e),
                );
            }
        }
    }
}

} // verus!
