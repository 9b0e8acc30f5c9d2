//! What complaints tell: the names and numbers in a message stand in a fixed
//! order, and what kind of failure a complaint is goes with what is wrong.

use vstd::prelude::*;

use crate::bytes::u32_at;
use crate::error::{BufferError, EngineError, Failure, Fault};
use crate::fft::stream_fault;
use crate::fields::{required, required_dict, required_text};
use crate::fusion::py::op_fault;
use crate::fusion::subgraph::{unreadable, BuildError, BuildFault, MlxDtype};
use crate::fusion::supported_ops::OpId;
use crate::plan::{AggOp, MetalDtype, PlanShape};
use crate::text::{decimal, first_seen, prefixed_hex, quoted, signed_decimal};
use crate::udf::common::{named, shortfall_text, Column, ColumnWording};
use crate::udf::compact::{buffer_fault, uncompactable};
use crate::udf::fused_expr::{build_fault, eval_fault};
use crate::udf::groupby_agg::{
    all_inputs, inputs_found, missing_input, short_values, unsupported_agg, value_columns_of,
};
use crate::udf::groupby_keys::{key_fault, missing_key, packed_shape_fault};
use crate::udf::groupby_plan::{GroupByParseError, ParseFault, ParsedAgg, ParsedKey};
use crate::udf::predicate::{parsed_compare_op, parsed_dtype, selections};
use crate::wire::WireDict;

verus! {

/// The part stands in the text at this place.
pub open spec fn told_at(text: Seq<char>, part: Seq<char>, at: int) -> bool {
    &&& 0 <= at
    &&& at + part.len() <= text.len()
    &&& text.subrange(at, at + part.len()) == part
}

/// The parts stand in the text, one after the other.
pub open spec fn tells(text: Seq<char>, parts: Seq<Seq<char>>) -> bool
    decreases parts.len(),
{
    parts.len() == 0 || exists|at: int| #[trigger]
        told_at(text, parts[0], at) && tells(text.skip(at + parts[0].len()), parts.drop_first())
}

/// A part before a text that tells the other parts.
proof fn lemma_told(lead: Seq<char>, part: Seq<char>, rest: Seq<char>, parts: Seq<Seq<char>>)
    requires
        parts.len() > 0,
        parts[0] == part,
        tells(rest, parts.drop_first()),
    ensures
        tells(lead + part + rest, parts),
{
    let text = lead + part + rest;
    let at = lead.len() as int;
    assert(text.subrange(at, at + part.len()) =~= part);
    assert(text.skip(at + part.len()) =~= rest);
    assert(told_at(text, parts[0], at));
}

/// A text tells what stands between its beginning and its end.
pub proof fn tells_what_is_between(a: Seq<char>, p: Seq<char>, z: Seq<char>)
    ensures
        tells(a + p + z, seq![p]),
{
    lemma_told(a, p, z, seq![p]);
}

proof fn lemma_tells_two(a: Seq<char>, p: Seq<char>, b: Seq<char>, q: Seq<char>, z: Seq<char>)
    ensures
        tells(a + p + b + q + z, seq![p, q]),
{
    tells_what_is_between(b, q, z);
    assert(seq![p, q].drop_first() =~= seq![q]);
    lemma_told(a, p, b + q + z, seq![p, q]);
    assert(a + p + b + q + z =~= a + p + (b + q + z));
}

proof fn lemma_tells_three(
    a: Seq<char>,
    p: Seq<char>,
    b: Seq<char>,
    q: Seq<char>,
    c: Seq<char>,
    r: Seq<char>,
    z: Seq<char>,
)
    ensures
        tells(a + p + b + q + c + r + z, seq![p, q, r]),
{
    lemma_tells_two(b, q, c, r, z);
    assert(seq![p, q, r].drop_first() =~= seq![q, r]);
    lemma_told(a, p, b + q + c + r + z, seq![p, q, r]);
    assert(a + p + b + q + c + r + z =~= a + p + (b + q + c + r + z));
}

proof fn lemma_tells_four(
    a: Seq<char>,
    p: Seq<char>,
    b: Seq<char>,
    q: Seq<char>,
    c: Seq<char>,
    r: Seq<char>,
    d: Seq<char>,
    s: Seq<char>,
    z: Seq<char>,
)
    ensures
        tells(a + p + b + q + c + r + d + s + z, seq![p, q, r, s]),
{
    lemma_tells_three(b, q, c, r, d, s, z);
    assert(seq![p, q, r, s].drop_first() =~= seq![q, r, s]);
    lemma_told(a, p, b + q + c + r + d + s + z, seq![p, q, r, s]);
    assert(a + p + b + q + c + r + d + s + z =~= a + p + (b + q + c + r + d + s + z));
}

/// Buffer errors tell the address, the length and the alignment wanted; the
/// length of a bitmap and the rows; or the bytes asked for.
pub proof fn buffer_errors_tell_their_fields(e: BufferError)
    ensures
        match e {
            BufferError::Alignment { ptr, len, required } => tells(
                e.text(),
                seq![prefixed_hex(ptr as nat), decimal(len as nat), decimal(required as nat)],
            ),
            BufferError::ValidityShape { bitmap_len, row_count } => tells(
                e.text(),
                seq![decimal(bitmap_len as nat), decimal(row_count as nat)],
            ),
            BufferError::AllocationFailed { bytes } => tells(
                e.text(),
                seq![decimal(bytes as nat)],
            ),
        },
{
    match e {
        BufferError::Alignment { ptr, len, required } => {
            let z = Seq::<char>::empty();
            lemma_tells_three(
                "alignment violation: pointer "@,
                prefixed_hex(ptr as nat),
                " length "@,
                decimal(len as nat),
                " required alignment "@,
                decimal(required as nat),
                z,
            );
            assert(e.text() + z =~= e.text());
        },
        BufferError::ValidityShape { bitmap_len, row_count } => {
            lemma_tells_two(
                "validity bitmap shape mismatch: bitmap len "@,
                decimal(bitmap_len as nat),
                " for "@,
                decimal(row_count as nat),
                " rows"@,
            );
        },
        BufferError::AllocationFailed { bytes } => {
            tells_what_is_between(
                "MTLBuffer allocation failed (requested "@,
                decimal(bytes as nat),
                " bytes)"@,
            );
        },
    }
}

/// An engine error tells what went wrong inside.
pub proof fn engine_errors_tell_their_cause(e: EngineError)
    ensures
        match e {
            EngineError::Buffer(b) => tells(e.text(), seq![b.text()]),
            EngineError::Ffi(s) => tells(e.text(), seq![s@]),
            EngineError::Other(s) => tells(e.text(), seq![s@]),
        },
{
    let z = Seq::<char>::empty();
    assert(e.text() + z =~= e.text());
    match e {
        EngineError::Buffer(b) => {
            tells_what_is_between("buffer: "@, b.text(), z);
        },
        EngineError::Ffi(s) => {
            tells_what_is_between("ffi: "@, s@, z);
        },
        EngineError::Other(s) => {
            tells_what_is_between("engine: "@, s@, z);
        },
    }
}

/// A complaint about a short buffer tells what it is, how long it is, how long
/// it has to be, and for how many rows; one about a column to be compacted also
/// its name.
pub proof fn shortfalls_tell_what_is_there_and_what_is_needed(
    noun: Seq<char>,
    name: Seq<char>,
    got: nat,
    expected: nat,
    rows: nat,
    tail: Seq<char>,
)
    ensures
        tells(
            shortfall_text(noun, got, expected, rows),
            seq![noun, decimal(got), decimal(expected), decimal(rows)],
        ),
        buffer_fault(name, noun, got, expected, tail) matches Fault::Value(m) && tells(
            m,
            seq![quoted(name), noun, decimal(got), decimal(expected)],
        ) && m.skip(m.len() - tail.len()) == tail,
{
    lemma_tells_four(
        "polars_metal: "@,
        noun,
        " is "@,
        decimal(got),
        " B, need at least "@,
        decimal(expected),
        " B for "@,
        decimal(rows),
        " rows"@,
    );
    let m = buffer_fault(name, noun, got, expected, tail)->Value_0;
    lemma_tells_four(
        "polars_metal: column "@,
        quoted(name),
        Seq::empty(),
        noun,
        " is "@,
        decimal(got),
        " B, need "@,
        decimal(expected),
        " B"@ + tail,
    );
    assert(m =~= "polars_metal: column "@ + quoted(name) + Seq::empty() + noun + " is "@ + decimal(
        got,
    ) + " B, need "@ + decimal(expected) + (" B"@ + tail));
    assert(m.skip(m.len() - tail.len()) =~= tail);
}

/// A complaint about a stream tells which, how long it is and how long it was
/// declared.
pub proof fn stream_faults_tell_both_lengths(lead: Seq<char>, len: nat, n: i64)
    ensures
        stream_fault(lead, len, n) matches Fault::Value(m) && tells(
            m,
            seq![lead, decimal(len), signed_decimal(n as int)],
        ),
{
    let z = Seq::<char>::empty();
    let m = stream_fault(lead, len, n)->Value_0;
    lemma_tells_three(z, lead, z, decimal(len), " != n "@, signed_decimal(n as int), z);
    assert(m =~= z + lead + z + decimal(len) + " != n "@ + signed_decimal(n as int) + z);
}

/// Complaints about building a subgraph tell the operation, the number expected
/// before the number there is, the node, the type, or the library's words.
pub proof fn build_faults_tell_their_fields(f: BuildFault)
    ensures
        match f {
            BuildFault::InputCountMismatch { expected, actual } => tells(
                f.text(),
                seq![decimal(expected as nat), decimal(actual as nat)],
            ),
            BuildFault::UndefinedNode(n) => tells(f.text(), seq![decimal(n as nat)]),
            BuildFault::MlxError(s) => tells(f.text(), seq![s]),
            BuildFault::UnsupportedOp(op) => tells(f.text(), seq![op.label()]),
            BuildFault::ArgCountMismatch { op, expected, actual } => tells(
                f.text(),
                seq![op.label(), decimal(expected as nat), decimal(actual as nat)],
            ),
            BuildFault::UnsupportedInputDtype(s) => tells(f.text(), seq![s]),
        },
        build_fault(f) matches Fault::Value(m) && tells(m, seq![f.text()]),
        eval_fault(f) matches Fault::Runtime(m) && tells(m, seq![f.text()]),
{
    let z = Seq::<char>::empty();
    assert(f.text() + z =~= f.text());
    match f {
        BuildFault::InputCountMismatch { expected, actual } => {
            lemma_tells_two(
                "scope expected "@,
                decimal(expected as nat),
                " inputs, got "@,
                decimal(actual as nat),
                z,
            );
        },
        BuildFault::UndefinedNode(n) => {
            tells_what_is_between("scope references undefined node index "@, decimal(n as nat), z);
        },
        BuildFault::MlxError(s) => {
            tells_what_is_between("MLX FFI error: "@, s, z);
        },
        BuildFault::UnsupportedOp(op) => {
            tells_what_is_between("op "@, op.label(), " not yet supported by the subgraph builder"@);
        },
        BuildFault::ArgCountMismatch { op, expected, actual } => {
            lemma_tells_three(
                "op "@,
                op.label(),
                " expected "@,
                decimal(expected as nat),
                " arg(s), got "@,
                decimal(actual as nat),
                z,
            );
        },
        BuildFault::UnsupportedInputDtype(s) => {
            tells_what_is_between("unsupported input dtype for buffer path: "@, s, z);
        },
    }
    let b = build_fault(f)->Value_0;
    let e = eval_fault(f)->Runtime_0;
    assert(b + z =~= b);
    assert(e + z =~= e);
    tells_what_is_between("polars_metal: subgraph build: "@, f.text(), z);
    tells_what_is_between("polars_metal: subgraph eval: "@, f.text(), z);
}

/// What cannot be read back is told by the name of its type.
pub proof fn unreadable_types_are_told(d: MlxDtype)
    ensures
        unreadable(d) matches BuildFault::UnsupportedInputDtype(s) && tells(s, seq![d.label()]),
{
    let z = Seq::<char>::empty();
    let s = unreadable(d)->UnsupportedInputDtype_0;
    tells_what_is_between("output "@, d.label(), z);
    assert(s + z =~= s);
}

/// A complaint about an operation's arguments tells its name, how many it takes
/// and how many it was given.
pub proof fn arity_faults_tell_both_numbers(op: OpId, name: Seq<char>, args: usize)
    ensures
        op_fault(Some(op), name, args) matches Some(f) ==> (f matches Fault::Value(m) && tells(
            m,
            seq![name, decimal(op.entry().n_args as nat), decimal(args as nat)],
        )),
{
    let z = Seq::<char>::empty();
    if op_fault(Some(op), name, args) is Some {
        let m = op_fault(Some(op), name, args)->Some_0->Value_0;
        lemma_tells_three(
            z,
            name,
            " expects "@,
            decimal(op.arity() as nat),
            " args, got "@,
            decimal(args as nat),
            z,
        );
        assert(m =~= z + name + " expects "@ + decimal(op.arity() as nat) + " args, got "@
            + decimal(args as nat) + z);
    }
}

/// A complaint about an aggregation tells its operator and its type, or its
/// type, how many bytes there are and how many are needed.
pub proof fn aggregation_faults_tell_what_is_wrong(
    op: AggOp,
    tag: Seq<char>,
    got: nat,
    expected: nat,
)
    ensures
        unsupported_agg(op, tag) matches Fault::Value(m) && tells(m, seq![op.tag(), tag]),
        short_values(tag, got, expected) matches Fault::Value(m) && tells(
            m,
            seq![tag, decimal(got), decimal(expected)],
        ),
{
    let z = Seq::<char>::empty();
    let m = unsupported_agg(op, tag)->Value_0;
    let n = short_values(tag, got, expected)->Value_0;
    lemma_tells_two(
        "polars_metal: unsupported (agg_op, dtype) combination: "@,
        op.tag(),
        " / "@,
        tag,
        z,
    );
    assert(m + z =~= m);
    lemma_tells_three(
        "polars_metal: "@,
        tag,
        " value buffer too short: "@,
        decimal(got),
        " < "@,
        decimal(expected),
        z,
    );
    assert(n + z =~= n);
}

/// A key or an input that is not among the columns is a key fault that tells
/// its name.
pub proof fn missing_columns_are_key_faults(
    cols: Seq<Column>,
    key: ParsedKey,
    aggs: Seq<ParsedAgg>,
    rows: nat,
    name: Seq<char>,
)
    ensures
        named(cols, key.name@) is None ==> (key_fault(cols, key, rows) matches Some(Fault::Key(m))
            && tells(m, seq![quoted(key.name@)])),
        missing_input(name) matches Fault::Key(m) && tells(m, seq![quoted(name)]),
        value_columns_of(cols, aggs) matches Err(f) ==> f is Key,
{
    tells_what_is_between(
        "polars_metal: key column "@,
        quoted(key.name@),
        " not found in upstream columns"@,
    );
    tells_what_is_between(
        "polars_metal: agg input column "@,
        quoted(name),
        " not found in upstream columns"@,
    );
    assert(missing_key(key.name@) is Key);
    let names = first_seen(all_inputs(aggs, aggs.len() as int));
    lemma_missing_is_key(cols, names, names.len() as int);
}

proof fn lemma_missing_is_key(cols: Seq<Column>, names: Seq<Seq<char>>, n: int)
    ensures
        inputs_found(cols, names, n) matches Err(f) ==> f is Key,
    decreases n,
{
    if n > 0 {
        lemma_missing_is_key(cols, names, n - 1);
    }
}

/// A complaint about a column tuple tells its position.
pub proof fn column_faults_tell_the_position(w: ColumnWording, idx: int, tail: Seq<char>)
    ensures
        w.complaint(idx, tail) matches Fault::Value(m) && tells(
            m,
            seq![w.lead@, decimal(idx as nat), tail],
        ),
{
    let z = Seq::<char>::empty();
    let m = w.complaint(idx, tail)->Value_0;
    lemma_tells_three(z, w.lead@, "columns["@, decimal(idx as nat), "]"@, tail, z);
    assert(m =~= z + w.lead@ + "columns["@ + decimal(idx as nat) + "]"@ + tail + z);
}

/// A parse fault tells the field or the name that it is about.
pub proof fn parse_faults_tell_their_field(f: ParseFault)
    ensures
        match f {
            ParseFault::Missing(s) => tells(f.message(), seq![s]),
            ParseFault::WrongType(s) => tells(f.message(), seq![s]),
            ParseFault::UnknownDtype(s) => tells(f.message(), seq![s]),
            ParseFault::UnknownOp(s) => tells(f.message(), seq![s]),
        },
{
    let z = Seq::<char>::empty();
    assert(f.message() + z =~= f.message());
    match f {
        ParseFault::Missing(s) => {
            tells_what_is_between("missing required field: "@, s, z);
        },
        ParseFault::WrongType(s) => {
            tells_what_is_between("wrong type for field: "@, s, z);
        },
        ParseFault::UnknownDtype(s) => {
            tells_what_is_between("unknown dtype: "@, s, z);
        },
        ParseFault::UnknownOp(s) => {
            tells_what_is_between("unknown agg op: "@, s, z);
        },
    }
}

/// A field that is absent is a key fault with the given complaint; one of
/// another type is a conversion fault.
pub proof fn absent_fields_are_key_faults(d: WireDict, key: Seq<char>, complaint: Seq<char>)
    ensures
        d.lookup(key) is None ==> (required(d, key, complaint) matches Err(Fault::Key(m)) && m
            == complaint),
        d.lookup(key) is None ==> (required_text(d, key, complaint) matches Err(Fault::Key(m)) && m
            == complaint),
        d.lookup(key) is None ==> (required_dict(d, key, complaint) matches Err(Fault::Key(m)) && m
            == complaint),
        d.lookup(key) matches Some(v) ==> required(d, key, complaint) is Ok,
        d.lookup(key) matches Some(v) ==> (required_text(d, key, complaint) matches Err(f) ==> f
            is Conversion && !(v is Str)),
        d.lookup(key) matches Some(v) ==> (required_dict(d, key, complaint) matches Err(f) ==> f
            is Conversion && !(v is Dict)),
{
}

/// Names that are not known are value faults that tell the name; what is known
/// and not done is not implemented.
pub proof fn unknown_names_are_value_faults(
    tag: Seq<char>,
    name: Seq<char>,
    dtype: MetalDtype,
    plan: PlanShape,
)
    ensures
        parsed_dtype(tag) matches Err(f) ==> (f matches Fault::Value(m) && tells(m, seq![quoted(tag)])),
        parsed_compare_op(tag) matches Err(f) ==> (f matches Fault::Value(m) && tells(
            m,
            seq![quoted(tag)],
        )),
        uncompactable(name, dtype) matches Fault::NotImplemented(m) && tells(m, seq![quoted(name)]),
        plan is Filter || plan is GroupBy ==> (selections(plan) matches Err(f) && f
            is NotImplemented),
{
    let z = Seq::<char>::empty();
    let a = "polars_metal: unknown MetalDtype tag "@ + quoted(tag);
    let b = "polars_metal: unknown CompareOp tag "@ + quoted(tag);
    assert(a + z =~= a);
    assert(b + z =~= b);
    tells_what_is_between("polars_metal: unknown MetalDtype tag "@, quoted(tag), z);
    tells_what_is_between("polars_metal: unknown CompareOp tag "@, quoted(tag), z);
    tells_what_is_between(
        "polars_metal: filter compaction for "@,
        quoted(name),
        " (I32/F32) not yet implemented"@,
    );
    tells_what_is_between("polars_metal: filter on Utf8 columns ("@, quoted(name), "): not yet wired"@);
    let rest = " ("@ + dtype.tag() + ") not supported; filter should route CPU"@;
    tells_what_is_between("polars_metal: filter compaction for "@, quoted(name), rest);
    let m = uncompactable(name, dtype)->NotImplemented_0;
    match dtype {
        MetalDtype::I32 | MetalDtype::F32 | MetalDtype::Utf8 => {},
        _ => {
            assert(m =~= "polars_metal: filter compaction for "@ + quoted(name) + rest);
        },
    }
}

/// A complaint about the shape of a packed column is a value fault, and tells
/// the number of rows it says it has before the number it should have.
pub proof fn packed_columns_tell_both_row_counts(
    name: Seq<char>,
    data: Seq<u8>,
    valid: Seq<u8>,
    rows: nat,
)
    ensures
        packed_shape_fault(name, data, valid, rows) matches Some(f) ==> f is Value,
        data.len() >= 4 && u32_at(data, 0) != rows ==> (packed_shape_fault(
            name,
            data,
            valid,
            rows,
        ) matches Some(Fault::Value(m)) && tells(
            m,
            seq![quoted(name), decimal(u32_at(data, 0) as nat), decimal(rows)],
        )),
{
    let z = Seq::<char>::empty();
    if data.len() >= 4 && u32_at(data, 0) != rows {
        let n = decimal(u32_at(data, 0) as nat);
        let m = packed_shape_fault(name, data, valid, rows)->Some_0->Value_0;
        lemma_tells_three(
            "polars_metal: Utf8 column "@,
            quoted(name),
            " wire n_rows="@,
            n,
            " disagrees with column n_rows="@,
            decimal(rows),
            z,
        );
        assert(m =~= "polars_metal: Utf8 column "@ + quoted(name) + " wire n_rows="@ + n
            + " disagrees with column n_rows="@ + decimal(rows) + z);
    }
}

/// A failure is seen as what it is: its kind and its words.
pub proof fn failures_are_seen_as_they_are(f: Failure)
    ensures
        f matches Failure::Key(s) ==> f@ is Key && f@->Key_0 == s@,
        f matches Failure::Value(s) ==> f@ is Value && f@->Value_0 == s@,
        f matches Failure::Type(s) ==> f@ is Type && f@->Type_0 == s@,
        f matches Failure::NotImplemented(s) ==> f@ is NotImplemented && f@->NotImplemented_0 == s@,
        f matches Failure::Runtime(s) ==> f@ is Runtime && f@->Runtime_0 == s@,
        f matches Failure::Conversion(c) ==> f@ is Conversion && f@->Conversion_0 == c,
{
}

/// A parse error is seen as what it is.
pub proof fn parse_errors_are_seen_as_they_are(e: GroupByParseError)
    ensures
        e matches GroupByParseError::Missing(s) ==> e@ is Missing && e@->Missing_0 == s@,
        e matches GroupByParseError::WrongType(s) ==> e@ is WrongType && e@->WrongType_0 == s@,
        e matches GroupByParseError::UnknownDtype(s) ==> e@ is UnknownDtype && e@->UnknownDtype_0
            == s@,
        e matches GroupByParseError::UnknownOp(s) ==> e@ is UnknownOp && e@->UnknownOp_0 == s@,
{
}

/// A build error is seen as what it is.
pub proof fn build_errors_are_seen_as_they_are(e: BuildError)
    ensures
        e matches BuildError::InputCountMismatch { expected, actual } ==> (e@
            matches BuildFault::InputCountMismatch { expected: x, actual: a } && x == expected && a
            == actual),
        e matches BuildError::UndefinedNode(n) ==> (e@ matches BuildFault::UndefinedNode(m) && m
            == n),
        e matches BuildError::MlxError(s) ==> (e@ matches BuildFault::MlxError(t) && t == s@),
        e matches BuildError::UnsupportedOp(op) ==> (e@ matches BuildFault::UnsupportedOp(o) && o
            == op),
        e matches BuildError::ArgCountMismatch { op, expected, actual } ==> (e@
            matches BuildFault::ArgCountMismatch { op: o, expected: x, actual: a } && o == op && x
            == expected && a == actual),
        e matches BuildError::UnsupportedInputDtype(s) ==> (e@
            matches BuildFault::UnsupportedInputDtype(t) && t == s@),
{
}

} // verus!
