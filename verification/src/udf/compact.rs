//! Filter compaction: the checks before the predicate is evaluated, what is to
//! be done for each surviving column, and the bytes that are handed back.

use vstd::prelude::*;

use crate::bytes::{from_le, radix};
use crate::error::{outcome, Failure, Fault};
use crate::null_bitmap;
use crate::null_bitmap::bytes_for;
use crate::plan::MetalDtype;
use crate::text;
use crate::text::{decimal, quoted};
use crate::udf::common::{
    bitpacked_fault, check_bitpacked_buffer, column_of, read_column, wide_product, Column,
    ColumnWording,
};
use crate::udf::groupby_encode::{encode_u64s, le_all, lemma_run_length, nats64};
use crate::udf::groupby_laws::runs_read_back;
use crate::udf::predicate::{parse_dtype, parsed_dtype};
use crate::wire::WireValue;

verus! {

/// How filter compaction words its complaints about column tuples.
pub open spec fn wording() -> ColumnWording {
    ColumnWording {
        lead: "polars_metal: ",
        not_tuple: " is not a tuple",
        arity: " expected 4 elements (name, dtype, data, valid), got ",
        names_column: true,
    }
}

/// Why the predicate's buffers are refused: its data before its validity.
pub open spec fn predicate_fault(data_len: nat, valid_len: nat, rows: nat) -> Option<Fault> {
    match bitpacked_fault("pred_data"@, data_len, rows) {
        Some(e) => Some(e),
        None => bitpacked_fault("pred_valid"@, valid_len, rows),
    }
}

/// Checks the bit-packed predicate of a filter.
pub fn check_predicate(pred_data: &[u8], pred_valid: &[u8], n_rows: usize) -> (r: Result<
    (),
    Failure,
>)
    ensures
        match r {
            Ok(_) => predicate_fault(pred_data@.len(), pred_valid@.len(), n_rows as nat) is None,
            Err(e) => predicate_fault(pred_data@.len(), pred_valid@.len(), n_rows as nat) == Some(
                e@,
            ),
        },
{
    match check_bitpacked_buffer(pred_data, n_rows, "pred_data") {
        Ok(_) => {},
        Err(e) => return Err(e),
    }
    check_bitpacked_buffer(pred_valid, n_rows, "pred_valid")
}

/// The kernels that move the surviving rows of a column together.
#[derive(Debug, Clone, Copy, PartialEq, Eq, Structural)]
pub enum CompactKernel {
    I64,
    F64,
    Bool,
}

/// What is to be done for a column.
pub enum CompactStep<'a> {
    /// No row survives: both buffers of the result are empty.
    Empty,
    /// A kernel moves the surviving rows. Numeric data is cut to the rows.
    Run { kernel: CompactKernel, name: String, data: &'a [u8], valid: &'a [u8] },
}

/// A complaint about a buffer of column `name`.
pub open spec fn buffer_fault(
    name: Seq<char>,
    noun: Seq<char>,
    got: nat,
    expected: nat,
    tail: Seq<char>,
) -> Fault {
    Fault::Value(
        "polars_metal: column "@ + quoted(name) + noun + " is "@ + decimal(got) + " B, need "@
            + decimal(expected) + " B"@ + tail,
    )
}

fn complain_buffer(name: &str, noun: &str, got: usize, expected: u128, tail: &str) -> (r: Failure)
    ensures
        r@ == buffer_fault(name@, noun@, got as nat, expected as nat, tail@),
{
    let mut out: String = "polars_metal: column ".to_owned();
    text::push_quoted(&mut out, name);
    out.append(noun);
    out.append(" is ");
    text::push_decimal(&mut out, got as u128);
    out.append(" B, need ");
    text::push_decimal(&mut out, expected);
    out.append(" B");
    out.append(tail);
    Failure::Value(out)
}

/// The failure for a type that filters do not compact.
pub open spec fn uncompactable(name: Seq<char>, dtype: MetalDtype) -> Fault {
    match dtype {
        MetalDtype::I32 | MetalDtype::F32 => Fault::NotImplemented(
            "polars_metal: filter compaction for "@ + quoted(name)
                + " (I32/F32) not yet implemented"@,
        ),
        MetalDtype::Utf8 => Fault::NotImplemented(
            "polars_metal: filter on Utf8 columns ("@ + quoted(name) + "): not yet wired"@,
        ),
        _ => Fault::NotImplemented(
            "polars_metal: filter compaction for "@ + quoted(name) + " ("@ + dtype.tag()
                + ") not supported; filter should route CPU"@,
        ),
    }
}

fn refuse_dtype(name: &str, dtype: MetalDtype) -> (r: Failure)
    ensures
        r@ == uncompactable(name@, dtype),
{
    match dtype {
        MetalDtype::I32 | MetalDtype::F32 => {
            let mut out: String = "polars_metal: filter compaction for ".to_owned();
            text::push_quoted(&mut out, name);
            out.append(" (I32/F32) not yet implemented");
            Failure::NotImplemented(out)
        },
        MetalDtype::Utf8 => {
            let mut out: String = "polars_metal: filter on Utf8 columns (".to_owned();
            text::push_quoted(&mut out, name);
            out.append("): not yet wired");
            Failure::NotImplemented(out)
        },
        _ => {
            let mut out: String = "polars_metal: filter compaction for ".to_owned();
            text::push_quoted(&mut out, name);
            out.append(" (");
            out.append(dtype.name());
            out.append(") not supported; filter should route CPU");
            Failure::NotImplemented(out)
        },
    }
}

/// The kernel for a type.
pub open spec fn kernel_of(dtype: MetalDtype) -> Option<CompactKernel> {
    match dtype {
        MetalDtype::I64 => Some(CompactKernel::I64),
        MetalDtype::F64 => Some(CompactKernel::F64),
        MetalDtype::Bool => Some(CompactKernel::Bool),
        _ => None,
    }
}

/// The number of data bytes that a kernel reads.
pub open spec fn kernel_bytes(kernel: CompactKernel, rows: nat) -> nat {
    match kernel {
        CompactKernel::I64 | CompactKernel::F64 => rows * 8,
        CompactKernel::Bool => bytes_for(rows as int) as nat,
    }
}

/// What a short data buffer of a kernel is called.
pub open spec fn data_noun(kernel: CompactKernel) -> Seq<char> {
    match kernel {
        CompactKernel::I64 => " (I64) data buffer"@,
        CompactKernel::F64 => " (F64) data buffer"@,
        CompactKernel::Bool => " (Bool) data buffer"@,
    }
}

/// Why a column is refused. The validity bitmap is looked at first; when no
/// row survives, nothing else is.
pub open spec fn compact_fault(
    name: Seq<char>,
    dtype: MetalDtype,
    rows: nat,
    data_len: nat,
    valid_len: nat,
    n_out: nat,
) -> Option<Fault> {
    if valid_len < bytes_for(rows as int) {
        Some(
            buffer_fault(
                name,
                " validity buffer"@,
                valid_len,
                bytes_for(rows as int) as nat,
                " for "@ + decimal(rows) + " rows"@,
            ),
        )
    } else if n_out == 0 {
        None
    } else {
        match kernel_of(dtype) {
            None => Some(uncompactable(name, dtype)),
            Some(k) => if data_len < kernel_bytes(k, rows) {
                Some(
                    buffer_fault(
                        name,
                        data_noun(k),
                        data_len,
                        kernel_bytes(k, rows),
                        Seq::empty(),
                    ),
                )
            } else {
                None
            },
        }
    }
}

/// The step for a column that is not refused.
pub open spec fn is_compact_step(
    name: String,
    dtype: MetalDtype,
    rows: nat,
    data: Seq<u8>,
    valid: Seq<u8>,
    n_out: nat,
    step: CompactStep,
) -> bool {
    if n_out == 0 {
        step is Empty
    } else {
        match step {
            CompactStep::Empty => false,
            CompactStep::Run { kernel, name: n, data: d, valid: v } => {
                &&& n == name
                &&& kernel_of(dtype) == Some(kernel)
                &&& v@ == valid
                &&& d@ == (if kernel == CompactKernel::Bool {
                    data
                } else {
                    data.take(kernel_bytes(kernel, rows) as int)
                })
            },
        }
    }
}

fn check_kernel_data(name: &str, noun: &str, got: usize, need: u128) -> (r: Result<(), Failure>)
    ensures
        match r {
            Ok(_) => got >= need,
            Err(e) => got < need && e@ == buffer_fault(
                name@,
                noun@,
                got as nat,
                need as nat,
                Seq::empty(),
            ),
        },
{
    if (got as u128) < need {
        proof {
            reveal_strlit("");
            assert(""@ =~= Seq::<char>::empty());
        }
        Err(complain_buffer(name, noun, got, need, ""))
    } else {
        Ok(())
    }
}

/// Decides what is done for one column once the number of surviving rows is
/// known.
pub fn compact_one_column<'a>(
    dtype: MetalDtype,
    n_rows: usize,
    src_data: &'a [u8],
    src_valid: &'a [u8],
    n_out: usize,
    name: String,
) -> (r: Result<CompactStep<'a>, Failure>)
    ensures
        match r {
            Ok(step) => compact_fault(
                name@,
                dtype,
                n_rows as nat,
                src_data@.len(),
                src_valid@.len(),
                n_out as nat,
            ) is None && is_compact_step(
                name,
                dtype,
                n_rows as nat,
                src_data@,
                src_valid@,
                n_out as nat,
                step,
            ),
            Err(e) => compact_fault(
                name@,
                dtype,
                n_rows as nat,
                src_data@.len(),
                src_valid@.len(),
                n_out as nat,
            ) == Some(e@),
        },
{
    let min_valid: usize = null_bitmap::validity_bytes(n_rows);
    if src_valid.len() < min_valid {
        let mut tail: String = " for ".to_owned();
        text::push_decimal(&mut tail, n_rows as u128);
        tail.append(" rows");
        return Err(
            complain_buffer(
                name.as_str(),
                " validity buffer",
                src_valid.len(),
                min_valid as u128,
                tail.as_str(),
            ),
        );
    }
    if n_out == 0 {
        return Ok(CompactStep::Empty);
    }
    let total: usize = src_data.len();
    match dtype {
        MetalDtype::I64 => {
            let need: u128 = wide_product(n_rows, 8);
            match check_kernel_data(name.as_str(), " (I64) data buffer", total, need) {
                Ok(_) => {},
                Err(e) => return Err(e),
            }
            let data: &'a [u8] = vstd::slice::slice_subrange(src_data, 0, n_rows * 8);
            assert(data@ =~= src_data@.take(n_rows * 8));
            Ok(CompactStep::Run { kernel: CompactKernel::I64, name, data, valid: src_valid })
        },
        MetalDtype::F64 => {
            let need: u128 = wide_product(n_rows, 8);
            match check_kernel_data(name.as_str(), " (F64) data buffer", total, need) {
                Ok(_) => {},
                Err(e) => return Err(e),
            }
            let data: &'a [u8] = vstd::slice::slice_subrange(src_data, 0, n_rows * 8);
            assert(data@ =~= src_data@.take(n_rows * 8));
            Ok(CompactStep::Run { kernel: CompactKernel::F64, name, data, valid: src_valid })
        },
        MetalDtype::Bool => {
            match check_kernel_data(
                name.as_str(),
                " (Bool) data buffer",
                total,
                min_valid as u128,
            ) {
                Ok(_) => {},
                Err(e) => return Err(e),
            }
            Ok(
                CompactStep::Run {
                    kernel: CompactKernel::Bool,
                    name,
                    data: src_data,
                    valid: src_valid,
                },
            )
        },
        _ => Err(refuse_dtype(name.as_str(), dtype)),
    }
}

/// Why the column entry at `idx` is refused.
pub open spec fn entry_fault(idx: int, entry: WireValue, rows: nat, n_out: nat) -> Option<Fault> {
    match column_of(wording(), idx, entry) {
        Err(e) => Some(e),
        Ok(c) => match parsed_dtype(c.tag@) {
            Err(e) => Some(e),
            Ok(dtype) => compact_fault(
                c.name@,
                dtype,
                rows,
                c.data@.len(),
                c.valid@.len(),
                n_out,
            ),
        },
    }
}

/// The step for the column entry at `idx`.
pub open spec fn is_entry_step(
    idx: int,
    entry: WireValue,
    rows: nat,
    n_out: nat,
    step: CompactStep,
) -> bool {
    column_of(wording(), idx, entry) matches Ok(c) && parsed_dtype(c.tag@) matches Ok(dtype)
        && is_compact_step(c.name, dtype, rows, c.data@, c.valid@, n_out, step)
}

/// Decides what is done for the column entry at `idx` of a filter request.
pub fn compact_entry<'a>(idx: usize, entry: &WireValue<'a>, n_rows: usize, n_out: usize) -> (r:
    Result<CompactStep<'a>, Failure>)
    ensures
        match r {
            Ok(step) => entry_fault(idx as int, *entry, n_rows as nat, n_out as nat) is None
                && is_entry_step(idx as int, *entry, n_rows as nat, n_out as nat, step),
            Err(e) => entry_fault(idx as int, *entry, n_rows as nat, n_out as nat) == Some(e@),
        },
{
    let w: ColumnWording = ColumnWording {
        lead: "polars_metal: ",
        not_tuple: " is not a tuple",
        arity: " expected 4 elements (name, dtype, data, valid), got ",
        names_column: true,
    };
    let c: Column<'a> = match read_column(&w, idx, entry) {
        Ok(c) => c,
        Err(e) => return Err(e),
    };
    let dtype: MetalDtype = match parse_dtype(c.tag.as_str()) {
        Ok(d) => d,
        Err(e) => return Err(e),
    };
    compact_one_column(dtype, n_rows, c.data, c.valid, n_out, c.name)
}

/// The bytes of the first `n_out` compacted values, given by their 64-bit
/// patterns.
pub fn compacted_bytes(values: &Vec<u64>, n_out: usize) -> (r: Vec<u8>)
    requires
        n_out <= values@.len(),
    ensures
        r@ == le_all(nats64(values@.take(n_out as int)), 8),
        r@.len() == 8 * n_out,
{
    let mut kept: Vec<u64> = Vec::new();
    let mut i: usize = 0;
    while i < n_out
        invariant
            i <= n_out <= values@.len(),
            kept@ =~= values@.take(i as int),
        decreases n_out - i,
    {
        kept.push(values[i]);
        i = i + 1;
    }
    proof {
        lemma_run_length(nats64(kept@), 8);
    }
    encode_u64s(&kept, 8)
}

/// The name under which a kernel's failure is reported.
pub open spec fn kernel_label(kernel: CompactKernel) -> Seq<char> {
    match kernel {
        CompactKernel::I64 => "compact_i64"@,
        CompactKernel::F64 => "compact_f64"@,
        CompactKernel::Bool => "compact_bool"@,
    }
}

/// The failure raised when a compaction kernel fails with the given text.
pub fn kernel_failure(kernel: CompactKernel, name: &str, why: &str) -> (r: Failure)
    ensures
        r@ == Fault::Runtime(
            "polars_metal: "@ + kernel_label(kernel) + "("@ + quoted(name@) + ") failed: "@ + why@,
        ),
{
    let mut out: String = "polars_metal: ".to_owned();
    match kernel {
        CompactKernel::I64 => {
            out.append("compact_i64");
        },
        CompactKernel::F64 => {
            out.append("compact_f64");
        },
        CompactKernel::Bool => {
            out.append("compact_bool");
        },
    }
    out.append("(");
    text::push_quoted(&mut out, name);
    out.append(") failed: ");
    out.append(why);
    Failure::Runtime(out)
}

/// A compacted column: its data and its validity.
pub struct Compacted {
    pub data: Vec<u8>,
    pub valid: Vec<u8>,
}

impl Compacted {
    /// Both buffers are empty.
    pub open spec fn is_empty(self) -> bool {
        self.data@.len() == 0 && self.valid@.len() == 0
    }
}

/// What a compaction kernel gives: the surviving values of a numeric column by
/// their 64-bit patterns, or the packed bits of a boolean one; and the validity
/// of the surviving rows.
#[derive(Debug)]
pub enum KernelOutput {
    Words { values: Vec<u64>, valid: Vec<u8> },
    Bits { data: Vec<u8>, valid: Vec<u8> },
}

/// The output is one of the kernel, with a value for each surviving row.
pub open spec fn output_of(kernel: CompactKernel, out: KernelOutput, n_out: nat) -> bool {
    match out {
        KernelOutput::Words { values, valid } => kernel != CompactKernel::Bool && n_out
            <= values@.len(),
        KernelOutput::Bits { data, valid } => kernel == CompactKernel::Bool,
    }
}

impl KernelOutput {
    /// Whether this is an output of the kernel with a value for each surviving
    /// row.
    pub fn is_from(&self, kernel: CompactKernel, n_out: usize) -> (r: bool)
        ensures
            r == output_of(kernel, *self, n_out as nat),
    {
        match self {
            KernelOutput::Words { values, valid } => kernel != CompactKernel::Bool && n_out
                <= values.len(),
            KernelOutput::Bits { data, valid } => kernel == CompactKernel::Bool,
        }
    }
}

/// The column that the output of a kernel makes: the bytes of the surviving
/// values, or the bits as they are.
pub open spec fn column_from(out: KernelOutput, n_out: nat, c: Compacted) -> bool {
    match out {
        KernelOutput::Words { values, valid } => c.valid@ == valid@ && c.data@ == le_all(
            nats64(values@.take(n_out as int)),
            8,
        ) && c.data@.len() == 8 * n_out,
        KernelOutput::Bits { data, valid } => c.valid@ == valid@ && c.data@ == data@,
    }
}

/// A column entry is not refused, and what came out of it has eight data bytes
/// for each surviving row if it is numeric, and nothing at all if no row
/// survives.
pub open spec fn comes_back(
    idx: int,
    entry: WireValue,
    rows: nat,
    n_out: nat,
    c: Compacted,
) -> bool {
    &&& entry_fault(idx, entry, rows, n_out) is None
    &&& column_of(wording(), idx, entry) matches Ok(col) && parsed_dtype(col.tag@) matches Ok(dtype)
        && (dtype == MetalDtype::I64 || dtype == MetalDtype::F64 ==> c.data@.len() == 8 * n_out)
    &&& n_out == 0 ==> c.is_empty()
}

/// Every column recorded so far came out of its entry.
pub open spec fn all_come_back(
    columns: Seq<WireValue>,
    rows: nat,
    n_out: nat,
    done: Seq<Compacted>,
) -> bool {
    &&& done.len() <= columns.len()
    &&& forall|i: int|
        0 <= i < done.len() ==> comes_back(i, columns[i], rows, n_out, #[trigger] done[i])
}

/// A filter whose predicate has been evaluated: the columns compacted so far,
/// in the order of the request.
pub struct FilterRun {
    pub n_rows: usize,
    pub n_out: usize,
    pub done: Vec<Compacted>,
}

/// What a filter asks for next.
pub enum FilterAction<'a> {
    /// The kernel to run for the next column.
    Compact { kernel: CompactKernel, name: String, data: &'a [u8], valid: &'a [u8] },
    /// Every column is compacted.
    Finish,
}

/// The columns from `from` to `to` come out empty.
pub open spec fn empty_between(
    columns: Seq<WireValue>,
    rows: nat,
    n_out: nat,
    from: int,
    to: int,
) -> bool {
    forall|i: int|
        from <= i < to ==> entry_fault(i, #[trigger] columns[i], rows, n_out) is None && n_out == 0
}

/// What a filter asks for with the columns up to `at` compacted.
pub open spec fn filter_outcome(
    columns: Seq<WireValue>,
    rows: nat,
    n_out: nat,
    at: int,
    r: Result<FilterAction, Fault>,
) -> bool {
    if at >= columns.len() {
        r matches Ok(a) && a is Finish
    } else {
        match entry_fault(at, columns[at], rows, n_out) {
            Some(e) => r == Err::<FilterAction, Fault>(e),
            None => n_out > 0 && match r {
                Ok(FilterAction::Compact { kernel, name, data, valid }) => is_entry_step(
                    at,
                    columns[at],
                    rows,
                    n_out,
                    CompactStep::Run { kernel, name, data, valid },
                ),
                _ => false,
            },
        }
    }
}

impl FilterRun {
    /// A filter of `n_rows` rows of which `n_out` survive.
    pub fn new(n_rows: usize, n_out: usize) -> (r: Self)
        ensures
            r.n_rows == n_rows,
            r.n_out == n_out,
            r.done@.len() == 0,
    {
        FilterRun { n_rows, n_out, done: Vec::new() }
    }

    /// Goes on to the next column that needs a kernel. Where no row survives,
    /// every column on the way comes out empty.
    pub fn execute_filter_compact<'a>(&mut self, columns: &Vec<WireValue<'a>>) -> (r: Result<
        FilterAction<'a>,
        Failure,
    >)
        requires
            old(self).done@.len() <= columns@.len(),
        ensures
            final(self).n_rows == old(self).n_rows,
            final(self).n_out == old(self).n_out,
            old(self).done@.len() <= final(self).done@.len() <= columns@.len(),
            final(self).done@.take(old(self).done@.len() as int) == old(self).done@,
            forall|i: int|
                old(self).done@.len() <= i < final(self).done@.len() ==> (
                #[trigger] final(self).done@[i]).is_empty(),
            empty_between(
                columns@,
                old(self).n_rows as nat,
                old(self).n_out as nat,
                old(self).done@.len() as int,
                final(self).done@.len() as int,
            ),
            filter_outcome(
                columns@,
                old(self).n_rows as nat,
                old(self).n_out as nat,
                final(self).done@.len() as int,
                outcome(r),
            ),
            all_come_back(
                columns@,
                old(self).n_rows as nat,
                old(self).n_out as nat,
                old(self).done@,
            ) ==> all_come_back(
                columns@,
                old(self).n_rows as nat,
                old(self).n_out as nat,
                final(self).done@,
            ),
    {
        let ghost start = self.done@;
        let ghost rows = self.n_rows as nat;
        let ghost out = self.n_out as nat;
        while self.done.len() < columns.len()
            invariant
                self.n_rows == old(self).n_rows,
                self.n_out == old(self).n_out,
                start == old(self).done@,
                rows == self.n_rows,
                out == self.n_out,
                start.len() <= self.done@.len() <= columns@.len(),
                self.done@.take(start.len() as int) == start,
                forall|i: int|
                    start.len() <= i < self.done@.len() ==> (#[trigger] self.done@[i]).is_empty(),
                empty_between(
                    columns@,
                    rows,
                    out,
                    start.len() as int,
                    self.done@.len() as int,
                ),
                all_come_back(columns@, rows, out, start) ==> all_come_back(
                    columns@,
                    rows,
                    out,
                    self.done@,
                ),
            decreases columns@.len() - self.done@.len(),
        {
            let at: usize = self.done.len();
            match compact_entry(at, &columns[at], self.n_rows, self.n_out) {
                Err(e) => return Err(e),
                Ok(CompactStep::Run { kernel, name, data, valid }) => {
                    return Ok(FilterAction::Compact { kernel, name, data, valid });
                },
                Ok(CompactStep::Empty) => {
                    let ghost before = self.done@;
                    self.done.push(Compacted { data: Vec::new(), valid: Vec::new() });
                    assert(self.done@.take(start.len() as int) =~= before.take(
                        start.len() as int,
                    ));
                    assert(forall|i: int| 0 <= i < at ==> #[trigger] self.done@[i] == before[i]);
                },
            }
        }
        Ok(FilterAction::Finish)
    }

    /// Takes the output of the kernel asked for.
    pub fn accept(&mut self, kernel: CompactKernel, out: KernelOutput)
        requires
            output_of(kernel, out, old(self).n_out as nat),
        ensures
            final(self).n_rows == old(self).n_rows,
            final(self).n_out == old(self).n_out,
            final(self).done@.len() == old(self).done@.len() + 1,
            final(self).done@.drop_last() == old(self).done@,
            column_from(out, old(self).n_out as nat, final(self).done@.last()),
            kernel != CompactKernel::Bool ==> final(self).done@.last().data@.len() == 8 * old(
                self,
            ).n_out,
    {
        let c: Compacted = match out {
            KernelOutput::Words { values, valid } => Compacted {
                data: compacted_bytes(&values, self.n_out),
                valid,
            },
            KernelOutput::Bits { data, valid } => Compacted { data, valid },
        };
        self.done.push(c);
        assert(self.done@.drop_last() =~= old(self).done@);
    }
}

/// Taking the output of the kernel that a filter asked for keeps every recorded
/// column one that came out of its entry: a numeric one with eight bytes for
/// each surviving row.
pub proof fn accepted_columns_come_back<'a>(
    columns: Seq<WireValue>,
    rows: nat,
    n_out: nat,
    before: Seq<Compacted>,
    kernel: CompactKernel,
    name: String,
    data: &'a [u8],
    valid: &'a [u8],
    out: KernelOutput,
    after: Seq<Compacted>,
)
    requires
        all_come_back(columns, rows, n_out, before),
        filter_outcome(
            columns,
            rows,
            n_out,
            before.len() as int,
            Ok(FilterAction::Compact { kernel, name, data, valid }),
        ),
        output_of(kernel, out, n_out),
        after.len() == before.len() + 1,
        after.drop_last() == before,
        column_from(out, n_out, after.last()),
    ensures
        all_come_back(columns, rows, n_out, after),
{
    assert forall|i: int| 0 <= i < after.len() implies comes_back(
        i,
        columns[i],
        rows,
        n_out,
        #[trigger] after[i],
    ) by {
        if i < before.len() {
            assert(after[i] == before[i]);
        }
    }
}

/// A filter that finishes has a result for every column.
pub proof fn finished_filters_have_every_column(
    columns: Seq<WireValue>,
    rows: nat,
    n_out: nat,
    done: Seq<Compacted>,
)
    requires
        all_come_back(columns, rows, n_out, done),
        filter_outcome(columns, rows, n_out, done.len() as int, Ok(FilterAction::Finish)),
    ensures
        done.len() == columns.len(),
{
}

/// When no row survives, a column is not refused, and comes out empty, whenever
/// it is readable, of a known type and with enough validity bytes, whatever
/// its data and even if no kernel compacts its type.
pub proof fn nothing_survives_nothing_is_read(
    idx: int,
    entry: WireValue,
    rows: nat,
    c: Column,
    step: CompactStep,
)
    requires
        column_of(wording(), idx, entry) == Ok::<Column, Fault>(c),
    ensures
        entry_fault(idx, entry, rows, 0) is None <==> parsed_dtype(c.tag@) is Ok && c.valid@.len()
            >= bytes_for(rows as int),
        is_entry_step(idx, entry, rows, 0, step) ==> step is Empty,
{
}

/// The name of a kernel's values.
pub open spec fn kernel_values(kernel: CompactKernel) -> MetalDtype {
    match kernel {
        CompactKernel::I64 => MetalDtype::I64,
        CompactKernel::F64 => MetalDtype::F64,
        CompactKernel::Bool => MetalDtype::Bool,
    }
}

/// A surviving column is compacted by the kernel of its own type, over exactly
/// eight bytes of its data for each row if it is numeric and over all of it if
/// it is boolean, with its own validity and under its own name.
pub proof fn columns_are_compacted_by_their_own_kernel<'a>(
    idx: int,
    entry: WireValue<'a>,
    rows: nat,
    n_out: nat,
    c: Column<'a>,
    kernel: CompactKernel,
    name: String,
    data: &'a [u8],
    valid: &'a [u8],
)
    requires
        column_of(wording(), idx, entry) == Ok::<Column<'a>, Fault>(c),
        entry_fault(idx, entry, rows, n_out) is None,
        is_entry_step(idx, entry, rows, n_out, CompactStep::Run { kernel, name, data, valid }),
    ensures
        parsed_dtype(c.tag@) == Ok::<MetalDtype, Fault>(kernel_values(kernel)),
        name == c.name,
        valid@ == c.valid@,
        8 * valid@.len() >= rows,
        kernel == CompactKernel::Bool ==> data@ == c.data@ && 8 * data@.len() >= rows,
        kernel != CompactKernel::Bool ==> data@.len() == 8 * rows && data@.is_prefix_of(c.data@),
        n_out > 0,
{
}

/// A surviving column is refused exactly when its bitmap is short, its type has
/// no kernel, or its data is short.
pub proof fn columns_are_refused_when_short(
    name: Seq<char>,
    dtype: MetalDtype,
    rows: nat,
    data_len: nat,
    valid_len: nat,
    n_out: nat,
)
    ensures
        compact_fault(name, dtype, rows, data_len, valid_len, n_out) is None <==> 8 * valid_len
            >= rows && (n_out == 0 || (dtype == MetalDtype::I64 && data_len >= 8 * rows) || (dtype
            == MetalDtype::F64 && data_len >= 8 * rows) || (dtype == MetalDtype::Bool && 8 * data_len
            >= rows)),
{
}

/// The bytes of a compacted column read back as its values, in order.
pub proof fn compacted_values_read_back(values: Seq<u64>, n_out: int, i: int)
    requires
        0 <= i < n_out <= values.len(),
    ensures
        ({
            let data = le_all(nats64(values.take(n_out)), 8);
            &&& data.len() == 8 * n_out
            &&& from_le(data.subrange(8 * i, 8 * i + 8)) == values[i]
        }),
{
    reveal_with_fuel(radix, 9);
    runs_read_back(nats64(values.take(n_out)), 8, i);
}

/// A predicate is accepted exactly when its truth values and its validity have
/// a bit for each row.
pub proof fn predicates_have_a_bit_for_every_row(data_len: nat, valid_len: nat, rows: nat)
    ensures
        predicate_fault(data_len, valid_len, rows) is None <==> 8 * data_len >= rows && 8
            * valid_len >= rows,
{
}

/// What a kernel gives comes back: words value by value, the first `n_out` of
/// them, bits as they are, and either with the kernel's validity.
pub proof fn kernel_outputs_come_back(out: KernelOutput, n_out: nat, c: Compacted, i: int)
    requires
        column_from(out, n_out, c),
        0 <= i < n_out,
        out matches KernelOutput::Words { values, valid } ==> n_out <= values@.len(),
    ensures
        out matches KernelOutput::Words { values, valid } ==> c.valid@ == valid@ && c.data@.len()
            == 8 * n_out && from_le(c.data@.subrange(8 * i, 8 * i + 8)) == values@[i],
        out matches KernelOutput::Bits { data, valid } ==> c.valid@ == valid@ && c.data@ == data@,
{
    match out {
        KernelOutput::Words { values, valid } => {
            compacted_values_read_back(values@, n_out as int, i);
        },
        _ => {},
    }
}

/// A filter goes through the columns in order: it finishes exactly when all are
/// done, and the kernel asked for next is that of the next column, with that
/// column's name and validity.
pub proof fn filters_go_column_by_column<'a>(
    columns: Seq<WireValue<'a>>,
    rows: nat,
    n_out: nat,
    at: int,
    r: Result<FilterAction<'a>, Fault>,
)
    requires
        0 <= at <= columns.len(),
        filter_outcome(columns, rows, n_out, at, r),
    ensures
        (r matches Ok(a) && a is Finish) <==> at == columns.len(),
        r matches Ok(FilterAction::Compact { kernel, name, data, valid }) ==> at < columns.len()
            && column_of(wording(), at, columns[at]) is Ok && ({
            let c = column_of(wording(), at, columns[at])->Ok_0;
            &&& name == c.name
            &&& valid@ == c.valid@
            &&& data@.is_prefix_of(c.data@)
            &&& parsed_dtype(c.tag@) == Ok::<MetalDtype, Fault>(kernel_values(kernel))
        }),
{
    match r {
        Ok(FilterAction::Compact { kernel, name, data, valid }) => {
            let c = column_of(wording(), at, columns[at])->Ok_0;
            columns_are_compacted_by_their_own_kernel(
                at,
                columns[at],
                rows,
                n_out,
                c,
                kernel,
                name,
                data,
                valid,
            );
        },
        _ => {},
    }
}

/// A kernel is named after its values: the tag of their type, with a small
/// first letter, ends its name.
pub proof fn kernels_are_named_after_their_values(kernel: CompactKernel)
    ensures
        ({
            let label = kernel_label(kernel);
            let tag = kernel_values(kernel).tag();
            &&& label.len() == 8 + tag.len()
            &&& label[8] as int - tag[0] as int == 'a' as int - 'A' as int
            &&& label.skip(9) == tag.skip(1)
        }),
{
    reveal_strlit("compact_i64");
    reveal_strlit("compact_f64");
    reveal_strlit("compact_bool");
    reveal_strlit("I64");
    reveal_strlit("F64");
    reveal_strlit("Bool");
    assert(kernel_label(kernel).skip(9) =~= kernel_values(kernel).tag().skip(1));
}

} // verus!
