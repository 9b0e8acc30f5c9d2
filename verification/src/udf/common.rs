//! Checks shared by the kernel entry points: buffer lengths and the column
//! tuples of a request.

use vstd::prelude::*;

use crate::error::{Failure, Fault};
use crate::null_bitmap;
use crate::null_bitmap::bytes_for;
use crate::text;
use crate::text::decimal;
use crate::wire::WireValue;

verus! {

/// The text that reports a buffer as too short for a number of rows.
pub open spec fn shortfall_text(noun: Seq<char>, got: nat, expected: nat, rows: nat) -> Seq<char> {
    "polars_metal: "@ + noun + " is "@ + decimal(got) + " B, need at least "@ + decimal(expected)
        + " B for "@ + decimal(rows) + " rows"@
}

/// Words the report that a buffer is too short.
pub fn shortfall(noun: &str, got: usize, expected: u128, rows: usize) -> (r: String)
    ensures
        r@ == shortfall_text(noun@, got as nat, expected as nat, rows as nat),
{
    let mut out: String = "polars_metal: ".to_owned();
    out.append(noun);
    out.append(" is ");
    text::push_decimal(&mut out, got as u128);
    out.append(" B, need at least ");
    text::push_decimal(&mut out, expected);
    out.append(" B for ");
    text::push_decimal(&mut out, rows as u128);
    out.append(" rows");
    out
}

/// Why a numeric column's buffers are refused: the data holds fewer than
/// `width` bytes per row, or else the bitmap less than a bit per row.
pub open spec fn numeric_fault(data_len: nat, valid_len: nat, rows: nat, width: nat) -> Option<
    Fault,
> {
    if data_len < rows * width {
        Some(Fault::Value(shortfall_text("data buffer"@, data_len, rows * width, rows)))
    } else if valid_len < bytes_for(rows as int) {
        Some(
            Fault::Value(
                shortfall_text("validity buffer"@, valid_len, bytes_for(rows as int) as nat, rows),
            ),
        )
    } else {
        None
    }
}

/// The product of two machine words, which always fits twice the width.
pub fn wide_product(a: usize, b: usize) -> (r: u128)
    ensures
        r == a * b,
{
    assert(a * b <= 0xffff_ffff_ffff_ffff * 0xffff_ffff_ffff_ffff) by (nonlinear_arith)
        requires
            0 <= a <= 0xffff_ffff_ffff_ffff,
            0 <= b <= 0xffff_ffff_ffff_ffff,
    ;
    (a as u128) * (b as u128)
}

/// Checks the data and validity buffers of a numeric column.
pub fn check_numeric_buffers(
    data: &[u8],
    valid: &[u8],
    n_rows: usize,
    data_bytes_per_row: usize,
) -> (r: Result<(), Failure>)
    ensures
        match r {
            Ok(_) => numeric_fault(
                data@.len(),
                valid@.len(),
                n_rows as nat,
                data_bytes_per_row as nat,
            ) is None,
            Err(e) => numeric_fault(
                data@.len(),
                valid@.len(),
                n_rows as nat,
                data_bytes_per_row as nat,
            ) == Some(e@),
        },
{
    let expected: u128 = wide_product(n_rows, data_bytes_per_row);
    if (data.len() as u128) < expected {
        return Err(Failure::Value(shortfall("data buffer", data.len(), expected, n_rows)));
    }
    let min_valid: usize = null_bitmap::validity_bytes(n_rows);
    if valid.len() < min_valid {
        return Err(
            Failure::Value(shortfall("validity buffer", valid.len(), min_valid as u128, n_rows)),
        );
    }
    Ok(())
}

/// Why a bit-packed buffer is refused.
pub open spec fn bitpacked_fault(noun: Seq<char>, len: nat, rows: nat) -> Option<Fault> {
    if len < bytes_for(rows as int) {
        Some(Fault::Value(shortfall_text(noun, len, bytes_for(rows as int) as nat, rows)))
    } else {
        None
    }
}

/// Checks a bit-packed buffer; `noun` is what the report calls it.
pub fn check_bitpacked_buffer(buf: &[u8], n_rows: usize, noun: &str) -> (r: Result<(), Failure>)
    ensures
        match r {
            Ok(_) => bitpacked_fault(noun@, buf@.len(), n_rows as nat) is None,
            Err(e) => bitpacked_fault(noun@, buf@.len(), n_rows as nat) == Some(e@),
        },
{
    let min_bytes: usize = null_bitmap::validity_bytes(n_rows);
    if buf.len() < min_bytes {
        return Err(Failure::Value(shortfall(noun, buf.len(), min_bytes as u128, n_rows)));
    }
    Ok(())
}

/// A column of a request: its name, the tag of its type, and its data and
/// validity bytes.
pub struct Column<'a> {
    pub name: String,
    pub tag: String,
    pub data: &'a [u8],
    pub valid: &'a [u8],
}

/// The texts with which an entry point words its complaints about a column
/// tuple.
#[derive(Clone, Copy)]
pub struct ColumnWording {
    /// Before the index: who complains.
    pub lead: &'static str,
    /// After the index, when the entry is not a tuple.
    pub not_tuple: &'static str,
    /// After the index and before the arity found.
    pub arity: &'static str,
    /// Whether a complaint about the bytes names the column.
    pub names_column: bool,
}

impl ColumnWording {
    /// The complaint about column `idx` with the given tail.
    pub open spec fn complaint(self, idx: int, tail: Seq<char>) -> Fault {
        Fault::Value(self.lead@ + "columns["@ + decimal(idx as nat) + "]"@ + tail)
    }

    /// The complaint that the given part is not bytes.
    pub open spec fn not_bytes(self, idx: int, part: Seq<char>, name: Seq<char>) -> Fault {
        self.complaint(
            idx,
            part + (if self.names_column {
                " ("@ + name + ")"@
            } else {
                Seq::empty()
            }) + " must be bytes"@,
        )
    }

    fn complain(&self, idx: usize, tail: &str) -> (r: Failure)
        ensures
            r@ == self.complaint(idx as int, tail@),
    {
        let mut out: String = self.lead.to_owned();
        out.append("columns[");
        text::push_decimal(&mut out, idx as u128);
        out.append("]");
        out.append(tail);
        Failure::Value(out)
    }

    fn complain_not_bytes(&self, idx: usize, part: &str, name: &str) -> (r: Failure)
        ensures
            r@ == self.not_bytes(idx as int, part@, name@),
    {
        let mut tail: String = part.to_owned();
        if self.names_column {
            tail.append(" (");
            tail.append(name);
            tail.append(")");
        }
        tail.append(" must be bytes");
        assert(tail@ =~= part@ + (if self.names_column {
            " ("@ + name@ + ")"@
        } else {
            Seq::empty()
        }) + " must be bytes"@);
        self.complain(idx, tail.as_str())
    }
}

/// The column that a tuple of name, type tag, data and validity describes.
pub open spec fn column_of<'a>(w: ColumnWording, idx: int, entry: WireValue<'a>) -> Result<
    Column<'a>,
    Fault,
> {
    match entry {
        WireValue::Tuple(t) => if t@.len() != 4 {
            Err(w.complaint(idx, w.arity@ + decimal(t@.len())))
        } else {
            match t@[0].text() {
                Err(c) => Err(Fault::Conversion(c)),
                Ok(name) => match t@[1].text() {
                    Err(c) => Err(Fault::Conversion(c)),
                    Ok(tag) => match t@[2] {
                        WireValue::Bytes(data) => match t@[3] {
                            WireValue::Bytes(valid) => Ok(Column { name, tag, data, valid }),
                            _ => Err(w.not_bytes(idx, ".valid"@, name@)),
                        },
                        _ => Err(w.not_bytes(idx, ".data"@, name@)),
                    },
                },
            }
        },
        _ => Err(w.complaint(idx, w.not_tuple@)),
    }
}

/// Reads a column tuple.
pub fn read_column<'a>(w: &ColumnWording, idx: usize, entry: &WireValue<'a>) -> (r: Result<
    Column<'a>,
    Failure,
>)
    ensures
        match r {
            Ok(c) => column_of(*w, idx as int, *entry) == Ok::<Column<'a>, Fault>(c),
            Err(e) => column_of(*w, idx as int, *entry) == Err::<Column<'a>, Fault>(e@),
        },
{
    let t: &Vec<WireValue<'a>> = match entry {
        WireValue::Tuple(t) => t,
        _ => return Err(w.complain(idx, w.not_tuple)),
    };
    if t.len() != 4 {
        let mut tail: String = w.arity.to_owned();
        text::push_decimal(&mut tail, t.len() as u128);
        return Err(w.complain(idx, tail.as_str()));
    }
    let name: String = match t[0].to_text() {
        Ok(s) => s,
        Err(c) => return Err(Failure::Conversion(c)),
    };
    let tag: String = match t[1].to_text() {
        Ok(s) => s,
        Err(c) => return Err(Failure::Conversion(c)),
    };
    let data: &'a [u8] = match &t[2] {
        WireValue::Bytes(b) => b,
        _ => return Err(w.complain_not_bytes(idx, ".data", name.as_str())),
    };
    let valid: &'a [u8] = match &t[3] {
        WireValue::Bytes(b) => b,
        _ => return Err(w.complain_not_bytes(idx, ".valid", name.as_str())),
    };
    Ok(Column { name, tag, data, valid })
}

/// The columns that the first `n` entries describe, or the first complaint.
pub open spec fn columns_of<'a>(w: ColumnWording, items: Seq<WireValue<'a>>, n: int) -> Result<
    Seq<Column<'a>>,
    Fault,
>
    decreases n,
{
    if n <= 0 {
        Ok(Seq::empty())
    } else {
        match columns_of(w, items, n - 1) {
            Err(e) => Err(e),
            Ok(front) => match column_of(w, n - 1, items[n - 1]) {
                Err(e) => Err(e),
                Ok(c) => Ok(front.push(c)),
            },
        }
    }
}

/// A complaint about a prefix is the complaint about the whole.
pub proof fn lemma_columns_fault_kept(w: ColumnWording, items: Seq<WireValue>, n: int, m: int)
    requires
        0 <= n <= m,
        columns_of(w, items, n) is Err,
    ensures
        columns_of(w, items, m) == columns_of(w, items, n),
    decreases m,
{
    if n < m {
        lemma_columns_fault_kept(w, items, n, m - 1);
    }
}

/// Reads the column tuples of a request.
pub fn read_columns<'a>(w: &ColumnWording, items: &Vec<WireValue<'a>>) -> (r: Result<
    Vec<Column<'a>>,
    Failure,
>)
    ensures
        match r {
            Ok(v) => columns_of(*w, items@, items@.len() as int) == Ok::<Seq<Column<'a>>, Fault>(
                v@,
            ),
            Err(e) => columns_of(*w, items@, items@.len() as int) == Err::<Seq<Column<'a>>, Fault>(
                e@,
            ),
        },
{
    let mut out: Vec<Column<'a>> = Vec::new();
    assert(out@ =~= Seq::<Column<'a>>::empty());
    let mut i: usize = 0;
    while i < items.len()
        invariant
            i <= items@.len(),
            columns_of(*w, items@, i as int) == Ok::<Seq<Column<'a>>, Fault>(out@),
        decreases items@.len() - i,
    {
        match read_column(w, i, &items[i]) {
            Ok(c) => {
                out.push(c);
            },
            Err(e) => {
                proof {
                    lemma_columns_fault_kept(*w, items@, i + 1, items@.len() as int);
                }
                return Err(e);
            },
        }
        i = i + 1;
    }
    Ok(out)
}

/// The column that a name stands for: the last one with that name.
pub open spec fn named<'a>(cols: Seq<Column<'a>>, name: Seq<char>) -> Option<Column<'a>>
    decreases cols.len(),
{
    if cols.len() == 0 {
        None
    } else if cols.last().name@ == name {
        Some(cols.last())
    } else {
        named(cols.drop_last(), name)
    }
}

/// Finds a column by name.
pub fn find_column<'c, 'a>(cols: &'c Vec<Column<'a>>, name: &str) -> (r: Option<&'c Column<'a>>)
    ensures
        match r {
            Some(c) => named(cols@, name@) == Some(*c) && c.name@ == name@,
            None => named(cols@, name@) is None,
        },
{
    let mut i: usize = cols.len();
    assert(cols@.take(i as int) =~= cols@);
    while i > 0
        invariant
            i <= cols@.len(),
            named(cols@.take(i as int), name@) == named(cols@, name@),
        decreases i,
    {
        assert(cols@.take(i as int).drop_last() =~= cols@.take(i - 1));
        assert(cols@.take(i as int).last() == cols@[i - 1]);
        if text::same(cols[i - 1].name.as_str(), name) {
            return Some(&cols[i - 1]);
        }
        i = i - 1;
    }
    None
}

/// The buffers of a numeric column are accepted exactly when there are `width`
/// bytes and a bit for each row.
pub proof fn numeric_buffers_hold_every_row(data_len: nat, valid_len: nat, rows: nat, width: nat)
    ensures
        numeric_fault(data_len, valid_len, rows, width) is None <==> data_len >= rows * width && 8
            * valid_len >= rows,
{
}

/// A column tuple is its name, its type tag, its data and its validity, in that
/// order.
pub proof fn columns_read_back<'a>(w: ColumnWording, idx: int, entry: WireValue<'a>, c: Column<'a>)
    ensures
        column_of(w, idx, entry) == Ok::<Column<'a>, Fault>(c) <==> (entry matches WireValue::Tuple(
            t,
        ) && t@.len() == 4 && t@[0] == WireValue::Str(c.name) && t@[1] == WireValue::Str(c.tag)
            && t@[2] == WireValue::Bytes(c.data) && t@[3] == WireValue::Bytes(c.valid)),
{
}

/// The columns of a request are those of its entries, in order.
pub proof fn requests_read_back<'a>(
    w: ColumnWording,
    items: Seq<WireValue<'a>>,
    n: int,
    cols: Seq<Column<'a>>,
    i: int,
)
    requires
        0 <= n <= items.len(),
        columns_of(w, items, n) == Ok::<Seq<Column<'a>>, Fault>(cols),
    ensures
        cols.len() == n,
        0 <= i < n ==> column_of(w, i, items[i]) == Ok::<Column<'a>, Fault>(cols[i]),
    decreases n,
{
    if n > 0 {
        let front = columns_of(w, items, n - 1)->Ok_0;
        requests_read_back(w, items, n - 1, front, i);
    }
}

/// A name stands for the last column that has it.
pub proof fn later_columns_hide_earlier_ones(cols: Seq<Column>, name: Seq<char>, i: int)
    requires
        0 <= i < cols.len(),
        cols[i].name@ == name,
        forall|j: int| i < j < cols.len() ==> (#[trigger] cols[j]).name@ != name,
    ensures
        named(cols, name) == Some(cols[i]),
    decreases cols.len(),
{
    if i < cols.len() - 1 {
        assert(cols.last() == cols[cols.len() - 1]);
        later_columns_hide_earlier_ones(cols.drop_last(), name, i);
    }
}

/// A name that no column has stands for nothing.
pub proof fn absent_names_stand_for_nothing(cols: Seq<Column>, name: Seq<char>)
    requires
        forall|j: int| 0 <= j < cols.len() ==> (#[trigger] cols[j]).name@ != name,
    ensures
        named(cols, name) is None,
    decreases cols.len(),
{
    if cols.len() > 0 {
        assert(cols.last() == cols[cols.len() - 1]);
        absent_names_stand_for_nothing(cols.drop_last(), name);
    }
}

/// Of two short buffers the data is complained of, whatever the validity.
pub proof fn short_data_comes_first(
    data_len: nat,
    valid_len: nat,
    other: nat,
    rows: nat,
    width: nat,
)
    requires
        data_len < rows * width,
    ensures
        numeric_fault(data_len, valid_len, rows, width) is Some,
        numeric_fault(data_len, valid_len, rows, width) == numeric_fault(
            data_len,
            other,
            rows,
            width,
        ),
{
}

/// A bitmap is accepted exactly when it has a bit for each row, whatever it is
/// called.
pub proof fn bitmaps_hold_every_row(noun: Seq<char>, len: nat, rows: nat)
    ensures
        bitpacked_fault(noun, len, rows) is None <==> 8 * len >= rows,
{
}

} // verus!
