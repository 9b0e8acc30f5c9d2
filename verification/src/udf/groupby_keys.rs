//! Key columns of a group-by: types with a composite-key encoding, and text
//! keys, which arrive packed and are dictionary-encoded here.
//!
//! A packed text column is a 32-bit row count, one more 32-bit offset than
//! there are rows, and the concatenated UTF-8 bytes, all little-endian.

use vstd::prelude::*;
use vstd::utf8::{decode_utf8, valid_utf8};

use crate::bytes;
use crate::bytes::{i32_at, le, u32_at, utf8_complaint};
use crate::dict;
use crate::dict::{encodes_rows, row_views};
use crate::error::{Failure, Fault};
use crate::null_bitmap;
use crate::null_bitmap::{bytes_for, valid_at};
use crate::plan::MetalDtype;
use crate::text;
use crate::text::{decimal, quoted, signed_decimal, views};
use crate::udf::common::{find_column, named, Column};
use crate::udf::groupby_plan::ParsedKey;

verus! {

/// Types with a composite-key encoding.
#[derive(Debug, Clone, Copy, PartialEq, Eq, Structural)]
pub enum KeyDtype {
    I64,
    F64,
    Bool,
    I32,
    F32,
    I8,
    I16,
    U8,
    U16,
    U32,
    Utf8,
}

/// The key encoding of a type; the 64-bit unsigned type has none.
pub open spec fn key_dtype(d: MetalDtype) -> Option<KeyDtype> {
    match d {
        MetalDtype::I64 => Some(KeyDtype::I64),
        MetalDtype::F64 => Some(KeyDtype::F64),
        MetalDtype::Bool => Some(KeyDtype::Bool),
        MetalDtype::I32 => Some(KeyDtype::I32),
        MetalDtype::F32 => Some(KeyDtype::F32),
        MetalDtype::I8 => Some(KeyDtype::I8),
        MetalDtype::I16 => Some(KeyDtype::I16),
        MetalDtype::U8 => Some(KeyDtype::U8),
        MetalDtype::U16 => Some(KeyDtype::U16),
        MetalDtype::U32 => Some(KeyDtype::U32),
        MetalDtype::U64 => None,
        MetalDtype::Utf8 => Some(KeyDtype::Utf8),
    }
}

/// The failure for a key of a type without a key encoding.
pub open spec fn no_key_encoding() -> Fault {
    Fault::NotImplemented(
        "polars_metal: groupby key dtype UInt64 has no composite-key encoding (groupby is conformance-only and not extended); should route CPU at the walker"@,
    )
}

/// Maps a type to its key encoding.
pub fn metal_dtype_to_key_dtype(d: MetalDtype) -> (r: Result<KeyDtype, Failure>)
    ensures
        match r {
            Ok(k) => key_dtype(d) == Some(k),
            Err(e) => key_dtype(d) is None && e@ == no_key_encoding(),
        },
{
    match d {
        MetalDtype::I64 => Ok(KeyDtype::I64),
        MetalDtype::F64 => Ok(KeyDtype::F64),
        MetalDtype::Bool => Ok(KeyDtype::Bool),
        MetalDtype::I32 => Ok(KeyDtype::I32),
        MetalDtype::F32 => Ok(KeyDtype::F32),
        MetalDtype::I8 => Ok(KeyDtype::I8),
        MetalDtype::I16 => Ok(KeyDtype::I16),
        MetalDtype::U8 => Ok(KeyDtype::U8),
        MetalDtype::U16 => Ok(KeyDtype::U16),
        MetalDtype::U32 => Ok(KeyDtype::U32),
        MetalDtype::Utf8 => Ok(KeyDtype::Utf8),
        MetalDtype::U64 => Err(
            Failure::NotImplemented(
                "polars_metal: groupby key dtype UInt64 has no composite-key encoding (groupby is conformance-only and not extended); should route CPU at the walker".to_owned(),
            ),
        ),
    }
}

/// The number of bytes before the text of a packed column of `rows` rows.
pub open spec fn packed_header(rows: int) -> int {
    4 + (rows + 1) * 4
}

/// The offset that ends row `i - 1` and starts row `i`.
pub open spec fn packed_offset(data: Seq<u8>, i: int) -> i32 {
    i32_at(data, 4 + i * 4)
}

/// A complaint about the packed text column `name`.
pub open spec fn packed_fault(name: Seq<char>, tail: Seq<char>) -> Fault {
    Fault::Value("polars_metal: Utf8 column "@ + quoted(name) + tail)
}

/// Why a packed text column is refused before its rows are read.
pub open spec fn packed_shape_fault(
    name: Seq<char>,
    data: Seq<u8>,
    valid: Seq<u8>,
    rows: nat,
) -> Option<Fault> {
    if data.len() < 4 {
        Some(
            packed_fault(
                name,
                " wire payload too short ("@ + decimal(data.len())
                    + " B; need >= 4 for header)"@,
            ),
        )
    } else if u32_at(data, 0) != rows {
        Some(
            packed_fault(
                name,
                " wire n_rows="@ + decimal(u32_at(data, 0) as nat)
                    + " disagrees with column n_rows="@ + decimal(rows),
            ),
        )
    } else if data.len() < packed_header(rows as int) {
        Some(
            packed_fault(
                name,
                " wire payload truncated in offsets ("@ + decimal(data.len()) + " B; need >= "@
                    + decimal(packed_header(rows as int) as nat) + ")"@,
            ),
        )
    } else if valid.len() < bytes_for(rows as int) {
        Some(
            packed_fault(
                name,
                " validity buffer is "@ + decimal(valid.len()) + " B, need at least "@ + decimal(
                    bytes_for(rows as int) as nat,
                ) + " B for "@ + decimal(rows) + " rows"@,
            ),
        )
    } else {
        None
    }
}

/// The text bytes of a row, given its offsets.
pub open spec fn packed_slice(data: Seq<u8>, rows: int, start: int, end: int) -> Seq<u8> {
    data.subrange(packed_header(rows) + start, packed_header(rows) + end)
}

/// The value of row `r` of a packed column of sound shape: null where the
/// bitmap says so, whatever the offsets; otherwise the text between its
/// offsets.
pub open spec fn packed_row(
    name: Seq<char>,
    data: Seq<u8>,
    valid: Seq<u8>,
    rows: int,
    r: int,
) -> Result<Option<Seq<char>>, Fault> {
    if !valid_at(valid, r) {
        Ok(None)
    } else {
        let start = packed_offset(data, r);
        let end = packed_offset(data, r + 1);
        if start < 0 || end < start {
            Err(
                packed_fault(
                    name,
                    " row "@ + decimal(r as nat) + " has invalid offsets start="@ + signed_decimal(
                        start as int,
                    ) + " end="@ + signed_decimal(end as int),
                ),
            )
        } else if end > data.len() - packed_header(rows) {
            Err(
                packed_fault(
                    name,
                    " row "@ + decimal(r as nat) + " end offset "@ + decimal(end as nat)
                        + " exceeds string buffer length "@ + decimal(
                        (data.len() - packed_header(rows)) as nat,
                    ),
                ),
            )
        } else {
            let slice = packed_slice(data, rows, start as int, end as int);
            if valid_utf8(slice) {
                Ok(Some(decode_utf8(slice)))
            } else {
                Err(
                    packed_fault(
                        name,
                        " row "@ + decimal(r as nat) + " is not valid UTF-8: "@ + utf8_complaint(
                            slice,
                        ),
                    ),
                )
            }
        }
    }
}

/// The values of the first `n` rows, or the first complaint.
pub open spec fn packed_rows(
    name: Seq<char>,
    data: Seq<u8>,
    valid: Seq<u8>,
    rows: int,
    n: int,
) -> Result<Seq<Option<Seq<char>>>, Fault>
    decreases n,
{
    if n <= 0 {
        Ok(Seq::empty())
    } else {
        match packed_rows(name, data, valid, rows, n - 1) {
            Err(e) => Err(e),
            Ok(front) => match packed_row(name, data, valid, rows, n - 1) {
                Err(e) => Err(e),
                Ok(v) => Ok(front.push(v)),
            },
        }
    }
}

/// A complaint about the first rows is the complaint about the column.
pub proof fn lemma_packed_fault_kept(
    name: Seq<char>,
    data: Seq<u8>,
    valid: Seq<u8>,
    rows: int,
    n: int,
    m: int,
)
    requires
        0 <= n <= m,
        packed_rows(name, data, valid, rows, n) is Err,
    ensures
        packed_rows(name, data, valid, rows, m) == packed_rows(name, data, valid, rows, n),
    decreases m,
{
    if n < m {
        lemma_packed_fault_kept(name, data, valid, rows, n, m - 1);
    }
}

/// What a packed text column holds, or why it is refused.
pub open spec fn packed_column(
    name: Seq<char>,
    data: Seq<u8>,
    valid: Seq<u8>,
    rows: nat,
) -> Result<Seq<Option<Seq<char>>>, Fault> {
    match packed_shape_fault(name, data, valid, rows) {
        Some(e) => Err(e),
        None => packed_rows(name, data, valid, rows as int, rows as int),
    }
}

/// The complaint about a packed column with the given tail.
fn complain(name: &str, tail: &str) -> (r: Failure)
    ensures
        r@ == packed_fault(name@, tail@),
{
    let mut out: String = "polars_metal: Utf8 column ".to_owned();
    text::push_quoted(&mut out, name);
    out.append(tail);
    Failure::Value(out)
}

fn check_packed_shape(name: &str, data: &[u8], valid: &[u8], n_rows: usize) -> (r: Result<
    (),
    Failure,
>)
    ensures
        match r {
            Ok(_) => packed_shape_fault(name@, data@, valid@, n_rows as nat) is None,
            Err(e) => packed_shape_fault(name@, data@, valid@, n_rows as nat) == Some(e@),
        },
{
    if data.len() < 4 {
        let mut tail: String = " wire payload too short (".to_owned();
        text::push_decimal(&mut tail, data.len() as u128);
        tail.append(" B; need >= 4 for header)");
        return Err(complain(name, tail.as_str()));
    }
    let header: u32 = bytes::read_u32(data, 0);
    if header as u128 != n_rows as u128 {
        let mut tail: String = " wire n_rows=".to_owned();
        text::push_decimal(&mut tail, header as u128);
        tail.append(" disagrees with column n_rows=");
        text::push_decimal(&mut tail, n_rows as u128);
        return Err(complain(name, tail.as_str()));
    }
    let need: u128 = 4 + (n_rows as u128 + 1) * 4;
    if (data.len() as u128) < need {
        let mut tail: String = " wire payload truncated in offsets (".to_owned();
        text::push_decimal(&mut tail, data.len() as u128);
        tail.append(" B; need >= ");
        text::push_decimal(&mut tail, need);
        tail.append(")");
        return Err(complain(name, tail.as_str()));
    }
    let min_valid: usize = null_bitmap::validity_bytes(n_rows);
    if valid.len() < min_valid {
        let mut tail: String = " validity buffer is ".to_owned();
        text::push_decimal(&mut tail, valid.len() as u128);
        tail.append(" B, need at least ");
        text::push_decimal(&mut tail, min_valid as u128);
        tail.append(" B for ");
        text::push_decimal(&mut tail, n_rows as u128);
        tail.append(" rows");
        return Err(complain(name, tail.as_str()));
    }
    Ok(())
}

/// The characters of a row.
pub open spec fn row_chars(v: Option<&str>) -> Option<Seq<char>> {
    match v {
        Some(s) => Some(s@),
        None => None,
    }
}

fn complain_offsets(name: &str, r: usize, start: i32, end: i32) -> (e: Failure)
    ensures
        e@ == packed_fault(
            name@,
            " row "@ + decimal(r as nat) + " has invalid offsets start="@ + signed_decimal(
                start as int,
            ) + " end="@ + signed_decimal(end as int),
        ),
{
    let mut tail: String = " row ".to_owned();
    text::push_decimal(&mut tail, r as u128);
    tail.append(" has invalid offsets start=");
    text::push_signed(&mut tail, start as i64);
    tail.append(" end=");
    text::push_signed(&mut tail, end as i64);
    complain(name, tail.as_str())
}

fn complain_end(name: &str, r: usize, end: i32, text_len: usize) -> (e: Failure)
    requires
        end >= 0,
    ensures
        e@ == packed_fault(
            name@,
            " row "@ + decimal(r as nat) + " end offset "@ + decimal(end as nat)
                + " exceeds string buffer length "@ + decimal(text_len as nat),
        ),
{
    let mut tail: String = " row ".to_owned();
    text::push_decimal(&mut tail, r as u128);
    tail.append(" end offset ");
    text::push_decimal(&mut tail, end as u128);
    tail.append(" exceeds string buffer length ");
    text::push_decimal(&mut tail, text_len as u128);
    complain(name, tail.as_str())
}

fn complain_utf8(name: &str, r: usize, why: &str) -> (e: Failure)
    ensures
        e@ == packed_fault(name@, " row "@ + decimal(r as nat) + " is not valid UTF-8: "@ + why@),
{
    let mut tail: String = " row ".to_owned();
    text::push_decimal(&mut tail, r as u128);
    tail.append(" is not valid UTF-8: ");
    tail.append(why);
    complain(name, tail.as_str())
}

fn read_packed_row<'a>(name: &str, data: &'a [u8], valid: &[u8], n_rows: usize, r: usize) -> (res:
    Result<Option<&'a str>, Failure>)
    requires
        packed_shape_fault(name@, data@, valid@, n_rows as nat) is None,
        r < n_rows,
    ensures
        match res {
            Ok(v) => packed_row(name@, data@, valid@, n_rows as int, r as int) == Ok::<
                Option<Seq<char>>,
                Fault,
            >(row_chars(v)),
            Err(e) => packed_row(name@, data@, valid@, n_rows as int, r as int) == Err::<
                Option<Seq<char>>,
                Fault,
            >(e@),
        },
{
    if !null_bitmap::get_valid(valid, r) {
        return Ok(None);
    }
    let total: usize = data.len();
    assert(packed_header(n_rows as int) <= total);
    let body: usize = 4 + (n_rows + 1) * 4;
    let start: i32 = bytes::read_i32(data, 4 + r * 4);
    let end: i32 = bytes::read_i32(data, 4 + (r + 1) * 4);
    if start < 0 || end < start {
        return Err(complain_offsets(name, r, start, end));
    }
    let text_len: usize = total - body;
    if end as u128 > text_len as u128 {
        return Err(complain_end(name, r, end, text_len));
    }
    let slice: &'a [u8] = vstd::slice::slice_subrange(
        data,
        body + start as usize,
        body + end as usize,
    );
    assert(slice@ == packed_slice(data@, n_rows as int, start as int, end as int));
    match bytes::utf8_text(slice) {
        Ok(s) => Ok(Some(s)),
        Err(why) => Err(complain_utf8(name, r, why.as_str())),
    }
}

/// Reads the rows of a packed text column.
pub fn read_packed_column<'a>(name: &str, data: &'a [u8], valid: &[u8], n_rows: usize) -> (res:
    Result<Vec<Option<&'a str>>, Failure>)
    ensures
        match res {
            Ok(v) => packed_column(name@, data@, valid@, n_rows as nat) == Ok::<
                Seq<Option<Seq<char>>>,
                Fault,
            >(row_views(v@)),
            Err(e) => packed_column(name@, data@, valid@, n_rows as nat) == Err::<
                Seq<Option<Seq<char>>>,
                Fault,
            >(e@),
        },
{
    match check_packed_shape(name, data, valid, n_rows) {
        Ok(_) => {},
        Err(e) => return Err(e),
    }
    let mut out: Vec<Option<&'a str>> = Vec::new();
    assert(row_views(out@) =~= Seq::empty());
    let mut r: usize = 0;
    while r < n_rows
        invariant
            r <= n_rows,
            packed_shape_fault(name@, data@, valid@, n_rows as nat) is None,
            packed_rows(name@, data@, valid@, n_rows as int, r as int) == Ok::<
                Seq<Option<Seq<char>>>,
                Fault,
            >(row_views(out@)),
        decreases n_rows - r,
    {
        let ghost before = row_views(out@);
        match read_packed_row(name, data, valid, n_rows, r) {
            Ok(v) => {
                out.push(v);
                assert(row_views(out@) =~= before.push(row_chars(v)));
            },
            Err(e) => {
                proof {
                    lemma_packed_fault_kept(
                        name@,
                        data@,
                        valid@,
                        n_rows as int,
                        r + 1,
                        n_rows as int,
                    );
                }
                return Err(e);
            },
        }
        r = r + 1;
    }
    Ok(out)
}

/// The little-endian bytes of 32-bit numbers, one after the other.
pub open spec fn le_words(words: Seq<u32>) -> Seq<u8>
    decreases words.len(),
{
    if words.len() == 0 {
        Seq::empty()
    } else {
        le_words(words.drop_last()) + le(words.last() as nat, 4)
    }
}

/// Writes 32-bit numbers out as bytes.
pub fn words_to_bytes(words: &[u32]) -> (r: Vec<u8>)
    ensures
        r@ == le_words(words@),
{
    let mut out: Vec<u8> = Vec::new();
    let mut i: usize = 0;
    assert(words@.take(0) =~= Seq::empty());
    assert(out@ =~= le_words(words@.take(0)));
    while i < words.len()
        invariant
            i <= words@.len(),
            out@ == le_words(words@.take(i as int)),
        decreases words@.len() - i,
    {
        bytes::push_le(&mut out, words[i] as u64, 4);
        assert(words@.take(i + 1).drop_last() =~= words@.take(i as int));
        i = i + 1;
    }
    assert(words@.take(i as int) =~= words@);
    out
}

/// The bytes of a key column: those received, or the codes made from them.
pub enum KeyData<'a> {
    Received(&'a [u8]),
    Codes(Vec<u8>),
}

impl<'a> KeyData<'a> {
    pub open spec fn bytes(self) -> Seq<u8> {
        match self {
            KeyData::Received(b) => b@,
            KeyData::Codes(v) => v@,
        }
    }

    pub fn as_slice(&self) -> (r: &[u8])
        ensures
            r@ == self.bytes(),
    {
        match self {
            KeyData::Received(b) => b,
            KeyData::Codes(v) => v.as_slice(),
        }
    }
}

/// A key column as the dispatcher takes it. Only a text key has a dictionary.
pub struct KeyColumn<'a> {
    pub name: String,
    pub dtype: KeyDtype,
    pub data: KeyData<'a>,
    pub valid: &'a [u8],
    pub n_rows: usize,
    pub dict: Option<Vec<String>>,
}

/// The failure for a key column that is not among the columns.
pub open spec fn missing_key(name: Seq<char>) -> Fault {
    Fault::Key(
        "polars_metal: key column "@ + quoted(name) + " not found in upstream columns"@,
    )
}

/// Why a key is refused when its column is looked up and read.
pub open spec fn key_fault(cols: Seq<Column>, key: ParsedKey, rows: nat) -> Option<Fault> {
    match named(cols, key.name@) {
        None => Some(missing_key(key.name@)),
        Some(c) => if key.dtype == MetalDtype::Utf8 {
            match packed_column(key.name@, c.data@, c.valid@, rows) {
                Err(e) => Some(e),
                Ok(_) => None,
            }
        } else {
            None
        },
    }
}

/// The bytes are the codes that encode the rows with the dictionary.
pub open spec fn is_encoded(
    rows: Seq<Option<Seq<char>>>,
    dict: Seq<Seq<char>>,
    code_bytes: Seq<u8>,
) -> bool {
    exists|codes: Seq<u32>, flags: Seq<bool>| #[trigger]
        encodes_rows(rows, dict, codes, flags) && code_bytes == le_words(codes)
}

/// The dispatcher's data and dictionary for a key: the column's bytes, or the
/// codes and dictionary of the text it packs.
pub open spec fn key_payload(cols: Seq<Column>, key: ParsedKey, rows: nat, k: KeyColumn) -> bool {
    match named(cols, key.name@) {
        None => false,
        Some(c) => {
            &&& k.valid@ == c.valid@
            &&& if key.dtype == MetalDtype::Utf8 {
                match packed_column(key.name@, c.data@, c.valid@, rows) {
                    Err(_) => false,
                    Ok(values) => k.dict matches Some(d) && is_encoded(
                        values,
                        views(d@),
                        k.data.bytes(),
                    ),
                }
            } else {
                k.dict is None && k.data.bytes() == c.data@
            }
        },
    }
}

/// A key column that the dispatcher may be given for `key`.
pub open spec fn is_key_column(cols: Seq<Column>, key: ParsedKey, rows: usize, k: KeyColumn) -> bool {
    &&& k.name == key.name
    &&& key_dtype(key.dtype) == Some(k.dtype)
    &&& k.n_rows == rows
    &&& key_payload(cols, key, rows as nat, k)
}

/// The first complaint about the columns of the first `n` keys.
pub open spec fn keys_read_fault(
    cols: Seq<Column>,
    keys: Seq<ParsedKey>,
    rows: nat,
    n: int,
) -> Option<Fault>
    decreases n,
{
    if n <= 0 {
        None
    } else {
        match keys_read_fault(cols, keys, rows, n - 1) {
            Some(e) => Some(e),
            None => key_fault(cols, keys[n - 1], rows),
        }
    }
}

/// Every key has a type with a key encoding.
pub open spec fn keys_encodable(keys: Seq<ParsedKey>) -> bool {
    forall|i: int| 0 <= i < keys.len() ==> key_dtype((#[trigger] keys[i]).dtype) is Some
}

/// The outcome of building the key columns: first every key's column is looked
/// up and read, in order; only then is a type without a key encoding reported.
pub open spec fn key_columns_outcome<'a>(
    cols: Seq<Column<'a>>,
    keys: Seq<ParsedKey>,
    rows: usize,
    r: Result<Seq<KeyColumn<'a>>, Fault>,
) -> bool {
    match keys_read_fault(cols, keys, rows as nat, keys.len() as int) {
        Some(e) => r == Err::<Seq<KeyColumn<'a>>, Fault>(e),
        None => match r {
            Err(e) => !keys_encodable(keys) && e == no_key_encoding(),
            Ok(out) => {
                &&& out.len() == keys.len()
                &&& keys_encodable(keys)
                &&& forall|i: int|
                    0 <= i < keys.len() ==> is_key_column(cols, keys[i], rows, #[trigger] out[i])
            },
        },
    }
}

proof fn lemma_key_fault_kept(
    cols: Seq<Column>,
    keys: Seq<ParsedKey>,
    rows: nat,
    n: int,
    m: int,
)
    requires
        0 <= n <= m,
        keys_read_fault(cols, keys, rows, n) is Some,
    ensures
        keys_read_fault(cols, keys, rows, m) == keys_read_fault(cols, keys, rows, n),
    decreases m,
{
    if n < m {
        lemma_key_fault_kept(cols, keys, rows, n, m - 1);
    }
}

/// What is known of a key before its type is mapped.
struct ReadKey<'a> {
    data: KeyData<'a>,
    valid: &'a [u8],
    dict: Option<Vec<String>>,
}

spec fn read_key_ok(cols: Seq<Column>, key: ParsedKey, rows: usize, k: ReadKey) -> bool {
    key_payload(
        cols,
        key,
        rows as nat,
        KeyColumn {
            name: key.name,
            dtype: KeyDtype::I64,
            data: k.data,
            valid: k.valid,
            n_rows: rows,
            dict: k.dict,
        },
    )
}

fn read_key<'a>(cols: &Vec<Column<'a>>, key: &ParsedKey, n_rows: usize) -> (r: Result<
    ReadKey<'a>,
    Failure,
>)
    ensures
        match r {
            Ok(k) => key_fault(cols@, *key, n_rows as nat) is None && read_key_ok(
                cols@,
                *key,
                n_rows,
                k,
            ),
            Err(e) => key_fault(cols@, *key, n_rows as nat) == Some(e@),
        },
{
    let col: &Column<'a> = match find_column(cols, key.name.as_str()) {
        Some(c) => c,
        None => {
            let mut out: String = "polars_metal: key column ".to_owned();
            text::push_quoted(&mut out, key.name.as_str());
            out.append(" not found in upstream columns");
            return Err(Failure::Key(out));
        },
    };
    if key.dtype == MetalDtype::Utf8 {
        let rows: Vec<Option<&'a str>> = match read_packed_column(
            key.name.as_str(),
            col.data,
            col.valid,
            n_rows,
        ) {
            Ok(v) => v,
            Err(e) => return Err(e),
        };
        let (dict, codes, flags): (Vec<String>, Vec<u32>, Vec<bool>) = dict::build_dict_nullable(
            rows.as_slice(),
        );
        let code_bytes: Vec<u8> = words_to_bytes(codes.as_slice());
        assert(packed_column(key.name@, col.data@, col.valid@, n_rows as nat) == Ok::<
            Seq<Option<Seq<char>>>,
            Fault,
        >(row_views(rows@)));
        assert(encodes_rows(row_views(rows@), views(dict@), codes@, flags@));
        assert(is_encoded(row_views(rows@), views(dict@), code_bytes@));
        Ok(ReadKey { data: KeyData::Codes(code_bytes), valid: col.valid, dict: Some(dict) })
    } else {
        Ok(ReadKey { data: KeyData::Received(col.data), valid: col.valid, dict: None })
    }
}

/// Builds the key columns of a group-by.
pub fn build_key_columns<'a>(cols: &Vec<Column<'a>>, keys: &Vec<ParsedKey>, n_rows: usize) -> (r:
    Result<Vec<KeyColumn<'a>>, Failure>)
    ensures
        match r {
            Ok(v) => key_columns_outcome(cols@, keys@, n_rows, Ok(v@)),
            Err(e) => key_columns_outcome(cols@, keys@, n_rows, Err(e@)),
        },
{
    let mut read: Vec<ReadKey<'a>> = Vec::new();
    let mut i: usize = 0;
    while i < keys.len()
        invariant
            i <= keys@.len(),
            read@.len() == i,
            keys_read_fault(cols@, keys@, n_rows as nat, i as int) is None,
            forall|j: int| 0 <= j < i ==> read_key_ok(cols@, keys@[j], n_rows, #[trigger] read@[j]),
        decreases keys@.len() - i,
    {
        match read_key(cols, &keys[i], n_rows) {
            Ok(k) => {
                read.push(k);
            },
            Err(e) => {
                proof {
                    lemma_key_fault_kept(
                        cols@,
                        keys@,
                        n_rows as nat,
                        i + 1,
                        keys@.len() as int,
                    );
                }
                return Err(e);
            },
        }
        i = i + 1;
    }
    let mut dtypes: Vec<KeyDtype> = Vec::new();
    let mut i: usize = 0;
    while i < keys.len()
        invariant
            i <= keys@.len(),
            dtypes@.len() == i,
            keys_read_fault(cols@, keys@, n_rows as nat, keys@.len() as int) is None,
            forall|j: int| 0 <= j < i ==> key_dtype(keys@[j].dtype) == Some(#[trigger] dtypes@[j]),
        decreases keys@.len() - i,
    {
        match metal_dtype_to_key_dtype(keys[i].dtype) {
            Ok(d) => {
                dtypes.push(d);
            },
            Err(e) => {
                assert(key_dtype(keys@[i as int].dtype) is None);
                return Err(e);
            },
        }
        i = i + 1;
    }
    let mut out: Vec<KeyColumn<'a>> = Vec::new();
    let ghost all = read@;
    let mut i: usize = 0;
    while i < keys.len()
        invariant
            i <= keys@.len(),
            out@.len() == i,
            all.len() == keys@.len(),
            dtypes@.len() == keys@.len(),
            read@ == all.skip(i as int),
            forall|j: int|
                0 <= j < keys@.len() ==> read_key_ok(cols@, keys@[j], n_rows, #[trigger] all[j]),
            forall|j: int|
                0 <= j < keys@.len() ==> key_dtype(keys@[j].dtype) == Some(#[trigger] dtypes@[j]),
            forall|j: int| 0 <= j < i ==> is_key_column(cols@, keys@[j], n_rows, #[trigger] out@[j]),
        decreases keys@.len() - i,
    {
        let k: ReadKey<'a> = read.remove(0);
        assert(k == all[i as int]);
        assert(read@ =~= all.skip(i + 1));
        out.push(
            KeyColumn {
                name: keys[i].name.clone(),
                dtype: dtypes[i],
                data: k.data,
                valid: k.valid,
                n_rows,
                dict: k.dict,
            },
        );
        i = i + 1;
    }
    assert(keys_encodable(keys@)) by {
        assert forall|j: int| 0 <= j < keys@.len() implies key_dtype(
            (#[trigger] keys@[j]).dtype,
        ) is Some by {
            assert(key_dtype(keys@[j].dtype) == Some(dtypes@[j]));
        }
    }
    Ok(out)
}

} // verus!
