//! Values received from the Python side, as plain data.
//!
//! The binding layer turns each Python object into a [`WireValue`]; everything
//! that interprets plans, predicates and column tuples works on that.

use vstd::prelude::*;

use crate::text;

verus! {

/// The bit pattern of an IEEE-754 double.
#[derive(Clone, Copy, Debug)]
pub struct F64Bits(pub u64);

/// The weight of the sign bit of a double's bit pattern.
pub const F64_SIGN: u64 = 0x8000_0000_0000_0000;

/// The bit pattern of positive infinity: larger magnitudes are NaNs.
pub const F64_INFINITY: u64 = 0x7ff0_0000_0000_0000;

/// The bit pattern of the double `1.0`.
pub const F64_ONE: u64 = 0x3ff0_0000_0000_0000;

impl F64Bits {
    /// The bit pattern without its sign bit.
    pub open spec fn magnitude(self) -> int {
        self.0 as int % F64_SIGN as int
    }

    /// Floating-point equality: NaN equals nothing, the two zeros equal each
    /// other, and otherwise equal values have equal bit patterns.
    pub open spec fn ieee_equal(self, other: F64Bits) -> bool {
        &&& self.magnitude() <= F64_INFINITY
        &&& other.magnitude() <= F64_INFINITY
        &&& self.0 == other.0 || (self.magnitude() == 0 && other.magnitude() == 0)
    }
}

impl PartialEq for F64Bits {
    fn eq(&self, other: &F64Bits) -> (r: bool) {
        let a: u64 = self.0 % F64_SIGN;
        let b: u64 = other.0 % F64_SIGN;
        a <= F64_INFINITY && b <= F64_INFINITY && (self.0 == other.0 || (a == 0 && b == 0))
    }
}

impl vstd::std_specs::cmp::PartialEqSpecImpl for F64Bits {
    open spec fn obeys_eq_spec() -> bool {
        true
    }

    open spec fn eq_spec(&self, other: &F64Bits) -> bool {
        self.ieee_equal(*other)
    }
}

/// A numeric object: what it gives when an integer is asked for, and what it
/// gives when a double is asked for. Either is `None` when the object does not
/// convert. An integer that is too large for a double has no double; integers
/// beyond the range held here are held at its ends.
#[derive(Clone, Copy, Debug, PartialEq)]
pub struct WireNumber {
    pub integer: Option<i128>,
    pub float: Option<F64Bits>,
}

/// A mapping with string keys, in insertion order. The first entry with a key
/// is the one that a lookup finds.
#[derive(Debug)]
pub struct WireDict<'a> {
    pub entries: Vec<(String, WireValue<'a>)>,
}

/// A value received from the Python side.
#[derive(Debug)]
pub enum WireValue<'a> {
    Str(String),
    Bool(bool),
    Number(WireNumber),
    Bytes(&'a [u8]),
    List(Vec<WireValue<'a>>),
    Tuple(Vec<WireValue<'a>>),
    Dict(WireDict<'a>),
    Other,
}

/// What a conversion from a wire value was asked to give.
#[derive(Clone, Copy, Debug, PartialEq, Eq, Structural)]
pub enum Target {
    Text,
    Unsigned,
    Signed,
    Float,
    Truth,
    Mapping,
    Sequence,
    TextSequence,
}

/// Why a conversion failed: the value is of another type, or it is an integer
/// outside the range of the type asked for.
#[derive(Clone, Copy, Debug, PartialEq, Eq, Structural)]
pub enum ConversionError {
    WrongType(Target),
    OutOfRange(Target),
}

/// The index of the first entry at or after `from` whose key is `key`, or the
/// number of entries when there is none.
pub open spec fn first_entry(entries: Seq<(String, WireValue)>, key: Seq<char>, from: int) -> int
    decreases entries.len() - from,
{
    if from < 0 || from >= entries.len() {
        entries.len() as int
    } else if entries[from].0@ == key {
        from
    } else {
        first_entry(entries, key, from + 1)
    }
}

/// `first_entry` gives an index of an entry with the key, or the number of
/// entries.
pub proof fn lemma_first_entry(entries: Seq<(String, WireValue)>, key: Seq<char>, from: int)
    requires
        0 <= from <= entries.len(),
    ensures
        from <= first_entry(entries, key, from) <= entries.len(),
        first_entry(entries, key, from) < entries.len() ==> entries[first_entry(
            entries,
            key,
            from,
        )].0@ == key,
    decreases entries.len() - from,
{
    if from < entries.len() && entries[from].0@ != key {
        lemma_first_entry(entries, key, from + 1);
    }
}

impl<'a> WireDict<'a> {
    /// The value found under `key`.
    pub open spec fn lookup(self, key: Seq<char>) -> Option<WireValue<'a>> {
        let i = first_entry(self.entries@, key, 0);
        if i < self.entries@.len() {
            Some(self.entries@[i].1)
        } else {
            None
        }
    }

    /// The text found under `key`, when there is text.
    pub open spec fn text_at(self, key: Seq<char>) -> Option<String> {
        match self.lookup(key) {
            Some(v) => v.as_text(),
            None => None,
        }
    }

    /// A value found in a mapping is structurally smaller than the mapping.
    pub proof fn lemma_lookup_smaller(self, key: Seq<char>)
        ensures
            self.lookup(key) matches Some(v) ==> decreases_to!(self => v),
            self.lookup(key) matches Some(WireValue::Dict(sub)) ==> decreases_to!(self => sub),
    {
        lemma_first_entry(self.entries@, key, 0);
        let i = first_entry(self.entries@, key, 0);
        if i < self.entries@.len() {
            assert(decreases_to!(self => self.entries@[i].1));
            match self.entries@[i].1 {
                WireValue::Dict(sub) => {
                    assert(decreases_to!(self.entries@[i].1 => sub));
                },
                _ => {},
            }
        }
    }

    /// Looks `key` up.
    pub fn get(&self, key: &str) -> (r: Option<&WireValue<'a>>)
        ensures
            match r {
                Some(v) => self.lookup(key@) == Some(*v),
                None => self.lookup(key@) is None,
            },
    {
        let mut i: usize = 0;
        while i < self.entries.len()
            invariant
                i <= self.entries@.len(),
                first_entry(self.entries@, key@, 0) == first_entry(self.entries@, key@, i as int),
            decreases self.entries@.len() - i,
        {
            if text::same(self.entries[i].0.as_str(), key) {
                return Some(&self.entries[i].1);
            }
            i = i + 1;
        }
        None
    }

    /// The text under `key`; `None` when the key is absent or holds something
    /// that is not text.
    pub fn get_text(&self, key: &str) -> (r: Option<String>)
        ensures
            r == self.text_at(key@),
    {
        match self.get(key) {
            Some(WireValue::Str(s)) => Some(s.clone()),
            _ => None,
        }
    }
}

/// The integer that an object converts to.
pub open spec fn integer_of(v: WireValue) -> Option<int> {
    match v {
        WireValue::Number(n) => match n.integer {
            Some(i) => Some(i as int),
            None => None,
        },
        WireValue::Bool(b) => Some(if b { 1int } else { 0int }),
        _ => None,
    }
}

/// The texts of the first `n` items, or `None` when one of them is not text.
pub open spec fn texts_of(items: Seq<WireValue>, n: int) -> Option<Seq<String>>
    decreases n,
{
    if n <= 0 {
        Some(Seq::empty())
    } else {
        match texts_of(items, n - 1) {
            Some(front) => match items[n - 1] {
                WireValue::Str(s) => Some(front.push(s)),
                _ => None,
            },
            None => None,
        }
    }
}

/// Once an item is not text, no longer prefix is all text.
pub proof fn lemma_texts_of_prefix(items: Seq<WireValue>, n: int, m: int)
    requires
        0 <= n <= m,
        texts_of(items, n) is None,
    ensures
        texts_of(items, m) is None,
    decreases m,
{
    if n < m {
        lemma_texts_of_prefix(items, n, m - 1);
    }
}

impl<'a> WireValue<'a> {
    /// The text that this is, if it is text.
    pub open spec fn as_text(self) -> Option<String> {
        match self {
            WireValue::Str(s) => Some(s),
            _ => None,
        }
    }

    /// Conversion to text.
    pub open spec fn text(self) -> Result<String, ConversionError> {
        match self {
            WireValue::Str(s) => Ok(s),
            _ => Err(ConversionError::WrongType(Target::Text)),
        }
    }

    /// Conversion to an unsigned machine word.
    pub open spec fn unsigned(self) -> Result<usize, ConversionError> {
        match integer_of(self) {
            Some(i) => if 0 <= i <= usize::MAX {
                Ok(i as usize)
            } else {
                Err(ConversionError::OutOfRange(Target::Unsigned))
            },
            None => Err(ConversionError::WrongType(Target::Unsigned)),
        }
    }

    /// Conversion to a signed 64-bit integer.
    pub open spec fn signed(self) -> Result<i64, ConversionError> {
        match integer_of(self) {
            Some(i) => if i64::MIN <= i <= i64::MAX {
                Ok(i as i64)
            } else {
                Err(ConversionError::OutOfRange(Target::Signed))
            },
            None => Err(ConversionError::WrongType(Target::Signed)),
        }
    }

    /// Conversion to a double. An integer without a double is out of range.
    pub open spec fn float(self) -> Result<F64Bits, ConversionError> {
        match self {
            WireValue::Number(n) => match n.float {
                Some(f) => Ok(f),
                None => if n.integer is Some {
                    Err(ConversionError::OutOfRange(Target::Float))
                } else {
                    Err(ConversionError::WrongType(Target::Float))
                },
            },
            WireValue::Bool(b) => Ok(F64Bits(if b { F64_ONE } else { 0 })),
            _ => Err(ConversionError::WrongType(Target::Float)),
        }
    }

    /// Conversion to a truth value: only a truth value converts.
    pub open spec fn truth(self) -> Result<bool, ConversionError> {
        match self {
            WireValue::Bool(b) => Ok(b),
            _ => Err(ConversionError::WrongType(Target::Truth)),
        }
    }

    /// Conversion to a mapping.
    pub open spec fn dict(self) -> Result<WireDict<'a>, ConversionError> {
        match self {
            WireValue::Dict(d) => Ok(d),
            _ => Err(ConversionError::WrongType(Target::Mapping)),
        }
    }

    /// Conversion to a list (a tuple is not a list).
    pub open spec fn list(self) -> Result<Seq<WireValue<'a>>, ConversionError> {
        match self {
            WireValue::List(v) => Ok(v@),
            _ => Err(ConversionError::WrongType(Target::Sequence)),
        }
    }

    /// Conversion to a sequence of texts: a list or a tuple of texts, or an
    /// empty byte string.
    pub open spec fn texts(self) -> Result<Seq<String>, ConversionError> {
        let items = match self {
            WireValue::List(v) => Some(v@),
            WireValue::Tuple(v) => Some(v@),
            WireValue::Bytes(b) => if b@.len() == 0 {
                Some(Seq::empty())
            } else {
                None
            },
            _ => None,
        };
        match items {
            Some(s) => match texts_of(s, s.len() as int) {
                Some(t) => Ok(t),
                None => Err(ConversionError::WrongType(Target::TextSequence)),
            },
            None => Err(ConversionError::WrongType(Target::TextSequence)),
        }
    }

    pub fn to_text(&self) -> (r: Result<String, ConversionError>)
        ensures
            r == self.text(),
    {
        match self {
            WireValue::Str(s) => Ok(s.clone()),
            _ => Err(ConversionError::WrongType(Target::Text)),
        }
    }

    /// The integer that this converts to, if it does.
    fn to_integer(&self) -> (r: Option<i128>)
        ensures
            match r {
                Some(i) => integer_of(*self) == Some(i as int),
                None => integer_of(*self) is None,
            },
    {
        match self {
            WireValue::Number(n) => n.integer,
            WireValue::Bool(b) => if *b { Some(1) } else { Some(0) },
            _ => None,
        }
    }

    pub fn to_unsigned(&self) -> (r: Result<usize, ConversionError>)
        ensures
            r == self.unsigned(),
    {
        match self.to_integer() {
            Some(i) => if 0 <= i && i <= usize::MAX as i128 {
                Ok(i as usize)
            } else {
                Err(ConversionError::OutOfRange(Target::Unsigned))
            },
            None => Err(ConversionError::WrongType(Target::Unsigned)),
        }
    }

    pub fn to_signed(&self) -> (r: Result<i64, ConversionError>)
        ensures
            r == self.signed(),
    {
        match self.to_integer() {
            Some(i) => if i64::MIN as i128 <= i && i <= i64::MAX as i128 {
                Ok(i as i64)
            } else {
                Err(ConversionError::OutOfRange(Target::Signed))
            },
            None => Err(ConversionError::WrongType(Target::Signed)),
        }
    }

    pub fn to_float(&self) -> (r: Result<F64Bits, ConversionError>)
        ensures
            r == self.float(),
    {
        match self {
            WireValue::Number(n) => match n.float {
                Some(f) => Ok(f),
                None => match n.integer {
                    Some(_) => Err(ConversionError::OutOfRange(Target::Float)),
                    None => Err(ConversionError::WrongType(Target::Float)),
                },
            },
            WireValue::Bool(b) => Ok(F64Bits(if *b { F64_ONE } else { 0 })),
            _ => Err(ConversionError::WrongType(Target::Float)),
        }
    }

    pub fn to_truth(&self) -> (r: Result<bool, ConversionError>)
        ensures
            r == self.truth(),
    {
        match self {
            WireValue::Bool(b) => Ok(*b),
            _ => Err(ConversionError::WrongType(Target::Truth)),
        }
    }

    pub fn to_dict(&self) -> (r: Result<&WireDict<'a>, ConversionError>)
        ensures
            match r {
                Ok(d) => self.dict() == Ok::<WireDict, ConversionError>(*d),
                Err(e) => self.dict() == Err::<WireDict, ConversionError>(e),
            },
    {
        match self {
            WireValue::Dict(d) => Ok(d),
            _ => Err(ConversionError::WrongType(Target::Mapping)),
        }
    }

    pub fn to_list(&self) -> (r: Result<&Vec<WireValue<'a>>, ConversionError>)
        ensures
            match r {
                Ok(v) => self.list() == Ok::<Seq<WireValue>, ConversionError>(v@),
                Err(e) => self.list() == Err::<Seq<WireValue>, ConversionError>(e),
            },
    {
        match self {
            WireValue::List(v) => Ok(v),
            _ => Err(ConversionError::WrongType(Target::Sequence)),
        }
    }

    pub fn to_texts(&self) -> (r: Result<Vec<String>, ConversionError>)
        ensures
            match r {
                Ok(v) => self.texts() == Ok::<Seq<String>, ConversionError>(v@),
                Err(e) => self.texts() == Err::<Seq<String>, ConversionError>(e),
            },
    {
        match self {
            WireValue::List(v) => collect_texts(v),
            WireValue::Tuple(v) => collect_texts(v),
            WireValue::Bytes(b) => if b.len() == 0 {
                let none: Vec<String> = Vec::new();
                assert(none@ =~= Seq::<String>::empty());
                Ok(none)
            } else {
                Err(ConversionError::WrongType(Target::TextSequence))
            },
            _ => Err(ConversionError::WrongType(Target::TextSequence)),
        }
    }
}

/// The items as texts, when all of them are.
fn collect_texts(items: &Vec<WireValue>) -> (r: Result<Vec<String>, ConversionError>)
    ensures
        match r {
            Ok(v) => texts_of(items@, items@.len() as int) == Some(v@),
            Err(e) => texts_of(items@, items@.len() as int) is None && e
                == ConversionError::WrongType(Target::TextSequence),
        },
{
    let mut out: Vec<String> = Vec::new();
    let mut i: usize = 0;
    assert(out@ =~= Seq::<String>::empty());
    while i < items.len()
        invariant
            i <= items@.len(),
            texts_of(items@, i as int) == Some(out@),
        decreases items@.len() - i,
    {
        match &items[i] {
            WireValue::Str(s) => {
                out.push(s.clone());
            },
            _ => {
                proof {
                    lemma_texts_of_prefix(items@, i + 1, items@.len() as int);
                }
                return Err(ConversionError::WrongType(Target::TextSequence));
            },
        }
        i = i + 1;
    }
    Ok(out)
}

/// A lookup finds the first entry with the key.
pub proof fn lookups_find_the_first_entry(d: WireDict, key: Seq<char>, i: int)
    requires
        0 <= i < d.entries@.len(),
        d.entries@[i].0@ == key,
        forall|j: int| 0 <= j < i ==> (#[trigger] d.entries@[j]).0@ != key,
    ensures
        d.lookup(key) == Some(d.entries@[i].1),
{
    lemma_found(d.entries@, key, 0, i);
}

/// A lookup of a key that no entry has finds nothing.
pub proof fn lookups_find_nothing_else(d: WireDict, key: Seq<char>)
    requires
        forall|j: int| 0 <= j < d.entries@.len() ==> (#[trigger] d.entries@[j]).0@ != key,
    ensures
        d.lookup(key) is None,
        d.text_at(key) is None,
{
    lemma_first_entry(d.entries@, key, 0);
}

/// The search passes over the entries before the first one with the key.
proof fn lemma_found(entries: Seq<(String, WireValue)>, key: Seq<char>, from: int, i: int)
    requires
        0 <= from <= i < entries.len(),
        entries[i].0@ == key,
        forall|j: int| 0 <= j < i ==> (#[trigger] entries[j]).0@ != key,
    ensures
        first_entry(entries, key, from) == i,
    decreases i - from,
{
    if from < i {
        lemma_found(entries, key, from + 1, i);
    }
}

/// Each conversion gives back the value that was sent: texts, truth values,
/// mappings, lists, and numbers that lie in the range of the type asked for.
pub proof fn sent_values_convert_back<'a>(
    s: String,
    b: bool,
    n: WireNumber,
    d: WireDict<'a>,
    items: Vec<WireValue<'a>>,
)
    ensures
        WireValue::Str(s).text() == Ok::<String, ConversionError>(s),
        WireValue::Bool(b).truth() == Ok::<bool, ConversionError>(b),
        WireValue::Dict(d).dict() == Ok::<WireDict<'a>, ConversionError>(d),
        WireValue::List(items).list() == Ok::<Seq<WireValue<'a>>, ConversionError>(items@),
        n.integer matches Some(i) ==> (WireValue::Number(n).unsigned() matches Ok(u) ==> u == i),
        n.integer matches Some(i) ==> (WireValue::Number(n).signed() matches Ok(k) ==> k == i),
        n.integer matches Some(i) ==> (WireValue::Number(n).unsigned() is Ok <==> 0 <= i
            <= usize::MAX),
        n.integer matches Some(i) ==> (WireValue::Number(n).signed() is Ok <==> i64::MIN <= i
            <= i64::MAX),
        n.float matches Some(f) ==> WireValue::Number(n).float() == Ok::<F64Bits, ConversionError>(
            f,
        ),
        WireValue::Bool(b).unsigned() is Ok && (WireValue::Bool(b).unsigned()->Ok_0 == 1 <==> b) && (
        WireValue::Bool(b).unsigned()->Ok_0 == 0 <==> !b),
        WireValue::Bool(b).signed() is Ok && (WireValue::Bool(b).signed()->Ok_0 == 1 <==> b) && (
        WireValue::Bool(b).signed()->Ok_0 == 0 <==> !b),
        WireValue::Bool(b).float() matches Ok(f) && (b ==> f.0 == 0x3ff0_0000_0000_0000) && (!b
            ==> f.0 == 0),
{
}

/// An integer outside the range asked for is out of range; a value of another
/// type is of the wrong type.
pub proof fn conversions_fail_by_range_or_type(v: WireValue)
    ensures
        v.unsigned() matches Err(e) ==> e == (if integer_of(v) is Some {
            ConversionError::OutOfRange(Target::Unsigned)
        } else {
            ConversionError::WrongType(Target::Unsigned)
        }),
        v.signed() matches Err(e) ==> e == (if integer_of(v) is Some {
            ConversionError::OutOfRange(Target::Signed)
        } else {
            ConversionError::WrongType(Target::Signed)
        }),
        v.float() matches Err(e) ==> e == (if integer_of(v) is Some {
            ConversionError::OutOfRange(Target::Float)
        } else {
            ConversionError::WrongType(Target::Float)
        }),
        v.text() is Ok ==> v is Str,
        v.truth() is Ok ==> v is Bool,
        v.dict() is Ok ==> v is Dict,
        v.list() is Ok ==> v is List,
        v.float() is Ok ==> v is Number || v is Bool,
        v.unsigned() is Ok ==> v is Number || v is Bool,
        v.signed() is Ok ==> v is Number || v is Bool,
{
}

/// A list or a tuple of texts converts to those texts, in order; one with an
/// item that is no text does not convert. Of bytes only none convert.
pub proof fn text_lists_convert_back(items: Vec<WireValue>, texts: Seq<String>, bytes: &[u8])
    ensures
        WireValue::List(items).texts() == Ok::<Seq<String>, ConversionError>(texts)
            <==> texts.len() == items@.len() && forall|i: int|
            0 <= i < texts.len() ==> #[trigger] items@[i] == WireValue::Str(texts[i]),
        WireValue::Tuple(items).texts() == WireValue::List(items).texts(),
        WireValue::Bytes(bytes).texts() is Ok <==> bytes@.len() == 0,
        WireValue::Bytes(bytes).texts() matches Ok(none) ==> none.len() == 0,
{
    lemma_texts_one_by_one(items@, texts, items@.len() as int);
}

/// The texts of a prefix are those of its items.
proof fn lemma_texts_one_by_one(items: Seq<WireValue>, texts: Seq<String>, n: int)
    requires
        0 <= n <= items.len(),
    ensures
        texts_of(items, n) == Some(texts) <==> texts.len() == n && forall|i: int|
            0 <= i < texts.len() ==> #[trigger] items[i] == WireValue::Str(texts[i]),
    decreases n,
{
    if n > 0 {
        if texts.len() > 0 {
            let front = texts.drop_last();
            lemma_texts_one_by_one(items, front, n - 1);
            assert(texts =~= front.push(texts.last()));
            if texts_of(items, n) == Some(texts) {
                let f = texts_of(items, n - 1)->Some_0;
                assert(f.push(items[n - 1]->Str_0).drop_last() =~= f);
                assert(f == front);
                assert(items[n - 1] == WireValue::Str(texts[n - 1]));
            }
            if texts.len() == n && forall|i: int|
                0 <= i < texts.len() ==> #[trigger] items[i] == WireValue::Str(texts[i]) {
                assert forall|i: int| 0 <= i < front.len() implies #[trigger] items[i]
                    == WireValue::Str(front[i]) by {
                    assert(items[i] == WireValue::Str(texts[i]));
                }
                assert(items[n - 1] == WireValue::Str(texts[n - 1]));
            }
        }
    } else {
        if texts.len() == 0 {
            assert(texts =~= Seq::empty());
        }
    }
}

/// Doubles compare by value: every number equals itself, a NaN nothing, and
/// the two zeros each other.
pub proof fn doubles_compare_by_value(a: F64Bits, b: F64Bits)
    ensures
        a.ieee_equal(a) <==> a.0 <= 0x7ff0_0000_0000_0000 || 0x8000_0000_0000_0000 <= a.0
            <= 0xfff0_0000_0000_0000,
        a.ieee_equal(b) <==> b.ieee_equal(a),
        a.ieee_equal(b) && a.0 != b.0 ==> (a.0 == 0 && b.0 == 0x8000_0000_0000_0000) || (b.0 == 0
            && a.0 == 0x8000_0000_0000_0000),
        a.0 == 0 && b.0 == 0x8000_0000_0000_0000 ==> a.ieee_equal(b),
{
}

} // verus!
