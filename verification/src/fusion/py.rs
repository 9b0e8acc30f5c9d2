//! Scope construction from the texts that the analyzer sends.

use vstd::prelude::*;

use crate::error::{Failure, Fault};
use crate::fusion::density::{density_route, density_routes_gpu, CpuReason, RouteDecision};
use crate::fusion::scope::{FusionScope, InputDtype, NodeIdx};
use crate::fusion::supported_ops::{
    all_op_ids, all_ops, op_names_are_distinct, op_spec, registry_holds_each_op_once, OpId, OpSpec,
};
use crate::text;
use crate::text::decimal;

verus! {

/// The analyzer can name the operation.
pub open spec fn nameable(op: OpId) -> bool {
    op != OpId::RowIndex && op != OpId::Take
}

/// The operation that a text names.
pub fn op_id_from_str(s: &str) -> (r: Option<OpId>)
    ensures
        match r {
            Some(op) => nameable(op) && op.label() == s@,
            None => forall|op: OpId| #[trigger] nameable(op) ==> op.label() != s@,
        },
{
    let all: Vec<OpId> = all_op_ids();
    let mut i: usize = 0;
    while i < all.len()
        invariant
            i <= all@.len(),
            all@ == all_ops(),
            forall|j: int| 0 <= j < i && nameable(#[trigger] all@[j]) ==> all@[j].label() != s@,
        decreases all@.len() - i,
    {
        let op: OpId = all[i];
        if op != OpId::RowIndex && op != OpId::Take && text::same(op.name(), s) {
            return Some(op);
        }
        i = i + 1;
    }
    assert forall|op: OpId| #[trigger] nameable(op) implies op.label() != s@ by {
        registry_holds_each_op_once(op, 0);
        assert(all@[op.number()] == op);
    }
    None
}

/// The text names this operation and no other.
pub proof fn a_name_means_one_op(op: OpId, other: OpId, s: Seq<char>)
    requires
        op.label() == s,
        other.label() == s,
    ensures
        op == other,
{
    op_names_are_distinct(op, other);
}

/// The characters of a text.
fn chars_of(s: &str) -> (r: Vec<char>)
    ensures
        r@ == s@,
{
    let n: usize = s.unicode_len();
    let mut out: Vec<char> = Vec::new();
    let mut i: usize = 0;
    while i < n
        invariant
            i <= n,
            n == s@.len(),
            out@ =~= s@.take(i as int),
        decreases n - i,
    {
        out.push(s.get_char(i));
        i = i + 1;
    }
    assert(s@.take(i as int) =~= s@);
    out
}

/// The value of a decimal digit.
pub open spec fn digit_value(c: char) -> Option<nat> {
    if '0' <= c <= '9' {
        Some((c as nat - 48) as nat)
    } else {
        None
    }
}

/// The number that the first `n` characters write in decimal.
pub open spec fn digits_value(s: Seq<char>, n: int) -> Option<nat>
    decreases n,
{
    if n <= 0 {
        Some(0)
    } else {
        match digits_value(s, n - 1) {
            None => None,
            Some(front) => match digit_value(s[n - 1]) {
                None => None,
                Some(d) => Some(10 * front + d),
            },
        }
    }
}

/// The machine word that a text writes: an optional plus sign and at least one
/// digit, of a value that fits.
pub open spec fn word_written(s: Seq<char>) -> Option<usize> {
    let digits = if s.len() > 0 && s[0] == '+' {
        s.skip(1)
    } else {
        s
    };
    if digits.len() == 0 {
        None
    } else {
        match digits_value(digits, digits.len() as int) {
            Some(v) => if v <= usize::MAX {
                Some(v as usize)
            } else {
                None
            },
            None => None,
        }
    }
}

proof fn lemma_digits_fail(s: Seq<char>, n: int, m: int)
    requires
        0 <= n <= m,
        digits_value(s, n) is None,
    ensures
        digits_value(s, m) is None,
    decreases m,
{
    if n < m {
        lemma_digits_fail(s, n, m - 1);
    }
}

proof fn lemma_digits_grow(s: Seq<char>, n: int, m: int)
    requires
        0 <= n <= m,
        digits_value(s, n) is Some,
    ensures
        digits_value(s, m) matches Some(v) ==> digits_value(s, n)->Some_0 <= v,
    decreases m,
{
    if n < m {
        lemma_digits_grow(s, n, m - 1);
    }
}

/// Reads a machine word.
fn read_word(s: &Vec<char>) -> (r: Option<usize>)
    ensures
        r == word_written(s@),
{
    let start: usize = if s.len() > 0 && s[0] == '+' {
        1
    } else {
        0
    };
    let ghost digits = s@.skip(start as int);
    assert(s@.skip(0) =~= s@);
    if s.len() == start {
        return None;
    }
    let mut value: u128 = 0;
    let mut i: usize = start;
    while i < s.len()
        invariant
            start <= i <= s@.len(),
            digits == s@.skip(start as int),
            digits == (if s@.len() > 0 && s@[0] == '+' {
                s@.skip(1)
            } else {
                s@
            }),
            digits.len() > 0,
            digits_value(digits, i - start) == Some(value as nat),
            value <= usize::MAX,
        decreases s@.len() - i,
    {
        let c: char = s[i];
        assert(digits[i - start] == c);
        if c < '0' || c > '9' {
            proof {
                lemma_digits_fail(digits, i - start + 1, digits.len() as int);
            }
            return None;
        }
        let d: u128 = (c as u32 - 48) as u128;
        let next: u128 = 10 * value + d;
        if next > usize::MAX as u128 {
            proof {
                lemma_digits_grow(digits, i - start + 1, digits.len() as int);
            }
            return None;
        }
        value = next;
        i = i + 1;
    }
    Some(value as usize)
}

/// The text without any leading occurrence of `prefix`.
pub open spec fn without_prefixes(s: Seq<char>, prefix: Seq<char>) -> Seq<char>
    decreases s.len(),
{
    if prefix.len() > 0 && prefix.is_prefix_of(s) {
        without_prefixes(s.skip(prefix.len() as int), prefix)
    } else {
        s
    }
}

/// The text without trailing closing parentheses.
pub open spec fn without_closing(s: Seq<char>) -> Seq<char>
    decreases s.len(),
{
    if s.len() > 0 && s.last() == ')' {
        without_closing(s.drop_last())
    } else {
        s
    }
}

/// Whether `s` continues with `prefix` at position `at`.
fn continues_with(s: &Vec<char>, prefix: &Vec<char>, at: usize) -> (r: bool)
    requires
        at <= s@.len(),
    ensures
        r == prefix@.is_prefix_of(s@.skip(at as int)),
{
    let total: usize = s.len();
    if total - at < prefix.len() {
        return false;
    }
    let ghost rest = s@.skip(at as int);
    let mut i: usize = 0;
    while i < prefix.len()
        invariant
            at <= total,
            total == s@.len(),
            rest == s@.skip(at as int),
            i <= prefix@.len() <= rest.len(),
            forall|j: int| 0 <= j < i ==> prefix@[j] == rest[j],
        decreases prefix@.len() - i,
    {
        if s[at + i] != prefix[i] {
            assert(prefix@[i as int] != rest.take(prefix@.len() as int)[i as int]);
            return false;
        }
        i = i + 1;
    }
    assert(prefix@ =~= rest.take(prefix@.len() as int));
    true
}

/// The dimension that an array type text gives: what is left of it without
/// leading `ArrayF32(` and trailing parentheses.
pub open spec fn array_dim(s: Seq<char>) -> Option<usize> {
    word_written(without_closing(without_prefixes(s, "ArrayF32("@)))
}

/// Reads the dimension of an array type text.
fn read_array_dim(s: &Vec<char>) -> (r: Option<usize>)
    ensures
        r == array_dim(s@),
{
    let prefix: Vec<char> = chars_of("ArrayF32(");
    proof {
        reveal_strlit("ArrayF32(");
    }
    let total: usize = s.len();
    let mut from: usize = 0;
    assert(s@.skip(0) =~= s@);
    while continues_with(s, &prefix, from)
        invariant
            from <= total,
            total == s@.len(),
            prefix@ == "ArrayF32("@,
            prefix@.len() == 9,
            without_prefixes(s@, prefix@) == without_prefixes(s@.skip(from as int), prefix@),
        decreases s@.len() - from,
    {
        assert(s@.skip(from as int).len() >= 9);
        assert(s@.skip(from as int).skip(9) =~= s@.skip(from + 9));
        from = from + 9;
    }
    let ghost body = s@.skip(from as int);
    let mut to: usize = s.len();
    assert(body.take(to - from) =~= body);
    while to > from && s[to - 1] == ')'
        invariant
            from <= to <= s@.len(),
            body == s@.skip(from as int),
            without_closing(body) == without_closing(body.take(to - from)),
        decreases to,
    {
        assert(body.take(to - from).last() == s@[to - 1]);
        assert(body.take(to - from).drop_last() =~= body.take(to - from - 1));
        to = to - 1;
    }
    assert(to > from ==> body.take(to - from).last() == s@[to - 1]);
    let mut inner: Vec<char> = Vec::new();
    let mut i: usize = from;
    while i < to
        invariant
            from <= i <= to <= s@.len(),
            body == s@.skip(from as int),
            inner@ =~= body.take(i - from),
        decreases to - i,
    {
        inner.push(s[i]);
        i = i + 1;
    }
    read_word(&inner)
}

/// The input type that a text names, or the complaint about it.
pub open spec fn input_dtype_named(s: Seq<char>) -> Result<InputDtype, Fault> {
    if s == "F32"@ {
        Ok(InputDtype::F32)
    } else if s == "F64"@ {
        Ok(InputDtype::F64)
    } else if s == "Bool"@ {
        Ok(InputDtype::Bool)
    } else if s == "I32"@ {
        Ok(InputDtype::I32)
    } else if "ArrayF32("@.is_prefix_of(s) {
        match array_dim(s) {
            Some(n) => Ok(InputDtype::ArrayF32(n)),
            None => Err(Fault::Value("bad ArrayF32 dim: "@ + s)),
        }
    } else if s == "ListF32"@ {
        Ok(InputDtype::ListF32)
    } else {
        Err(Fault::Value("unknown InputDtype: "@ + s))
    }
}

/// Parses an input type.
pub fn parse_input_dtype(s: &str) -> (r: Result<InputDtype, Failure>)
    ensures
        match r {
            Ok(d) => input_dtype_named(s@) == Ok::<InputDtype, Fault>(d),
            Err(e) => input_dtype_named(s@) == Err::<InputDtype, Fault>(e@),
        },
{
    if text::same(s, "F32") {
        return Ok(InputDtype::F32);
    }
    if text::same(s, "F64") {
        return Ok(InputDtype::F64);
    }
    if text::same(s, "Bool") {
        return Ok(InputDtype::Bool);
    }
    if text::same(s, "I32") {
        return Ok(InputDtype::I32);
    }
    let chars: Vec<char> = chars_of(s);
    let prefix: Vec<char> = chars_of("ArrayF32(");
    assert(chars@.skip(0) =~= chars@);
    if continues_with(&chars, &prefix, 0) {
        return match read_array_dim(&chars) {
            Some(n) => Ok(InputDtype::ArrayF32(n)),
            None => {
                let mut out: String = "bad ArrayF32 dim: ".to_owned();
                out.append(s);
                Err(Failure::Value(out))
            },
        };
    }
    if text::same(s, "ListF32") {
        return Ok(InputDtype::ListF32);
    }
    let mut out: String = "unknown InputDtype: ".to_owned();
    out.append(s);
    Err(Failure::Value(out))
}

/// Adds an input to a scope by the text of its type; a refused type changes
/// nothing.
pub fn add_input(scope: &mut FusionScope, name: &str, dtype: &str) -> (r: Result<u32, Failure>)
    requires
        old(scope).inputs@.len() <= u32::MAX,
    ensures
        final(scope).ops == old(scope).ops,
        final(scope).outputs == old(scope).outputs,
        match r {
            Ok(idx) => {
                &&& idx == old(scope).inputs@.len()
                &&& final(scope).inputs@.len() == old(scope).inputs@.len() + 1
                &&& final(scope).inputs@.drop_last() == old(scope).inputs@
                &&& final(scope).inputs@.last().column_name@ == name@
                &&& input_dtype_named(dtype@) == Ok::<InputDtype, Fault>(
                    final(scope).inputs@.last().dtype,
                )
            },
            Err(e) => {
                &&& final(scope).inputs == old(scope).inputs
                &&& input_dtype_named(dtype@) == Err::<InputDtype, Fault>(e@)
            },
        },
{
    match parse_input_dtype(dtype) {
        Ok(d) => Ok(scope.add_input(name, d).0),
        Err(e) => Err(e),
    }
}

/// Why an operation named by the analyzer is refused.
pub open spec fn op_fault(op: Option<OpId>, name: Seq<char>, args: usize) -> Option<Fault> {
    match op {
        None => Some(Fault::Value("unknown OpId: "@ + name)),
        Some(o) => if args as u32 != o.arity() {
            Some(
                Fault::Value(
                    name + " expects "@ + decimal(o.arity() as nat) + " args, got "@ + decimal(
                        args as nat,
                    ),
                ),
            )
        } else {
            None
        },
    }
}

/// The operation is the one that the text names, and there is one exactly when
/// the analyzer can name it so.
pub open spec fn names_op(s: Seq<char>, op: Option<OpId>) -> bool {
    match op {
        Some(o) => nameable(o) && o.label() == s,
        None => forall|o: OpId| #[trigger] nameable(o) ==> o.label() != s,
    }
}

/// Adds an operation to a scope by name, with its argument numbers. A refused
/// operation changes nothing.
pub fn push_op(
    scope: &mut FusionScope,
    op_str: &str,
    args: &Vec<u32>,
    param: Option<i64>,
) -> (r: Result<u32, Failure>)
    requires
        old(scope).node_count() <= u32::MAX,
    ensures
        final(scope).inputs == old(scope).inputs,
        final(scope).outputs == old(scope).outputs,
        exists|op: Option<OpId>| #[trigger]
            names_op(op_str@, op) && match r {
                Ok(idx) => {
                    &&& op_fault(op, op_str@, args@.len() as usize) is None
                    &&& idx == old(scope).node_count()
                    &&& final(scope).ops@.len() == old(scope).ops@.len() + 1
                    &&& final(scope).ops@.drop_last() == old(scope).ops@
                    &&& op == Some(final(scope).ops@.last().op)
                    &&& final(scope).ops@.last().param == param
                    &&& final(scope).ops@.last().args@ == args@.map_values(|a: u32| NodeIdx(a))
                },
                Err(e) => {
                    &&& op_fault(op, op_str@, args@.len() as usize) == Some(e@)
                    &&& final(scope).ops == old(scope).ops
                },
            },
{
    let found: Option<OpId> = op_id_from_str(op_str);
    assert(names_op(op_str@, found));
    let op: OpId = match found {
        Some(o) => o,
        None => {
            let mut out: String = "unknown OpId: ".to_owned();
            out.append(op_str);
            return Err(Failure::Value(out));
        },
    };
    let spec: OpSpec = op_spec(op);
    if args.len() as u32 != spec.n_args {
        let mut out: String = op_str.to_owned();
        out.append(" expects ");
        text::push_decimal(&mut out, spec.n_args as u128);
        out.append(" args, got ");
        text::push_decimal(&mut out, args.len() as u128);
        return Err(Failure::Value(out));
    }
    let mut numbers: Vec<NodeIdx> = Vec::new();
    let mut i: usize = 0;
    while i < args.len()
        invariant
            i <= args@.len(),
            numbers@ =~= args@.take(i as int).map_values(|a: u32| NodeIdx(a)),
        decreases args@.len() - i,
    {
        numbers.push(NodeIdx(args[i]));
        i = i + 1;
    }
    assert(args@.take(i as int) =~= args@);
    let ghost before = scope.ops@;
    let idx: u32 = scope.push_op_param(op, numbers, param).0;
    assert(scope.ops@.drop_last() =~= before);
    Ok(idx)
}

/// The text of a routing decision.
pub open spec fn route_text(d: RouteDecision) -> Seq<char> {
    match d {
        RouteDecision::Gpu => "Gpu"@,
        RouteDecision::Cpu(CpuReason::BelowRowsThreshold) => "Cpu(BelowRowsThreshold)"@,
        RouteDecision::Cpu(CpuReason::BelowFlopsThreshold) => "Cpu(BelowFlopsThreshold)"@,
        RouteDecision::Cpu(CpuReason::EmptyScope) => "Cpu(EmptyScope)"@,
    }
}

/// The routing decision of a scope, as text.
pub fn route_decision(scope: &FusionScope, n_rows: usize) -> (r: String)
    ensures
        r@ == route_text(density_route(*scope, n_rows as nat)),
{
    match density_routes_gpu(scope, n_rows) {
        RouteDecision::Gpu => "Gpu".to_owned(),
        RouteDecision::Cpu(CpuReason::BelowRowsThreshold) => "Cpu(BelowRowsThreshold)".to_owned(),
        RouteDecision::Cpu(CpuReason::BelowFlopsThreshold) => "Cpu(BelowFlopsThreshold)".to_owned(),
        RouteDecision::Cpu(CpuReason::EmptyScope) => "Cpu(EmptyScope)".to_owned(),
    }
}

} // verus!
