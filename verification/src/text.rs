//! Building and comparing text: the numerals and fragments that messages and
//! node ids are made of, stated over sequences of characters.

use vstd::prelude::*;

verus! {

/// The digit of value `d` in bases up to sixteen, in lower case.
pub open spec fn digit(d: nat) -> char {
    if d < 10 {
        (48 + d) as char
    } else {
        (87 + d) as char
    }
}

/// The numeral of `n` in the given base, most significant digit first, with
/// no leading zero (zero itself is the single digit `0`).
pub open spec fn numeral(n: nat, base: nat) -> Seq<char>
    decreases n,
{
    if n < base || base < 2 {
        seq![digit(n)]
    } else {
        proof {
            assert(n / base < n) by (nonlinear_arith)
                requires
                    n >= base,
                    base >= 2,
            ;
        }
        numeral(n / base, base).push(digit(n % base))
    }
}

/// The decimal numeral of a natural number.
pub open spec fn decimal(n: nat) -> Seq<char> {
    numeral(n, 10)
}

/// The decimal numeral of an integer, with a leading `-` when it is negative.
pub open spec fn signed_decimal(i: int) -> Seq<char> {
    if i < 0 {
        "-"@ + decimal((-i) as nat)
    } else {
        decimal(i as nat)
    }
}

/// The lower-case hexadecimal numeral with the prefix `0x`.
pub open spec fn prefixed_hex(n: nat) -> Seq<char> {
    "0x"@ + numeral(n, 16)
}

/// Decimal numerals are made of decimal digits only.
pub proof fn decimals_are_digits(n: nat, i: int)
    requires
        0 <= i < decimal(n).len(),
    ensures
        '0' <= decimal(n)[i] <= '9',
    decreases n,
{
    if n >= 10 {
        let front = decimal(n / 10);
        assert(decimal(n) == front.push(digit(n % 10)));
        if i < front.len() {
            decimals_are_digits(n / 10, i);
        }
    }
}

/// Different numbers have different decimal numerals.
pub proof fn decimals_are_distinct(a: nat, b: nat)
    requires
        decimal(a) == decimal(b),
    ensures
        a == b,
    decreases a,
{
    let x = decimal(a);
    let y = decimal(b);
    lemma_numeral_not_empty(a);
    lemma_numeral_not_empty(b);
    assert(x.last() == digit(a % 10)) by {
        if a < 10 {
            assert(x =~= seq![digit(a)]);
        }
    }
    assert(y.last() == digit(b % 10)) by {
        if b < 10 {
            assert(y =~= seq![digit(b)]);
        }
    }
    assert(a % 10 == b % 10);
    if a >= 10 && b >= 10 {
        assert(x.drop_last() =~= decimal(a / 10));
        assert(y.drop_last() =~= decimal(b / 10));
        decimals_are_distinct(a / 10, b / 10);
    } else if a >= 10 {
        lemma_numeral_not_empty(a / 10);
        assert(x.len() == decimal(a / 10).len() + 1);
        assert(y.len() == 1);
    } else if b >= 10 {
        lemma_numeral_not_empty(b / 10);
        assert(y.len() == decimal(b / 10).len() + 1);
        assert(x.len() == 1);
    }
}

proof fn lemma_numeral_not_empty(n: nat)
    ensures
        decimal(n).len() >= 1,
{
}

/// The characters of each text in a list.
pub open spec fn views(texts: Seq<String>) -> Seq<Seq<char>> {
    texts.map_values(|t: String| t@)
}

/// The distinct items of a list, each where it first occurs.
pub open spec fn first_seen(items: Seq<Seq<char>>) -> Seq<Seq<char>>
    decreases items.len(),
{
    if items.len() == 0 {
        Seq::empty()
    } else {
        let front = first_seen(items.drop_last());
        if front.contains(items.last()) {
            front
        } else {
            front.push(items.last())
        }
    }
}

/// First-seen order keeps every item of the list, adds none, and repeats none.
pub proof fn first_seen_is_a_set_of_the_items(items: Seq<Seq<char>>)
    ensures
        first_seen(items).no_duplicates(),
        first_seen(items).len() <= items.len(),
        forall|x: Seq<char>| #[trigger] first_seen(items).contains(x) <==> items.contains(x),
    decreases items.len(),
{
    if items.len() > 0 {
        let front = items.drop_last();
        first_seen_is_a_set_of_the_items(front);
        assert forall|x: Seq<char>| #[trigger] first_seen(items).contains(x) <==> items.contains(
            x,
        ) by {
            let f = first_seen(front);
            assert(items =~= front.push(items.last()));
            if items.contains(x) {
                let i = choose|i: int| 0 <= i < items.len() && items[i] == x;
                if i < front.len() {
                    assert(front[i] == x);
                    assert(f.contains(x));
                }
                if !f.contains(items.last()) {
                    let j = choose|j: int| 0 <= j < f.len() && f[j] == x;
                    if f.contains(x) {
                        assert(f.push(items.last())[j] == x);
                    } else {
                        assert(f.push(items.last())[f.len() as int] == x);
                    }
                }
            }
            if first_seen(items).contains(x) {
                if f.contains(x) {
                    assert(front.contains(x));
                    let k = choose|k: int| 0 <= k < front.len() && front[k] == x;
                    assert(items[k] == x);
                } else {
                    assert(x == items.last());
                    assert(items[items.len() - 1] == x);
                }
            }
        }
    }
}

/// Two strings are the same exactly when they hold the same characters.
pub fn same(a: &str, b: &str) -> (r: bool)
    ensures
        r == (a@ == b@),
{
    broadcast use vstd::utf8::encode_utf8_decode_utf8;

    let x: &[u8] = a.as_bytes();
    let y: &[u8] = b.as_bytes();
    assert(x@ == y@ ==> a@ == b@) by {
        assert(vstd::utf8::decode_utf8(vstd::utf8::encode_utf8(a@)) == a@);
        assert(vstd::utf8::decode_utf8(vstd::utf8::encode_utf8(b@)) == b@);
    }
    if x.len() != y.len() {
        return false;
    }
    let mut i: usize = 0;
    while i < x.len()
        invariant
            i <= x.len(),
            x.len() == y.len(),
            x@ == vstd::utf8::encode_utf8(a@),
            y@ == vstd::utf8::encode_utf8(b@),
            forall|j: int| 0 <= j < i ==> x@[j] == y@[j],
        decreases x.len() - i,
    {
        if x[i] != y[i] {
            return false;
        }
        i = i + 1;
    }
    assert(x@ =~= y@);
    true
}

/// Whether some text of the list equals `needle`.
pub fn any_same(texts: &Vec<String>, needle: &str) -> (r: bool)
    ensures
        r == views(texts@).contains(needle@),
{
    let mut i: usize = 0;
    while i < texts.len()
        invariant
            i <= texts@.len(),
            forall|j: int| 0 <= j < i ==> texts@[j]@ != needle@,
        decreases texts@.len() - i,
    {
        if same(texts[i].as_str(), needle) {
            assert(views(texts@)[i as int] == needle@);
            return true;
        }
        i = i + 1;
    }
    false
}

/// The one-character string holding the digit of value `d`.
fn digit_str(d: u8) -> (s: &'static str)
    requires
        d < 16,
    ensures
        s@ == seq![digit(d as nat)],
{
    proof {
        reveal_strlit("0");
        reveal_strlit("1");
        reveal_strlit("2");
        reveal_strlit("3");
        reveal_strlit("4");
        reveal_strlit("5");
        reveal_strlit("6");
        reveal_strlit("7");
        reveal_strlit("8");
        reveal_strlit("9");
        reveal_strlit("a");
        reveal_strlit("b");
        reveal_strlit("c");
        reveal_strlit("d");
        reveal_strlit("e");
        reveal_strlit("f");
    }
    match d {
        0 => "0",
        1 => "1",
        2 => "2",
        3 => "3",
        4 => "4",
        5 => "5",
        6 => "6",
        7 => "7",
        8 => "8",
        9 => "9",
        10 => "a",
        11 => "b",
        12 => "c",
        13 => "d",
        14 => "e",
        _ => "f",
    }
}

/// Appends the numeral of `n` in a base of at most sixteen.
fn push_numeral(out: &mut String, n: u128, base: u8)
    requires
        2 <= base <= 16,
    ensures
        final(out)@ == old(out)@ + numeral(n as nat, base as nat),
    decreases n,
{
    let wide: u128 = base as u128;
    if n < wide {
        out.append(digit_str(n as u8));
    } else {
        assert(n / wide < n) by (nonlinear_arith)
            requires
                n >= wide,
                wide >= 2,
        ;
        push_numeral(out, n / wide, base);
        let low: u128 = n % wide;
        assert(low < wide) by (nonlinear_arith)
            requires
                low == n % wide,
                wide >= 2,
        ;
        out.append(digit_str(low as u8));
        assert(final(out)@ =~= old(out)@ + numeral(n as nat, base as nat));
    }
}

/// Appends the decimal numeral of `n`.
pub fn push_decimal(out: &mut String, n: u128)
    ensures
        final(out)@ == old(out)@ + decimal(n as nat),
{
    push_numeral(out, n, 10);
}

/// Appends the decimal numeral of a signed number.
pub fn push_signed(out: &mut String, n: i64)
    ensures
        final(out)@ == old(out)@ + signed_decimal(n as int),
{
    let wide: i128 = n as i128;
    if wide < 0 {
        out.append("-");
        push_numeral(out, (0 - wide) as u128, 10);
        assert(final(out)@ =~= old(out)@ + signed_decimal(n as int));
    } else {
        push_numeral(out, wide as u128, 10);
    }
}

/// The text between quotation marks that Rust's debug formatting gives for a
/// string, with special characters escaped.
pub uninterp spec fn quoted(s: Seq<char>) -> Seq<char>;

/// Calls the `Debug` formatting of `str`, through `format!`: the text that it
/// writes depends on the characters of the string alone.
#[verifier::external_body]
pub(crate) fn quote(s: &str) -> (r: String)
    ensures
        r@ == quoted(s@),
{
    format!("{:?}", s)
}

/// Appends a string in quotation marks.
pub fn push_quoted(out: &mut String, s: &str)
    ensures
        final(out)@ == old(out)@ + quoted(s@),
{
    let q: String = quote(s);
    out.append(q.as_str());
}

/// Appends the hexadecimal numeral of `n` with its `0x` prefix.
pub fn push_hex(out: &mut String, n: u128)
    ensures
        final(out)@ == old(out)@ + prefixed_hex(n as nat),
{
    out.append("0x");
    push_numeral(out, n, 16);
    assert(final(out)@ =~= old(out)@ + prefixed_hex(n as nat));
}

/// The value of a digit in bases up to sixteen.
pub open spec fn digit_value(c: char) -> int {
    if '0' <= c <= '9' {
        c as int - '0' as int
    } else {
        10 + c as int - 'a' as int
    }
}

/// The number that a numeral stands for, most significant digit first.
pub open spec fn numeral_value(s: Seq<char>, base: int) -> int
    decreases s.len(),
{
    if s.len() == 0 {
        0
    } else {
        base * numeral_value(s.drop_last(), base) + digit_value(s.last())
    }
}

/// A numeral stands for its number, in bases from two to sixteen, and has no
/// leading zero unless the number is zero.
pub proof fn numerals_stand_for_their_numbers(n: nat, base: nat)
    requires
        2 <= base <= 16,
    ensures
        numeral_value(numeral(n, base), base as int) == n,
        numeral(n, base).len() >= 1,
        numeral(n, base)[0] == '0' <==> n == 0,
        n == 0 ==> numeral(n, base).len() == 1,
    decreases n,
{
    let s = numeral(n, base);
    if n < base {
        assert(s =~= seq![digit(n)]);
        assert(s.drop_last().len() == 0);
        assert(numeral_value(s.drop_last(), base as int) == 0);
        assert(base * 0 == 0);
    } else {
        assert(0 < n / base < n) by (nonlinear_arith)
            requires
                n >= base,
                base >= 2,
        ;
        numerals_stand_for_their_numbers(n / base, base);
        assert(s.drop_last() =~= numeral(n / base, base));
        assert(n == base * (n / base) + n % base && 0 <= n % base < base) by (nonlinear_arith)
            requires
                base >= 2,
        ;
    }
}

/// A decimal stands for its number, a signed decimal for its number with a
/// minus before the digits of a negative one, and a prefixed numeral for its
/// number in base sixteen.
pub proof fn decimals_stand_for_their_numbers(n: nat, i: int)
    ensures
        numeral_value(decimal(n), 10) == n,
        i >= 0 ==> numeral_value(signed_decimal(i), 10) == i,
        i < 0 ==> signed_decimal(i)[0] == '-' && numeral_value(signed_decimal(i).skip(1), 10) == -i,
        prefixed_hex(n).take(2) == seq!['0', 'x'],
        numeral_value(prefixed_hex(n).skip(2), 16) == n,
{
    reveal_strlit("-");
    reveal_strlit("0x");
    numerals_stand_for_their_numbers(n, 10);
    numerals_stand_for_their_numbers(n, 16);
    assert(prefixed_hex(n).take(2) =~= seq!['0', 'x']);
    assert(prefixed_hex(n).skip(2) =~= numeral(n, 16));
    if i < 0 {
        numerals_stand_for_their_numbers((-i) as nat, 10);
        assert(signed_decimal(i).skip(1) =~= decimal((-i) as nat));
    } else {
        numerals_stand_for_their_numbers(i as nat, 10);
    }
}

/// What was seen first stays first: the distinct items of the beginning of a
/// list begin the distinct items of the list.
pub proof fn first_seen_keeps_the_beginning(items: Seq<Seq<char>>, k: int)
    requires
        0 <= k <= items.len(),
    ensures
        first_seen(items.take(k)).is_prefix_of(first_seen(items)),
    decreases items.len(),
{
    if k == items.len() {
        assert(items.take(k) =~= items);
    } else {
        first_seen_keeps_the_beginning(items.drop_last(), k);
        assert(items.drop_last().take(k) =~= items.take(k));
    }
}

} // verus!
