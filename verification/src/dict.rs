//! Dictionary encoding of text columns: the distinct values, in the order in
//! which they are first seen, and a parallel column of codes that index them.

use vstd::hash_map::StringHashMap;
use vstd::prelude::*;

use crate::text::{
    first_seen, first_seen_is_a_set_of_the_items, first_seen_keeps_the_beginning, views,
};

verus! {

/// The characters of each string of a slice.
pub open spec fn str_views(strings: Seq<&str>) -> Seq<Seq<char>> {
    Seq::new(strings.len(), |i: int| strings[i]@)
}

/// The characters of each row; `None` for a null row.
pub open spec fn row_views(rows: Seq<Option<&str>>) -> Seq<Option<Seq<char>>> {
    Seq::new(
        rows.len(),
        |i: int|
            match rows[i] {
                Some(s) => Some(s@),
                None => None,
            },
    )
}

/// The values of the rows that are not null, in order.
pub open spec fn present(rows: Seq<Option<Seq<char>>>) -> Seq<Seq<char>>
    decreases rows.len(),
{
    if rows.len() == 0 {
        Seq::empty()
    } else {
        match rows.last() {
            Some(s) => present(rows.drop_last()).push(s),
            None => present(rows.drop_last()),
        }
    }
}

/// `code` is the 32-bit index of `s` in a dictionary that holds it.
pub open spec fn is_code(dict: Seq<Seq<char>>, s: Seq<char>, code: u32) -> bool {
    exists|k: int| 0 <= k < dict.len() && #[trigger] dict[k] == s && code == k as u32
}

/// The dictionary holds the distinct values in first-seen order, and each code
/// is the index of its value.
pub open spec fn encodes(strings: Seq<Seq<char>>, dict: Seq<Seq<char>>, codes: Seq<u32>) -> bool {
    &&& dict == first_seen(strings)
    &&& codes.len() == strings.len()
    &&& forall|i: int| 0 <= i < strings.len() ==> is_code(dict, strings[i], #[trigger] codes[i])
}

/// The same over rows that may be null: a null row has code zero and is not
/// valid.
pub open spec fn encodes_rows(
    rows: Seq<Option<Seq<char>>>,
    dict: Seq<Seq<char>>,
    codes: Seq<u32>,
    valid: Seq<bool>,
) -> bool {
    &&& dict == first_seen(present(rows))
    &&& codes.len() == rows.len()
    &&& valid.len() == rows.len()
    &&& forall|i: int|
        0 <= i < rows.len() ==> {
            &&& #[trigger] valid[i] == rows[i] is Some
            &&& match rows[i] {
                Some(s) => is_code(dict, s, codes[i]),
                None => codes[i] == 0,
            }
        }
}

/// The map from text to code that goes with a dictionary.
spec fn indexes(seen: Map<Seq<char>, u32>, dict: Seq<Seq<char>>) -> bool {
    &&& dict.no_duplicates()
    &&& forall|s: Seq<char>| #[trigger] seen.contains_key(s) <==> dict.contains(s)
    &&& forall|k: int| 0 <= k < dict.len() ==> #[trigger] seen[dict[k]] == k as u32
}

/// Looks a value up, adding it to the dictionary when it is new.
fn intern(dict: &mut Vec<String>, seen: &mut StringHashMap<u32>, s: &str) -> (code: u32)
    requires
        indexes(old(seen)@, views(old(dict)@)),
    ensures
        indexes(final(seen)@, views(final(dict)@)),
        views(final(dict)@) == (if views(old(dict)@).contains(s@) {
            views(old(dict)@)
        } else {
            views(old(dict)@).push(s@)
        }),
        is_code(views(final(dict)@), s@, code),
{
    match seen.get(s) {
        Some(c) => {
            let ghost d = views(dict@);
            assert(d.contains(s@));
            assert(exists|k: int| 0 <= k < d.len() && #[trigger] d[k] == s@ && *c == k as u32) by {
                let k = choose|k: int| 0 <= k < d.len() && d[k] == s@;
                assert(seen@[d[k]] == k as u32);
            }
            *c
        },
        None => {
            let code: u32 = dict.len() as u32;
            let ghost before = views(dict@);
            dict.push(s.to_owned());
            seen.insert(s.to_owned(), code);
            let ghost d = views(dict@);
            assert(d =~= before.push(s@));
            assert(!before.contains(s@));
            assert(d[before.len() as int] == s@);
            assert forall|t: Seq<char>| #[trigger] seen@.contains_key(t) <==> d.contains(t) by {
                if before.contains(t) {
                    let k = choose|k: int| 0 <= k < before.len() && before[k] == t;
                    assert(d[k] == t);
                }
                if d.contains(t) && t != s@ {
                    let k = choose|k: int| 0 <= k < d.len() && d[k] == t;
                    assert(before[k] == t);
                }
            }
            assert forall|k: int| 0 <= k < d.len() implies #[trigger] seen@[d[k]] == k as u32 by {
                if k < before.len() {
                    assert(before[k] == d[k]);
                    assert(before.contains(d[k]));
                }
            }
            code
        },
    }
}

/// A code stays right when the dictionary grows.
proof fn lemma_code_kept(dict: Seq<Seq<char>>, grown: Seq<Seq<char>>, s: Seq<char>, code: u32)
    requires
        is_code(dict, s, code),
        grown == dict || exists|t: Seq<char>| grown == dict.push(t),
    ensures
        is_code(grown, s, code),
{
    let k = choose|k: int| 0 <= k < dict.len() && #[trigger] dict[k] == s && code == k as u32;
    assert(grown[k] == s);
}

/// Encodes `strings` as the dictionary of distinct values and their codes.
pub fn build_dict(strings: &[&str]) -> (r: (Vec<String>, Vec<u32>))
    ensures
        encodes(str_views(strings@), views(r.0@), r.1@),
{
    let mut dict: Vec<String> = Vec::new();
    let mut seen: StringHashMap<u32> = StringHashMap::new();
    let mut codes: Vec<u32> = Vec::new();
    let ghost all = str_views(strings@);
    assert(views(dict@) =~= first_seen(all.take(0)));
    let mut i: usize = 0;
    while i < strings.len()
        invariant
            i <= strings@.len(),
            all == str_views(strings@),
            indexes(seen@, views(dict@)),
            encodes(all.take(i as int), views(dict@), codes@),
        decreases strings@.len() - i,
    {
        let ghost before = views(dict@);
        let code: u32 = intern(&mut dict, &mut seen, strings[i]);
        codes.push(code);
        proof {
            assert(all.take(i + 1).drop_last() =~= all.take(i as int));
            assert forall|j: int| 0 <= j <= i implies is_code(
                views(dict@),
                all.take(i + 1)[j],
                #[trigger] codes@[j],
            ) by {
                if j < i {
                    assert(is_code(before, all.take(i as int)[j], codes@[j]));
                    lemma_code_kept(before, views(dict@), all[j], codes@[j]);
                }
            }
        }
        i = i + 1;
    }
    assert(all.take(i as int) =~= all);
    (dict, codes)
}

/// Encodes rows that may be null. The empty string is a value like any other.
pub fn build_dict_nullable(strings: &[Option<&str>]) -> (r: (Vec<String>, Vec<u32>, Vec<bool>))
    ensures
        encodes_rows(row_views(strings@), views(r.0@), r.1@, r.2@),
{
    let mut dict: Vec<String> = Vec::new();
    let mut seen: StringHashMap<u32> = StringHashMap::new();
    let mut codes: Vec<u32> = Vec::new();
    let mut valid: Vec<bool> = Vec::new();
    let ghost all = row_views(strings@);
    assert(views(dict@) =~= first_seen(present(all.take(0))));
    let mut i: usize = 0;
    while i < strings.len()
        invariant
            i <= strings@.len(),
            all == row_views(strings@),
            indexes(seen@, views(dict@)),
            encodes_rows(all.take(i as int), views(dict@), codes@, valid@),
        decreases strings@.len() - i,
    {
        let ghost before = views(dict@);
        let ghost codes_before = codes@;
        let ghost valid_before = valid@;
        assert(all.take(i + 1).drop_last() =~= all.take(i as int));
        assert(all.take(i + 1).last() == all[i as int]);
        match strings[i] {
            Some(s) => {
                assert(all[i as int] == Some(s@));
                assert(present(all.take(i + 1)) == present(all.take(i as int)).push(s@));
                assert(present(all.take(i + 1)).drop_last() =~= present(all.take(i as int)));
                valid.push(true);
                let code: u32 = intern(&mut dict, &mut seen, s);
                codes.push(code);
            },
            None => {
                valid.push(false);
                codes.push(0);
            },
        }
        proof {
            assert(views(dict@) == first_seen(present(all.take(i + 1))));
            assert forall|j: int| 0 <= j <= i implies {
                &&& #[trigger] valid@[j] == all.take(i + 1)[j] is Some
                &&& match all.take(i + 1)[j] {
                    Some(s) => is_code(views(dict@), s, codes@[j]),
                    None => codes@[j] == 0,
                }
            } by {
                if j < i {
                    assert(valid_before[j] == all.take(i as int)[j] is Some);
                    assert(all.take(i as int)[j] == all[j]);
                    match all[j] {
                        Some(s) => {
                            lemma_code_kept(before, views(dict@), s, codes@[j]);
                        },
                        None => {},
                    }
                }
            }
        }
        i = i + 1;
    }
    assert(all.take(i as int) =~= all);
    (dict, codes, valid)
}

/// The text that each code stands for. Every code must index the dictionary.
pub fn decode_dict(dict: &[String], codes: &[u32]) -> (r: Vec<String>)
    requires
        forall|i: int| 0 <= i < codes@.len() ==> #[trigger] codes@[i] < dict@.len(),
    ensures
        r@.len() == codes@.len(),
        forall|i: int| 0 <= i < codes@.len() ==> #[trigger] r@[i] == dict@[codes@[i] as int],
{
    let mut out: Vec<String> = Vec::new();
    let mut i: usize = 0;
    while i < codes.len()
        invariant
            i <= codes@.len(),
            out@.len() == i,
            forall|j: int| 0 <= j < codes@.len() ==> #[trigger] codes@[j] < dict@.len(),
            forall|j: int| 0 <= j < i ==> #[trigger] out@[j] == dict@[codes@[j] as int],
        decreases codes@.len() - i,
    {
        let code: usize = codes[i] as usize;
        out.push(dict[code].clone());
        i = i + 1;
    }
    out
}

/// Decoding undoes encoding: every code is in range and stands for the string
/// it was made from. The dictionary must not have outgrown 32-bit codes.
pub proof fn decoding_undoes_encoding(
    strings: Seq<Seq<char>>,
    dict: Seq<Seq<char>>,
    codes: Seq<u32>,
)
    requires
        encodes(strings, dict, codes),
        dict.len() <= 0x1_0000_0000,
    ensures
        forall|i: int|
            0 <= i < strings.len() ==> #[trigger] codes[i] < dict.len() && dict[codes[i] as int]
                == strings[i],
{
    assert forall|i: int| 0 <= i < strings.len() implies #[trigger] codes[i] < dict.len()
        && dict[codes[i] as int] == strings[i] by {
        let k = choose|k: int|
            0 <= k < dict.len() && #[trigger] dict[k] == strings[i] && codes[i] == k as u32;
        assert(codes[i] == k);
    }
}

/// Equal strings get equal codes, and different strings get different codes.
pub proof fn codes_are_equal_exactly_for_equal_strings(
    strings: Seq<Seq<char>>,
    dict: Seq<Seq<char>>,
    codes: Seq<u32>,
    i: int,
    j: int,
)
    requires
        encodes(strings, dict, codes),
        dict.len() <= 0x1_0000_0000,
        0 <= i < strings.len(),
        0 <= j < strings.len(),
    ensures
        codes[i] == codes[j] <==> strings[i] == strings[j],
{
    first_seen_is_a_set_of_the_items(strings);
    let ci = codes[i];
    let cj = codes[j];
    let a = choose|k: int| 0 <= k < dict.len() && #[trigger] dict[k] == strings[i] && ci == k as u32;
    let b = choose|k: int| 0 <= k < dict.len() && #[trigger] dict[k] == strings[j] && cj == k as u32;
    assert(ci == a && cj == b);
}

/// Decoding undoes encoding on the rows that are not null.
pub proof fn decoding_undoes_nullable_encoding(
    rows: Seq<Option<Seq<char>>>,
    dict: Seq<Seq<char>>,
    codes: Seq<u32>,
    valid: Seq<bool>,
)
    requires
        encodes_rows(rows, dict, codes, valid),
        dict.len() <= 0x1_0000_0000,
    ensures
        forall|i: int|
            0 <= i < rows.len() && #[trigger] valid[i] ==> codes[i] < dict.len() && rows[i] == Some(
                dict[codes[i] as int],
            ),
{
    assert forall|i: int| 0 <= i < rows.len() && #[trigger] valid[i] implies codes[i] < dict.len()
        && rows[i] == Some(dict[codes[i] as int]) by {
        match rows[i] {
            Some(s) => {
                let k = choose|k: int|
                    0 <= k < dict.len() && #[trigger] dict[k] == s && codes[i] == k as u32;
                assert(codes[i] == k);
            },
            None => {},
        }
    }
}

/// The values of the beginning of a column begin its values.
proof fn lemma_present_keeps_the_beginning(rows: Seq<Option<Seq<char>>>, k: int)
    requires
        0 <= k <= rows.len(),
    ensures
        present(rows.take(k)).is_prefix_of(present(rows)),
    decreases rows.len(),
{
    if k == rows.len() {
        assert(rows.take(k) =~= rows);
    } else {
        lemma_present_keeps_the_beginning(rows.drop_last(), k);
        assert(rows.drop_last().take(k) =~= rows.take(k));
    }
}

/// The distinct values of the beginning of a column begin its dictionary.
proof fn lemma_dictionary_of_the_beginning(rows: Seq<Option<Seq<char>>>, k: int)
    requires
        0 <= k <= rows.len(),
    ensures
        first_seen(present(rows.take(k))).is_prefix_of(first_seen(present(rows))),
{
    lemma_present_keeps_the_beginning(rows, k);
    let a = present(rows.take(k));
    let b = present(rows);
    first_seen_keeps_the_beginning(b, a.len() as int);
    assert(b.take(a.len() as int) =~= a);
}

/// A value is present exactly when some row holds it.
proof fn lemma_present_values(rows: Seq<Option<Seq<char>>>, s: Seq<char>)
    ensures
        present(rows).contains(s) <==> rows.contains(Some(s)),
    decreases rows.len(),
{
    if rows.len() > 0 {
        let front = rows.drop_last();
        lemma_present_values(front, s);
        assert(rows =~= front.push(rows.last()));
        if rows.contains(Some(s)) {
            let i = choose|i: int| 0 <= i < rows.len() && rows[i] == Some(s);
            if i < front.len() {
                assert(front[i] == Some(s));
            }
        }
        if front.contains(Some(s)) {
            let i = choose|i: int| 0 <= i < front.len() && front[i] == Some(s);
            assert(rows[i] == Some(s));
        }
        match rows.last() {
            Some(t) => {
                let f = present(front);
                if f.contains(s) {
                    let j = choose|j: int| 0 <= j < f.len() && f[j] == s;
                    assert(f.push(t)[j] == s);
                }
                if t == s {
                    assert(f.push(t)[f.len() as int] == s);
                    assert(rows[rows.len() - 1] == Some(s));
                }
                if f.push(t).contains(s) && t != s {
                    let j = choose|j: int| 0 <= j < f.push(t).len() && f.push(t)[j] == s;
                    assert(f[j] == s);
                }
            },
            None => {},
        }
    }
}

/// Codes are given out in the order in which values are first seen: a row whose
/// value no earlier row has gets a code above those of all earlier rows, the
/// first of them zero; a null row is not valid.
pub proof fn codes_follow_the_first_rows(
    rows: Seq<Option<Seq<char>>>,
    dict: Seq<Seq<char>>,
    codes: Seq<u32>,
    valid: Seq<bool>,
    i: int,
    j: int,
)
    requires
        encodes_rows(rows, dict, codes, valid),
        dict.len() <= 0x1_0000_0000,
        0 <= j < i < rows.len(),
    ensures
        rows[i] is Some <==> valid[i],
        rows[i] is None ==> codes[i] == 0,
        rows[i] is Some && rows[j] is Some ==> (codes[i] == codes[j] <==> rows[i] == rows[j]),
        rows[i] is Some && rows[j] is Some && !rows.take(i).contains(rows[i]) ==> codes[j]
            < codes[i],
{
    assert(valid[i] == rows[i] is Some);
    assert(valid[j] == rows[j] is Some);
    if rows[i] is Some && rows[j] is Some {
        let s = rows[i]->Some_0;
        let t = rows[j]->Some_0;
        let a = choose|k: int| 0 <= k < dict.len() && #[trigger] dict[k] == s && codes[i] == k as u32;
        let b = choose|k: int| 0 <= k < dict.len() && #[trigger] dict[k] == t && codes[j] == k as u32;
        assert(codes[i] == a && codes[j] == b);
        first_seen_is_a_set_of_the_items(present(rows));
        let seen = present(rows.take(i));
        let early = first_seen(seen);
        lemma_dictionary_of_the_beginning(rows, i);
        first_seen_is_a_set_of_the_items(seen);
        lemma_present_values(rows.take(i), t);
        lemma_present_values(rows.take(i), s);
        assert(rows.take(i)[j] == rows[j]);
        assert(early.contains(t));
        let k = choose|k: int| 0 <= k < early.len() && early[k] == t;
        assert(dict[k] == early[k]);
        assert(k == b);
        if !rows.take(i).contains(rows[i]) {
            assert(!early.contains(s));
            if a < early.len() {
                assert(dict[a] == early[a]);
            }
        }
    }
}

} // verus!
