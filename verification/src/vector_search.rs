//! Tiled top-k vector search: the corpus is searched tile by tile, and the
//! partial answers are merged on the host.
//!
//! Scores are single-precision numbers, held by their bit patterns and ordered
//! as `f32::total_cmp` orders them.

use vstd::arithmetic::power2::{
    lemma_pow2_pos, lemma_pow2_strictly_increases, lemma_pow2_unfold, pow2,
};
use vstd::prelude::*;
use vstd::seq_lib::{group_to_multiset_ensures, lemma_multiset_commutative};

verus! {

/// Search by cosine similarity: larger scores are better.
pub const OP_COSINE: u32 = 0;

/// Search by squared Euclidean distance: smaller scores are better.
pub const OP_KNN_L2: u32 = 1;

/// The size in bytes of a similarity matrix above which the corpus is tiled.
pub const TILE_BYTES: usize = 268435456;

/// The weight of the sign bit of a single-precision bit pattern.
pub const F32_SIGN: u32 = 0x8000_0000;

/// A corpus row with its score for a query.
#[derive(Debug, Clone, Copy, PartialEq, Eq, Structural)]
pub struct Hit {
    pub index: i32,
    pub score: u32,
}

/// What a search compares.
#[derive(Debug, Clone, Copy, PartialEq, Eq, Structural)]
pub enum Metric {
    Cosine,
    SquaredDistance,
}

/// The top-`k` to run over a metric: a partition of the metric, or of its
/// negation where larger is better, around the position `kth`, of which the
/// first `k` are taken.
#[derive(Debug, Clone, Copy, PartialEq, Eq, Structural)]
pub struct TopkDispatch {
    pub metric: Metric,
    pub negated: bool,
    pub kth: i64,
    pub k: i64,
}

/// The metric of an operation code.
pub open spec fn metric_of(op: u32) -> Option<Metric> {
    if op == OP_COSINE {
        Some(Metric::Cosine)
    } else if op == OP_KNN_L2 {
        Some(Metric::SquaredDistance)
    } else {
        None
    }
}

/// The top-`k` that an operation code asks for. The least are taken, so that
/// similarities are negated.
pub open spec fn is_topk(op: u32, k: i64, d: TopkDispatch) -> bool {
    &&& metric_of(op) == Some(d.metric)
    &&& d.negated == (d.metric == Metric::Cosine)
    &&& d.kth == k - 1
    &&& d.k == k
}

/// Decides which top-`k` an operation code asks for. A `k` that is not positive
/// is handed on as it is.
pub fn vector_search_topk(op: u32, k: i64) -> (r: Result<TopkDispatch, String>)
    requires
        i64::MIN < k,
    ensures
        match r {
            Ok(d) => is_topk(op, k, d),
            Err(e) => metric_of(op) is None && e@ == "unknown vector-search op"@,
        },
{
    let metric: Metric = if op == OP_COSINE {
        Metric::Cosine
    } else if op == OP_KNN_L2 {
        Metric::SquaredDistance
    } else {
        return Err("unknown vector-search op".to_owned());
    };
    Ok(TopkDispatch { metric, negated: metric == Metric::Cosine, kth: k - 1, k })
}

/// The place of a bit pattern in the total order of single-precision numbers:
/// negative numbers in reverse order of magnitude, then the others.
pub open spec fn score_place(bits: u32) -> int {
    if bits < F32_SIGN {
        bits as int
    } else {
        F32_SIGN - 1 - bits
    }
}

/// The cost of a score: the less, the better.
pub open spec fn cost(op: u32, bits: u32) -> int {
    if op == OP_COSINE {
        -score_place(bits)
    } else {
        score_place(bits)
    }
}

/// `a` comes before `b` or is the same: a better score first, and of equal
/// scores the smaller index.
pub open spec fn ranked(op: u32, a: Hit, b: Hit) -> bool {
    cost(op, a.score) < cost(op, b.score) || (cost(op, a.score) == cost(op, b.score) && a.index
        <= b.index)
}

/// The hits are in rank order.
pub open spec fn in_order(op: u32, hits: Seq<Hit>) -> bool {
    forall|i: int, j: int| 0 <= i <= j < hits.len() ==> ranked(op, hits[i], hits[j])
}

/// The lesser of two numbers.
pub open spec fn least(a: nat, b: nat) -> nat {
    if a < b {
        a
    } else {
        b
    }
}

/// `rest` is what is left of `all` without `kept`.
pub open spec fn splits(all: Seq<Hit>, kept: Seq<Hit>, rest: Seq<Hit>) -> bool {
    all.to_multiset() == kept.to_multiset().add(rest.to_multiset())
}

/// Every hit kept is ranked before every hit left out.
pub open spec fn all_ranked(op: u32, kept: Seq<Hit>, rest: Seq<Hit>) -> bool {
    forall|i: int, j: int|
        0 <= i < kept.len() && 0 <= j < rest.len() ==> ranked(op, #[trigger] kept[i], #[trigger] rest[j])
}

/// The first `k` hits of `all` in rank order.
pub open spec fn is_top(op: u32, all: Seq<Hit>, k: nat, top: Seq<Hit>) -> bool {
    &&& in_order(op, top)
    &&& top.len() == least(k, all.len())
    &&& exists|rest: Seq<Hit>| #[trigger] splits(all, top, rest) && all_ranked(op, top, rest)
}

/// No hit left out has a better score than a hit kept.
pub open spec fn none_better(op: u32, kept: Seq<Hit>, rest: Seq<Hit>) -> bool {
    forall|i: int, j: int|
        0 <= i < kept.len() && 0 <= j < rest.len() ==> cost(op, (#[trigger] kept[i]).score) <= cost(
            op,
            (#[trigger] rest[j]).score,
        )
}

/// A selection of the `k` best scores of `all`, ties broken either way and in
/// any order: what an unordered top-k gives.
pub open spec fn is_selection(op: u32, all: Seq<Hit>, k: nat, kept: Seq<Hit>) -> bool {
    &&& kept.len() == least(k, all.len())
    &&& exists|rest: Seq<Hit>| #[trigger] splits(all, kept, rest) && none_better(op, kept, rest)
}

/// The hits of two sequences together.
proof fn lemma_joined(a: Seq<Hit>, b: Seq<Hit>)
    ensures
        (a + b).to_multiset() == a.to_multiset().add(b.to_multiset()),
{
    lemma_multiset_commutative(a, b);
}

/// A hit that occurs in the multiset of a sequence is one of its items.
proof fn lemma_counted(s: Seq<Hit>, x: Hit)
    ensures
        s.to_multiset().count(x) > 0 <==> exists|i: int| 0 <= i < s.len() && #[trigger] s[i] == x,
        s.to_multiset().len() == s.len(),
{
    broadcast use group_to_multiset_ensures;

    if s.contains(x) {
        let i = choose|i: int| 0 <= i < s.len() && s[i] == x;
        assert(s[i] == x);
    }
}

/// Nothing outside a full selection `part` beats an item of the top of a
/// collection that contains `part`.
proof fn lemma_outside_not_better(
    op: u32,
    part: Seq<Hit>,
    outside: Hit,
    other: Seq<Hit>,
    top: Seq<Hit>,
    dropped: Seq<Hit>,
    y: Hit,
)
    requires
        top.len() == part.len(),
        (part + other).to_multiset() == top.to_multiset().add(dropped.to_multiset()),
        forall|i: int| 0 <= i < part.len() ==> cost(op, (#[trigger] part[i]).score) <= cost(
            op,
            outside.score,
        ),
        all_ranked(op, top, dropped),
        exists|i: int| 0 <= i < top.len() && #[trigger] top[i] == y,
    ensures
        cost(op, y.score) <= cost(op, outside.score),
{
    if cost(op, outside.score) < cost(op, y.score) {
        lemma_joined(part, other);
        let yi = choose|i: int| 0 <= i < top.len() && #[trigger] top[i] == y;
        assert forall|v: Hit| part.to_multiset().count(v) <= #[trigger] top.to_multiset().count(v) by {
            if part.to_multiset().count(v) > 0 {
                lemma_counted(part, v);
                lemma_counted(dropped, v);
                if dropped.to_multiset().count(v) > 0 {
                    let j = choose|j: int| 0 <= j < dropped.len() && #[trigger] dropped[j] == v;
                    assert(ranked(op, top[yi], dropped[j]));
                }
                assert((part + other).to_multiset().count(v) == top.to_multiset().count(v));
            }
        }
        lemma_counted(part, y);
        lemma_counted(top, y);
        assert(part.to_multiset().count(y) == 0) by {
            if part.to_multiset().count(y) > 0 {
                let i = choose|i: int| 0 <= i < part.len() && #[trigger] part[i] == y;
                assert(cost(op, part[i].score) <= cost(op, outside.score));
            }
        }
        let left = top.to_multiset().sub(part.to_multiset());
        assert(part.to_multiset().subset_of(top.to_multiset()));
        assert(left.count(y) == top.to_multiset().count(y));
        assert(left.len() == 0);
        assert(left.count(y) <= left.len());
    }
}

/// Merging keeps the best: when `best` selects the `k` best of the rows seen so
/// far and `found` the `k` best of the next tile, the top of both together
/// selects the `k` best of all rows.
pub proof fn merging_keeps_the_best(
    op: u32,
    k: nat,
    seen: Seq<Hit>,
    best: Seq<Hit>,
    tile: Seq<Hit>,
    found: Seq<Hit>,
    merged: Seq<Hit>,
)
    requires
        is_selection(op, seen, k, best),
        is_selection(op, tile, k, found),
        is_top(op, best + found, k, merged),
    ensures
        is_selection(op, seen + tile, k, merged),
{
    let r = choose|rest: Seq<Hit>| #[trigger] splits(seen, best, rest) && none_better(op, best, rest);
    let q = choose|rest: Seq<Hit>|
        #[trigger] splits(tile, found, rest) && none_better(op, found, rest);
    let p = choose|rest: Seq<Hit>|
        #[trigger] splits(best + found, merged, rest) && all_ranked(op, merged, rest);
    let rest = p + r + q;
    lemma_joined(seen, tile);
    lemma_joined(best, found);
    lemma_joined(p, r);
    lemma_joined(p + r, q);
    let whole = (seen + tile).to_multiset();
    let parts = merged.to_multiset().add(rest.to_multiset());
    assert forall|v: Hit| #[trigger] whole.count(v) == parts.count(v) by {
        assert(seen.to_multiset().count(v) == best.to_multiset().count(v) + r.to_multiset().count(
            v,
        ));
        assert(tile.to_multiset().count(v) == found.to_multiset().count(v) + q.to_multiset().count(
            v,
        ));
        assert((best + found).to_multiset().count(v) == merged.to_multiset().count(v)
            + p.to_multiset().count(v));
    }
    assert(whole =~= parts);
    assert(splits(seen + tile, merged, rest));
    lemma_lengths(seen, best, r);
    lemma_lengths(tile, found, q);
    lemma_lengths(best + found, merged, p);
    assert forall|i: int, j: int| 0 <= i < merged.len() && 0 <= j < rest.len() implies cost(
        op,
        (#[trigger] merged[i]).score,
    ) <= cost(op, (#[trigger] rest[j]).score) by {
        let y = merged[i];
        if j < p.len() {
            assert(rest[j] == p[j]);
            assert(ranked(op, merged[i], p[j]));
        } else if j < p.len() + r.len() {
            let x = r[j - p.len()];
            assert(rest[j] == x);
            assert forall|a: int| 0 <= a < best.len() implies cost(op, (#[trigger] best[a]).score)
                <= cost(op, x.score) by {
                assert(cost(op, best[a].score) <= cost(op, r[j - p.len()].score));
            }
            lemma_outside_not_better(op, best, x, found, merged, p, y);
        } else {
            let x = q[j - p.len() - r.len()];
            assert(rest[j] == x);
            assert forall|a: int| 0 <= a < found.len() implies cost(op, (#[trigger] found[a]).score)
                <= cost(op, x.score) by {
                assert(cost(op, found[a].score) <= cost(op, q[j - p.len() - r.len()].score));
            }
            lemma_joined(found, best);
            assert((found + best).to_multiset() =~= (best + found).to_multiset());
            lemma_outside_not_better(op, found, x, best, merged, p, y);
        }
    }
}

/// The lengths of the parts of a split.
proof fn lemma_lengths(all: Seq<Hit>, kept: Seq<Hit>, rest: Seq<Hit>)
    requires
        splits(all, kept, rest),
    ensures
        all.len() == kept.len() + rest.len(),
{
    broadcast use group_to_multiset_ensures;

    assert(all.to_multiset().len() == kept.to_multiset().len() + rest.to_multiset().len());
}

/// No two hits have the same cost.
pub open spec fn without_ties(op: u32, all: Seq<Hit>) -> bool {
    forall|i: int, j: int|
        0 <= i < j < all.len() ==> cost(op, (#[trigger] all[i]).score) != cost(
            op,
            (#[trigger] all[j]).score,
        )
}

/// Without ties, hits of one cost are one hit.
proof fn lemma_one_of_each(op: u32, all: Seq<Hit>, x: Hit, y: Hit)
    requires
        without_ties(op, all),
        all.to_multiset().count(x) > 0,
        all.to_multiset().count(y) > 0,
        cost(op, x.score) == cost(op, y.score),
    ensures
        x == y,
{
    lemma_counted(all, x);
    lemma_counted(all, y);
    let i = choose|i: int| 0 <= i < all.len() && #[trigger] all[i] == x;
    let j = choose|j: int| 0 <= j < all.len() && #[trigger] all[j] == y;
    if i < j {
        assert(cost(op, all[i].score) != cost(op, all[j].score));
    } else if j < i {
        assert(cost(op, all[j].score) != cost(op, all[i].score));
    }
}

/// Without ties every hit occurs once.
proof fn lemma_no_duplicates(op: u32, all: Seq<Hit>)
    requires
        without_ties(op, all),
    ensures
        forall|x: Hit| #[trigger] all.to_multiset().count(x) <= 1,
{
    assert(all.no_duplicates()) by {
        assert forall|i: int, j: int| 0 <= i < all.len() && 0 <= j < all.len() && i != j implies
            all[i] != all[j] by {
            if i < j {
                assert(cost(op, all[i].score) != cost(op, all[j].score));
            } else {
                assert(cost(op, all[j].score) != cost(op, all[i].score));
            }
        }
    }
    all.lemma_multiset_has_no_duplicates();
    assert forall|x: Hit| #[trigger] all.to_multiset().count(x) <= 1 by {
        if all.to_multiset().count(x) > 0 {
            assert(all.to_multiset().contains(x));
        }
    }
}

/// A hit of one selection is a hit of every other, where no two hits tie.
proof fn lemma_selected_by_both(op: u32, all: Seq<Hit>, k: nat, a: Seq<Hit>, b: Seq<Hit>, x: Hit)
    requires
        without_ties(op, all),
        is_selection(op, all, k, a),
        is_selection(op, all, k, b),
        a.to_multiset().count(x) > 0,
    ensures
        b.to_multiset().count(x) > 0,
{
    if b.to_multiset().count(x) == 0 {
        let ra = choose|rest: Seq<Hit>| #[trigger] splits(all, a, rest) && none_better(op, a, rest);
        let rb = choose|rest: Seq<Hit>| #[trigger] splits(all, b, rest) && none_better(op, b, rest);
        lemma_no_duplicates(op, all);
        let (ma, mb) = (a.to_multiset(), b.to_multiset());
        lemma_counted(a, x);
        lemma_counted(b, x);
        assert(all.to_multiset().count(x) == ma.count(x) + ra.to_multiset().count(x));
        assert(all.to_multiset().count(x) == mb.count(x) + rb.to_multiset().count(x));
        if forall|y: Hit| mb.count(y) <= #[trigger] ma.count(y) {
            let left = ma.sub(mb);
            assert(mb.subset_of(ma));
            assert(left.count(x) == ma.count(x));
            assert(left.len() == 0);
            assert(left.count(x) <= left.len());
        }
        let y = choose|y: Hit| mb.count(y) > #[trigger] ma.count(y);
        assert(all.to_multiset().count(y) == ma.count(y) + ra.to_multiset().count(y));
        assert(all.to_multiset().count(y) == mb.count(y) + rb.to_multiset().count(y));
        lemma_counted(a, x);
        lemma_counted(b, y);
        lemma_counted(ra, y);
        lemma_counted(rb, x);
        let i = choose|i: int| 0 <= i < a.len() && #[trigger] a[i] == x;
        let j = choose|j: int| 0 <= j < b.len() && #[trigger] b[j] == y;
        let m = choose|m: int| 0 <= m < ra.len() && #[trigger] ra[m] == y;
        let n = choose|n: int| 0 <= n < rb.len() && #[trigger] rb[n] == x;
        assert(cost(op, a[i].score) <= cost(op, ra[m].score));
        assert(cost(op, b[j].score) <= cost(op, rb[n].score));
        lemma_one_of_each(op, all, x, y);
    }
}

/// Where no two hits tie there is one selection of the `k` best: any two hold
/// the same hits.
pub proof fn selections_without_ties_agree(
    op: u32,
    all: Seq<Hit>,
    k: nat,
    a: Seq<Hit>,
    b: Seq<Hit>,
)
    requires
        without_ties(op, all),
        is_selection(op, all, k, a),
        is_selection(op, all, k, b),
    ensures
        a.to_multiset() == b.to_multiset(),
{
    let ra = choose|rest: Seq<Hit>| #[trigger] splits(all, a, rest) && none_better(op, a, rest);
    let rb = choose|rest: Seq<Hit>| #[trigger] splits(all, b, rest) && none_better(op, b, rest);
    lemma_no_duplicates(op, all);
    assert forall|x: Hit| #[trigger] a.to_multiset().count(x) == b.to_multiset().count(x) by {
        assert(all.to_multiset().count(x) == a.to_multiset().count(x) + ra.to_multiset().count(x));
        assert(all.to_multiset().count(x) == b.to_multiset().count(x) + rb.to_multiset().count(x));
        if a.to_multiset().count(x) > 0 {
            lemma_selected_by_both(op, all, k, a, b, x);
        }
        if b.to_multiset().count(x) > 0 {
            lemma_selected_by_both(op, all, k, b, a, x);
        }
    }
    assert(a.to_multiset() =~= b.to_multiset());
}

/// The rows of the first `n` tiles, one tile after the other.
pub open spec fn rows_of(tiles: Seq<Seq<Hit>>, n: int) -> Seq<Hit>
    decreases n,
{
    if n <= 0 {
        Seq::empty()
    } else {
        rows_of(tiles, n - 1) + tiles[n - 1]
    }
}

/// Tiling does not change the answer: merging the selections of all tiles,
/// starting from nothing, selects the `k` best of the whole corpus.
pub proof fn tiling_matches_searching_at_once(
    op: u32,
    k: nat,
    tiles: Seq<Seq<Hit>>,
    found: Seq<Seq<Hit>>,
    bests: Seq<Seq<Hit>>,
    n: int,
)
    requires
        0 <= n <= tiles.len(),
        found.len() == tiles.len(),
        bests.len() == tiles.len() + 1,
        bests[0] == Seq::<Hit>::empty(),
        forall|i: int| 0 <= i < tiles.len() ==> is_selection(op, tiles[i], k, #[trigger] found[i]),
        forall|i: int|
            0 <= i < tiles.len() ==> is_top(
                op,
                #[trigger] bests[i] + found[i],
                k,
                bests[i + 1],
            ),
    ensures
        is_selection(op, rows_of(tiles, n), k, bests[n]),
    decreases n,
{
    if n == 0 {
        let none = Seq::<Hit>::empty();
        assert(none.to_multiset() =~= none.to_multiset().add(none.to_multiset())) by {
            broadcast use group_to_multiset_ensures;

        }
        assert(splits(rows_of(tiles, 0), bests[0], none));
    } else {
        tiling_matches_searching_at_once(op, k, tiles, found, bests, n - 1);
        assert(is_selection(op, tiles[n - 1], k, found[n - 1]));
        assert(is_top(op, bests[n - 1] + found[n - 1], k, bests[n - 1 + 1]));
        merging_keeps_the_best(
            op,
            k,
            rows_of(tiles, n - 1),
            bests[n - 1],
            tiles[n - 1],
            found[n - 1],
            bests[n],
        );
    }
}

/// The place of a score in the total order.
fn place_of(bits: u32) -> (r: i64)
    ensures
        r == score_place(bits),
{
    if bits < F32_SIGN {
        bits as i64
    } else {
        F32_SIGN as i64 - 1 - bits as i64
    }
}

/// Whether `a` is ranked before `b` or is the same.
fn is_ranked(op: u32, a: Hit, b: Hit) -> (r: bool)
    ensures
        r == ranked(op, a, b),
{
    let x: i64 = if op == OP_COSINE {
        0 - place_of(a.score)
    } else {
        place_of(a.score)
    };
    let y: i64 = if op == OP_COSINE {
        0 - place_of(b.score)
    } else {
        place_of(b.score)
    };
    x < y || (x == y && a.index <= b.index)
}

/// Puts a hit where it belongs among hits in rank order.
fn insert_ranked(op: u32, hits: &mut Vec<Hit>, hit: Hit)
    requires
        in_order(op, old(hits)@),
    ensures
        in_order(op, final(hits)@),
        final(hits)@.len() == old(hits)@.len() + 1,
        final(hits)@.to_multiset() == old(hits)@.to_multiset().insert(hit),
{
    let mut at: usize = hits.len();
    while at > 0 && !is_ranked(op, hits[at - 1], hit)
        invariant
            at <= hits@.len(),
            hits@ == old(hits)@,
            in_order(op, hits@),
            forall|j: int| at <= j < hits@.len() ==> ranked(op, hit, #[trigger] hits@[j]),
        decreases at,
    {
        at = at - 1;
    }
    let ghost before = hits@;
    assert forall|j: int| 0 <= j < at implies ranked(op, #[trigger] before[j], hit) by {
        assert(ranked(op, before[j], before[at - 1]));
        assert(ranked(op, before[at - 1], hit));
    }
    hits.insert(at, hit);
    proof {
        broadcast use group_to_multiset_ensures;

        let after = hits@;
        assert forall|i: int, j: int| 0 <= i <= j < after.len() implies ranked(
            op,
            after[i],
            after[j],
        ) by {
            let x = if i < at {
                before[i]
            } else if i == at {
                hit
            } else {
                before[i - 1]
            };
            let y = if j < at {
                before[j]
            } else if j == at {
                hit
            } else {
                before[j - 1]
            };
            assert(after[i] == x && after[j] == y);
        }
    }
}

/// The hits of a tile for one query: `per` pairs from position `from`, with
/// the tile's offset added to their indices.
pub open spec fn tile_hits(
    idx: Seq<i32>,
    val: Seq<u32>,
    from: int,
    per: int,
    offset: int,
) -> Seq<Hit> {
    Seq::new(
        per as nat,
        |j: int| Hit { index: (idx[from + j] + offset) as i32, score: val[from + j] },
    )
}

/// Merges the hits of a tile into the best hits of one query and keeps the
/// first `k`.
fn merge_tile(
    op: u32,
    best: &mut Vec<Hit>,
    idx: &Vec<i32>,
    val: &Vec<u32>,
    from: usize,
    per: usize,
    offset: i32,
    k: usize,
)
    requires
        in_order(op, old(best)@),
        from + per <= idx@.len(),
        from + per <= val@.len(),
        forall|j: int|
            from <= j < from + per ==> i32::MIN <= (#[trigger] idx@[j]) + offset <= i32::MAX,
    ensures
        is_top(
            op,
            old(best)@ + tile_hits(idx@, val@, from as int, per as int, offset as int),
            k as nat,
            final(best)@,
        ),
{
    let total: usize = idx.len();
    let ghost start = best@;
    let ghost hits = tile_hits(idx@, val@, from as int, per as int, offset as int);
    let mut j: usize = 0;
    proof {
        assert(hits.take(0) =~= Seq::empty());
        lemma_joined(start, hits.take(0));
        assert(start + hits.take(0) =~= start);
    }
    while j < per
        invariant
            j <= per,
            hits == tile_hits(idx@, val@, from as int, per as int, offset as int),
            from + per <= total,
            total == idx@.len(),
            from + per <= val@.len(),
            forall|i: int|
                from <= i < from + per ==> i32::MIN <= (#[trigger] idx@[i]) + offset <= i32::MAX,
            in_order(op, best@),
            best@.len() == start.len() + j,
            best@.to_multiset() == (start + hits.take(j as int)).to_multiset(),
        decreases per - j,
    {
        let at: usize = from + j;
        assert(i32::MIN <= idx@[at as int] + offset <= i32::MAX);
        let hit: Hit = Hit { index: idx[at] + offset, score: val[at] };
        insert_ranked(op, best, hit);
        proof {
            broadcast use group_to_multiset_ensures;

            assert(hits[j as int] == hit);
            assert(start + hits.take(j + 1) =~= (start + hits.take(j as int)).push(hit));
        }
        j = j + 1;
    }
    assert(hits.take(j as int) =~= hits);
    let ghost full = best@;
    if best.len() > k {
        best.truncate(k);
        proof {
            let rest = full.skip(k as int);
            lemma_joined(best@, rest);
            assert(best@ + rest =~= full);
            assert(splits(start + hits, best@, rest));
            assert forall|i: int, j: int| 0 <= i < best@.len() && 0 <= j < rest.len() implies ranked(
                op,
                #[trigger] best@[i],
                #[trigger] rest[j],
            ) by {
                assert(ranked(op, full[i], full[k + j]));
            }
        }
    } else {
        proof {
            let rest = Seq::<Hit>::empty();
            lemma_joined(best@, rest);
            assert(best@ + rest =~= best@);
            assert(splits(start + hits, best@, rest));
        }
    }
    assert(in_order(op, best@));
}

/// The search `after` is the search `before` with the answer for its tile
/// taken: for every query the best of its hits so far and of the tile's.
pub open spec fn takes_answer(
    before: TiledSearch,
    idx: Seq<i32>,
    val: Seq<u32>,
    after: TiledSearch,
) -> bool {
    &&& after.op == before.op
    &&& after.n_rows == before.n_rows
    &&& after.tile_rows == before.tile_rows
    &&& after.k == before.k
    &&& after.offset == before.offset + before.rows()
    &&& after.best@.len() == before.best@.len()
    &&& forall|q: int|
        0 <= q < before.best@.len() ==> is_top(
            before.op,
            before.best@[q]@ + tile_hits(
                idx,
                val,
                q * before.per(),
                before.per(),
                before.offset as int,
            ),
            before.k as nat,
            (#[trigger] after.best@[q])@,
        )
}

/// What a search asks for next.
#[derive(Debug, Clone, Copy, PartialEq, Eq, Structural)]
pub enum SearchStep {
    /// A top-`k` over the corpus rows from `offset`, `rows` of them.
    Search { offset: i64, rows: i64, k: i64 },
    /// Every tile has been searched.
    Done,
}

/// A search of a corpus in tiles, with the best hits of each query so far.
pub struct TiledSearch {
    pub op: u32,
    pub n_rows: i64,
    pub tile_rows: i64,
    pub k: usize,
    pub offset: i64,
    pub best: Vec<Vec<Hit>>,
}

impl TiledSearch {
    /// Offsets stay inside the corpus, and the hits of each query are in rank
    /// order.
    pub open spec fn wf(self) -> bool {
        &&& 0 < self.tile_rows || self.n_rows == 0
        &&& 0 <= self.offset <= self.n_rows <= i32::MAX
        &&& forall|q: int|
            0 <= q < self.best@.len() ==> in_order(self.op, (#[trigger] self.best@[q])@)
    }

    /// The number of rows of the tile at the offset.
    pub open spec fn rows(self) -> int {
        if self.n_rows - self.offset < self.tile_rows {
            self.n_rows - self.offset
        } else {
            self.tile_rows as int
        }
    }

    /// The number of hits asked of the tile at the offset.
    pub open spec fn per(self) -> int {
        least(self.k as nat, self.rows() as nat) as int
    }

    /// Starts a search for the `k` best of `n_rows` rows for each of `queries`
    /// queries.
    pub fn new(op: u32, queries: usize, n_rows: i64, k: i64, tile_rows: i64) -> (r: Self)
        requires
            0 <= n_rows <= i32::MAX,
            0 <= k,
            0 < tile_rows || n_rows == 0,
        ensures
            r.wf(),
            r.op == op,
            r.n_rows == n_rows,
            r.tile_rows == tile_rows,
            r.offset == 0,
            r.k == least(k as nat, n_rows as nat),
            r.best@.len() == queries,
            forall|q: int| 0 <= q < queries ==> (#[trigger] r.best@[q])@ == Seq::<Hit>::empty(),
    {
        let kept: usize = if k < n_rows {
            k as usize
        } else {
            n_rows as usize
        };
        let mut best: Vec<Vec<Hit>> = Vec::new();
        let mut q: usize = 0;
        while q < queries
            invariant
                q <= queries,
                best@.len() == q,
                forall|j: int| 0 <= j < q ==> (#[trigger] best@[j])@ == Seq::<Hit>::empty(),
            decreases queries - q,
        {
            let none: Vec<Hit> = Vec::new();
            assert(none@ =~= Seq::<Hit>::empty());
            best.push(none);
            q = q + 1;
        }
        TiledSearch { op, n_rows, tile_rows, k: kept, offset: 0, best }
    }

    /// The tile to search next.
    pub fn next(&self) -> (r: SearchStep)
        requires
            self.wf(),
        ensures
            match r {
                SearchStep::Done => self.offset == self.n_rows,
                SearchStep::Search { offset, rows, k } => {
                    &&& self.offset < self.n_rows
                    &&& offset == self.offset
                    &&& rows == self.rows()
                    &&& 0 < rows
                    &&& k == self.per()
                },
            },
    {
        if self.offset >= self.n_rows {
            return SearchStep::Done;
        }
        let left: i64 = self.n_rows - self.offset;
        let rows: i64 = if left < self.tile_rows {
            left
        } else {
            self.tile_rows
        };
        let k: i64 = if (self.k as u128) < rows as u128 {
            self.k as i64
        } else {
            rows
        };
        SearchStep::Search { offset: self.offset, rows, k }
    }

    /// Takes the answer for the tile asked for: for each query in turn, the
    /// indices within the tile and the scores of its selected rows.
    pub fn accept(&mut self, idx: &Vec<i32>, val: &Vec<u32>)
        requires
            old(self).wf(),
            old(self).offset < old(self).n_rows,
            old(self).best@.len() * old(self).per() <= idx@.len(),
            old(self).best@.len() * old(self).per() <= val@.len(),
            forall|j: int|
                0 <= j < old(self).best@.len() * old(self).per() ==> i32::MIN <= #[trigger] idx@[j]
                    + old(self).offset <= i32::MAX,
        ensures
            final(self).wf(),
            takes_answer(*old(self), idx@, val@, *final(self)),
    {
        let left: i64 = self.n_rows - self.offset;
        let rows: i64 = if left < self.tile_rows {
            left
        } else {
            self.tile_rows
        };
        let per: usize = if (self.k as u128) < rows as u128 {
            self.k
        } else {
            rows as usize
        };
        let ghost before = self.best@;
        let op: u32 = self.op;
        let k: usize = self.k;
        let offset: i32 = self.offset as i32;
        let total: usize = idx.len();
        let mut q: usize = 0;
        let mut from: usize = 0;
        while q < self.best.len()
            invariant
                q <= before.len(),
                self.best@.len() == before.len(),
                before == old(self).best@,
                self.op == old(self).op,
                self.n_rows == old(self).n_rows,
                self.tile_rows == old(self).tile_rows,
                self.k == old(self).k,
                self.offset == old(self).offset,
                old(self).wf(),
                old(self).offset < old(self).n_rows,
                op == old(self).op,
                k == old(self).k,
                rows == old(self).rows(),
                per == old(self).per(),
                offset == old(self).offset,
                total == idx@.len(),
                before.len() * per <= total,
                before.len() * per <= val@.len(),
                from == q * per,
                forall|j: int|
                    0 <= j < before.len() * per ==> i32::MIN <= #[trigger] idx@[j] + offset
                        <= i32::MAX,
                forall|j: int| q <= j < before.len() ==> #[trigger] self.best@[j] == before[j],
                forall|j: int|
                    0 <= j < q ==> is_top(
                        op,
                        before[j]@ + tile_hits(
                            idx@,
                            val@,
                            j * per,
                            per as int,
                            offset as int,
                        ),
                        k as nat,
                        (#[trigger] self.best@[j])@,
                    ),
            decreases before.len() - q,
        {
            assert((q + 1) * per <= before.len() * per) by (nonlinear_arith)
                requires
                    q + 1 <= before.len(),
                    0 <= per,
            ;
            assert((q + 1) * per == q * per + per) by (nonlinear_arith);
            assert(self.best@[q as int] == before[q as int]);
            assert(in_order(op, before[q as int]@));
            let mut own: Vec<Hit> = self.best[q].clone();
            assert(own@ =~= before[q as int]@);
            merge_tile(op, &mut own, idx, val, from, per, offset, k);
            self.best.set(q, own);
            from = from + per;
            q = q + 1;
        }
        self.offset = self.offset + rows;
        assert forall|j: int| 0 <= j < self.best@.len() implies in_order(
            self.op,
            (#[trigger] self.best@[j])@,
        ) by {
            assert(is_top(
                op,
                before[j]@ + tile_hits(idx@, val@, j * per, per as int, offset as int),
                k as nat,
                self.best@[j]@,
            ));
        }
    }

    /// The indices and scores of the best hits, query by query.
    pub fn finish(&self) -> (r: (Vec<i32>, Vec<u32>))
        ensures
            r.0@ == indices_of(joined(self.best@, self.best@.len() as int)),
            r.1@ == scores_of(joined(self.best@, self.best@.len() as int)),
    {
        let mut idx: Vec<i32> = Vec::new();
        let mut val: Vec<u32> = Vec::new();
        let mut q: usize = 0;
        assert(idx@ =~= indices_of(joined(self.best@, 0)));
        assert(val@ =~= scores_of(joined(self.best@, 0)));
        while q < self.best.len()
            invariant
                q <= self.best@.len(),
                idx@ == indices_of(joined(self.best@, q as int)),
                val@ == scores_of(joined(self.best@, q as int)),
            decreases self.best@.len() - q,
        {
            let row: &Vec<Hit> = &self.best[q];
            let ghost done = joined(self.best@, q as int);
            let mut j: usize = 0;
            assert(done + row@.take(0) =~= done);
            while j < row.len()
                invariant
                    j <= row@.len(),
                    idx@ == indices_of(done + row@.take(j as int)),
                    val@ == scores_of(done + row@.take(j as int)),
                decreases row@.len() - j,
            {
                idx.push(row[j].index);
                val.push(row[j].score);
                assert(done + row@.take(j + 1) =~= (done + row@.take(j as int)).push(
                    row@[j as int],
                ));
                assert(idx@ =~= indices_of(done + row@.take(j + 1)));
                assert(val@ =~= scores_of(done + row@.take(j + 1)));
                j = j + 1;
            }
            assert(row@.take(j as int) =~= row@);
            q = q + 1;
        }
        (idx, val)
    }
}

/// The hits of the first `n` queries, one after the other.
pub open spec fn joined(rows: Seq<Vec<Hit>>, n: int) -> Seq<Hit>
    decreases n,
{
    if n <= 0 {
        Seq::empty()
    } else {
        joined(rows, n - 1) + rows[n - 1]@
    }
}

/// The indices of hits.
pub open spec fn indices_of(hits: Seq<Hit>) -> Seq<i32> {
    hits.map_values(|h: Hit| h.index)
}

/// The scores of hits.
pub open spec fn scores_of(hits: Seq<Hit>) -> Seq<u32> {
    hits.map_values(|h: Hit| h.score)
}

/// How a search is carried out.
pub enum SearchPlan {
    /// One top-`k` over the whole corpus: a tile would hold all of it.
    AtOnce,
    /// Tile by tile.
    Tiled(TiledSearch),
}

/// Plans a search for the `k` best of `n_rows` rows for each of `queries`
/// queries, with at most `tile_rows` rows at a time.
pub fn vector_search_topk_tiled(op: u32, queries: usize, n_rows: i64, k: i64, tile_rows: i64) -> (r:
    SearchPlan)
    requires
        tile_rows < n_rows ==> 0 <= n_rows <= i32::MAX && 0 <= k && (0 < tile_rows || n_rows == 0),
    ensures
        match r {
            SearchPlan::AtOnce => tile_rows >= n_rows,
            SearchPlan::Tiled(search) => {
                &&& tile_rows < n_rows
                &&& search.wf()
                &&& search.op == op
                &&& search.n_rows == n_rows
                &&& search.tile_rows == tile_rows
                &&& search.offset == 0
                &&& search.k == least(k as nat, n_rows as nat)
                &&& search.best@.len() == queries
                &&& forall|q: int|
                    0 <= q < queries ==> (#[trigger] search.best@[q])@ == Seq::<Hit>::empty()
            },
        },
{
    if tile_rows >= n_rows {
        SearchPlan::AtOnce
    } else {
        SearchPlan::Tiled(TiledSearch::new(op, queries, n_rows, k, tile_rows))
    }
}

/// The answer for the tile at the offset of a search is right: for each query
/// it selects the best rows of the tile. `corpus[q]` holds a hit for every row
/// of the corpus with its score for query `q`.
pub open spec fn answers_tile(
    search: TiledSearch,
    corpus: Seq<Seq<Hit>>,
    idx: Seq<i32>,
    val: Seq<u32>,
) -> bool {
    forall|q: int|
        0 <= q < corpus.len() ==> is_selection(
            search.op,
            (#[trigger] corpus[q]).subrange(search.offset as int, search.offset + search.rows()),
            search.k as nat,
            tile_hits(idx, val, q * search.per(), search.per(), search.offset as int),
        )
}

/// The states that a search of a corpus goes through, from its start, with a
/// right answer taken for each tile.
pub open spec fn is_run(
    corpus: Seq<Seq<Hit>>,
    states: Seq<TiledSearch>,
    answers: Seq<(Seq<i32>, Seq<u32>)>,
) -> bool {
    &&& states.len() == answers.len() + 1
    &&& states[0].wf()
    &&& states[0].offset == 0
    &&& states[0].best@.len() == corpus.len()
    &&& forall|q: int|
        0 <= q < corpus.len() ==> (#[trigger] states[0].best@[q])@ == Seq::<Hit>::empty()
    &&& forall|q: int| 0 <= q < corpus.len() ==> (#[trigger] corpus[q]).len() == states[0].n_rows
    &&& forall|i: int|
        0 <= i < answers.len() ==> {
            &&& (#[trigger] states[i]).offset < states[i].n_rows
            &&& answers_tile(states[i], corpus, answers[i].0, answers[i].1)
            &&& takes_answer(states[i], answers[i].0, answers[i].1, states[i + 1])
        }
}

/// After any number of tiles the hits of a query select the best of the rows
/// searched so far, in rank order.
pub proof fn searched_rows_are_selected_from(
    corpus: Seq<Seq<Hit>>,
    states: Seq<TiledSearch>,
    answers: Seq<(Seq<i32>, Seq<u32>)>,
    n: int,
    q: int,
)
    requires
        is_run(corpus, states, answers),
        0 <= n <= answers.len(),
        0 <= q < corpus.len(),
    ensures
        states[n].op == states[0].op,
        states[n].n_rows == states[0].n_rows,
        states[n].tile_rows == states[0].tile_rows,
        states[n].k == states[0].k,
        states[n].best@.len() == corpus.len(),
        0 <= states[n].offset <= states[n].n_rows,
        is_selection(
            states[0].op,
            corpus[q].take(states[n].offset as int),
            states[0].k as nat,
            states[n].best@[q]@,
        ),
        in_order(states[0].op, states[n].best@[q]@),
    decreases n,
{
    if n == 0 {
        let none = Seq::<Hit>::empty();
        assert(none.to_multiset() =~= none.to_multiset().add(none.to_multiset())) by {
            broadcast use group_to_multiset_ensures;

        }
        assert(states[0].best@[q]@ == none);
        assert(corpus[q].take(0) =~= none);
        assert(splits(corpus[q].take(0), none, none));
    } else {
        let before = states[n - 1];
        let (idx, val) = answers[n - 1];
        searched_rows_are_selected_from(corpus, states, answers, n - 1, q);
        assert(takes_answer(before, idx, val, states[n - 1 + 1]));
        assert(before.offset < before.n_rows);
        assert(answers_tile(before, corpus, idx, val));
        let seen = corpus[q].take(before.offset as int);
        let tile = corpus[q].subrange(before.offset as int, before.offset + before.rows());
        let found = tile_hits(idx, val, q * before.per(), before.per(), before.offset as int);
        assert(is_selection(before.op, tile, before.k as nat, found));
        assert(is_top(
            before.op,
            before.best@[q]@ + found,
            before.k as nat,
            states[n].best@[q]@,
        ));
        merging_keeps_the_best(
            before.op,
            before.k as nat,
            seen,
            before.best@[q]@,
            tile,
            found,
            states[n].best@[q]@,
        );
        assert(seen + tile =~= corpus[q].take(states[n].offset as int));
    }
}

/// A tiled search gives what one search over the whole corpus gives. Once every
/// tile is searched, the hits of a query are `k` of its rows, or all where
/// there are fewer, best first; they select the best of the corpus; and where
/// no two rows tie they are the hits of any selection made at once.
pub proof fn tiled_search_matches_untiled(
    corpus: Seq<Seq<Hit>>,
    states: Seq<TiledSearch>,
    answers: Seq<(Seq<i32>, Seq<u32>)>,
    k: nat,
    q: int,
    at_once: Seq<Hit>,
)
    requires
        is_run(corpus, states, answers),
        states[0].k == least(k, states[0].n_rows as nat),
        states.last().offset == states.last().n_rows,
        0 <= q < corpus.len(),
        is_selection(states[0].op, corpus[q], k, at_once),
    ensures
        states.last().best@.len() == corpus.len(),
        states.last().best@[q]@.len() == least(k, corpus[q].len()),
        in_order(states[0].op, states.last().best@[q]@),
        is_selection(states[0].op, corpus[q], k, states.last().best@[q]@),
        without_ties(states[0].op, corpus[q]) ==> states.last().best@[q]@.to_multiset()
            == at_once.to_multiset(),
{
    let n = answers.len() as int;
    searched_rows_are_selected_from(corpus, states, answers, n, q);
    assert(corpus[q].take(states[n].offset as int) =~= corpus[q]);
    if without_ties(states[0].op, corpus[q]) {
        selections_without_ties_agree(
            states[0].op,
            corpus[q],
            k,
            states[n].best@[q]@,
            at_once,
        );
    }
}

/// The hits of each query stand together in the answer: with `per` hits for
/// every query, those of query `q` from `q` times `per` on, and nothing else.
pub proof fn answers_stand_query_by_query(rows: Seq<Vec<Hit>>, per: nat, n: int, q: int)
    requires
        0 <= n <= rows.len(),
        forall|i: int| 0 <= i < rows.len() ==> (#[trigger] rows[i])@.len() == per,
    ensures
        joined(rows, n).len() == n * per,
        0 <= q < n ==> {
            &&& 0 <= q * per <= (q + 1) * per <= joined(rows, n).len()
            &&& joined(rows, n).subrange(q * per, (q + 1) * per) == rows[q]@
        },
    decreases n,
{
    if n > 0 {
        answers_stand_query_by_query(rows, per, n - 1, q);
        let front = joined(rows, n - 1);
        assert(n * per == (n - 1) * per + per) by (nonlinear_arith);
        assert((q + 1) * per == q * per + per) by (nonlinear_arith);
        if 0 <= q < n - 1 {
            assert(joined(rows, n).subrange(q * per, (q + 1) * per) =~= front.subrange(
                q * per,
                (q + 1) * per,
            ));
        } else if q == n - 1 {
            assert(joined(rows, n).subrange(q * per, (q + 1) * per) =~= rows[q]@);
        }
    } else {
        assert(0 * per == 0) by (nonlinear_arith);
    }
}

/// The size of the number that a single-precision bit pattern without its sign
/// stands for, in units of the least positive one: a significand of 24 bits,
/// scaled by the exponent.
pub open spec fn f32_size(magnitude: nat) -> nat {
    let exponent = magnitude / 0x80_0000;
    let fraction = magnitude % 0x80_0000;
    if exponent == 0 {
        fraction
    } else {
        (0x80_0000 + fraction) * pow2((exponent - 1) as nat)
    }
}

/// The number that a single-precision bit pattern stands for, in the same
/// units.
pub open spec fn f32_number(bits: u32) -> int {
    if bits / 0x8000_0000u32 == 0 {
        f32_size((bits % 0x8000_0000u32) as nat) as int
    } else {
        -(f32_size((bits % 0x8000_0000u32) as nat) as int)
    }
}

/// The bit pattern stands for a number.
pub open spec fn is_number(bits: u32) -> bool {
    bits % 0x8000_0000u32 <= 0x7f80_0000
}

/// Larger magnitudes stand for larger sizes.
proof fn lemma_sizes_grow(a: nat, b: nat)
    requires
        a < b,
    ensures
        f32_size(a) < f32_size(b),
{
    let (i, j) = (a / 0x80_0000, b / 0x80_0000);
    let (f, g) = (a % 0x80_0000, b % 0x80_0000);
    if i == j {
        if i > 0 {
            let scale = pow2((i - 1) as nat);
            lemma_pow2_pos((i - 1) as nat);
            assert((0x80_0000 + f) * scale < (0x80_0000 + g) * scale) by (nonlinear_arith)
                requires
                    f < g,
                    scale > 0,
            ;
        }
    } else {
        let top = pow2((j - 1) as nat);
        lemma_pow2_pos((j - 1) as nat);
        assert(0x80_0000 * top <= (0x80_0000 + g) * top) by (nonlinear_arith)
            requires
                top > 0,
        ;
        if i == 0 {
            assert(0x80_0000 <= 0x80_0000 * top) by (nonlinear_arith)
                requires
                    top > 0,
            ;
        } else {
            let scale = pow2((i - 1) as nat);
            lemma_pow2_pos((i - 1) as nat);
            lemma_pow2_unfold(i);
            assert((0x80_0000 + f) * scale < 0x80_0000 * (2 * scale)) by (nonlinear_arith)
                requires
                    f < 0x80_0000,
                    scale > 0,
            ;
            if i < j - 1 {
                lemma_pow2_strictly_increases(i, (j - 1) as nat);
            }
            assert(0x80_0000 * (2 * scale) <= 0x80_0000 * top) by (nonlinear_arith)
                requires
                    2 * scale <= top,
            ;
        }
    }
}

/// Scores are ordered as the numbers they are: of two distances the smaller
/// costs less, of two similarities the larger.
pub proof fn scores_are_ordered_as_numbers(a: u32, b: u32)
    requires
        is_number(a),
        is_number(b),
        f32_number(a) < f32_number(b),
    ensures
        cost(OP_KNN_L2, a) < cost(OP_KNN_L2, b),
        cost(OP_COSINE, b) < cost(OP_COSINE, a),
{
    let (x, y) = ((a % F32_SIGN) as nat, (b % F32_SIGN) as nat);
    if x < y {
        lemma_sizes_grow(x, y);
    } else if y < x {
        lemma_sizes_grow(y, x);
    }
}

/// All bit patterns have a place in one total order: no two cost the same;
/// similarities are ordered the other way round; and distances rise from the
/// largest pattern with a sign down to the least one, and then from zero up.
pub proof fn scores_are_totally_ordered(op: u32, a: u32, b: u32)
    ensures
        cost(op, a) == cost(op, b) <==> a == b,
        cost(OP_COSINE, a) == -cost(OP_KNN_L2, a),
        op != OP_COSINE ==> cost(op, a) == cost(OP_KNN_L2, a),
        a < b < 0x8000_0000 ==> cost(OP_KNN_L2, a) < cost(OP_KNN_L2, b),
        0x8000_0000 <= a < b ==> cost(OP_KNN_L2, b) < cost(OP_KNN_L2, a),
        b < 0x8000_0000 <= a ==> cost(OP_KNN_L2, a) < cost(OP_KNN_L2, b),
{
}

/// Better scores come first, and of equal scores the smaller index: of two
/// similarities the larger number, of two distances the smaller.
pub proof fn better_scores_rank_first(a: Hit, b: Hit)
    requires
        is_number(a.score),
        is_number(b.score),
    ensures
        f32_number(a.score) > f32_number(b.score) ==> ranked(OP_COSINE, a, b) && !ranked(
            OP_COSINE,
            b,
            a,
        ),
        f32_number(a.score) < f32_number(b.score) ==> ranked(OP_KNN_L2, a, b) && !ranked(
            OP_KNN_L2,
            b,
            a,
        ),
        a.score == b.score ==> forall|op: u32| #[trigger] ranked(op, a, b) <==> a.index <= b.index,
{
    if f32_number(a.score) > f32_number(b.score) {
        scores_are_ordered_as_numbers(b.score, a.score);
    } else if f32_number(a.score) < f32_number(b.score) {
        scores_are_ordered_as_numbers(a.score, b.score);
    }
}

/// Rank order is a total order of hits.
pub proof fn ranking_is_a_total_order(op: u32, a: Hit, b: Hit, c: Hit)
    ensures
        ranked(op, a, b) || ranked(op, b, a),
        ranked(op, a, b) && ranked(op, b, a) ==> a == b,
        ranked(op, a, b) && ranked(op, b, c) ==> ranked(op, a, c),
{
    scores_are_totally_ordered(op, a.score, b.score);
}

/// What is left out of a selection is no better than what is in it: whatever a
/// selection holds costs at most as much as anything that it holds fewer times
/// than there is.
pub proof fn left_out_hits_are_no_better(
    op: u32,
    all: Seq<Hit>,
    k: nat,
    kept: Seq<Hit>,
    i: int,
    y: Hit,
)
    requires
        is_selection(op, all, k, kept),
        0 <= i < kept.len(),
        kept.to_multiset().count(y) < all.to_multiset().count(y),
    ensures
        cost(op, kept[i].score) <= cost(op, y.score),
        kept.len() <= k,
        kept.len() <= all.len(),
        kept.len() == k || kept.len() == all.len(),
        forall|x: Hit| #[trigger] kept.to_multiset().count(x) <= all.to_multiset().count(x),
{
    let rest = choose|rest: Seq<Hit>| #[trigger]
        splits(all, kept, rest) && none_better(op, kept, rest);
    lemma_counted(rest, y);
    assert(all.to_multiset().count(y) == kept.to_multiset().count(y) + rest.to_multiset().count(y));
    let j = choose|j: int| 0 <= j < rest.len() && #[trigger] rest[j] == y;
    assert(cost(op, kept[i].score) <= cost(op, rest[j].score));
    assert forall|x: Hit| #[trigger] kept.to_multiset().count(x) <= all.to_multiset().count(x) by {
        assert(all.to_multiset().count(x) == kept.to_multiset().count(x) + rest.to_multiset().count(
            x,
        ));
    }
}

/// The top of some hits is a selection of the best of them, in rank order, and
/// nothing left out is ranked before anything in it.
pub proof fn tops_are_the_first_in_rank(op: u32, all: Seq<Hit>, k: nat, top: Seq<Hit>, i: int, y: Hit)
    requires
        is_top(op, all, k, top),
        0 <= i < top.len(),
    ensures
        top.len() <= k,
        top.len() == k || top.len() == all.len(),
        i + 1 < top.len() ==> ranked(op, top[i], top[i + 1]),
        top.to_multiset().count(y) < all.to_multiset().count(y) ==> ranked(op, top[i], y),
{
    let rest = choose|rest: Seq<Hit>| #[trigger]
        splits(all, top, rest) && all_ranked(op, top, rest);
    lemma_lengths(all, top, rest);
    if top.to_multiset().count(y) < all.to_multiset().count(y) {
        lemma_counted(rest, y);
        assert(all.to_multiset().count(y) == top.to_multiset().count(y) + rest.to_multiset().count(
            y,
        ));
        let j = choose|j: int| 0 <= j < rest.len() && #[trigger] rest[j] == y;
        assert(ranked(op, top[i], rest[j]));
    }
}

/// The hits of a tile are its answers with the tile's offset added, query by
/// query: the `j`th of query `q` is the `j`th of its `per` answers.
pub proof fn tile_hits_are_corpus_rows(
    search: TiledSearch,
    idx: Seq<i32>,
    val: Seq<u32>,
    q: int,
    j: int,
)
    requires
        search.wf(),
        0 <= q,
        0 <= j < search.per(),
        i32::MIN <= idx[q * search.per() + j] + search.offset <= i32::MAX,
    ensures
        ({
            let hits = tile_hits(idx, val, q * search.per(), search.per(), search.offset as int);
            &&& hits.len() == search.per()
            &&& hits[j].index == idx[q * search.per() + j] + search.offset
            &&& hits[j].score == val[q * search.per() + j]
        }),
{
}

/// Tiles follow each other through the corpus: each has the rows asked for,
/// the last one what is left, and as many hits are asked of each as are wanted
/// or it has rows.
pub proof fn tiles_cover_the_corpus(search: TiledSearch)
    requires
        search.wf(),
        search.offset < search.n_rows,
    ensures
        0 < search.rows() <= search.tile_rows,
        search.offset + search.rows() <= search.n_rows,
        search.rows() == search.tile_rows || search.offset + search.rows() == search.n_rows,
        search.per() <= search.k,
        search.per() <= search.rows(),
        search.per() == search.k || search.per() == search.rows(),
{
}

/// The metric of a search goes with its order: similarities are better the
/// larger they are, squared distances the smaller; and each operation has its
/// own.
pub proof fn metrics_go_with_their_order(op: u32, a: u32, b: u32)
    requires
        a < b < 0x8000_0000,
    ensures
        metric_of(op) == Some(Metric::Cosine) ==> cost(op, b) < cost(op, a),
        metric_of(op) == Some(Metric::SquaredDistance) ==> cost(op, a) < cost(op, b),
        metric_of(0) == Some(Metric::Cosine),
        metric_of(1) == Some(Metric::SquaredDistance),
        metric_of(op) is Some ==> op <= 1,
{
}

/// The answers of a search are the hits of its queries, one query after the
/// other, index by index and score by score.
pub proof fn answers_are_the_hits(hits: Seq<Hit>, i: int)
    requires
        0 <= i < hits.len(),
    ensures
        indices_of(hits).len() == hits.len(),
        scores_of(hits).len() == hits.len(),
        indices_of(hits)[i] == hits[i].index,
        scores_of(hits)[i] == hits[i].score,
{
}

/// Scores are negated exactly when the larger is the better, so that the least
/// are the best; the first `k` are asked for, up to the `k`th counted from zero.
pub proof fn the_least_are_the_best(op: u32, k: i64, d: TopkDispatch, a: u32, b: u32)
    requires
        is_topk(op, k, d),
        a < b < 0x8000_0000,
    ensures
        d.negated <==> cost(op, b) < cost(op, a),
        !d.negated <==> cost(op, a) < cost(op, b),
        d.k == k,
        d.kth + 1 == d.k,
{
}

} // verus!
