//! Affinity smoothing: a second pass over the decisions that flips nodes of
//! nearly equal cost to agree with their neighbours. Fallbacks are never
//! flipped.

use vstd::prelude::*;

use crate::router::{
    falls_back, lemma_position, one_each, position, recorded, with_decision, Entries, LiftingPlan,
    NodeDecision, NodeId, NodeKey, Routing,
};

verus! {

/// Which nodes may be flipped.
#[derive(Debug)]
pub struct SmoothingConfig {
    /// The cost window, in percent, within which the cost model calls two
    /// alternatives close.
    pub window_pct: u32,
    /// The nodes whose alternatives the cost model found close.
    pub close_cost_node_ids: Vec<NodeId>,
}

impl Default for SmoothingConfig {
    fn default() -> (r: Self)
        ensures
            r.window_pct == 20,
            r.close_cost_node_ids@.len() == 0,
    {
        SmoothingConfig { window_pct: 20, close_cost_node_ids: Vec::new() }
    }
}

/// The decision of the first recorded node with the number `seq`, from entry
/// `from` on.
pub open spec fn numbered_from(entries: Entries, seq: int, from: int) -> Option<Routing>
    decreases entries.len() - from,
{
    if from < 0 || from >= entries.len() {
        None
    } else if entries[from].0.1 == seq {
        Some(entries[from].1)
    } else {
        numbered_from(entries, seq, from + 1)
    }
}

/// The decision of the neighbour at distance `delta`.
pub open spec fn neighbor(entries: Entries, key: NodeKey, delta: int) -> Option<Routing> {
    numbered_from(entries, key.1 + delta, 0)
}

/// What a node of close cost becomes: the decision of its neighbours when they
/// agree, or that of its predecessor when it has no successor. Fallbacks are
/// neither changed nor taken over.
pub open spec fn smoothed(entries: Entries, key: NodeKey, current: Routing) -> Routing {
    if current is Fallback {
        current
    } else {
        match (neighbor(entries, key, -1), neighbor(entries, key, 1)) {
            (Some(p), Some(s)) => if p == s && !(p is Fallback) {
                p
            } else {
                current
            },
            (Some(p), None) => if !(p is Fallback) {
                p
            } else {
                current
            },
            _ => current,
        }
    }
}

/// The identifiers of a list.
pub open spec fn keys_of(ids: Seq<NodeId>) -> Seq<NodeKey> {
    ids.map_values(|id: NodeId| id@)
}

/// The plan after smoothing: candidates are smoothed by the decisions before
/// the pass, all other nodes stay as they are.
pub open spec fn smoothing(entries: Entries, candidates: Seq<NodeKey>) -> Entries {
    Seq::new(
        entries.len(),
        |i: int|
            if candidates.contains(entries[i].0) {
                (entries[i].0, smoothed(entries, entries[i].0, entries[i].1))
            } else {
                entries[i]
            },
    )
}

/// The decision of the neighbour of a node at distance `delta`.
pub fn neighbor_decision(plan: &LiftingPlan, id: &NodeId, delta: i64) -> (r: Option<NodeDecision>)
    requires
        id@.1 + delta <= i64::MAX,
    ensures
        match r {
            Some(d) => neighbor(plan.entries(), id@, delta as int) == Some(d@),
            None => neighbor(plan.entries(), id@, delta as int) is None,
        },
{
    let target: i64 = id.seq() as i64 + delta;
    let all: Vec<(&NodeId, &NodeDecision)> = plan.iter();
    let ghost entries = plan.entries();
    let mut i: usize = 0;
    while i < all.len()
        invariant
            i <= all@.len(),
            entries == plan.entries(),
            all@.len() == entries.len(),
            forall|j: int|
                0 <= j < all@.len() ==> ((#[trigger] all@[j]).0@, all@[j].1@) == entries[j],
            target == id@.1 + delta,
            neighbor(entries, id@, delta as int) == numbered_from(entries, target as int, i as int),
        decreases all@.len() - i,
    {
        let (other, decision): (&NodeId, &NodeDecision) = all[i];
        assert((all@[i as int].0@, all@[i as int].1@) == entries[i as int]);
        if other.seq() as i64 == target {
            return Some(decision.clone());
        }
        i = i + 1;
    }
    None
}

/// The decision that a candidate with the given current decision is flipped
/// to, if it is.
fn flip(plan: &LiftingPlan, id: &NodeId, current: &NodeDecision) -> (r: Option<NodeDecision>)
    ensures
        match r {
            Some(d) => smoothed(plan.entries(), id@, current@) == d@,
            None => smoothed(plan.entries(), id@, current@) == current@,
        },
{
    if current.is_fallback() {
        return None;
    }
    let prev: Option<NodeDecision> = neighbor_decision(plan, id, -1);
    let succ: Option<NodeDecision> = neighbor_decision(plan, id, 1);
    match (prev, succ) {
        (Some(p), Some(s)) => {
            if p == s && p != *current && !p.is_fallback() {
                Some(p)
            } else {
                None
            }
        },
        (Some(p), None) => {
            if p != *current && !p.is_fallback() {
                Some(p)
            } else {
                None
            }
        },
        _ => None,
    }
}

/// Smoothing one more candidate.
proof fn lemma_smooth_step(
    entries: Entries,
    done: Seq<NodeKey>,
    key: NodeKey,
    next: Entries,
    after: Entries,
)
    requires
        one_each(entries),
        next == smoothing(entries, done),
        match recorded(entries, key) {
            None => after == next,
            Some(d) => after == with_decision(next, key, smoothed(entries, key, d)) || (smoothed(
                entries,
                key,
                d,
            ) == d && after == next),
        },
    ensures
        after == smoothing(entries, done.push(key)),
{
    lemma_position(entries, key, 0);
    lemma_position(next, key, 0);
    let p = position(entries, key, 0);
    let all = done.push(key);
    let q = position(next, key, 0);
    assert forall|i: int| 0 <= i < entries.len() implies all.contains(entries[i].0) == (
    done.contains(entries[i].0) || entries[i].0 == key) by {
        if done.contains(entries[i].0) {
            let j = choose|j: int| 0 <= j < done.len() && done[j] == entries[i].0;
            assert(all[j] == entries[i].0);
        }
        if entries[i].0 == key {
            assert(all[done.len() as int] == key);
        }
        if all.contains(entries[i].0) && entries[i].0 != key {
            let j = choose|j: int| 0 <= j < all.len() && all[j] == entries[i].0;
            assert(done[j] == entries[i].0);
        }
    }
    assert(next.len() == entries.len());
    assert forall|i: int| 0 <= i < entries.len() implies (#[trigger] next[i]).0 == entries[i].0 by {}
    if p < entries.len() {
        assert(next[p].0 == key);
        assert(q == p) by {
            if q < p {
                assert(next[q].0 == key);
                assert(entries[q].0 == key);
            }
            if q > p {
                assert(next[p].0 != key);
            }
        }
    } else {
        assert(q == next.len()) by {
            if q < next.len() {
                assert(next[q].0 == key);
                assert(entries[q].0 == key);
            }
        }
    }
    assert(after =~= smoothing(entries, all));
}

/// Applies affinity smoothing.
pub fn smooth(plan: LiftingPlan, config: &SmoothingConfig) -> (r: LiftingPlan)
    ensures
        r.entries() == smoothing(plan.entries(), keys_of(config.close_cost_node_ids@)),
{
    let ghost entries = plan.entries();
    let ghost candidates = keys_of(config.close_cost_node_ids@);
    let mut next: LiftingPlan = plan.clone();
    assert(next.entries() =~= smoothing(entries, candidates.take(0)));
    let mut i: usize = 0;
    while i < config.close_cost_node_ids.len()
        invariant
            i <= config.close_cost_node_ids@.len(),
            entries == plan.entries(),
            candidates == keys_of(config.close_cost_node_ids@),
            next.entries() == smoothing(entries, candidates.take(i as int)),
        decreases config.close_cost_node_ids@.len() - i,
    {
        let id: &NodeId = &config.close_cost_node_ids[i];
        let ghost before = next.entries();
        assert(candidates.take(i + 1) =~= candidates.take(i as int).push(id@));
        match plan.get(id) {
            Some(current) => match flip(&plan, id, current) {
                Some(d) => {
                    next.set(id.clone(), d);
                },
                None => {},
            },
            None => {},
        }
        proof {
            use_type_invariant(&plan);
            lemma_smooth_step(entries, candidates.take(i as int), id@, before, next.entries());
        }
        i = i + 1;
    }
    assert(candidates.take(i as int) =~= candidates);
    next
}

/// Smoothing keeps the nodes and their order, and leaves every node that is
/// not a candidate, and every fallback, as it is.
pub proof fn smoothing_changes_only_candidates(
    entries: Entries,
    candidates: Seq<NodeKey>,
    i: int,
)
    requires
        0 <= i < entries.len(),
    ensures
        smoothing(entries, candidates).len() == entries.len(),
        smoothing(entries, candidates)[i].0 == entries[i].0,
        !candidates.contains(entries[i].0) ==> smoothing(entries, candidates)[i] == entries[i],
        entries[i].1 is Fallback ==> smoothing(entries, candidates)[i] == entries[i],
{
}

/// Smoothing neither adds nor removes fallbacks.
pub proof fn smoothing_keeps_fallbacks(entries: Entries, candidates: Seq<NodeKey>)
    ensures
        falls_back(smoothing(entries, candidates)) == falls_back(entries),
{
    let after = smoothing(entries, candidates);
    if falls_back(entries) {
        let i = choose|i: int| 0 <= i < entries.len() && (#[trigger] entries[i]).1 is Fallback;
        assert(after[i].1 is Fallback);
    }
    if falls_back(after) {
        let i = choose|i: int| 0 <= i < after.len() && (#[trigger] after[i]).1 is Fallback;
        assert(entries[i].1 is Fallback);
    }
}

/// The decision of the neighbour of an entry, where no two nodes share a
/// number, is the decision of the node with the neighbouring number.
pub proof fn neighbors_are_found_by_number(entries: Entries, key: NodeKey, delta: int, j: int)
    requires
        0 <= j < entries.len(),
        forall|a: int, b: int|
            0 <= a < b < entries.len() ==> (#[trigger] entries[a]).0.1 != (#[trigger] entries[b]).0.1,
        entries[j].0.1 == key.1 + delta,
    ensures
        neighbor(entries, key, delta) == Some(entries[j].1),
{
    lemma_numbered(entries, key.1 + delta, 0, j);
}

proof fn lemma_numbered(entries: Entries, seq: int, from: int, j: int)
    requires
        0 <= from <= j < entries.len(),
        forall|a: int, b: int|
            0 <= a < b < entries.len() ==> (#[trigger] entries[a]).0.1 != (#[trigger] entries[b]).0.1,
        entries[j].0.1 == seq,
    ensures
        numbered_from(entries, seq, from) == Some(entries[j].1),
    decreases j - from,
{
    if from < j {
        assert(entries[from].0.1 != entries[j].0.1);
        lemma_numbered(entries, seq, from + 1, j);
    }
}

} // verus!
