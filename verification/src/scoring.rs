use vstd::prelude::*;
use crate::grouping::{views, Series, SeriesView};
use crate::ranking::{
    ordered_distinct, sort_order, sort_order_complete, sort_order_len, sort_order_ordered,
    stable_order,
};

verus! {

/// A state with a number: a mean, or a difference of means. `score` is the
/// bit pattern of a 32-bit binary floating-point value.
#[derive(Debug)]
pub struct Scored {
    pub state: String,
    pub score: u32,
}

/// A scored state as plain values.
pub struct ScoredView {
    pub state: Seq<char>,
    pub score: u32,
}

impl View for Scored {
    type V = ScoredView;

    open spec fn view(&self) -> ScoredView {
        ScoredView { state: self.state@, score: self.score }
    }
}

/// The scored states of a vector as plain values.
pub open spec fn scored_views(items: Seq<Scored>) -> Seq<ScoredView> {
    Seq::new(items.len(), |i: int| items[i]@)
}

/// The integer by which a 32-bit binary floating-point value is ordered: the
/// magnitude bits, negated where the sign bit is set. Both zeros get 0; a
/// larger number gets a larger integer. Bit patterns that are no number come
/// beyond the infinities.
pub open spec fn order_key_of(bits: u32) -> i64 {
    let magnitude = (bits & 0x7fff_ffff) as i64;
    if bits & 0x8000_0000 != 0 {
        (-magnitude) as i64
    } else {
        magnitude
    }
}

/// Works out the integer by which a value is ordered.
pub fn order_key(bits: u32) -> (key: i64)
    ensures
        key == order_key_of(bits),
{
    let magnitude = (bits & 0x7fff_ffff) as i64;
    if bits & 0x8000_0000 != 0 {
        -magnitude
    } else {
        magnitude
    }
}

/// The keys by which scored states are ordered.
pub open spec fn score_keys(items: Seq<ScoredView>) -> Seq<i64> {
    Seq::new(items.len(), |i: int| order_key_of(items[i].score))
}

/// The first `limit` of the scored states in ascending order of their
/// scores, or in the reverse of that order.
pub open spec fn ranked(items: Seq<ScoredView>, ascending: bool, limit: nat) -> Seq<ScoredView> {
    let order = sort_order(score_keys(items), items.len());
    let count = if limit < items.len() {
        limit
    } else {
        items.len()
    };
    Seq::new(
        count,
        |i: int|
            if ascending {
                items[order[i] as int]
            } else {
                items[order[items.len() - 1 - i] as int]
            },
    )
}

/// Orders scored states by score and keeps the first `limit`.
pub fn rank_entries(items: &Vec<Scored>, ascending: bool, limit: usize) -> (out: Vec<Scored>)
    ensures
        scored_views(out@) == ranked(scored_views(items@), ascending, limit as nat),
{
    let ghost given = scored_views(items@);
    let mut keys: Vec<i64> = Vec::new();
    let mut n: usize = 0;
    while n < items.len()
        invariant
            n <= items.len(),
            keys@.len() == n,
            forall|i: int| 0 <= i < n ==> keys@[i] == order_key_of(items@[i].score),
        decreases items.len() - n,
    {
        keys.push(order_key(items[n].score));
        n += 1;
    }
    proof {
        assert(keys@ =~= score_keys(given));
        sort_order_len(keys@, keys@.len());
        sort_order_ordered(keys@, keys@.len());
    }
    let order = stable_order(&keys);
    let count = if limit < items.len() {
        limit
    } else {
        items.len()
    };
    let mut out: Vec<Scored> = Vec::new();
    let mut i: usize = 0;
    while i < count
        invariant
            i <= count <= items.len(),
            given == scored_views(items@),
            order@ == sort_order(score_keys(given), items@.len()),
            order@.len() == items@.len(),
            forall|j: int| 0 <= j < order@.len() ==> (#[trigger] order@[j]) < items@.len(),
            out@.len() == i,
            forall|j: int| 0 <= j < i ==> out@[j]@ == ranked(given, ascending, limit as nat)[j],
            count == ranked(given, ascending, limit as nat).len(),
        decreases count - i,
    {
        let at = if ascending {
            order[i]
        } else {
            order[items.len() - 1 - i]
        };
        let item = &items[at];
        proof {
            assert(given[at as int] == item@);
        }
        out.push(Scored { state: item.state.clone(), score: item.score });
        i += 1;
    }
    proof {
        assert(scored_views(out@) =~= ranked(given, ascending, limit as nat));
    }
    out
}

/// The states of a grouping by state, each with its score.
pub open spec fn scored(groups: Seq<SeriesView>, scores: Seq<u32>) -> Seq<ScoredView> {
    Seq::new(groups.len(), |i: int| ScoredView { state: groups[i].key.0, score: scores[i] })
}

/// Pairs the states of a grouping by state with their scores.
pub fn with_scores(groups: &Vec<Series>, scores: &Vec<u32>) -> (items: Vec<Scored>)
    requires
        groups.len() == scores.len(),
    ensures
        scored_views(items@) == scored(views(groups@), scores@),
{
    let mut items: Vec<Scored> = Vec::new();
    let mut n: usize = 0;
    while n < groups.len()
        invariant
            n <= groups.len(),
            groups.len() == scores.len(),
            items@.len() == n,
            forall|i: int|
                0 <= i < n ==> (#[trigger] items@[i]).state@ == groups@[i].location@
                    && items@[i].score == scores@[i],
        decreases groups.len() - n,
    {
        items.push(Scored { state: groups[n].location.clone(), score: scores[n] });
        n += 1;
    }
    proof {
        assert(scored_views(items@) =~= scored(views(groups@), scores@));
    }
    items
}

/// Every entry of a ranking is one of the states that were ranked.
pub proof fn ranked_entries_are_items(items: Seq<ScoredView>, ascending: bool, limit: nat, i: int)
    requires
        items.len() <= usize::MAX,
        0 <= i < ranked(items, ascending, limit).len(),
    ensures
        items.contains(ranked(items, ascending, limit)[i]),
{
    let keys = score_keys(items);
    sort_order_len(keys, items.len());
    sort_order_ordered(keys, items.len());
    let order = sort_order(keys, items.len());
    if ascending {
        assert(order[i] < items.len());
        assert(items[order[i] as int] == ranked(items, ascending, limit)[i]);
    } else {
        assert(order[items.len() - 1 - i] < items.len());
        assert(items[order[items.len() - 1 - i] as int] == ranked(items, ascending, limit)[i]);
    }
}

/// A ranking goes by the scores: ascending, no entry has a smaller key than
/// the one before it; descending, none has a larger one.
pub proof fn ranked_is_in_order(items: Seq<ScoredView>, ascending: bool, limit: nat, i: int, j: int)
    requires
        items.len() <= usize::MAX,
        0 <= i < j < ranked(items, ascending, limit).len(),
    ensures
        ascending ==> order_key_of(ranked(items, ascending, limit)[i].score) <= order_key_of(
            ranked(items, ascending, limit)[j].score,
        ),
        !ascending ==> order_key_of(ranked(items, ascending, limit)[i].score) >= order_key_of(
            ranked(items, ascending, limit)[j].score,
        ),
{
    let keys = score_keys(items);
    sort_order_len(keys, items.len());
    sort_order_ordered(keys, items.len());
    let order = sort_order(keys, items.len());
    let n = items.len() as int;
    if ascending {
        assert(order[i] < items.len() && order[j] < items.len());
        assert(keys[order[i] as int] <= keys[order[j] as int]);
    } else {
        assert(order[n - 1 - i] < items.len() && order[n - 1 - j] < items.len());
        assert(keys[order[n - 1 - j] as int] <= keys[order[n - 1 - i] as int]);
    }
}

/// With ten states or more, each under its own name, no state is among both
/// the first five and the last five.
pub proof fn best_and_worst_share_nothing(items: Seq<ScoredView>, ascending: bool, a: int, b: int)
    requires
        10 <= items.len() <= usize::MAX,
        forall|i: int, j: int|
            0 <= i < j < items.len() ==> (#[trigger] items[i]).state != (#[trigger] items[j]).state,
        0 <= a < 5,
        0 <= b < 5,
    ensures
        ranked(items, ascending, 5).len() == 5,
        ranked(items, !ascending, 5).len() == 5,
        ranked(items, ascending, 5)[a].state != ranked(items, !ascending, 5)[b].state,
{
    let keys = score_keys(items);
    sort_order_len(keys, items.len());
    sort_order_ordered(keys, items.len());
    let order = sort_order(keys, items.len());
    ordered_distinct(keys, order, items.len());
    let n = items.len() as int;
    let x = if ascending {
        a
    } else {
        n - 1 - a
    };
    let y = if ascending {
        n - 1 - b
    } else {
        b
    };
    assert(x != y);
    assert(order[x] != order[y]);
    assert(order[x] < items.len() && order[y] < items.len());
    assert(ranked(items, ascending, 5)[a] == items[order[x] as int]);
    assert(ranked(items, !ascending, 5)[b] == items[order[y] as int]);
    if order[x] < order[y] {
        assert(items[order[x] as int].state != items[order[y] as int].state);
    } else {
        assert(items[order[y] as int].state != items[order[x] as int].state);
    }
}

/// Every state of a ranking is a state of the series that were scored.
pub proof fn ranked_states_are_grouped(
    groups: Seq<SeriesView>,
    scores: Seq<u32>,
    ascending: bool,
    limit: nat,
    i: int,
)
    requires
        groups.len() <= usize::MAX,
        0 <= i < ranked(scored(groups, scores), ascending, limit).len(),
    ensures
        exists|k: int|
            0 <= k < groups.len() && (#[trigger] groups[k]).key.0 == ranked(
                scored(groups, scores),
                ascending,
                limit,
            )[i].state,
{
    let items = scored(groups, scores);
    ranked_entries_are_items(items, ascending, limit, i);
    let entry = ranked(items, ascending, limit)[i];
    let k = choose|k: int| 0 <= k < items.len() && items[k] == entry;
    assert(items[k].state == groups[k].key.0);
}

/// A ranking that is not cut short holds every state that was ranked.
pub proof fn full_ranking_holds_every_item(items: Seq<ScoredView>, ascending: bool, k: int)
    requires
        items.len() <= usize::MAX,
        0 <= k < items.len(),
    ensures
        ranked(items, ascending, items.len()).len() == items.len(),
        ranked(items, ascending, items.len()).contains(items[k]),
{
    let keys = score_keys(items);
    let n = items.len() as int;
    sort_order_len(keys, items.len());
    sort_order_complete(keys, items.len(), k as usize);
    let order = sort_order(keys, items.len());
    let at = choose|at: int| 0 <= at < order.len() && order[at] == k as usize;
    let all = ranked(items, ascending, items.len());
    if ascending {
        assert(all[at] == items[k]);
    } else {
        assert(all[n - 1 - at] == items[k]);
    }
}

} // verus!
