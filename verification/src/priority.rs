use vstd::prelude::*;
use crate::catalog::{
    age_priorities, category_priorities, education_priorities, get_age_priorities,
    get_category_priorities, get_education_priorities, get_income_priorities, income_priorities,
    priority_in, priority_of, table_view, Priorities,
};
use crate::grouping::{views, Series, SeriesView};
use crate::ranking::{
    sort_order, sort_order_complete, sort_order_len, sort_order_ordered, stable_order,
};
use crate::text::same_text;

verus! {

/// The intra-category table for a category that has one.
pub open spec fn stratum_priorities(category: Seq<char>) -> Option<Priorities> {
    if category == "Age (years)"@ {
        Some(age_priorities())
    } else if category == "Education"@ {
        Some(education_priorities())
    } else if category == "Income"@ {
        Some(income_priorities())
    } else {
        None
    }
}

/// The place of a category and stratum in the output: first by the
/// category's priority, a category without one behind the others; within a
/// category that has a table of its own by the stratum's priority, a stratum
/// without one behind the others.
pub open spec fn rank_of(category: Seq<char>, stratum: Seq<char>) -> i64 {
    let c = priority_of(category_priorities(), category, 7);
    let s = match stratum_priorities(category) {
        Some(table) => priority_of(table, stratum, 8),
        None => 0u32,
    };
    (c * 16 + s) as i64
}

/// The keys by which series are put in order.
pub open spec fn rank_keys(groups: Seq<SeriesView>) -> Seq<i64> {
    Seq::new(groups.len(), |i: int| rank_of(groups[i].key.1, groups[i].key.2))
}

/// The series in ascending order of their ranks; series of one rank stay in
/// their own order.
pub open spec fn by_priority(groups: Seq<SeriesView>) -> Seq<SeriesView> {
    let order = sort_order(rank_keys(groups), groups.len());
    Seq::new(groups.len(), |i: int| groups[order[i] as int])
}

fn copy_series(s: &Series) -> (c: Series)
    ensures
        c@ == s@,
{
    let mut values: Vec<u32> = Vec::new();
    let mut n: usize = 0;
    while n < s.values.len()
        invariant
            n <= s.values.len(),
            values@ == s.values@.take(n as int),
        decreases s.values.len() - n,
    {
        values.push(s.values[n]);
        proof {
            assert(values@ =~= s.values@.take(n + 1));
        }
        n += 1;
    }
    proof {
        assert(s.values@.take(s.values@.len() as int) =~= s.values@);
    }
    Series {
        location: s.location.clone(),
        category: s.category.clone(),
        stratum: s.stratum.clone(),
        values,
    }
}

/// Puts series in the order of the priority tables.
pub fn sort_by_priority(groups: &Vec<Series>) -> (out: Vec<Series>)
    ensures
        views(out@) == by_priority(views(groups@)),
{
    let categories = get_category_priorities();
    let ages = get_age_priorities();
    let educations = get_education_priorities();
    let incomes = get_income_priorities();
    let mut keys: Vec<i64> = Vec::new();
    let mut n: usize = 0;
    while n < groups.len()
        invariant
            n <= groups.len(),
            keys@.len() == n,
            table_view(categories@) == category_priorities(),
            table_view(ages@) == age_priorities(),
            table_view(educations@) == education_priorities(),
            table_view(incomes@) == income_priorities(),
            forall|i: int|
                0 <= i < n ==> keys@[i] == rank_of(groups@[i].category@, groups@[i].stratum@),
        decreases groups.len() - n,
    {
        let g = &groups[n];
        let c = priority_in(&categories, g.category.as_str(), 7);
        let s = if same_text(g.category.as_str(), "Age (years)") {
            priority_in(&ages, g.stratum.as_str(), 8)
        } else if same_text(g.category.as_str(), "Education") {
            priority_in(&educations, g.stratum.as_str(), 8)
        } else if same_text(g.category.as_str(), "Income") {
            priority_in(&incomes, g.stratum.as_str(), 8)
        } else {
            0
        };
        let key: i64 = c as i64 * 16 + s as i64;
        keys.push(key);
        n += 1;
    }
    proof {
        assert(keys@ =~= rank_keys(views(groups@)));
        sort_order_len(keys@, keys@.len());
        sort_order_ordered(keys@, keys@.len());
    }
    let order = stable_order(&keys);
    let mut out: Vec<Series> = Vec::new();
    let mut i: usize = 0;
    while i < groups.len()
        invariant
            i <= groups.len(),
            order@ == sort_order(rank_keys(views(groups@)), groups@.len()),
            order@.len() == groups@.len(),
            forall|j: int| 0 <= j < order@.len() ==> (#[trigger] order@[j]) < groups@.len(),
            out@.len() == i,
            forall|j: int| 0 <= j < i ==> out@[j]@ == groups@[order@[j] as int]@,
        decreases groups.len() - i,
    {
        out.push(copy_series(&groups[order[i]]));
        i += 1;
    }
    proof {
        assert(views(out@) =~= by_priority(views(groups@)));
    }
    out
}

/// The series in the order of the priority tables go by rank: none has a
/// smaller rank than the one before it.
pub proof fn by_priority_is_in_order(groups: Seq<SeriesView>, i: int, j: int)
    requires
        groups.len() <= usize::MAX,
        0 <= i < j < groups.len(),
    ensures
        rank_of(by_priority(groups)[i].key.1, by_priority(groups)[i].key.2) <= rank_of(
            by_priority(groups)[j].key.1,
            by_priority(groups)[j].key.2,
        ),
{
    let keys = rank_keys(groups);
    sort_order_len(keys, groups.len());
    sort_order_ordered(keys, groups.len());
    let order = sort_order(keys, groups.len());
    assert(order[i] < groups.len() && order[j] < groups.len());
    assert(keys[order[i] as int] <= keys[order[j] as int]);
}

/// Putting series in order leaves none out.
pub proof fn by_priority_holds_every_series(groups: Seq<SeriesView>, k: int)
    requires
        groups.len() <= usize::MAX,
        0 <= k < groups.len(),
    ensures
        by_priority(groups).len() == groups.len(),
        by_priority(groups).contains(groups[k]),
{
    let keys = rank_keys(groups);
    sort_order_len(keys, groups.len());
    sort_order_complete(keys, groups.len(), k as usize);
    let order = sort_order(keys, groups.len());
    let at = choose|at: int| 0 <= at < order.len() && order[at] == k as usize;
    assert(by_priority(groups)[at] == groups[k]);
}

} // verus!
