use vstd::prelude::*;
use crate::data_ingestor::{EntryView, Table, TableEntry};
use crate::text::same_text;

verus! {

/// Which parts of a row make up the key of its group.
#[derive(Clone, Copy, PartialEq, Eq, Structural, Debug)]
pub enum Grouping {
    /// One group for all rows.
    All,
    /// One group per location.
    State,
    /// One group per location, category and stratum; rows that lack a
    /// category or a stratum are left out.
    LocationCategory,
    /// One group per category and stratum.
    Category,
}

/// What a kernel selects: the question, the state if it works on one, and how
/// it groups.
pub struct Query {
    pub question: Seq<char>,
    pub state: Option<Seq<char>>,
    pub grouping: Grouping,
}

/// The query that a kernel's arguments stand for.
pub open spec fn query_for(question: &str, state: &Option<String>, grouping: Grouping) -> Query {
    Query {
        question: question@,
        state: match state {
            Some(s) => Some(s@),
            None => None,
        },
        grouping,
    }
}

/// A group key: location, category, stratum. A part that the grouping does
/// not use is empty.
pub type Key = (Seq<char>, Seq<char>, Seq<char>);

/// The values of one group, in row order.
#[derive(Debug)]
pub struct Series {
    pub location: String,
    pub category: String,
    pub stratum: String,
    pub values: Vec<u32>,
}

/// A series as a key with its values.
pub struct SeriesView {
    pub key: Key,
    pub values: Seq<u32>,
}

impl Series {
    pub open spec fn key(&self) -> Key {
        (self.location@, self.category@, self.stratum@)
    }
}

impl View for Series {
    type V = SeriesView;

    open spec fn view(&self) -> SeriesView {
        SeriesView { key: self.key(), values: self.values@ }
    }
}

/// The series of a vector, each as key and values.
pub open spec fn views(groups: Seq<Series>) -> Seq<SeriesView> {
    Seq::new(groups.len(), |i: int| groups[i]@)
}

/// The grouping of a table's rows by a query: one series for each key, in the
/// order in which the keys first appear, with the values of its rows in row
/// order.
pub open spec fn grouped(rows: Seq<EntryView>, q: Query) -> Seq<SeriesView> {
    let keys = group_keys(rows, q, rows.len());
    Seq::new(
        keys.len(),
        |j: int| SeriesView { key: keys[j], values: group_values(rows, q, keys[j], rows.len()) },
    )
}

/// Whether a row takes part in a query.
pub open spec fn admits(e: EntryView, q: Query) -> bool {
    &&& e.question == q.question
    &&& (q.state is Some ==> e.location_desc == q.state->0)
    &&& (q.grouping == Grouping::LocationCategory ==> e.stratification_category1.len() > 0
        && e.stratification1.len() > 0)
}

/// The key of the group that a row falls in.
pub open spec fn key_of(e: EntryView, g: Grouping) -> Key {
    match g {
        Grouping::All => (Seq::empty(), Seq::empty(), Seq::empty()),
        Grouping::State => (e.location_desc, Seq::empty(), Seq::empty()),
        Grouping::LocationCategory => (
            e.location_desc,
            e.stratification_category1,
            e.stratification1,
        ),
        Grouping::Category => (Seq::empty(), e.stratification_category1, e.stratification1),
    }
}

/// The keys of the groups among the first `n` rows, each once, in the order
/// in which they first appear.
pub open spec fn group_keys(rows: Seq<EntryView>, q: Query, n: nat) -> Seq<Key>
    decreases n,
{
    if n == 0 || n > rows.len() {
        Seq::empty()
    } else {
        let before = group_keys(rows, q, (n - 1) as nat);
        let e = rows[n - 1];
        if admits(e, q) && !before.contains(key_of(e, q.grouping)) {
            before.push(key_of(e, q.grouping))
        } else {
            before
        }
    }
}

/// The values of the rows of one group among the first `n` rows, in row order.
pub open spec fn group_values(rows: Seq<EntryView>, q: Query, key: Key, n: nat) -> Seq<u32>
    decreases n,
{
    if n == 0 || n > rows.len() {
        Seq::empty()
    } else {
        let before = group_values(rows, q, key, (n - 1) as nat);
        let e = rows[n - 1];
        if admits(e, q) && key_of(e, q.grouping) == key {
            before.push(e.data_value)
        } else {
            before
        }
    }
}

// Whether `groups` is the grouping of the first `n` rows.
spec fn groups_match(groups: Seq<Series>, rows: Seq<EntryView>, q: Query, n: nat) -> bool {
    &&& groups.len() == group_keys(rows, q, n).len()
    &&& forall|j: int|
        0 <= j < groups.len() ==> (#[trigger] groups[j]).key() == group_keys(rows, q, n)[j]
            && groups[j].values@ == group_values(rows, q, groups[j].key(), n)
}

/// No key comes twice among the group keys.
pub proof fn group_keys_distinct(rows: Seq<EntryView>, q: Query, n: nat)
    ensures
        group_keys(rows, q, n).no_duplicates(),
    decreases n,
{
    if n == 0 || n > rows.len() {
    } else {
        group_keys_distinct(rows, q, (n - 1) as nat);
    }
}

/// Every group holds at least one value: a key appears only with a row.
pub proof fn group_values_nonempty(rows: Seq<EntryView>, q: Query, key: Key, n: nat)
    requires
        group_keys(rows, q, n).contains(key),
    ensures
        group_values(rows, q, key, n).len() > 0,
    decreases n,
{
    if n == 0 || n > rows.len() {
    } else {
        let before = group_keys(rows, q, (n - 1) as nat);
        let e = rows[n - 1];
        if admits(e, q) && key_of(e, q.grouping) == key {
        } else {
            if admits(e, q) && !before.contains(key_of(e, q.grouping)) {
                let i = choose|i: int| 0 <= i < before.push(key_of(e, q.grouping)).len() && before.push(key_of(e, q.grouping))[i] == key;
                assert(i < before.len());
                assert(before[i] == key);
            }
            group_values_nonempty(rows, q, key, (n - 1) as nat);
        }
    }
}

/// A key that is not among the group keys has no values.
pub proof fn group_values_none(rows: Seq<EntryView>, q: Query, key: Key, n: nat)
    requires
        !group_keys(rows, q, n).contains(key),
    ensures
        group_values(rows, q, key, n).len() == 0,
    decreases n,
{
    if n == 0 || n > rows.len() {
    } else {
        let before = group_keys(rows, q, (n - 1) as nat);
        let e = rows[n - 1];
        if admits(e, q) && !before.contains(key_of(e, q.grouping)) {
            let after = before.push(key_of(e, q.grouping));
            assert(after[before.len() as int] == key_of(e, q.grouping));
            if before.contains(key) {
                let i = choose|i: int| 0 <= i < before.len() && before[i] == key;
                assert(after[i] == key);
            }
        }
        group_values_none(rows, q, key, (n - 1) as nat);
    }
}

fn entry_admitted(e: &TableEntry, question: &str, state: &Option<String>, grouping: Grouping, Ghost(q): Ghost<Query>) -> (yes: bool)
    requires
        q == query_for(question, state, grouping),
    ensures
        yes == admits(e@, q),
{
    if !same_text(e.question.as_str(), question) {
        return false;
    }
    let in_state = match state {
        Some(s) => same_text(e.location_desc.as_str(), s.as_str()),
        None => true,
    };
    if !in_state {
        return false;
    }
    match grouping {
        Grouping::LocationCategory => !e.stratification_category1.as_str().is_empty()
            && !e.stratification1.as_str().is_empty(),
        _ => true,
    }
}

/// The position of the group with the key of `e`, if there is one.
fn find_group(groups: &Vec<Series>, e: &TableEntry, grouping: Grouping) -> (at: Option<usize>)
    ensures
        match at {
            Some(j) => j < groups.len() && groups[j as int].key() == key_of(e@, grouping)
                && forall|i: int| 0 <= i < j ==> (#[trigger] groups[i]).key() != key_of(e@, grouping),
            None => forall|i: int|
                0 <= i < groups.len() ==> (#[trigger] groups[i]).key() != key_of(e@, grouping),
        },
{
    let mut j: usize = 0;
    while j < groups.len()
        invariant
            j <= groups.len(),
            forall|i: int| 0 <= i < j ==> (#[trigger] groups[i]).key() != key_of(e@, grouping),
        decreases groups.len() - j,
    {
        let g = &groups[j];
        let hit = match grouping {
            Grouping::All => g.location.as_str().is_empty() && g.category.as_str().is_empty()
                && g.stratum.as_str().is_empty(),
            Grouping::State => same_text(g.location.as_str(), e.location_desc.as_str())
                && g.category.as_str().is_empty() && g.stratum.as_str().is_empty(),
            Grouping::LocationCategory => same_text(g.location.as_str(), e.location_desc.as_str())
                && same_text(g.category.as_str(), e.stratification_category1.as_str())
                && same_text(g.stratum.as_str(), e.stratification1.as_str()),
            Grouping::Category => g.location.as_str().is_empty()
                && same_text(g.category.as_str(), e.stratification_category1.as_str())
                && same_text(g.stratum.as_str(), e.stratification1.as_str()),
        };
        if hit {
            assert(g.location@ =~= key_of(e@, grouping).0);
            assert(g.category@ =~= key_of(e@, grouping).1);
            assert(g.stratum@ =~= key_of(e@, grouping).2);
            return Some(j);
        }
        j += 1;
    }
    None
}

/// A group of its own for `e`, holding the value of `e` alone.
fn open_group(e: &TableEntry, grouping: Grouping) -> (s: Series)
    ensures
        s.key() == key_of(e@, grouping),
        s.values@ == seq![e.data_value],
{
    let mut values: Vec<u32> = Vec::new();
    values.push(e.data_value);
    let s = match grouping {
        Grouping::All => Series {
            location: String::new(),
            category: String::new(),
            stratum: String::new(),
            values,
        },
        Grouping::State => Series {
            location: e.location_desc.clone(),
            category: String::new(),
            stratum: String::new(),
            values,
        },
        Grouping::LocationCategory => Series {
            location: e.location_desc.clone(),
            category: e.stratification_category1.clone(),
            stratum: e.stratification1.clone(),
            values,
        },
        Grouping::Category => Series {
            location: String::new(),
            category: e.stratification_category1.clone(),
            stratum: e.stratification1.clone(),
            values,
        },
    };
    assert(s.values@ =~= seq![e.data_value]);
    s
}

/// Groups the rows that a query admits: the groups in the order in which
/// their keys first appear, each with the values of its rows in row order.
pub fn group_rows(table: &Table, question: &str, state: &Option<String>, grouping: Grouping) -> (groups: Vec<Series>)
    ensures
        views(groups@) == grouped(table@, query_for(question, state, grouping)),
{
    let ghost q = query_for(question, state, grouping);
    let ghost rows = table@;
    let mut groups: Vec<Series> = Vec::new();
    let mut n: usize = 0;
    while n < table.entries.len()
        invariant
            n <= table.entries.len(),
            rows == table@,
            q == query_for(question, state, grouping),
            groups_match(groups@, rows, q, n as nat),
        decreases table.entries.len() - n,
    {
        let e = &table.entries[n];
        let ghost before = groups@;
        proof {
            assert(rows[n as int] == e@);
        }
        let ghost keys_before = group_keys(rows, q, n as nat);
        proof {
            group_keys_distinct(rows, q, n as nat);
        }
        if entry_admitted(e, question, state, grouping, Ghost(q)) {
            match find_group(&groups, e, grouping) {
                Some(j) => {
                    groups[j].values.push(e.data_value);
                    proof {
                        assert(keys_before[j as int] == key_of(e@, grouping));
                        assert(keys_before.contains(key_of(e@, grouping)));
                        assert forall|i: int| 0 <= i < groups@.len() implies (#[trigger] groups@[i]).key()
                            == group_keys(rows, q, (n + 1) as nat)[i] && groups@[i].values@
                            == group_values(rows, q, groups@[i].key(), (n + 1) as nat) by {
                            assert(before[i].key() == keys_before[i]);
                            if i != j {
                                assert(keys_before[i] != keys_before[j as int]);
                            }
                        }
                    }
                },
                None => {
                    let s = open_group(e, grouping);
                    groups.push(s);
                    proof {
                        let key = key_of(e@, grouping);
                        if keys_before.contains(key) {
                            let i = choose|i: int| 0 <= i < keys_before.len() && keys_before[i] == key;
                            assert(before[i].key() == key);
                        }
                        group_values_none(rows, q, key, n as nat);
                        assert forall|i: int| 0 <= i < groups@.len() implies (#[trigger] groups@[i]).key()
                            == group_keys(rows, q, (n + 1) as nat)[i] && groups@[i].values@
                            == group_values(rows, q, groups@[i].key(), (n + 1) as nat) by {
                            if i < before.len() {
                                assert(before[i].key() == keys_before[i]);
                                assert(groups@[i] == before[i]);
                            }
                        }
                    }
                },
            }
        } else {
            proof {
                assert forall|i: int| 0 <= i < groups@.len() implies (#[trigger] groups@[i]).key()
                    == group_keys(rows, q, (n + 1) as nat)[i] && groups@[i].values@
                    == group_values(rows, q, groups@[i].key(), (n + 1) as nat) by {
                    assert(before[i].key() == keys_before[i]);
                }
            }
        }
        n += 1;
    }
    proof {
        assert(views(groups@) =~= grouped(rows, q));
    }
    groups
}

/// Whether some row asks the question.
pub open spec fn asks(rows: Seq<EntryView>, question: Seq<char>) -> bool {
    exists|i: int| 0 <= i < rows.len() && (#[trigger] rows[i]).question == question
}

/// Whether some row of the table asks the question.
pub fn has_question(table: &Table, question: &str) -> (yes: bool)
    ensures
        yes == asks(table@, question@),
{
    let mut n: usize = 0;
    while n < table.entries.len()
        invariant
            n <= table.entries.len(),
            forall|i: int| 0 <= i < n ==> (#[trigger] table@[i]).question != question@,
        decreases table.entries.len() - n,
    {
        proof {
            assert(table@[n as int] == table.entries@[n as int]@);
        }
        if same_text(table.entries[n].question.as_str(), question) {
            return true;
        }
        n += 1;
    }
    false
}

/// A question that no row asks has no groups, whatever the grouping.
pub proof fn unasked_question_has_no_groups(rows: Seq<EntryView>, q: Query, n: nat)
    requires
        !asks(rows, q.question),
    ensures
        group_keys(rows, q, n).len() == 0,
    decreases n,
{
    if n == 0 || n > rows.len() {
    } else {
        unasked_question_has_no_groups(rows, q, (n - 1) as nat);
        assert(rows[n - 1].question != q.question);
    }
}

/// Every series of a grouping holds a value: a mean is never taken of
/// nothing.
pub proof fn groups_hold_values(rows: Seq<EntryView>, q: Query, j: int)
    requires
        0 <= j < grouped(rows, q).len(),
    ensures
        grouped(rows, q)[j].values.len() > 0,
{
    let keys = group_keys(rows, q, rows.len());
    assert(keys.contains(keys[j]));
    group_values_nonempty(rows, q, keys[j], rows.len());
}

/// No two series of a grouping have the same key.
pub proof fn groups_have_their_own_keys(rows: Seq<EntryView>, q: Query, i: int, j: int)
    requires
        0 <= i < j < grouped(rows, q).len(),
    ensures
        grouped(rows, q)[i].key != grouped(rows, q)[j].key,
{
    group_keys_distinct(rows, q, rows.len());
}

/// The values of a group are the values of the rows that the query admits
/// and that have the group's key, in row order.
pub proof fn group_values_are_filtered(rows: Seq<EntryView>, q: Query, key: Key, n: nat)
    requires
        n <= rows.len(),
    ensures
        group_values(rows, q, key, n) == rows.take(n as int).filter(
            |e: EntryView| admits(e, q) && key_of(e, q.grouping) == key,
        ).map_values(|e: EntryView| e.data_value),
    decreases n,
{
    let pred = |e: EntryView| admits(e, q) && key_of(e, q.grouping) == key;
    let value = |e: EntryView| e.data_value;
    reveal(Seq::filter);
    if n == 0 {
        assert(rows.take(0).filter(pred).map_values(value) =~= Seq::<u32>::empty());
    } else {
        group_values_are_filtered(rows, q, key, (n - 1) as nat);
        let part = rows.take(n as int);
        assert(part.drop_last() =~= rows.take(n - 1));
        assert(part.last() == rows[n - 1]);
        let before = part.drop_last().filter(pred);
        if pred(rows[n - 1]) {
            assert(part.filter(pred) == before.push(rows[n - 1]));
            assert(before.push(rows[n - 1]).map_values(value) =~= before.map_values(value).push(
                rows[n - 1].data_value,
            ));
        } else {
            assert(part.filter(pred) == before);
        }
    }
}

/// A key has a group exactly if the query admits a row with that key.
pub proof fn key_is_grouped_with_its_rows(rows: Seq<EntryView>, q: Query, key: Key, n: nat)
    requires
        n <= rows.len(),
    ensures
        group_keys(rows, q, n).contains(key) <==> exists|i: int|
            0 <= i < n && admits(#[trigger] rows[i], q) && key_of(rows[i], q.grouping) == key,
    decreases n,
{
    if n > 0 {
        key_is_grouped_with_its_rows(rows, q, key, (n - 1) as nat);
        let before = group_keys(rows, q, (n - 1) as nat);
        let after = group_keys(rows, q, n);
        let e = rows[n - 1];
        if admits(e, q) && !before.contains(key_of(e, q.grouping)) {
            assert(after == before.push(key_of(e, q.grouping)));
            assert(after[before.len() as int] == key_of(e, q.grouping));
            if before.contains(key) {
                let i = choose|i: int| 0 <= i < before.len() && before[i] == key;
                assert(after[i] == key);
            }
            if after.contains(key) && key != key_of(e, q.grouping) {
                let i = choose|i: int| 0 <= i < after.len() && after[i] == key;
                assert(before[i] == key);
            }
        }
        if exists|i: int|
            0 <= i < n && admits(#[trigger] rows[i], q) && key_of(rows[i], q.grouping) == key {
            let i = choose|i: int|
                0 <= i < n && admits(#[trigger] rows[i], q) && key_of(rows[i], q.grouping) == key;
            if i < n - 1 {
                assert(before.contains(key));
            }
        }
    }
}

/// Whether row `i` is one that the query admits under a key.
pub open spec fn row_has_key(rows: Seq<EntryView>, q: Query, key: Key, i: int) -> bool {
    admits(rows[i], q) && key_of(rows[i], q.grouping) == key
}

/// The groups come in the order in which their keys first appear: of two
/// groups, the earlier one has a row before every row of the later one.
pub proof fn groups_come_in_row_order(rows: Seq<EntryView>, q: Query, n: nat, a: int, b: int)
    requires
        n <= rows.len(),
        0 <= a < b < group_keys(rows, q, n).len(),
    ensures
        exists|i: int|
            0 <= i < n && #[trigger] row_has_key(rows, q, group_keys(rows, q, n)[a], i) && forall|
                j: int,
            |
                0 <= j <= i ==> !#[trigger] row_has_key(rows, q, group_keys(rows, q, n)[b], j),
    decreases n,
{
    let before = group_keys(rows, q, (n - 1) as nat);
    let after = group_keys(rows, q, n);
    let e = rows[n - 1];
    if admits(e, q) && !before.contains(key_of(e, q.grouping)) {
        assert(after == before.push(key_of(e, q.grouping)));
        if b < before.len() {
            groups_come_in_row_order(rows, q, (n - 1) as nat, a, b);
            let i = choose|i: int|
                0 <= i < n - 1 && #[trigger] row_has_key(rows, q, before[a], i) && forall|j: int|
                    0 <= j <= i ==> !#[trigger] row_has_key(rows, q, before[b], j);
            assert(row_has_key(rows, q, after[a], i));
        } else {
            let new_key = key_of(e, q.grouping);
            assert(after[b] == new_key);
            assert(before.contains(before[a]));
            key_is_grouped_with_its_rows(rows, q, before[a], (n - 1) as nat);
            key_is_grouped_with_its_rows(rows, q, new_key, (n - 1) as nat);
            let i = choose|i: int|
                0 <= i < n - 1 && admits(#[trigger] rows[i], q) && key_of(rows[i], q.grouping)
                    == before[a];
            assert(row_has_key(rows, q, after[a], i));
            assert forall|j: int| 0 <= j <= i implies !#[trigger] row_has_key(
                rows,
                q,
                after[b],
                j,
            ) by {
                if row_has_key(rows, q, new_key, j) {
                    assert(admits(rows[j], q) && key_of(rows[j], q.grouping) == new_key);
                }
            }
        }
    } else {
        groups_come_in_row_order(rows, q, (n - 1) as nat, a, b);
        let i = choose|i: int|
            0 <= i < n - 1 && #[trigger] row_has_key(rows, q, before[a], i) && forall|j: int|
                0 <= j <= i ==> !#[trigger] row_has_key(rows, q, before[b], j);
        assert(row_has_key(rows, q, after[a], i));
    }
}

} // verus!
