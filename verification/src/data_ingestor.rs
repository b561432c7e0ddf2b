use vstd::prelude::*;
use vstd::string::*;
use crate::catalog::{orientation_of, question_orientation, Orientation};
use crate::grouping::{
    asks, group_keys, group_rows, grouped, has_question, views, Grouping, Query, Series,
    SeriesView,
};
use crate::priority::{by_priority, sort_by_priority};
use crate::scoring::{rank_entries, ranked, scored_views, Scored, ScoredView};

verus! {

/// One observation of the dataset.
///
/// `data_value` is the bit pattern of the observation's 32-bit binary
/// floating-point value. The library carries it through and orders by it;
/// arithmetic on it belongs to the caller.
#[derive(Debug)]
pub struct TableEntry {
    pub index: u32,
    pub location_desc: String,
    pub question: String,
    pub data_value: u32,
    pub stratification_category1: String,
    pub stratification1: String,
}

/// The dataset: its observations in source order.
#[derive(Debug)]
pub struct Table {
    pub entries: Vec<TableEntry>,
}

/// A row of the table as plain values.
pub struct EntryView {
    pub index: u32,
    pub location_desc: Seq<char>,
    pub question: Seq<char>,
    pub data_value: u32,
    pub stratification_category1: Seq<char>,
    pub stratification1: Seq<char>,
}

impl View for TableEntry {
    type V = EntryView;

    open spec fn view(&self) -> EntryView {
        EntryView {
            index: self.index,
            location_desc: self.location_desc@,
            question: self.question@,
            data_value: self.data_value,
            stratification_category1: self.stratification_category1@,
            stratification1: self.stratification1@,
        }
    }
}

impl View for Table {
    type V = Seq<EntryView>;

    open spec fn view(&self) -> Seq<EntryView> {
        Seq::new(self.entries@.len(), |i: int| self.entries@[i]@)
    }
}

/// Which end of a ranking is asked for.
#[derive(Clone, Copy, PartialEq, Eq, Structural, Debug)]
pub enum RankingType {
    Best5,
    Worst5,
}

/// What a kernel that reads the table answers.
#[derive(Debug)]
pub enum Reply {
    /// A text that stands as it is.
    Text(String),
    /// An object with one member for each series: its name made from the key
    /// as the grouping says, its value the mean of the series' values.
    Means(Grouping, Vec<Series>),
}

/// A reply as plain values.
pub enum ReplyView {
    Text(Seq<char>),
    Means(Grouping, Seq<SeriesView>),
}

impl View for Reply {
    type V = ReplyView;

    open spec fn view(&self) -> ReplyView {
        match self {
            Reply::Text(t) => ReplyView::Text(t@),
            Reply::Means(g, groups) => ReplyView::Means(*g, views(groups@)),
        }
    }
}

/// What a kernel that ranks states answers.
#[derive(Debug)]
pub enum Ranking {
    /// A text that stands as it is.
    Text(String),
    /// An object with one member for each entry, in this order: its name the
    /// state, its value the score.
    Entries(Vec<Scored>),
}

/// A ranking as plain values.
pub enum RankingView {
    Text(Seq<char>),
    Entries(Seq<ScoredView>),
}

impl View for Ranking {
    type V = RankingView;

    open spec fn view(&self) -> RankingView {
        match self {
            Ranking::Text(t) => RankingView::Text(t@),
            Ranking::Entries(entries) => RankingView::Entries(scored_views(entries@)),
        }
    }
}

/// The answer where a question has no rows to rank.
pub open spec fn no_data_text() -> Seq<char> {
    "{\"error\":\"No data available for the given question\"}"@
}

/// The answer where a question is in neither list of the catalog.
pub open spec fn not_in_lists_text() -> Seq<char> {
    "{\"error\":\"Question not found in predefined lists\"}"@
}

/// The answer where there is nothing to take a global mean of.
pub open spec fn null_mean_text() -> Seq<char> {
    "{\"global_mean\":null}"@
}

/// The answer where a question and a state have no rows.
pub open spec fn no_state_data_text() -> Seq<char> {
    "{\"error\":\"No data avialable for the given question and state\"}"@
}

/// The answer where no row asks the question: an empty JSON string.
pub open spec fn empty_string_text() -> Seq<char> {
    "\"\""@
}

/// The means by state: one series for each state that has rows for the
/// question, in the order in which the states first appear.
pub open spec fn states_mean_reply(rows: Seq<EntryView>, question: Seq<char>) -> ReplyView {
    ReplyView::Means(
        Grouping::State,
        grouped(rows, Query { question, state: None, grouping: Grouping::State }),
    )
}

/// The mean of one state: its series, or the empty text where the state has
/// no rows for the question.
pub open spec fn state_mean_reply(
    rows: Seq<EntryView>,
    question: Seq<char>,
    state: Seq<char>,
) -> ReplyView {
    let groups = grouped(rows, Query { question, state: Some(state), grouping: Grouping::State });
    if groups.len() == 0 {
        ReplyView::Text(Seq::empty())
    } else {
        ReplyView::Means(Grouping::State, groups)
    }
}

/// The global mean: one series of all rows for the question, or the null
/// answer where there are none.
pub open spec fn global_mean_reply(rows: Seq<EntryView>, question: Seq<char>) -> ReplyView {
    let groups = grouped(rows, Query { question, state: None, grouping: Grouping::All });
    if groups.len() == 0 {
        ReplyView::Text(null_mean_text())
    } else {
        ReplyView::Means(Grouping::All, groups)
    }
}

/// The means by category: the empty string where no row asks the question;
/// else one series for each location, category and stratum, in the order of
/// the priority tables, without the rows that lack a category or a stratum.
pub open spec fn mean_by_category_reply(rows: Seq<EntryView>, question: Seq<char>) -> ReplyView {
    if !asks(rows, question) {
        ReplyView::Text(empty_string_text())
    } else {
        ReplyView::Means(
            Grouping::LocationCategory,
            by_priority(
                grouped(rows, Query { question, state: None, grouping: Grouping::LocationCategory }),
            ),
        )
    }
}

/// The means by category in one state: one series for each category and
/// stratum, in the order of the priority tables; an error text where the
/// state has no rows for the question.
pub open spec fn state_mean_by_category_reply(
    rows: Seq<EntryView>,
    question: Seq<char>,
    state: Seq<char>,
) -> ReplyView {
    let groups = grouped(rows, Query { question, state: Some(state), grouping: Grouping::Category });
    if groups.len() == 0 {
        ReplyView::Text(no_state_data_text())
    } else {
        ReplyView::Means(Grouping::Category, by_priority(groups))
    }
}

/// Whether the best, or the worst, of a question come first in ascending
/// order.
pub open spec fn ascending_for(o: Orientation, r: RankingType) -> bool {
    (o == Orientation::MinIsBest) == (r == RankingType::Best5)
}

/// The first five states of a ranking: best first or worst first, by the
/// question's orientation; an error text for a question in neither list.
pub open spec fn best5_or_worst5(
    items: Seq<ScoredView>,
    question: Seq<char>,
    r: RankingType,
) -> RankingView {
    match orientation_of(question) {
        Orientation::Unranked => RankingView::Text(not_in_lists_text()),
        o => RankingView::Entries(ranked(items, ascending_for(o, r), 5)),
    }
}

/// The five best or worst states; an error text where no state has data.
pub open spec fn top5_ranking(items: Seq<ScoredView>, question: Seq<char>, r: RankingType) -> RankingView {
    if items.len() == 0 {
        RankingView::Text(no_data_text())
    } else {
        best5_or_worst5(items, question, r)
    }
}

/// The states in ascending order of their differences; the null answer
/// where there is none.
pub open spec fn diff_ranking(items: Seq<ScoredView>) -> RankingView {
    if items.len() == 0 {
        RankingView::Text(null_mean_text())
    } else {
        RankingView::Entries(ranked(items, true, items.len()))
    }
}

/// The series of the states that have rows for a question.
pub fn compute_states_mean(table: &Table, question: &str) -> (groups: Vec<Series>)
    ensures
        views(groups@) == grouped(
            table@,
            (Query { question: question@, state: None, grouping: Grouping::State }),
        ),
{
    group_rows(table, question, &None, Grouping::State)
}

/// For each state with rows for the question, the values to take the mean of.
pub fn json_response_states_mean(table: &Table, question: &str) -> (reply: Reply)
    ensures
        reply@ == states_mean_reply(table@, question@),
{
    Reply::Means(Grouping::State, compute_states_mean(table, question))
}

/// For one state, the values to take the mean of; the empty text where the
/// state has no rows for the question.
pub fn json_response_state_mean(table: &Table, question: &str, state: &str) -> (reply: Reply)
    ensures
        reply@ == state_mean_reply(table@, question@, state@),
{
    let groups = group_rows(table, question, &Some(String::from_str(state)), Grouping::State);
    if groups.len() == 0 {
        Reply::Text(String::new())
    } else {
        Reply::Means(Grouping::State, groups)
    }
}

/// The first five states in the order that the question's orientation and
/// the ranking type give; an error text for a question in neither list.
pub fn get_best5_or_worst5(states_mean: &Vec<Scored>, question: &str, ranking_type: RankingType) -> (ranking: Ranking)
    ensures
        ranking@ == best5_or_worst5(scored_views(states_mean@), question@, ranking_type),
{
    match question_orientation(question) {
        Orientation::Unranked => Ranking::Text(
            String::from_str("{\"error\":\"Question not found in predefined lists\"}"),
        ),
        Orientation::MinIsBest => Ranking::Entries(
            rank_entries(states_mean, matches!(ranking_type, RankingType::Best5), 5),
        ),
        Orientation::MaxIsBest => Ranking::Entries(
            rank_entries(states_mean, matches!(ranking_type, RankingType::Worst5), 5),
        ),
    }
}

/// The five best states of a question, best first. `states_mean` holds each
/// state with its mean.
pub fn json_response_best5(states_mean: &Vec<Scored>, question: &str) -> (ranking: Ranking)
    ensures
        ranking@ == top5_ranking(scored_views(states_mean@), question@, RankingType::Best5),
{
    if states_mean.len() == 0 {
        Ranking::Text(String::from_str("{\"error\":\"No data available for the given question\"}"))
    } else {
        get_best5_or_worst5(states_mean, question, RankingType::Best5)
    }
}

/// The five worst states of a question, worst first. `states_mean` holds
/// each state with its mean.
pub fn json_response_worst5(states_mean: &Vec<Scored>, question: &str) -> (ranking: Ranking)
    ensures
        ranking@ == top5_ranking(scored_views(states_mean@), question@, RankingType::Worst5),
{
    if states_mean.len() == 0 {
        Ranking::Text(String::from_str("{\"error\":\"No data available for the given question\"}"))
    } else {
        get_best5_or_worst5(states_mean, question, RankingType::Worst5)
    }
}

/// The values of all rows for a question, to take one mean of; the null
/// answer where there are none.
pub fn json_response_global_mean(table: &Table, question: &str) -> (reply: Reply)
    ensures
        reply@ == global_mean_reply(table@, question@),
{
    let groups = group_rows(table, question, &None, Grouping::All);
    if groups.len() == 0 {
        Reply::Text(String::from_str("{\"global_mean\":null}"))
    } else {
        Reply::Means(Grouping::All, groups)
    }
}

/// The states in the order of their differences, smallest first; the null
/// answer where there are none. `diffs` holds each state with the global
/// mean less its own.
pub fn json_response_diff_from_mean(diffs: &Vec<Scored>) -> (ranking: Ranking)
    ensures
        ranking@ == diff_ranking(scored_views(diffs@)),
{
    if diffs.len() == 0 {
        Ranking::Text(String::from_str("{\"global_mean\":null}"))
    } else {
        Ranking::Entries(rank_entries(diffs, true, diffs.len()))
    }
}

/// For each location, category and stratum with rows for the question, the
/// values to take the mean of, in the order of the priority tables.
pub fn json_response_mean_by_catagory(table: &Table, question: &str) -> (reply: Reply)
    ensures
        reply@ == mean_by_category_reply(table@, question@),
{
    if !has_question(table, question) {
        return Reply::Text(String::from_str("\"\""));
    }
    let groups = group_rows(table, question, &None, Grouping::LocationCategory);
    Reply::Means(Grouping::LocationCategory, sort_by_priority(&groups))
}

/// For each category and stratum with rows for the question in one state,
/// the values to take the mean of, in the order of the priority tables; an
/// error text where there are none.
pub fn json_response_state_mean_by_category(table: &Table, question: &str, state: &str) -> (reply: Reply)
    ensures
        reply@ == state_mean_by_category_reply(table@, question@, state@),
{
    let groups = group_rows(table, question, &Some(String::from_str(state)), Grouping::Category);
    if groups.len() == 0 {
        Reply::Text(
            String::from_str("{\"error\":\"No data avialable for the given question and state\"}"),
        )
    } else {
        Reply::Means(Grouping::Category, sort_by_priority(&groups))
    }
}

/// A table without rows gives each kernel its answer for no data: no member
/// for the means by state, the empty text for one state, the null mean, the
/// empty string for the means by category, and the error texts.
pub proof fn empty_table_answers(question: Seq<char>, state: Seq<char>)
    ensures
        states_mean_reply(Seq::empty(), question) == ReplyView::Means(
            Grouping::State,
            Seq::empty(),
        ),
        state_mean_reply(Seq::empty(), question, state) == ReplyView::Text(Seq::empty()),
        global_mean_reply(Seq::empty(), question) == ReplyView::Text(null_mean_text()),
        mean_by_category_reply(Seq::empty(), question) == ReplyView::Text(empty_string_text()),
        state_mean_by_category_reply(Seq::empty(), question, state) == ReplyView::Text(
            no_state_data_text(),
        ),
        top5_ranking(Seq::empty(), question, RankingType::Best5) == RankingView::Text(
            no_data_text(),
        ),
        top5_ranking(Seq::empty(), question, RankingType::Worst5) == RankingView::Text(
            no_data_text(),
        ),
        diff_ranking(Seq::empty()) == RankingView::Text(null_mean_text()),
{
    let rows = Seq::<EntryView>::empty();
    assert forall|q: Query| #[trigger] grouped(rows, q) =~= Seq::<SeriesView>::empty() by {
        assert(group_keys(rows, q, 0).len() == 0);
    }
    assert(grouped(rows, Query { question, state: None, grouping: Grouping::State })
        == Seq::<SeriesView>::empty());
    assert(grouped(rows, Query { question, state: Some(state), grouping: Grouping::State })
        == Seq::<SeriesView>::empty());
    assert(grouped(rows, Query { question, state: None, grouping: Grouping::All })
        == Seq::<SeriesView>::empty());
    assert(grouped(rows, Query { question, state: Some(state), grouping: Grouping::Category })
        == Seq::<SeriesView>::empty());
}

} // verus!
