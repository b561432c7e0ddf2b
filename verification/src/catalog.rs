use vstd::prelude::*;
use crate::text::same_text;

verus! {

/// Which end of the scale is the good one for a question.
#[derive(Clone, Copy, PartialEq, Eq, Structural, Debug)]
pub enum Orientation {
    /// Smaller values are better.
    MinIsBest,
    /// Larger values are better.
    MaxIsBest,
    /// The question is in neither list.
    Unranked,
}

/// The questions for which smaller values are better.
pub open spec fn best_is_min(question: Seq<char>) -> bool {
    ||| question
        == "Percent of adults aged 18 years and older who have an overweight classification"@
    ||| question == "Percent of adults aged 18 years and older who have obesity"@
    ||| question == "Percent of adults who engage in no leisure-time physical activity"@
    ||| question == "Percent of adults who report consuming fruit less than one time daily"@
    ||| question
        == "Percent of adults who report consuming vegetables less than one time daily"@
}

/// The questions for which larger values are better.
pub open spec fn best_is_max(question: Seq<char>) -> bool {
    ||| question
        == "Percent of adults who achieve at least 150 minutes a week of moderate-intensity aerobic physical activity or 75 minutes a week of vigorous-intensity aerobic activity (or an equivalent combination)"@
    ||| question
        == "Percent of adults who achieve at least 150 minutes a week of moderate-intensity aerobic physical activity or 75 minutes a week of vigorous-intensity aerobic physical activity and engage in muscle-strengthening activities on 2 or more days a week"@
    ||| question
        == "Percent of adults who achieve at least 300 minutes a week of moderate-intensity aerobic physical activity or 150 minutes a week of vigorous-intensity aerobic activity (or an equivalent combination)"@
    ||| question
        == "Percent of adults who engage in muscle-strengthening activities on 2 or more days a week"@
}

/// The orientation of a question; the list of the smaller-is-better
/// questions is looked at first.
pub open spec fn orientation_of(question: Seq<char>) -> Orientation {
    if best_is_min(question) {
        Orientation::MinIsBest
    } else if best_is_max(question) {
        Orientation::MaxIsBest
    } else {
        Orientation::Unranked
    }
}

fn in_best_is_min(question: &str) -> (yes: bool)
    ensures
        yes == best_is_min(question@),
{
    same_text(
        question,
        "Percent of adults aged 18 years and older who have an overweight classification",
    ) || same_text(question, "Percent of adults aged 18 years and older who have obesity")
        || same_text(question, "Percent of adults who engage in no leisure-time physical activity")
        || same_text(
        question,
        "Percent of adults who report consuming fruit less than one time daily",
    ) || same_text(
        question,
        "Percent of adults who report consuming vegetables less than one time daily",
    )
}

fn in_best_is_max(question: &str) -> (yes: bool)
    ensures
        yes == best_is_max(question@),
{
    same_text(
        question,
        "Percent of adults who achieve at least 150 minutes a week of moderate-intensity aerobic physical activity or 75 minutes a week of vigorous-intensity aerobic activity (or an equivalent combination)",
    ) || same_text(
        question,
        "Percent of adults who achieve at least 150 minutes a week of moderate-intensity aerobic physical activity or 75 minutes a week of vigorous-intensity aerobic physical activity and engage in muscle-strengthening activities on 2 or more days a week",
    ) || same_text(
        question,
        "Percent of adults who achieve at least 300 minutes a week of moderate-intensity aerobic physical activity or 150 minutes a week of vigorous-intensity aerobic activity (or an equivalent combination)",
    ) || same_text(
        question,
        "Percent of adults who engage in muscle-strengthening activities on 2 or more days a week",
    )
}

/// Looks a question up in the two lists.
pub fn question_orientation(question: &str) -> (o: Orientation)
    ensures
        o == orientation_of(question@),
{
    if in_best_is_min(question) {
        Orientation::MinIsBest
    } else if in_best_is_max(question) {
        Orientation::MaxIsBest
    } else {
        Orientation::Unranked
    }
}

/// A priority table: names with their priorities, the smaller the earlier.
pub type Priorities = Seq<(Seq<char>, u32)>;

/// The categories with their priorities.
pub open spec fn category_priorities() -> Priorities {
    seq![
        ("Age (years)"@, 1u32),
        ("Education"@, 2u32),
        ("Gender"@, 3u32),
        ("Income"@, 4u32),
        ("Race/Ethnicity"@, 5u32),
        ("Total"@, 6u32),
    ]
}

/// The age groups with their priorities.
pub open spec fn age_priorities() -> Priorities {
    seq![
        ("18 - 24"@, 1u32),
        ("25 - 34"@, 2u32),
        ("35 - 44"@, 3u32),
        ("45 - 54"@, 4u32),
        ("55 - 64"@, 5u32),
        ("65 or older"@, 6u32),
    ]
}

/// The levels of education with their priorities.
pub open spec fn education_priorities() -> Priorities {
    seq![
        ("Less than high school"@, 1u32),
        ("High school graduate"@, 2u32),
        ("Some college or technical school"@, 3u32),
        ("College graduate"@, 4u32),
    ]
}

/// The income brackets with their priorities.
pub open spec fn income_priorities() -> Priorities {
    seq![
        ("Less than $15,000"@, 1u32),
        ("$15,000 - $24,999"@, 2u32),
        ("$25,000 - $34,999"@, 3u32),
        ("$35,000 - $49,999"@, 4u32),
        ("$50,000 - $74,999"@, 5u32),
        ("$75,000 or greater"@, 6u32),
        ("Data not reported"@, 7u32),
    ]
}

/// A table as its names' characters with their priorities.
pub open spec fn table_view(table: Seq<(&'static str, u32)>) -> Priorities {
    Seq::new(table.len(), |i: int| (table[i].0@, table[i].1))
}

/// The priority that a table gives a name: that of the first line with the
/// name, `fallback` if there is none.
pub open spec fn priority_of(table: Priorities, name: Seq<char>, fallback: u32) -> u32
    decreases table.len(),
{
    if table.len() == 0 {
        fallback
    } else if table[0].0 == name {
        table[0].1
    } else {
        priority_of(table.drop_first(), name, fallback)
    }
}

/// The table of the categories.
pub fn get_category_priorities() -> (table: Vec<(&'static str, u32)>)
    ensures
        table_view(table@) == category_priorities(),
{
    let mut table: Vec<(&'static str, u32)> = Vec::new();
    table.push(("Age (years)", 1));
    table.push(("Education", 2));
    table.push(("Gender", 3));
    table.push(("Income", 4));
    table.push(("Race/Ethnicity", 5));
    table.push(("Total", 6));
    assert(table_view(table@) =~= category_priorities());
    table
}

/// The table of the age groups.
pub fn get_age_priorities() -> (table: Vec<(&'static str, u32)>)
    ensures
        table_view(table@) == age_priorities(),
{
    let mut table: Vec<(&'static str, u32)> = Vec::new();
    table.push(("18 - 24", 1));
    table.push(("25 - 34", 2));
    table.push(("35 - 44", 3));
    table.push(("45 - 54", 4));
    table.push(("55 - 64", 5));
    table.push(("65 or older", 6));
    assert(table_view(table@) =~= age_priorities());
    table
}

/// The table of the levels of education.
pub fn get_education_priorities() -> (table: Vec<(&'static str, u32)>)
    ensures
        table_view(table@) == education_priorities(),
{
    let mut table: Vec<(&'static str, u32)> = Vec::new();
    table.push(("Less than high school", 1));
    table.push(("High school graduate", 2));
    table.push(("Some college or technical school", 3));
    table.push(("College graduate", 4));
    assert(table_view(table@) =~= education_priorities());
    table
}

/// The table of the income brackets.
pub fn get_income_priorities() -> (table: Vec<(&'static str, u32)>)
    ensures
        table_view(table@) == income_priorities(),
{
    let mut table: Vec<(&'static str, u32)> = Vec::new();
    table.push(("Less than $15,000", 1));
    table.push(("$15,000 - $24,999", 2));
    table.push(("$25,000 - $34,999", 3));
    table.push(("$35,000 - $49,999", 4));
    table.push(("$50,000 - $74,999", 5));
    table.push(("$75,000 or greater", 6));
    table.push(("Data not reported", 7));
    assert(table_view(table@) =~= income_priorities());
    table
}

/// Looks a name up in a table; `fallback` where the table has no line for it.
pub fn priority_in(table: &Vec<(&'static str, u32)>, name: &str, fallback: u32) -> (p: u32)
    ensures
        p == priority_of(table_view(table@), name@, fallback),
{
    let ghost view = table_view(table@);
    let mut n: usize = 0;
    proof {
        assert(view.skip(0) =~= view);
    }
    while n < table.len()
        invariant
            n <= table.len(),
            view == table_view(table@),
            priority_of(view, name@, fallback) == priority_of(view.skip(n as int), name@, fallback),
        decreases table.len() - n,
    {
        proof {
            assert(view.skip(n as int)[0] == (table@[n as int].0@, table@[n as int].1));
            assert(view.skip(n as int).drop_first() =~= view.skip(n + 1));
        }
        if same_text(table[n].0, name) {
            return table[n].1;
        }
        n += 1;
    }
    fallback
}

} // verus!
