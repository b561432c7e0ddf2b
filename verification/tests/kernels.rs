use method_rs::data_ingestor::{
    compute_states_mean, get_best5_or_worst5, json_response_best5, json_response_diff_from_mean,
    json_response_global_mean, json_response_mean_by_catagory, json_response_state_mean,
    json_response_state_mean_by_category, json_response_states_mean, json_response_worst5,
    Ranking, RankingType, Reply, Table, TableEntry,
};
use method_rs::grouping::{group_rows, has_question, Grouping, Series};
use method_rs::priority::sort_by_priority;
use method_rs::render::{render_ranking, render_reply, series_name};
use method_rs::scoring::{order_key, rank_entries, with_scores, Scored};

const OBESITY: &str = "Percent of adults aged 18 years and older who have obesity";
const MUSCLE: &str =
    "Percent of adults who engage in muscle-strengthening activities on 2 or more days a week";

fn row(index: u32, location: &str, question: &str, value: f32, category: &str, stratum: &str) -> TableEntry {
    TableEntry {
        index,
        location_desc: location.to_string(),
        question: question.to_string(),
        data_value: value.to_bits(),
        stratification_category1: category.to_string(),
        stratification1: stratum.to_string(),
    }
}

fn fixture(question: &str) -> Table {
    Table {
        entries: vec![
            row(1, "CA", question, 10.0, "Total", "Total"),
            row(2, "CA", question, 30.0, "Total", "Total"),
            row(3, "TX", question, 40.0, "Total", "Total"),
            row(4, "NY", question, 50.0, "Total", "Total"),
        ],
    }
}

fn mean(values: &[u32]) -> f32 {
    let sum: f32 = values.iter().map(|bits| f32::from_bits(*bits)).sum();
    sum / values.len() as f32
}

fn number(value: f32) -> String {
    serde_json::to_string(&value).unwrap()
}

fn answer(reply: &Reply) -> String {
    let texts: Vec<String> = match reply {
        Reply::Text(_) => Vec::new(),
        Reply::Means(_, groups) => groups.iter().map(|g| number(mean(&g.values))).collect(),
    };
    render_reply(reply, &texts)
}

fn ranking_answer(ranking: &Ranking) -> String {
    let texts: Vec<String> = match ranking {
        Ranking::Text(_) => Vec::new(),
        Ranking::Entries(entries) => {
            entries.iter().map(|e| number(f32::from_bits(e.score))).collect()
        }
    };
    render_ranking(ranking, &texts)
}

fn state_means(table: &Table, question: &str) -> Vec<Scored> {
    let groups = compute_states_mean(table, question);
    let scores: Vec<u32> = groups.iter().map(|g| mean(&g.values).to_bits()).collect();
    with_scores(&groups, &scores)
}

fn state_diffs(table: &Table, question: &str) -> Vec<Scored> {
    let all = group_rows(table, question, &None, Grouping::All);
    let groups = compute_states_mean(table, question);
    let scores: Vec<u32> = match all.first() {
        Some(total) => {
            let global = mean(&total.values);
            groups.iter().map(|g| (global - mean(&g.values)).to_bits()).collect()
        }
        None => Vec::new(),
    };
    with_scores(&groups, &scores)
}

fn scored(state: &str, value: f32) -> Scored {
    Scored { state: state.to_string(), score: value.to_bits() }
}

fn states_of(entries: &[Scored]) -> Vec<String> {
    entries.iter().map(|e| e.state.clone()).collect()
}

#[test]
fn states_mean_of_the_fixture() {
    let table = fixture("Q1");
    let reply = json_response_states_mean(&table, "Q1");
    assert_eq!(answer(&reply), "{\"CA\":20.0,\"TX\":40.0,\"NY\":50.0}");
}

#[test]
fn states_mean_groups_hold_values_in_row_order() {
    let table = fixture("Q1");
    let groups = compute_states_mean(&table, "Q1");
    assert_eq!(groups.len(), 3);
    assert_eq!(groups[0].location, "CA");
    assert_eq!(groups[0].category, "");
    assert_eq!(groups[0].stratum, "");
    assert_eq!(groups[0].values, vec![10.0f32.to_bits(), 30.0f32.to_bits()]);
    assert_eq!(groups[1].location, "TX");
    assert_eq!(groups[1].values, vec![40.0f32.to_bits()]);
    assert_eq!(groups[2].location, "NY");
    assert_eq!(groups[2].values, vec![50.0f32.to_bits()]);
}

#[test]
fn states_mean_without_rows_is_an_empty_object() {
    let table = fixture("Q1");
    let reply = json_response_states_mean(&table, "Q2");
    assert_eq!(answer(&reply), "{}");
}

#[test]
fn state_mean_of_the_fixture() {
    let table = fixture("Q1");
    let reply = json_response_state_mean(&table, "Q1", "CA");
    assert_eq!(answer(&reply), "{\"CA\":20.0}");
}

#[test]
fn state_mean_without_rows_is_the_empty_text() {
    let table = fixture("Q1");
    assert_eq!(answer(&json_response_state_mean(&table, "Q1", "WA")), "");
    assert_eq!(answer(&json_response_state_mean(&table, "Q2", "CA")), "");
}

#[test]
fn best5_of_the_fixture_is_ascending() {
    let table = fixture(OBESITY);
    let means = state_means(&table, OBESITY);
    let ranking = json_response_best5(&means, OBESITY);
    assert_eq!(ranking_answer(&ranking), "{\"CA\":20.0,\"TX\":40.0,\"NY\":50.0}");
}

#[test]
fn worst5_of_the_fixture_is_descending() {
    let table = fixture(OBESITY);
    let means = state_means(&table, OBESITY);
    let ranking = json_response_worst5(&means, OBESITY);
    assert_eq!(ranking_answer(&ranking), "{\"NY\":50.0,\"TX\":40.0,\"CA\":20.0}");
}

#[test]
fn best5_of_a_larger_is_better_question_is_descending() {
    let table = fixture(MUSCLE);
    let means = state_means(&table, MUSCLE);
    assert_eq!(
        ranking_answer(&json_response_best5(&means, MUSCLE)),
        "{\"NY\":50.0,\"TX\":40.0,\"CA\":20.0}"
    );
    assert_eq!(
        ranking_answer(&json_response_worst5(&means, MUSCLE)),
        "{\"CA\":20.0,\"TX\":40.0,\"NY\":50.0}"
    );
}

#[test]
fn ranking_a_question_outside_the_lists_is_an_error() {
    let table = fixture("Q1");
    let means = state_means(&table, "Q1");
    let expected = "{\"error\":\"Question not found in predefined lists\"}";
    assert_eq!(ranking_answer(&json_response_best5(&means, "Q1")), expected);
    assert_eq!(ranking_answer(&json_response_worst5(&means, "Q1")), expected);
    assert_eq!(
        ranking_answer(&get_best5_or_worst5(&means, "Q1", RankingType::Best5)),
        expected
    );
}

#[test]
fn ranking_without_data_is_an_error() {
    let table = fixture("Q1");
    let means = state_means(&table, OBESITY);
    assert!(means.is_empty());
    let expected = "{\"error\":\"No data available for the given question\"}";
    assert_eq!(ranking_answer(&json_response_best5(&means, OBESITY)), expected);
    assert_eq!(ranking_answer(&json_response_worst5(&means, OBESITY)), expected);
}

#[test]
fn ranking_keeps_five_states() {
    let means = vec![
        scored("A", 7.0),
        scored("B", 3.0),
        scored("C", 9.0),
        scored("D", 1.0),
        scored("E", 5.0),
        scored("F", 8.0),
        scored("G", 2.0),
    ];
    match json_response_best5(&means, OBESITY) {
        Ranking::Entries(entries) => {
            assert_eq!(states_of(&entries), vec!["D", "G", "B", "E", "A"]);
        }
        Ranking::Text(t) => panic!("unexpected text {}", t),
    }
    match json_response_worst5(&means, OBESITY) {
        Ranking::Entries(entries) => {
            assert_eq!(states_of(&entries), vec!["C", "F", "A", "E", "B"]);
        }
        Ranking::Text(t) => panic!("unexpected text {}", t),
    }
}

#[test]
fn best_and_worst_are_apart_with_ten_states() {
    let names = ["A", "B", "C", "D", "E", "F", "G", "H", "I", "J", "K", "L"];
    let means: Vec<Scored> = names.iter().map(|n| scored(n, 4.0)).collect();
    let best = rank_entries(&means, true, 5);
    let worst = rank_entries(&means, false, 5);
    assert_eq!(states_of(&best), vec!["A", "B", "C", "D", "E"]);
    assert_eq!(states_of(&worst), vec!["L", "K", "J", "I", "H"]);
    for b in &best {
        assert!(names.contains(&b.state.as_str()));
        assert!(worst.iter().all(|w| w.state != b.state));
    }
}

#[test]
fn best_and_worst_overlap_with_fewer_than_ten_states() {
    let table = fixture(OBESITY);
    let means = state_means(&table, OBESITY);
    let best = rank_entries(&means, true, 5);
    let worst = rank_entries(&means, false, 5);
    assert_eq!(best.len(), 3);
    assert_eq!(worst.len(), 3);
    assert!(best.iter().any(|b| worst.iter().any(|w| w.state == b.state)));
}

#[test]
fn rank_entries_orders_negative_numbers_and_zeros() {
    let items = vec![
        scored("a", 1.5),
        scored("b", -2.0),
        scored("c", 0.0),
        scored("d", -0.0),
        scored("e", -0.25),
        scored("f", f32::INFINITY),
        scored("g", f32::NEG_INFINITY),
    ];
    let up = rank_entries(&items, true, 7);
    assert_eq!(states_of(&up), vec!["g", "b", "e", "c", "d", "a", "f"]);
    let down = rank_entries(&items, false, 3);
    assert_eq!(states_of(&down), vec!["f", "a", "d"]);
}

#[test]
fn order_key_goes_with_the_numbers() {
    let values = [-1.0e30f32, -3.5, -1.0, -1.0e-30, 0.0, 1.0e-30, 0.5, 1.0, 20.0, 3.0e38];
    for a in values {
        for b in values {
            assert_eq!(a < b, order_key(a.to_bits()) < order_key(b.to_bits()));
            assert_eq!(a == b, order_key(a.to_bits()) == order_key(b.to_bits()));
        }
    }
    assert_eq!(order_key(0.0f32.to_bits()), 0);
    assert_eq!(order_key((-0.0f32).to_bits()), 0);
    assert_eq!(order_key(1.0f32.to_bits()), 0x3f80_0000);
    assert_eq!(order_key((-1.0f32).to_bits()), -0x3f80_0000);
}

#[test]
fn global_mean_of_the_fixture() {
    let table = fixture("Q1");
    let reply = json_response_global_mean(&table, "Q1");
    assert_eq!(answer(&reply), "{\"global_mean\":32.5}");
}

#[test]
fn global_mean_without_rows_is_null() {
    let table = fixture("Q1");
    let reply = json_response_global_mean(&table, "Q2");
    assert_eq!(answer(&reply), "{\"global_mean\":null}");
}

#[test]
fn diff_from_mean_of_the_fixture() {
    let table = fixture("Q1");
    let diffs = state_diffs(&table, "Q1");
    let ranking = json_response_diff_from_mean(&diffs);
    assert_eq!(ranking_answer(&ranking), "{\"NY\":-17.5,\"TX\":-7.5,\"CA\":12.5}");
}

#[test]
fn diff_from_mean_without_rows_is_null() {
    let table = fixture("Q1");
    let diffs = state_diffs(&table, "Q2");
    let ranking = json_response_diff_from_mean(&diffs);
    assert_eq!(ranking_answer(&ranking), "{\"global_mean\":null}");
}

fn category_table() -> Table {
    Table {
        entries: vec![
            row(1, "CA", "Q1", 10.0, "Total", "Total"),
            row(2, "CA", "Q1", 20.0, "Income", "$75,000 or greater"),
            row(3, "CA", "Q1", 30.0, "Age (years)", "65 or older"),
            row(4, "TX", "Q1", 40.0, "Age (years)", "18 - 24"),
            row(5, "CA", "Q1", 50.0, "Age (years)", "65 or older"),
            row(6, "CA", "Q1", 60.0, "Education", "College graduate"),
            row(7, "CA", "Q1", 70.0, "Education", "Less than high school"),
            row(8, "CA", "Q1", 80.0, "", "Total"),
            row(9, "CA", "Q1", 90.0, "Gender", ""),
            row(10, "CA", "Q2", 99.0, "Total", "Total"),
            row(11, "CA", "Q1", 11.0, "Gender", "Male"),
            row(12, "CA", "Q1", 12.0, "Gender", "Female"),
            row(13, "CA", "Q1", 13.0, "Income", "Less than $15,000"),
            row(14, "CA", "Q1", 14.0, "Shoe size", "Large"),
            row(15, "CA", "Q1", 15.0, "Age (years)", "unknown"),
        ],
    }
}

#[test]
fn mean_by_category_follows_the_priority_tables() {
    let table = category_table();
    let reply = json_response_mean_by_catagory(&table, "Q1");
    assert_eq!(
        answer(&reply),
        "{\"('TX', 'Age (years)', '18 - 24')\":40.0,\
         \"('CA', 'Age (years)', '65 or older')\":40.0,\
         \"('CA', 'Age (years)', 'unknown')\":15.0,\
         \"('CA', 'Education', 'Less than high school')\":70.0,\
         \"('CA', 'Education', 'College graduate')\":60.0,\
         \"('CA', 'Gender', 'Male')\":11.0,\
         \"('CA', 'Gender', 'Female')\":12.0,\
         \"('CA', 'Income', 'Less than $15,000')\":13.0,\
         \"('CA', 'Income', '$75,000 or greater')\":20.0,\
         \"('CA', 'Total', 'Total')\":10.0,\
         \"('CA', 'Shoe size', 'Large')\":14.0}"
    );
}

#[test]
fn mean_by_category_of_an_unasked_question_is_an_empty_string() {
    let table = category_table();
    let reply = json_response_mean_by_catagory(&table, "Q9");
    assert_eq!(answer(&reply), "\"\"");
    assert!(!has_question(&table, "Q9"));
    assert!(has_question(&table, "Q2"));
}

#[test]
fn mean_by_category_with_no_category_at_all_is_an_empty_object() {
    let table = Table { entries: vec![row(1, "CA", "Q1", 1.0, "", ""), row(2, "TX", "Q1", 2.0, "Total", "")] };
    let reply = json_response_mean_by_catagory(&table, "Q1");
    assert_eq!(answer(&reply), "{}");
}

#[test]
fn state_mean_by_category_follows_the_priority_tables() {
    let table = category_table();
    let reply = json_response_state_mean_by_category(&table, "Q1", "CA");
    assert_eq!(
        answer(&reply),
        "{\"('Age (years)', '65 or older')\":40.0,\
         \"('Age (years)', 'unknown')\":15.0,\
         \"('Education', 'Less than high school')\":70.0,\
         \"('Education', 'College graduate')\":60.0,\
         \"('Gender', '')\":90.0,\
         \"('Gender', 'Male')\":11.0,\
         \"('Gender', 'Female')\":12.0,\
         \"('Income', 'Less than $15,000')\":13.0,\
         \"('Income', '$75,000 or greater')\":20.0,\
         \"('Total', 'Total')\":10.0,\
         \"('', 'Total')\":80.0,\
         \"('Shoe size', 'Large')\":14.0}"
    );
}

#[test]
fn state_mean_by_category_without_rows_is_an_error() {
    let table = category_table();
    let reply = json_response_state_mean_by_category(&table, "Q1", "WA");
    assert_eq!(
        answer(&reply),
        "{\"error\":\"No data avialable for the given question and state\"}"
    );
}

#[test]
fn sort_by_priority_keeps_the_order_within_a_rank() {
    let series = |location: &str, category: &str, stratum: &str| Series {
        location: location.to_string(),
        category: category.to_string(),
        stratum: stratum.to_string(),
        values: vec![1],
    };
    let groups = vec![
        series("b", "Total", "Total"),
        series("a", "Total", "Total"),
        series("c", "Age (years)", "25 - 34"),
        series("d", "Total", "Total"),
        series("e", "Age (years)", "25 - 34"),
    ];
    let sorted = sort_by_priority(&groups);
    let places: Vec<&str> = sorted.iter().map(|g| g.location.as_str()).collect();
    assert_eq!(places, vec!["c", "e", "b", "a", "d"]);
    assert_eq!(sorted[0].values, vec![1]);
}

#[test]
fn series_name_for_each_grouping() {
    let s = Series {
        location: "Ohio".to_string(),
        category: "Income".to_string(),
        stratum: "Data not reported".to_string(),
        values: Vec::new(),
    };
    assert_eq!(series_name(Grouping::All, &s), "global_mean");
    assert_eq!(series_name(Grouping::State, &s), "Ohio");
    assert_eq!(
        series_name(Grouping::LocationCategory, &s),
        "('Ohio', 'Income', 'Data not reported')"
    );
    assert_eq!(series_name(Grouping::Category, &s), "('Income', 'Data not reported')");
}

#[test]
fn names_are_escaped_in_the_answer() {
    let table = Table { entries: vec![row(1, "a \"b\"\\\n", "Q1", 1.0, "Total", "Total")] };
    let reply = json_response_states_mean(&table, "Q1");
    assert_eq!(answer(&reply), "{\"a \\\"b\\\"\\\\\\n\":1.0}");
}

#[test]
fn kernels_on_an_empty_table() {
    let table = Table { entries: Vec::new() };
    assert_eq!(answer(&json_response_states_mean(&table, OBESITY)), "{}");
    assert_eq!(answer(&json_response_state_mean(&table, OBESITY, "CA")), "");
    assert_eq!(answer(&json_response_global_mean(&table, OBESITY)), "{\"global_mean\":null}");
    assert_eq!(answer(&json_response_mean_by_catagory(&table, OBESITY)), "\"\"");
    assert_eq!(
        answer(&json_response_state_mean_by_category(&table, OBESITY, "CA")),
        "{\"error\":\"No data avialable for the given question and state\"}"
    );
    let means = state_means(&table, OBESITY);
    assert_eq!(
        ranking_answer(&json_response_best5(&means, OBESITY)),
        "{\"error\":\"No data available for the given question\"}"
    );
    assert_eq!(
        ranking_answer(&json_response_worst5(&means, OBESITY)),
        "{\"error\":\"No data available for the given question\"}"
    );
    let diffs = state_diffs(&table, OBESITY);
    assert_eq!(
        ranking_answer(&json_response_diff_from_mean(&diffs)),
        "{\"global_mean\":null}"
    );
}

#[test]
fn kernels_give_the_same_text_twice() {
    let table = category_table();
    let first = answer(&json_response_mean_by_catagory(&table, "Q1"));
    let second = answer(&json_response_mean_by_catagory(&table, "Q1"));
    assert_eq!(first, second);
    let a = ranking_answer(&json_response_diff_from_mean(&state_diffs(&table, "Q1")));
    let b = ranking_answer(&json_response_diff_from_mean(&state_diffs(&table, "Q1")));
    assert_eq!(a, b);
}

#[test]
fn group_rows_by_state_within_one_state() {
    let table = fixture("Q1");
    let groups = group_rows(&table, "Q1", &Some("TX".to_string()), Grouping::State);
    assert_eq!(groups.len(), 1);
    assert_eq!(groups[0].location, "TX");
    assert_eq!(groups[0].values, vec![40.0f32.to_bits()]);
    let all = group_rows(&table, "Q1", &None, Grouping::All);
    assert_eq!(all.len(), 1);
    assert_eq!(all[0].values.len(), 4);
    assert_eq!(all[0].location, "");
}
