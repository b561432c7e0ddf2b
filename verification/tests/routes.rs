use method_rs::data_ingestor::{
    json_response_best5, json_response_diff_from_mean, json_response_worst5, Ranking,
    RankingType, Reply, Table, TableEntry,
};
use method_rs::grouping::Series;
use method_rs::render::{render_ranking, render_reply};
use method_rs::scoring::with_scores;
use method_rs::request_type::RequestType;
use method_rs::routes::{
    get_job_result, get_jobs_status, get_num_pending_jobs, graceful_shutdown, job_result_reply,
    request_best5, request_diff_from_mean, request_global_mean, request_state_mean,
    request_state_mean_by_category, request_states_mean, request_worst5,
    responde_with_server_shutdown_error, result_file_content, result_path, submit, HttpReply,
    Payload, QuestionRequest, QuestionStateRequest, ResultLookup,
};
use method_rs::thread_pool::{
    handle_request_type, DispatchError, Job, JobManager, JobStatus, Stage, TaskRunner, ThreadPool,
    WorkerAction,
};

const OBESITY: &str = "Percent of adults aged 18 years and older who have obesity";
const SHUT_DOWN: &str = "{\"status\":\"error\",\"reason\":\"server is already shut down\"}";

fn manager() -> JobManager {
    JobManager::new(ThreadPool::new(Some("2")))
}

fn question(q: &str) -> QuestionRequest {
    QuestionRequest { question: q.to_string() }
}

fn question_state(q: &str, s: &str) -> QuestionStateRequest {
    QuestionStateRequest { question: q.to_string(), state: s.to_string() }
}

fn row(index: u32, location: &str, question: &str, value: f32) -> TableEntry {
    TableEntry {
        index,
        location_desc: location.to_string(),
        question: question.to_string(),
        data_value: value.to_bits(),
        stratification_category1: "Total".to_string(),
        stratification1: "Total".to_string(),
    }
}

fn fixture(question: &str) -> Table {
    Table {
        entries: vec![
            row(1, "CA", question, 10.0),
            row(2, "CA", question, 30.0),
            row(3, "TX", question, 40.0),
            row(4, "NY", question, 50.0),
        ],
    }
}

fn mean(values: &[u32]) -> f32 {
    let sum: f32 = values.iter().map(|bits| f32::from_bits(*bits)).sum();
    sum / values.len() as f32
}

fn number(value: f32) -> String {
    serde_json::to_string(&value).unwrap()
}

fn payload_of(job: &Job) -> Payload {
    let value: serde_json::Value = serde_json::from_str(&job.req_data).unwrap();
    let question = value.get("question").and_then(|q| q.as_str()).unwrap().to_string();
    match value.get("state").and_then(|s| s.as_str()) {
        Some(state) => {
            Payload::QuestionState(QuestionStateRequest { question, state: state.to_string() })
        }
        None => Payload::Question(QuestionRequest { question }),
    }
}

fn scores_text(ranking: &Ranking) -> String {
    let texts: Vec<String> = match ranking {
        Ranking::Text(_) => Vec::new(),
        Ranking::Entries(entries) => {
            entries.iter().map(|e| number(f32::from_bits(e.score))).collect()
        }
    };
    render_ranking(ranking, &texts)
}

fn means_of(groups: &[Series]) -> Vec<u32> {
    groups.iter().map(|g| mean(&g.values).to_bits()).collect()
}

fn result_of(table: &Table, job: &Job) -> String {
    let payload = payload_of(job);
    let question = match &payload {
        Payload::Question(q) => q.question.clone(),
        Payload::QuestionState(q) => q.question.clone(),
    };
    match handle_request_type(table, job.request_type, &payload).unwrap() {
        Stage::Answer(reply) => {
            let texts: Vec<String> = match &reply {
                Reply::Text(_) => Vec::new(),
                Reply::Means(_, groups) => {
                    groups.iter().map(|g| number(mean(&g.values))).collect()
                }
            };
            render_reply(&reply, &texts)
        }
        Stage::Rank(ranking_type, states) => {
            let items = with_scores(&states, &means_of(&states));
            let ranking = match ranking_type {
                RankingType::Best5 => json_response_best5(&items, &question),
                RankingType::Worst5 => json_response_worst5(&items, &question),
            };
            scores_text(&ranking)
        }
        Stage::Diff(all, states) => {
            let diffs: Vec<u32> = match all.first() {
                Some(total) => {
                    let global = mean(&total.values);
                    states.iter().map(|g| (global - mean(&g.values)).to_bits()).collect()
                }
                None => Vec::new(),
            };
            let items = with_scores(&states, &diffs);
            scores_text(&json_response_diff_from_mean(&items))
        }
    }
}

/// Runs every queued job on one worker; keeps each result file's text in memory.
fn drain(jobs: &mut JobManager, table: &Table, files: &mut Vec<(String, String)>) {
    let runner = TaskRunner { id: 0 };
    while let WorkerAction::Run(job) = jobs.next_action(&runner) {
        let text = result_of(table, &job);
        files.push((result_path(job.id), result_file_content(&text)));
        assert!(jobs.complete_job(job.id));
    }
}

fn fetch(jobs: &JobManager, files: &[(String, String)], job_id: u32) -> HttpReply {
    match get_job_result(jobs, job_id) {
        ResultLookup::Reply(reply) => reply,
        ResultLookup::ReadFile(path) => {
            let content = files.iter().find(|(p, _)| *p == path).map(|(_, c)| c.as_str());
            job_result_reply(content)
        }
    }
}

#[test]
fn shutdown_error_reply() {
    let reply = responde_with_server_shutdown_error();
    assert_eq!(reply.status, 405);
    assert_eq!(reply.body, SHUT_DOWN);
}

#[test]
fn requests_are_written_as_json() {
    assert_eq!(question("Q1").to_json(), "{\"question\":\"Q1\"}");
    assert_eq!(question_state("Q1", "CA").to_json(), "{\"question\":\"Q1\",\"state\":\"CA\"}");
    assert_eq!(question("a \"b\"").to_json(), "{\"question\":\"a \\\"b\\\"\"}");
    assert_eq!(
        question_state("x\\y", "New\nYork").to_json(),
        "{\"question\":\"x\\\\y\",\"state\":\"New\\nYork\"}"
    );
}

#[test]
fn each_request_queues_a_job_of_its_kind() {
    let mut jobs = manager();
    let replies = vec![
        request_states_mean(&mut jobs, &question("Q1")),
        request_state_mean(&mut jobs, &question_state("Q1", "CA")),
        request_best5(&mut jobs, &question("Q1")),
        request_worst5(&mut jobs, &question("Q1")),
        request_global_mean(&mut jobs, &question("Q1")),
        request_diff_from_mean(&mut jobs, &question("Q1")),
        request_state_mean_by_category(&mut jobs, &question_state("Q1", "CA")),
    ];
    for (i, reply) in replies.iter().enumerate() {
        assert_eq!(reply.status, 200);
        assert_eq!(reply.body, format!("{{\"job_id\":{}}}", i + 1));
    }
    let kinds = [
        RequestType::STATES_MEAN,
        RequestType::STATE_MEAN,
        RequestType::BEST_5,
        RequestType::WORST_5,
        RequestType::GLOBAL_MEAN,
        RequestType::DIFF_FROM_MEAN,
        RequestType::STATE_MEAN_BY_CATEGORY,
    ];
    let runner = TaskRunner { id: 0 };
    for (i, kind) in kinds.iter().enumerate() {
        match jobs.next_action(&runner) {
            WorkerAction::Run(job) => {
                assert_eq!(job.id as usize, i + 1);
                assert_eq!(job.request_type, *kind);
                let with_state = matches!(
                    kind,
                    RequestType::STATE_MEAN | RequestType::STATE_MEAN_BY_CATEGORY
                );
                if with_state {
                    assert_eq!(job.req_data, "{\"question\":\"Q1\",\"state\":\"CA\"}");
                } else {
                    assert_eq!(job.req_data, "{\"question\":\"Q1\"}");
                }
            }
            other => panic!("expected a job, got {:?}", other),
        }
    }
}

#[test]
fn submit_is_refused_after_shutdown() {
    let mut jobs = manager();
    jobs.shutdown_thred_pool();
    let reply = submit(&mut jobs, RequestType::STATES_MEAN, "{\"question\":\"Q1\"}");
    assert_eq!(reply.status, 405);
    assert_eq!(reply.body, SHUT_DOWN);
    assert_eq!(jobs.num_issued(), 0);
    let reply = request_best5(&mut jobs, &question("Q1"));
    assert_eq!((reply.status, reply.body.as_str()), (405, SHUT_DOWN));
}

#[test]
fn graceful_shutdown_twice_is_refused_the_second_time() {
    let mut jobs = manager();
    let first = graceful_shutdown(&mut jobs);
    assert_eq!((first.status, first.body.as_str()), (200, "{\"status\":\"done\"}"));
    let second = graceful_shutdown(&mut jobs);
    assert_eq!((second.status, second.body.as_str()), (405, SHUT_DOWN));
    assert!(jobs.is_thread_pool_shut_down());
}

#[test]
fn graceful_shutdown_says_running_while_jobs_are_pending() {
    let table = fixture("Q1");
    let mut jobs = manager();
    let mut files = Vec::new();
    let accepted = request_states_mean(&mut jobs, &question("Q1"));
    assert_eq!(accepted.body, "{\"job_id\":1}");
    let reply = graceful_shutdown(&mut jobs);
    assert_eq!((reply.status, reply.body.as_str()), (200, "{\"status\":\"running\"}"));
    let refused = request_states_mean(&mut jobs, &question("Q1"));
    assert_eq!((refused.status, refused.body.as_str()), (405, SHUT_DOWN));
    assert_eq!(fetch(&jobs, &files, 1).body, "{\"status\":\"running\"}");
    drain(&mut jobs, &table, &mut files);
    assert_eq!(
        fetch(&jobs, &files, 1).body,
        "{\"status\":\"done\",\"data\":{\"CA\":20.0,\"TX\":40.0,\"NY\":50.0}}"
    );
    assert!(matches!(jobs.next_action(&TaskRunner { id: 1 }), WorkerAction::Exit));
}

#[test]
fn jobs_are_listed_in_the_order_of_their_ids() {
    let mut jobs = manager();
    assert_eq!(get_jobs_status(&jobs).body, "{\"status\":\"done\",\"data\":[]}");
    for _ in 0..3 {
        submit(&mut jobs, RequestType::GLOBAL_MEAN, "{\"question\":\"Q1\"}");
    }
    let runner = TaskRunner { id: 0 };
    jobs.next_action(&runner);
    jobs.next_action(&runner);
    jobs.complete_job(2);
    let reply = get_jobs_status(&jobs);
    assert_eq!(reply.status, 200);
    assert_eq!(
        reply.body,
        "{\"status\":\"done\",\"data\":[{\"1\":\"running\"},{\"2\":\"done\"},{\"3\":\"running\"}]}"
    );
}

#[test]
fn num_jobs_gives_the_pending_count() {
    let mut jobs = manager();
    assert_eq!(get_num_pending_jobs(&jobs).body, "{\"pending\":0}");
    for _ in 0..12 {
        submit(&mut jobs, RequestType::GLOBAL_MEAN, "{\"question\":\"Q1\"}");
    }
    let reply = get_num_pending_jobs(&jobs);
    assert_eq!((reply.status, reply.body.as_str()), (200, "{\"pending\":12}"));
    let runner = TaskRunner { id: 0 };
    jobs.next_action(&runner);
    jobs.complete_job(1);
    assert_eq!(get_num_pending_jobs(&jobs).body, "{\"pending\":11}");
    assert_eq!(jobs.count_pending(), 11);
}

#[test]
fn result_of_an_unknown_job_is_an_error() {
    let jobs = manager();
    match get_job_result(&jobs, 5) {
        ResultLookup::Reply(reply) => {
            assert_eq!(reply.status, 200);
            assert_eq!(reply.body, "{\"status\":\"error\",\"reason\":\"Invalid job_id\"}");
        }
        other => panic!("unexpected {:?}", other),
    }
}

#[test]
fn result_of_a_done_job_is_read_from_its_file() {
    let mut jobs = manager();
    submit(&mut jobs, RequestType::GLOBAL_MEAN, "{\"question\":\"Q1\"}");
    match get_job_result(&jobs, 1) {
        ResultLookup::Reply(reply) => assert_eq!(reply.body, "{\"status\":\"running\"}"),
        other => panic!("unexpected {:?}", other),
    }
    jobs.next_action(&TaskRunner { id: 0 });
    jobs.complete_job(1);
    assert_eq!(jobs.status_of(1), Some(JobStatus::Done));
    match get_job_result(&jobs, 1) {
        ResultLookup::ReadFile(path) => assert_eq!(path, "./results/1.json"),
        other => panic!("unexpected {:?}", other),
    }
}

#[test]
fn result_paths_name_the_job() {
    assert_eq!(result_path(1), "./results/1.json");
    assert_eq!(result_path(42), "./results/42.json");
    assert_eq!(result_path(u32::MAX), "./results/4294967295.json");
    assert_ne!(result_path(1), result_path(10));
}

#[test]
fn result_file_ends_with_a_line_feed() {
    assert_eq!(result_file_content("{\"CA\":20.0}"), "{\"CA\":20.0}\n");
    assert_eq!(result_file_content(""), "\n");
}

#[test]
fn reply_for_a_missing_file() {
    let reply = job_result_reply(None);
    assert_eq!(reply.status, 200);
    assert_eq!(reply.body, "{\"status\":\"error\",\"reason\":\"Result file is missing\"}");
}

#[test]
fn reply_for_a_file_with_json() {
    let reply = job_result_reply(Some("{\"CA\":20.0}\n"));
    assert_eq!(reply.status, 200);
    assert_eq!(reply.body, "{\"status\":\"done\",\"data\":{\"CA\":20.0}}");
    assert_eq!(job_result_reply(Some("\"\"\n")).body, "{\"status\":\"done\",\"data\":\"\"}");
    assert_eq!(job_result_reply(Some("[1, 2]")).body, "{\"status\":\"done\",\"data\":[1, 2]}");
}

#[test]
fn reply_for_a_file_without_json() {
    let reply = job_result_reply(Some("\n"));
    assert_eq!(reply.status, 200);
    assert_eq!(reply.body, "{\"status\":\"done\",\"data\":{\"raw\":\"\\n\"}}");
    assert_eq!(
        job_result_reply(Some("{\"CA\":")).body,
        "{\"status\":\"done\",\"data\":{\"raw\":\"{\\\"CA\\\":\"}}"
    );
    assert_eq!(
        job_result_reply(Some("not json\n")).body,
        "{\"status\":\"done\",\"data\":{\"raw\":\"not json\\n\"}}"
    );
}

#[test]
fn done_jobs_answer_with_status_done() {
    let table = fixture("Q1");
    let mut jobs = manager();
    let mut files = Vec::new();
    request_states_mean(&mut jobs, &question("Q1"));
    request_state_mean(&mut jobs, &question_state("Q1", "WA"));
    request_best5(&mut jobs, &question("Q1"));
    drain(&mut jobs, &table, &mut files);
    for id in 1..=3 {
        let reply = fetch(&jobs, &files, id);
        let value: serde_json::Value = serde_json::from_str(&reply.body).unwrap();
        assert_eq!(value.get("status").and_then(|s| s.as_str()), Some("done"));
    }
    assert_eq!(fetch(&jobs, &files, 2).body, "{\"status\":\"done\",\"data\":{\"raw\":\"\\n\"}}");
}

#[test]
fn the_five_scenarios_in_a_row() {
    let table = fixture(OBESITY);
    let mut jobs = manager();
    let mut files = Vec::new();
    assert_eq!(request_states_mean(&mut jobs, &question(OBESITY)).body, "{\"job_id\":1}");
    assert_eq!(request_state_mean(&mut jobs, &question_state(OBESITY, "CA")).body, "{\"job_id\":2}");
    assert_eq!(request_best5(&mut jobs, &question(OBESITY)).body, "{\"job_id\":3}");
    assert_eq!(request_worst5(&mut jobs, &question(OBESITY)).body, "{\"job_id\":4}");
    assert_eq!(request_global_mean(&mut jobs, &question(OBESITY)).body, "{\"job_id\":5}");
    drain(&mut jobs, &table, &mut files);
    let data = |text: &str| format!("{{\"status\":\"done\",\"data\":{}}}", text);
    assert_eq!(fetch(&jobs, &files, 1).body, data("{\"CA\":20.0,\"TX\":40.0,\"NY\":50.0}"));
    assert_eq!(fetch(&jobs, &files, 2).body, data("{\"CA\":20.0}"));
    assert_eq!(fetch(&jobs, &files, 3).body, data("{\"CA\":20.0,\"TX\":40.0,\"NY\":50.0}"));
    assert_eq!(fetch(&jobs, &files, 4).body, data("{\"NY\":50.0,\"TX\":40.0,\"CA\":20.0}"));
    assert_eq!(fetch(&jobs, &files, 5).body, data("{\"global_mean\":32.5}"));
    assert_eq!(jobs.count_pending(), 0);
}

#[test]
fn a_polled_result_equals_the_kernel_called_directly() {
    let table = fixture(OBESITY);
    let mut jobs = manager();
    let mut files = Vec::new();
    request_diff_from_mean(&mut jobs, &question(OBESITY));
    request_state_mean_by_category(&mut jobs, &question_state(OBESITY, "CA"));
    assert_eq!(fetch(&jobs, &files, 1).body, "{\"status\":\"running\"}");
    drain(&mut jobs, &table, &mut files);
    let direct = [
        Job {
            id: 0,
            request_type: RequestType::DIFF_FROM_MEAN,
            req_data: question(OBESITY).to_json(),
        },
        Job {
            id: 0,
            request_type: RequestType::STATE_MEAN_BY_CATEGORY,
            req_data: question_state(OBESITY, "CA").to_json(),
        },
    ];
    for (i, job) in direct.iter().enumerate() {
        let polled = fetch(&jobs, &files, i as u32 + 1);
        let polled: serde_json::Value = serde_json::from_str(&polled.body).unwrap();
        let expected: serde_json::Value = serde_json::from_str(&result_of(&table, job)).unwrap();
        assert_eq!(polled.get("status").and_then(|s| s.as_str()), Some("done"));
        assert_eq!(polled.get("data"), Some(&expected));
    }
    assert_eq!(
        fetch(&jobs, &files, 1).body,
        "{\"status\":\"done\",\"data\":{\"NY\":-17.5,\"TX\":-7.5,\"CA\":12.5}}"
    );
    assert_eq!(
        fetch(&jobs, &files, 2).body,
        "{\"status\":\"done\",\"data\":{\"('Total', 'Total')\":20.0}}"
    );
}

#[test]
fn dispatch_refuses_kinds_without_a_kernel() {
    let table = fixture("Q1");
    let payload = Payload::Question(question("Q1"));
    assert_eq!(
        handle_request_type(&table, RequestType::GET_RESULTS, &payload).err(),
        Some(DispatchError::Unhandled)
    );
    assert_eq!(
        handle_request_type(&table, RequestType::STATE_DIFF_FROM_MEAN, &payload).err(),
        Some(DispatchError::Unhandled)
    );
}

#[test]
fn dispatch_refuses_a_payload_without_the_state() {
    let table = fixture("Q1");
    let payload = Payload::Question(question("Q1"));
    assert_eq!(
        handle_request_type(&table, RequestType::STATE_MEAN, &payload).err(),
        Some(DispatchError::WrongPayload)
    );
    assert_eq!(
        handle_request_type(&table, RequestType::STATE_MEAN_BY_CATEGORY, &payload).err(),
        Some(DispatchError::WrongPayload)
    );
    let with_state = Payload::QuestionState(question_state("Q1", "CA"));
    assert!(handle_request_type(&table, RequestType::STATES_MEAN, &with_state).is_ok());
    assert!(handle_request_type(&table, RequestType::STATE_MEAN, &with_state).is_ok());
}

#[test]
fn dispatch_gives_each_kernel_its_stage() {
    let table = fixture("Q1");
    let payload = Payload::QuestionState(question_state("Q1", "TX"));
    match handle_request_type(&table, RequestType::STATE_MEAN, &payload).unwrap() {
        Stage::Answer(Reply::Means(_, groups)) => {
            assert_eq!(groups.len(), 1);
            assert_eq!(groups[0].location, "TX");
        }
        other => panic!("unexpected {:?}", other),
    }
    match handle_request_type(&table, RequestType::BEST_5, &payload).unwrap() {
        Stage::Rank(RankingType::Best5, states) => assert_eq!(states.len(), 3),
        other => panic!("unexpected {:?}", other),
    }
    match handle_request_type(&table, RequestType::WORST_5, &payload).unwrap() {
        Stage::Rank(RankingType::Worst5, states) => assert_eq!(states.len(), 3),
        other => panic!("unexpected {:?}", other),
    }
    match handle_request_type(&table, RequestType::DIFF_FROM_MEAN, &payload).unwrap() {
        Stage::Diff(all, states) => {
            assert_eq!(all.len(), 1);
            assert_eq!(all[0].values.len(), 4);
            assert_eq!(states.len(), 3);
        }
        other => panic!("unexpected {:?}", other),
    }
    match handle_request_type(&table, RequestType::MEAN_BY_CATEGORY, &payload).unwrap() {
        Stage::Answer(Reply::Means(_, groups)) => assert_eq!(groups.len(), 3),
        other => panic!("unexpected {:?}", other),
    }
}
