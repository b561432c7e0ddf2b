use vstd::prelude::*;
use vstd::string::*;
use crate::job_model::ManagerView;
use crate::json_text::{json_quoted, json_well_formed, parses, quote};
use crate::request_type::RequestType;
use crate::text::{decimal_text, decimal_text_injective, number_text};
use crate::thread_pool::{JobManager, JobStatus, SubmitError};

verus! {

/// The body of a request that names a question.
#[derive(Debug)]
pub struct QuestionRequest {
    pub question: String,
}

/// The body of a request that names a question and a state.
#[derive(Debug)]
pub struct QuestionStateRequest {
    pub question: String,
    pub state: String,
}

/// The payload of a job, read from its JSON text.
#[derive(Debug)]
pub enum Payload {
    Question(QuestionRequest),
    QuestionState(QuestionStateRequest),
}

impl Payload {
    pub open spec fn question(&self) -> Seq<char> {
        match self {
            Payload::Question(q) => q.question@,
            Payload::QuestionState(q) => q.question@,
        }
    }

    pub open spec fn state(&self) -> Option<Seq<char>> {
        match self {
            Payload::Question(_) => None,
            Payload::QuestionState(q) => Some(q.state@),
        }
    }
}

/// An answer to a request: the status code and the JSON body.
#[derive(Debug)]
pub struct HttpReply {
    pub status: u16,
    pub body: String,
}

impl View for HttpReply {
    type V = (u16, Seq<char>);

    open spec fn view(&self) -> (u16, Seq<char>) {
        (self.status, self.body@)
    }
}

impl QuestionRequest {
    /// The request as JSON text, without white space.
    pub open spec fn json_text(&self) -> Seq<char> {
        "{\"question\":"@ + json_quoted(self.question@) + "}"@
    }

    /// Writes the request as JSON text.
    pub fn to_json(&self) -> (text: String)
        ensures
            text@ == self.json_text(),
    {
        let mut text = String::from_str("{\"question\":");
        text.append(quote(self.question.as_str()).as_str());
        text.append("}");
        text
    }
}

impl QuestionStateRequest {
    /// The request as JSON text, without white space.
    pub open spec fn json_text(&self) -> Seq<char> {
        "{\"question\":"@ + json_quoted(self.question@) + ",\"state\":"@ + json_quoted(self.state@)
            + "}"@
    }

    /// Writes the request as JSON text.
    pub fn to_json(&self) -> (text: String)
        ensures
            text@ == self.json_text(),
    {
        let mut text = String::from_str("{\"question\":");
        text.append(quote(self.question.as_str()).as_str());
        text.append(",\"state\":");
        text.append(quote(self.state.as_str()).as_str());
        text.append("}");
        text
    }
}

/// The refusal: the answer to a submission, and to a request to shut down,
/// once the server is shutting down.
pub open spec fn shut_down_reply() -> (u16, Seq<char>) {
    (405u16, "{\"status\":\"error\",\"reason\":\"server is already shut down\"}"@)
}

/// The answer to a submission when every identifier has been given out.
pub open spec fn exhausted_reply() -> (u16, Seq<char>) {
    (503u16, "{\"status\":\"error\",\"reason\":\"job identifiers are used up\"}"@)
}

/// The answer to a submission that was accepted.
pub open spec fn accepted_reply(id: u32) -> (u16, Seq<char>) {
    (200u16, "{\"job_id\":"@ + decimal_text(id as nat) + "}"@)
}

/// What a submission does: refused while the manager is shutting down or
/// out of identifiers, with the manager as it was; else accepted under the
/// next identifier.
pub open spec fn submit_outcome(
    before: ManagerView,
    after: ManagerView,
    reply: (u16, Seq<char>),
    request_type: RequestType,
    json_request: Seq<char>,
) -> bool {
    match before.accept() {
        Ok(id) => reply == accepted_reply(id) && after == before.submit(request_type, json_request),
        Err(SubmitError::ShuttingDown) => reply == shut_down_reply() && after == before,
        Err(SubmitError::IdsExhausted) => reply == exhausted_reply() && after == before,
    }
}

/// The refusal of a server that is shutting down.
pub fn responde_with_server_shutdown_error() -> (reply: HttpReply)
    ensures
        reply@ == shut_down_reply(),
{
    HttpReply {
        status: 405,
        body: String::from_str(
            "{\"status\":\"error\",\"reason\":\"server is already shut down\"}",
        ),
    }
}

/// Hands a request to the manager and answers with the job's identifier.
pub fn submit(jobs: &mut JobManager, request_type: RequestType, json_request: &str) -> (reply: HttpReply)
    requires
        old(jobs).wf(),
    ensures
        final(jobs).wf(),
        submit_outcome(old(jobs)@, final(jobs)@, reply@, request_type, json_request@),
{
    match jobs.add_job(request_type, json_request) {
        Ok(job_id) => {
            let mut body = String::from_str("{\"job_id\":");
            body.append(number_text(job_id as u64).as_str());
            body.append("}");
            HttpReply { status: 200, body }
        },
        Err(SubmitError::ShuttingDown) => responde_with_server_shutdown_error(),
        Err(SubmitError::IdsExhausted) => HttpReply {
            status: 503,
            body: String::from_str(
                "{\"status\":\"error\",\"reason\":\"job identifiers are used up\"}",
            ),
        },
    }
}

/// Queues the means by state for a question.
pub fn request_states_mean(jobs: &mut JobManager, payload: &QuestionRequest) -> (reply: HttpReply)
    requires
        old(jobs).wf(),
    ensures
        final(jobs).wf(),
        submit_outcome(old(jobs)@, final(jobs)@, reply@, RequestType::STATES_MEAN, payload.json_text()),
{
    let json_request = payload.to_json();
    submit(jobs, RequestType::STATES_MEAN, json_request.as_str())
}

/// Queues the mean of one state for a question.
pub fn request_state_mean(jobs: &mut JobManager, payload: &QuestionStateRequest) -> (reply: HttpReply)
    requires
        old(jobs).wf(),
    ensures
        final(jobs).wf(),
        submit_outcome(old(jobs)@, final(jobs)@, reply@, RequestType::STATE_MEAN, payload.json_text()),
{
    let json_request = payload.to_json();
    submit(jobs, RequestType::STATE_MEAN, json_request.as_str())
}

/// Queues the five best states for a question.
pub fn request_best5(jobs: &mut JobManager, payload: &QuestionRequest) -> (reply: HttpReply)
    requires
        old(jobs).wf(),
    ensures
        final(jobs).wf(),
        submit_outcome(old(jobs)@, final(jobs)@, reply@, RequestType::BEST_5, payload.json_text()),
{
    let json_request = payload.to_json();
    submit(jobs, RequestType::BEST_5, json_request.as_str())
}

/// Queues the five worst states for a question.
pub fn request_worst5(jobs: &mut JobManager, payload: &QuestionRequest) -> (reply: HttpReply)
    requires
        old(jobs).wf(),
    ensures
        final(jobs).wf(),
        submit_outcome(old(jobs)@, final(jobs)@, reply@, RequestType::WORST_5, payload.json_text()),
{
    let json_request = payload.to_json();
    submit(jobs, RequestType::WORST_5, json_request.as_str())
}

/// Queues the global mean for a question.
pub fn request_global_mean(jobs: &mut JobManager, payload: &QuestionRequest) -> (reply: HttpReply)
    requires
        old(jobs).wf(),
    ensures
        final(jobs).wf(),
        submit_outcome(old(jobs)@, final(jobs)@, reply@, RequestType::GLOBAL_MEAN, payload.json_text()),
{
    let json_request = payload.to_json();
    submit(jobs, RequestType::GLOBAL_MEAN, json_request.as_str())
}

/// Queues the differences from the global mean for a question.
pub fn request_diff_from_mean(jobs: &mut JobManager, payload: &QuestionRequest) -> (reply: HttpReply)
    requires
        old(jobs).wf(),
    ensures
        final(jobs).wf(),
        submit_outcome(old(jobs)@, final(jobs)@, reply@, RequestType::DIFF_FROM_MEAN, payload.json_text()),
{
    let json_request = payload.to_json();
    submit(jobs, RequestType::DIFF_FROM_MEAN, json_request.as_str())
}

/// Queues the means by category in one state for a question.
pub fn request_state_mean_by_category(jobs: &mut JobManager, payload: &QuestionStateRequest) -> (reply: HttpReply)
    requires
        old(jobs).wf(),
    ensures
        final(jobs).wf(),
        submit_outcome(old(jobs)@, final(jobs)@, reply@, RequestType::STATE_MEAN_BY_CATEGORY, payload.json_text()),
{
    let json_request = payload.to_json();
    submit(jobs, RequestType::STATE_MEAN_BY_CATEGORY, json_request.as_str())
}

/// The answer that says that jobs are still running.
pub open spec fn running_reply() -> (u16, Seq<char>) {
    (200u16, "{\"status\":\"running\"}"@)
}

/// The answer that says that no job is running.
pub open spec fn done_reply() -> (u16, Seq<char>) {
    (200u16, "{\"status\":\"done\"}"@)
}

/// The answer to a shutdown request: a refusal from a manager that is
/// shutting down already; else whether jobs are still running.
pub open spec fn shutdown_reply(jobs: ManagerView) -> (u16, Seq<char>) {
    if jobs.pool.shutdown {
        shut_down_reply()
    } else if jobs.pending() > 0 {
        running_reply()
    } else {
        done_reply()
    }
}

/// Starts the shutdown: no job is accepted from now on, the accepted ones
/// still run.
pub fn graceful_shutdown(jobs: &mut JobManager) -> (reply: HttpReply)
    requires
        old(jobs).wf(),
    ensures
        final(jobs).wf(),
        final(jobs)@ == old(jobs)@.shut_down(),
        reply@ == shutdown_reply(old(jobs)@),
{
    if jobs.is_thread_pool_shut_down() {
        proof {
            assert(jobs@ == jobs@.shut_down());
        }
        return responde_with_server_shutdown_error();
    }
    jobs.shutdown_thred_pool();
    let pending = jobs.count_pending();
    if pending > 0 {
        HttpReply { status: 200, body: String::from_str("{\"status\":\"running\"}") }
    } else {
        HttpReply { status: 200, body: String::from_str("{\"status\":\"done\"}") }
    }
}

/// The word for a status.
pub open spec fn status_word(status: JobStatus) -> Seq<char> {
    match status {
        JobStatus::Running => "running"@,
        JobStatus::Done => "done"@,
    }
}

/// One job in the list of jobs: an object with the identifier as name and
/// the status as value.
pub open spec fn job_entry(id: u32, status: JobStatus) -> Seq<char> {
    "{\""@ + decimal_text(id as nat) + "\":\""@ + status_word(status) + "\"}"@
}

/// The jobs `1..=n` as list entries, separated by commas.
pub open spec fn job_entries(statuses: Map<u32, JobStatus>, n: nat) -> Seq<char>
    decreases n,
{
    if n == 0 {
        Seq::empty()
    } else if n == 1 {
        job_entry(1, statuses[1])
    } else {
        job_entries(statuses, (n - 1) as nat) + ","@ + job_entry(n as u32, statuses[n as u32])
    }
}

/// The answer that lists every job with its status, in the order of the
/// identifiers.
pub open spec fn jobs_reply(jobs: ManagerView) -> (u16, Seq<char>) {
    (200u16, "{\"status\":\"done\",\"data\":["@ + job_entries(jobs.statuses, jobs.issued) + "]}"@)
}

/// Lists every job with its status.
pub fn get_jobs_status(jobs: &JobManager) -> (reply: HttpReply)
    requires
        jobs.wf(),
    ensures
        reply@ == jobs_reply(jobs@),
{
    let issued = jobs.num_issued();
    let mut body = String::from_str("{\"status\":\"done\",\"data\":[");
    let ghost head = body@;
    let mut seen: u32 = 0;
    proof {
        assert(body@ =~= head + job_entries(jobs@.statuses, 0));
    }
    while seen < issued
        invariant
            jobs.wf(),
            issued == jobs@.issued,
            seen <= issued,
            head == "{\"status\":\"done\",\"data\":["@,
            body@ == head + job_entries(jobs@.statuses, seen as nat),
        decreases issued - seen,
    {
        seen += 1;
        let ghost before = body@;
        if seen > 1 {
            body.append(",");
        }
        let word = match jobs.status_of(seen) {
            Some(JobStatus::Done) => "done",
            _ => "running",
        };
        proof {
            assert(jobs@.statuses.contains_key(seen));
            assert(word@ == status_word(jobs@.statuses[seen]));
        }
        body.append("{\"");
        body.append(number_text(seen as u64).as_str());
        body.append("\":\"");
        body.append(word);
        body.append("\"}");
        proof {
            let entry = job_entry(seen, jobs@.statuses[seen]);
            if seen > 1 {
                assert(body@ =~= before + ","@ + entry);
            } else {
                assert(before =~= head);
                assert(body@ =~= before + entry);
            }
            assert(body@ =~= head + job_entries(jobs@.statuses, seen as nat));
        }
    }
    body.append("]}");
    HttpReply { status: 200, body }
}

/// The answer that gives the number of jobs that are `Running`.
pub open spec fn pending_reply(jobs: ManagerView) -> (u16, Seq<char>) {
    (200u16, "{\"pending\":"@ + decimal_text(jobs.pending()) + "}"@)
}

/// Counts the jobs that are `Running`.
pub fn get_num_pending_jobs(jobs: &JobManager) -> (reply: HttpReply)
    ensures
        reply@ == pending_reply(jobs@),
{
    let pending = jobs.count_pending();
    let mut body = String::from_str("{\"pending\":");
    body.append(number_text(pending as u64).as_str());
    body.append("}");
    HttpReply { status: 200, body }
}

/// Where the result of a job is kept.
pub open spec fn result_path_of(job_id: u32) -> Seq<char> {
    "./results/"@ + decimal_text(job_id as nat) + ".json"@
}

/// The path of the file with a job's result.
pub fn result_path(job_id: u32) -> (path: String)
    ensures
        path@ == result_path_of(job_id),
{
    let mut path = String::from_str("./results/");
    path.append(number_text(job_id as u64).as_str());
    path.append(".json");
    path
}

/// What is written to a job's result file: the result and a line feed.
pub open spec fn result_file_text(result: Seq<char>) -> Seq<char> {
    result + "\n"@
}

/// The text to write to a job's result file.
pub fn result_file_content(result: &str) -> (content: String)
    ensures
        content@ == result_file_text(result@),
{
    let mut content = String::from_str(result);
    content.append("\n");
    content
}

/// What a lookup of a job's result comes to before any file is read.
#[derive(Debug)]
pub enum ResultLookup {
    /// The answer is known.
    Reply(HttpReply),
    /// The job is done: the answer is made from the file at this path.
    ReadFile(String),
}

/// The answer for an identifier that was never given out.
pub open spec fn invalid_job_reply() -> (u16, Seq<char>) {
    (200u16, "{\"status\":\"error\",\"reason\":\"Invalid job_id\"}"@)
}

/// The answer for a job that is done and whose file is not there.
pub open spec fn missing_file_reply() -> (u16, Seq<char>) {
    (200u16, "{\"status\":\"error\",\"reason\":\"Result file is missing\"}"@)
}

/// What a lookup comes to, as plain values.
pub enum LookupView {
    Reply((u16, Seq<char>)),
    ReadFile(Seq<char>),
}

impl View for ResultLookup {
    type V = LookupView;

    open spec fn view(&self) -> LookupView {
        match self {
            ResultLookup::Reply(reply) => LookupView::Reply(reply@),
            ResultLookup::ReadFile(path) => LookupView::ReadFile(path@),
        }
    }
}

/// The lookup of a job's result: an error for an identifier that was never
/// given out, the word `running` for a job that is not done, the file to
/// read for one that is.
pub open spec fn lookup_of(jobs: ManagerView, job_id: u32) -> LookupView {
    if !jobs.statuses.contains_key(job_id) {
        LookupView::Reply(invalid_job_reply())
    } else if jobs.statuses[job_id] == JobStatus::Running {
        LookupView::Reply(running_reply())
    } else {
        LookupView::ReadFile(result_path_of(job_id))
    }
}

/// Looks a job's result up, as far as the job's status tells.
pub fn get_job_result(jobs: &JobManager, job_id: u32) -> (lookup: ResultLookup)
    ensures
        lookup@ == lookup_of(jobs@, job_id),
{
    match jobs.status_of(job_id) {
        None => ResultLookup::Reply(
            HttpReply {
                status: 200,
                body: String::from_str("{\"status\":\"error\",\"reason\":\"Invalid job_id\"}"),
            },
        ),
        Some(JobStatus::Running) => ResultLookup::Reply(
            HttpReply { status: 200, body: String::from_str("{\"status\":\"running\"}") },
        ),
        Some(JobStatus::Done) => ResultLookup::ReadFile(result_path(job_id)),
    }
}

/// A text without the line feed at its end, if it has one.
pub open spec fn without_line_end(text: Seq<char>) -> Seq<char> {
    if text.len() > 0 && text.last() == '\n' {
        text.drop_last()
    } else {
        text
    }
}

/// The answer for a job that is done, from what its file holds: the file's
/// JSON value as the data; a file that holds no JSON value, as a string
/// under `raw`; no file, the answer that says so.
pub open spec fn file_reply(content: Option<Seq<char>>) -> (u16, Seq<char>) {
    match content {
        None => missing_file_reply(),
        Some(text) => if json_well_formed(text) {
            (200u16, "{\"status\":\"done\",\"data\":"@ + without_line_end(text) + "}"@)
        } else {
            (200u16, "{\"status\":\"done\",\"data\":{\"raw\":"@ + json_quoted(text) + "}}"@)
        },
    }
}

/// Makes the answer for a job that is done from what was read from its
/// file; `None` where the file could not be read.
pub fn job_result_reply(content: Option<&str>) -> (reply: HttpReply)
    ensures
        reply@ == file_reply(
            match content {
                Some(text) => Some(text@),
                None => None,
            },
        ),
{
    match content {
        None => HttpReply {
            status: 200,
            body: String::from_str("{\"status\":\"error\",\"reason\":\"Result file is missing\"}"),
        },
        Some(text) => {
            if parses(text) {
                let len = text.unicode_len();
                let value = if len > 0 && text.get_char(len - 1) == '\n' {
                    text.substring_char(0, len - 1)
                } else {
                    text
                };
                proof {
                    assert(value@ =~= without_line_end(text@));
                }
                let mut body = String::from_str("{\"status\":\"done\",\"data\":");
                body.append(value);
                body.append("}");
                HttpReply { status: 200, body }
            } else {
                let mut body = String::from_str("{\"status\":\"done\",\"data\":{\"raw\":");
                body.append(quote(text).as_str());
                body.append("}}");
                HttpReply { status: 200, body }
            }
        },
    }
}

/// Two jobs keep their results at two places.
pub proof fn result_paths_differ(a: u32, b: u32)
    requires
        a != b,
    ensures
        result_path_of(a) != result_path_of(b),
{
    let head = "./results/"@;
    let tail = ".json"@;
    let x = decimal_text(a as nat);
    let y = decimal_text(b as nat);
    if result_path_of(a) == result_path_of(b) {
        assert((head + x + tail).len() == (head + y + tail).len());
        assert(x.len() == y.len());
        assert forall|i: int| 0 <= i < x.len() implies x[i] == y[i] by {
            assert((head + x + tail)[head.len() + i] == x[i]);
            assert((head + y + tail)[head.len() + i] == y[i]);
        }
        assert(x =~= y);
        decimal_text_injective(a as nat, b as nat);
    }
}

/// The answer made from the file of a job that is done says `done`, whatever
/// the file holds.
pub proof fn file_reply_says_done(text: Seq<char>)
    ensures
        file_reply(Some(text)).0 == 200,
        "{\"status\":\"done\",\"data\":"@.is_prefix_of(file_reply(Some(text)).1),
{
    let head = "{\"status\":\"done\",\"data\":"@;
    let raw_head = "{\"status\":\"done\",\"data\":{\"raw\":"@;
    reveal_strlit("{\"status\":\"done\",\"data\":");
    reveal_strlit("{\"status\":\"done\",\"data\":{\"raw\":");
    if json_well_formed(text) {
        let body = head + without_line_end(text) + "}"@;
        assert(body.subrange(0, head.len() as int) =~= head);
    } else {
        let body = raw_head + json_quoted(text) + "}}"@;
        assert(body.subrange(0, head.len() as int) =~= head);
    }
}

/// What a worker writes for a result comes back as the data of the answer:
/// the result itself, where the file's text is a JSON value.
pub proof fn stored_result_comes_back(result: Seq<char>)
    requires
        json_well_formed(result_file_text(result)),
    ensures
        file_reply(Some(result_file_text(result))) == (
            200u16,
            "{\"status\":\"done\",\"data\":"@ + result + "}"@,
        ),
{
    reveal_strlit("\n");
    let text = result_file_text(result);
    assert(text.last() == '\n');
    assert(text.drop_last() =~= result);
}

/// A second request to shut down is refused: after the first the manager is
/// shutting down, and a manager that is shutting down answers with the
/// refusal.
pub proof fn second_shutdown_is_refused(jobs: ManagerView)
    ensures
        shutdown_reply(jobs.shut_down()) == shut_down_reply(),
        shut_down_reply().0 == 405,
{
}

/// Once the manager is shutting down, a submission is refused and changes
/// nothing.
pub proof fn no_job_after_shutdown(
    jobs: ManagerView,
    after: ManagerView,
    reply: (u16, Seq<char>),
    request_type: RequestType,
    json_request: Seq<char>,
)
    requires
        submit_outcome(jobs.shut_down(), after, reply, request_type, json_request),
    ensures
        reply == shut_down_reply(),
        after == jobs.shut_down(),
{
}

/// A job that is done is looked up in its file, and the answer made from the
/// file says `done`; no two jobs are looked up in the same file.
pub proof fn done_job_is_read_from_its_file(jobs: ManagerView, job_id: u32, other: u32)
    requires
        jobs.statuses.contains_key(job_id),
        jobs.statuses[job_id] == JobStatus::Done,
    ensures
        lookup_of(jobs, job_id) == LookupView::ReadFile(result_path_of(job_id)),
        other != job_id ==> lookup_of(jobs, other) != lookup_of(jobs, job_id),
{
    if other != job_id {
        result_paths_differ(other, job_id);
    }
}

} // verus!
