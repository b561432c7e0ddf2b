use vstd::prelude::*;
use vstd::string::*;
use std::collections::HashMap;
use std::collections::VecDeque;
use crate::concurrent_hash_map::ConcurrentHashMap;
use crate::data_ingestor::{
    global_mean_reply, json_response_global_mean, json_response_mean_by_catagory,
    json_response_state_mean, json_response_state_mean_by_category, json_response_states_mean,
    compute_states_mean, mean_by_category_reply, state_mean_by_category_reply, state_mean_reply,
    states_mean_reply, EntryView, RankingType, Reply, ReplyView, Table,
};
use crate::grouping::{group_rows, grouped, views, Grouping, Query, Series, SeriesView};
use crate::job_model::{
    abandon_keeps_wf, complete_keeps_wf, fresh_manager_is_wf, next_keeps_wf, running_upto,
    shut_down_keeps_wf, submit_keeps_wf, ActionView, JobView, ManagerView, PoolView,
};
use crate::pool_size::{logical_cpus, positive_count, worker_count};
use crate::request_type::{Kernel, PayloadSchema, RequestType};
use crate::routes::Payload;

verus! {

/// Where a job stands.
#[derive(Clone, Copy, PartialEq, Eq, Structural, Debug)]
pub enum JobStatus {
    /// Accepted; its result is not written yet.
    Running,
    /// Its result is written.
    Done,
}

/// A unit of work: the job's identifier, its kind, and its payload as JSON
/// text.
#[derive(Debug)]
pub struct Job {
    pub id: u32,
    pub request_type: RequestType,
    pub req_data: String,
}

impl View for Job {
    type V = JobView;

    open spec fn view(&self) -> JobView {
        JobView { id: self.id, request_type: self.request_type, req_data: self.req_data@ }
    }
}

/// The jobs of a queue as plain values.
pub open spec fn job_views(jobs: Seq<Job>) -> Seq<JobView> {
    Seq::new(jobs.len(), |i: int| jobs[i]@)
}

/// What a worker does next.
#[derive(Debug)]
pub enum WorkerAction {
    /// Run this job.
    Run(Job),
    /// Nothing is queued and the pool is open: wait to be woken.
    Wait,
    /// Nothing is queued and the pool is shut down: stop.
    Exit,
}

impl View for WorkerAction {
    type V = ActionView;

    open spec fn view(&self) -> ActionView {
        match self {
            WorkerAction::Run(job) => ActionView::Run(job@),
            WorkerAction::Wait => ActionView::Wait,
            WorkerAction::Exit => ActionView::Exit,
        }
    }
}

/// A worker of the pool.
#[derive(Clone, Copy, Debug)]
pub struct TaskRunner {
    pub id: usize,
}

/// The state that the workers of a pool share: the queue, the shutdown flag,
/// and the table of jobs whose result a worker is writing.
pub struct ThreadPool {
    workers: usize,
    queue: VecDeque<Job>,
    shutdown: bool,
    file_locks: ConcurrentHashMap<u32, usize>,
}

impl View for ThreadPool {
    type V = PoolView;

    closed spec fn view(&self) -> PoolView {
        PoolView {
            workers: self.workers,
            queue: job_views(self.queue@),
            shutdown: self.shutdown,
            locks: self.file_locks@,
        }
    }
}

impl ThreadPool {
    /// A pool with nothing queued. `setting` is the text that asks for a
    /// number of workers, if there is one; without one that gives a count,
    /// the pool has a worker for each processor.
    pub fn new(setting: Option<&str>) -> (pool: Self)
        ensures
            pool@.idle(),
            !pool@.shutdown,
            pool@.workers >= 1,
            setting matches Some(text) ==> (positive_count(text@) matches Some(n) ==> pool@.workers
                == n),
    {
        let cpus = logical_cpus();
        let pool = ThreadPool {
            workers: worker_count(setting, cpus),
            queue: VecDeque::new(),
            shutdown: false,
            file_locks: ConcurrentHashMap::new(),
        };
        proof {
            assert(pool@.queue =~= Seq::<JobView>::empty());
        }
        pool
    }

    /// The number of workers.
    pub fn num_workers(&self) -> (n: usize)
        ensures
            n == self@.workers,
    {
        self.workers
    }

    /// Whether nothing is queued and no job is in a worker's hands.
    pub fn is_idle(&self) -> (idle: bool)
        ensures
            idle == self@.idle(),
    {
        let idle = self.queue.len() == 0 && self.file_locks.is_empty();
        proof {
            if self.queue@.len() == 0 {
                assert(self@.queue =~= Seq::<JobView>::empty());
            } else {
                assert(self@.queue.len() > 0);
            }
        }
        idle
    }

    /// Whether the pool is shut down.
    pub fn is_shutdown(&self) -> (down: bool)
        ensures
            down == self@.shutdown,
    {
        self.shutdown
    }

    /// Puts a job at the end of the queue.
    pub fn execute(&mut self, job: Job)
        ensures
            final(self)@ == old(self)@.execute(job@),
    {
        self.queue.push_back(job);
        proof {
            assert(self@.queue =~= old(self)@.queue.push(job@));
        }
    }

    /// Lets the queued jobs run out and the workers stop after them.
    pub fn shutdown(&mut self)
        ensures
            final(self)@ == old(self)@.shut_down(),
    {
        self.shutdown = true;
    }

    /// One turn of a worker's loop: the job at the head of the queue, which
    /// then is in the worker's hands; with nothing queued, to wait, or to
    /// stop once the pool is shut down.
    pub fn next_action(&mut self, runner: &TaskRunner) -> (action: WorkerAction)
        ensures
            (final(self)@, action@) == old(self)@.next(runner.id),
    {
        match self.queue.pop_front() {
            Some(job) => {
                self.file_locks.insert(job.id, runner.id);
                proof {
                    assert(old(self)@.queue[0] == job@);
                    assert(self@.queue =~= old(self)@.queue.drop_first());
                }
                WorkerAction::Run(job)
            },
            None => {
                proof {
                    assert(self@.queue =~= old(self)@.queue);
                }
                if self.shutdown {
                    WorkerAction::Exit
                } else {
                    WorkerAction::Wait
                }
            },
        }
    }

    /// Takes a job out of its worker's hands.
    pub fn release(&mut self, job_id: u32)
        ensures
            final(self)@ == old(self)@.release(job_id),
    {
        self.file_locks.delete(&job_id);
    }

    /// The number of the worker that has a job in its hands.
    pub fn writer_of(&self, job_id: u32) -> (worker: Option<usize>)
        ensures
            worker == if self@.locks.contains_key(job_id) {
                Some(self@.locks[job_id])
            } else {
                None
            },
    {
        self.file_locks.get(&job_id)
    }
}

/// Why a job was not accepted.
#[derive(Clone, Copy, PartialEq, Eq, Structural, Debug)]
pub enum SubmitError {
    /// The manager is shutting down.
    ShuttingDown,
    /// Every identifier has been given out.
    IdsExhausted,
}

/// Gives out job identifiers, keeps each job's status, and feeds the pool.
pub struct JobManager {
    last_id: u32,
    thread_pool: ThreadPool,
    statuses: HashMap<u32, JobStatus>,
    abandoned: Ghost<Set<u32>>,
}

impl View for JobManager {
    type V = ManagerView;

    closed spec fn view(&self) -> ManagerView {
        ManagerView {
            issued: self.last_id as nat,
            statuses: self.statuses@,
            pool: self.thread_pool@,
            abandoned: self.abandoned@,
        }
    }
}

impl JobManager {
    /// What holds of a manager at all times.
    pub open spec fn wf(&self) -> bool {
        self@.wf()
    }

    /// A manager for a pool that is idle.
    pub fn new(thread_pool: ThreadPool) -> (jobs: Self)
        requires
            thread_pool@.idle(),
        ensures
            jobs.wf(),
            jobs@ == ManagerView::over(thread_pool@),
    {
        proof {
            fresh_manager_is_wf(thread_pool@);
        }
        Self { last_id: 0, thread_pool, statuses: HashMap::new(), abandoned: Ghost(Set::empty()) }
    }

    /// Stops the manager from accepting jobs; the accepted ones still run.
    pub fn shutdown_thred_pool(&mut self)
        requires
            old(self).wf(),
        ensures
            final(self).wf(),
            final(self)@ == old(self)@.shut_down(),
    {
        proof {
            shut_down_keeps_wf(self@);
        }
        self.thread_pool.shutdown();
    }

    /// Whether the manager is shutting down.
    pub fn is_thread_pool_shut_down(&self) -> (down: bool)
        ensures
            down == self@.pool.shutdown,
    {
        self.thread_pool.is_shutdown()
    }

    /// A copy of the status of each job.
    pub fn get_jobs_status_snapshot(&self) -> (snapshot: HashMap<u32, JobStatus>)
        ensures
            snapshot@ == self@.statuses,
    {
        self.statuses.clone()
    }

    /// The status of one job; `None` for an identifier that was not given
    /// out.
    pub fn status_of(&self, job_id: u32) -> (status: Option<JobStatus>)
        ensures
            status == if self@.statuses.contains_key(job_id) {
                Some(self@.statuses[job_id])
            } else {
                None
            },
    {
        match self.statuses.get(&job_id) {
            Some(status) => Some(*status),
            None => None,
        }
    }

    /// The number of identifiers given out.
    pub fn num_issued(&self) -> (n: u32)
        ensures
            n == self@.issued,
    {
        self.last_id
    }

    /// The number of jobs whose status is `Running`.
    pub fn count_pending(&self) -> (pending: usize)
        ensures
            pending == self@.pending(),
    {
        let mut pending: usize = 0;
        let mut seen: u32 = 0;
        while seen < self.last_id
            invariant
                seen <= self.last_id,
                pending == running_upto(self.statuses@, seen as nat),
                pending <= seen,
            decreases self.last_id - seen,
        {
            seen += 1;
            if let Some(JobStatus::Running) = self.statuses.get(&seen) {
                pending += 1;
            }
        }
        pending
    }

    /// Accepts a job: gives it the next identifier, records it as `Running`
    /// and puts it at the end of the queue. A manager that is shutting down
    /// accepts none, nor does one that has given out every identifier;
    /// nothing changes then.
    pub fn add_job(&mut self, request_type: RequestType, json_request: &str) -> (result: Result<
        u32,
        SubmitError,
    >)
        requires
            old(self).wf(),
        ensures
            final(self).wf(),
            result == old(self)@.accept(),
            final(self)@ == if result is Ok {
                old(self)@.submit(request_type, json_request@)
            } else {
                old(self)@
            },
    {
        if self.thread_pool.is_shutdown() {
            return Err(SubmitError::ShuttingDown);
        }
        if self.last_id == u32::MAX {
            return Err(SubmitError::IdsExhausted);
        }
        proof {
            submit_keeps_wf(self@, request_type, json_request@);
        }
        let job_id = self.last_id + 1;
        self.last_id = job_id;
        self.statuses.insert(job_id, JobStatus::Running);
        let job = Job { id: job_id, request_type, req_data: String::from_str(json_request) };
        self.thread_pool.execute(job);
        Ok(job_id)
    }

    /// One turn of a worker's loop. With a job queued, the worker gets the
    /// job at the head of the queue, and the job is in its hands from then
    /// on. With none queued it waits, or stops once the manager is shutting
    /// down.
    pub fn next_action(&mut self, runner: &TaskRunner) -> (action: WorkerAction)
        requires
            old(self).wf(),
        ensures
            final(self).wf(),
            (final(self)@, action@) == old(self)@.next(runner.id),
    {
        proof {
            next_keeps_wf(self@, runner.id);
        }
        self.thread_pool.next_action(runner)
    }

    /// Records that a job's result is written: the job leaves its worker's
    /// hands and is `Done`. Says whether the job was in a worker's hands;
    /// nothing changes where it was not.
    pub fn complete_job(&mut self, job_id: u32) -> (done: bool)
        requires
            old(self).wf(),
        ensures
            final(self).wf(),
            done == old(self)@.pool.locks.contains_key(job_id),
            final(self)@ == old(self)@.complete(job_id),
    {
        proof {
            complete_keeps_wf(self@, job_id);
        }
        match self.thread_pool.writer_of(job_id) {
            Some(_) => {
                self.thread_pool.release(job_id);
                self.statuses.insert(job_id, JobStatus::Done);
                true
            },
            None => false,
        }
    }

    /// Records that a worker gave up on a job: the job leaves its worker's
    /// hands and stays `Running`. Says whether the job was in a worker's
    /// hands; nothing changes where it was not.
    pub fn abandon_job(&mut self, job_id: u32) -> (given_up: bool)
        requires
            old(self).wf(),
        ensures
            final(self).wf(),
            given_up == old(self)@.pool.locks.contains_key(job_id),
            final(self)@ == old(self)@.abandon(job_id),
    {
        proof {
            abandon_keeps_wf(self@, job_id);
        }
        match self.thread_pool.writer_of(job_id) {
            Some(_) => {
                self.thread_pool.release(job_id);
                self.abandoned = Ghost(self.abandoned@.insert(job_id));
                true
            },
            None => false,
        }
    }
}

/// Why a job's kind and payload gave no work.
#[derive(Clone, Copy, PartialEq, Eq, Structural, Debug)]
pub enum DispatchError {
    /// No kernel serves the kind.
    Unhandled,
    /// The kernel needs a state and the payload names none.
    WrongPayload,
}

/// How far the table alone takes a job.
#[derive(Debug)]
pub enum Stage {
    /// The answer, once the mean of each series is taken.
    Answer(Reply),
    /// The series of the states. Each state is then scored with its mean,
    /// and the scored states are ranked.
    Rank(RankingType, Vec<Series>),
    /// The series of all rows, and the series of the states. Each state is
    /// then scored with the mean of all rows less its own mean, and the
    /// scored states are put in order.
    Diff(Vec<Series>, Vec<Series>),
}

/// A stage as plain values.
pub enum StageView {
    Answer(ReplyView),
    Rank(RankingType, Seq<SeriesView>),
    Diff(Seq<SeriesView>, Seq<SeriesView>),
}

impl View for Stage {
    type V = StageView;

    open spec fn view(&self) -> StageView {
        match self {
            Stage::Answer(reply) => StageView::Answer(reply@),
            Stage::Rank(r, states) => StageView::Rank(*r, views(states@)),
            Stage::Diff(all, states) => StageView::Diff(views(all@), views(states@)),
        }
    }
}

/// The series of the states for a question.
pub open spec fn state_series(rows: Seq<EntryView>, question: Seq<char>) -> Seq<SeriesView> {
    grouped(rows, Query { question, state: None, grouping: Grouping::State })
}

/// The series of all rows for a question.
pub open spec fn all_series(rows: Seq<EntryView>, question: Seq<char>) -> Seq<SeriesView> {
    grouped(rows, Query { question, state: None, grouping: Grouping::All })
}

/// The work that a kernel does on the table.
pub open spec fn stage_of(
    rows: Seq<EntryView>,
    kernel: Kernel,
    question: Seq<char>,
    state: Seq<char>,
) -> StageView {
    match kernel {
        Kernel::StatesMean => StageView::Answer(states_mean_reply(rows, question)),
        Kernel::StateMean => StageView::Answer(state_mean_reply(rows, question, state)),
        Kernel::Best5 => StageView::Rank(RankingType::Best5, state_series(rows, question)),
        Kernel::Worst5 => StageView::Rank(RankingType::Worst5, state_series(rows, question)),
        Kernel::GlobalMean => StageView::Answer(global_mean_reply(rows, question)),
        Kernel::DiffFromMean => StageView::Diff(
            all_series(rows, question),
            state_series(rows, question),
        ),
        Kernel::MeanByCategory => StageView::Answer(mean_by_category_reply(rows, question)),
        Kernel::StateMeanByCategory => StageView::Answer(
            state_mean_by_category_reply(rows, question, state),
        ),
    }
}

/// What a job's kind and payload come to: no kernel for the kind; a kernel
/// that needs a state and a payload without one; else the kernel's work on
/// the table.
pub open spec fn dispatch_of(rows: Seq<EntryView>, request_type: RequestType, payload: &Payload) -> Result<
    StageView,
    DispatchError,
> {
    match request_type.kernel_of() {
        None => Err(DispatchError::Unhandled),
        Some(kernel) => match (kernel.schema_of(), payload.state()) {
            (PayloadSchema::QuestionState, None) => Err(DispatchError::WrongPayload),
            (PayloadSchema::QuestionState, Some(state)) => Ok(
                stage_of(rows, kernel, payload.question(), state),
            ),
            (PayloadSchema::Question, _) => Ok(
                stage_of(rows, kernel, payload.question(), Seq::empty()),
            ),
        },
    }
}

/// Runs the kernel for a job's kind on the table, as far as the table alone
/// takes it.
pub fn handle_request_type(table: &Table, request_type: RequestType, payload: &Payload) -> (result: Result<Stage, DispatchError>)
    ensures
        match result {
            Ok(stage) => dispatch_of(table@, request_type, payload) == Ok::<
                StageView,
                DispatchError,
            >(stage@),
            Err(e) => dispatch_of(table@, request_type, payload) == Err::<
                StageView,
                DispatchError,
            >(e),
        },
{
    let kernel = match request_type.kernel() {
        None => {
            return Err(DispatchError::Unhandled);
        },
        Some(kernel) => kernel,
    };
    let question = match payload {
        Payload::Question(q) => q.question.as_str(),
        Payload::QuestionState(q) => q.question.as_str(),
    };
    let state = match payload {
        Payload::Question(_) => {
            if let PayloadSchema::QuestionState = kernel.schema() {
                return Err(DispatchError::WrongPayload);
            }
            ""
        },
        Payload::QuestionState(q) => q.state.as_str(),
    };
    let stage = match kernel {
        Kernel::StatesMean => Stage::Answer(json_response_states_mean(table, question)),
        Kernel::StateMean => Stage::Answer(json_response_state_mean(table, question, state)),
        Kernel::Best5 => Stage::Rank(RankingType::Best5, compute_states_mean(table, question)),
        Kernel::Worst5 => Stage::Rank(RankingType::Worst5, compute_states_mean(table, question)),
        Kernel::GlobalMean => Stage::Answer(json_response_global_mean(table, question)),
        Kernel::DiffFromMean => Stage::Diff(
            group_rows(table, question, &None, Grouping::All),
            compute_states_mean(table, question),
        ),
        Kernel::MeanByCategory => Stage::Answer(json_response_mean_by_catagory(table, question)),
        Kernel::StateMeanByCategory => Stage::Answer(
            json_response_state_mean_by_category(table, question, state),
        ),
    };
    Ok(stage)
}

} // verus!
