use vstd::prelude::*;
use crate::request_type::RequestType;
use crate::thread_pool::{JobStatus, SubmitError};

verus! {

/// A unit of work as plain values.
pub struct JobView {
    pub id: u32,
    pub request_type: RequestType,
    pub req_data: Seq<char>,
}

/// What a worker does next, as plain values.
pub enum ActionView {
    Run(JobView),
    Wait,
    Exit,
}

/// The state of a pool: the number of its workers, the queued jobs with the
/// next one first, the shutdown flag, and the jobs in the hands of a worker,
/// each with the worker's number.
pub struct PoolView {
    pub workers: usize,
    pub queue: Seq<JobView>,
    pub shutdown: bool,
    pub locks: Map<u32, usize>,
}

impl PoolView {
    /// Nothing is queued and no job is in a worker's hands.
    pub open spec fn idle(self) -> bool {
        self.queue == Seq::<JobView>::empty() && self.locks == Map::<u32, usize>::empty()
    }

    /// The pool with a job put at the end of the queue.
    pub open spec fn execute(self, job: JobView) -> PoolView {
        PoolView { queue: self.queue.push(job), ..self }
    }

    /// The pool after the shutdown signal.
    pub open spec fn shut_down(self) -> PoolView {
        PoolView { shutdown: true, ..self }
    }

    /// One turn of a worker's loop. With a job queued, the worker gets the
    /// job at the head of the queue, and the job is in its hands from then
    /// on. With none queued the worker waits, or stops once the pool is shut
    /// down.
    pub open spec fn next(self, worker: usize) -> (PoolView, ActionView) {
        if self.queue.len() == 0 {
            (
                self,
                if self.shutdown {
                    ActionView::Exit
                } else {
                    ActionView::Wait
                },
            )
        } else {
            (
                PoolView {
                    queue: self.queue.drop_first(),
                    locks: self.locks.insert(self.queue[0].id, worker),
                    ..self
                },
                ActionView::Run(self.queue[0]),
            )
        }
    }

    /// The pool with a job taken out of its worker's hands.
    pub open spec fn release(self, id: u32) -> PoolView {
        PoolView { locks: self.locks.remove(id), ..self }
    }
}

/// How many of the identifiers `1..=n` have the status `Running`.
pub open spec fn running_upto(statuses: Map<u32, JobStatus>, n: nat) -> nat
    decreases n,
{
    if n == 0 {
        0
    } else {
        running_upto(statuses, (n - 1) as nat) + if statuses.contains_key(n as u32)
            && statuses[n as u32] == JobStatus::Running {
            1nat
        } else {
            0nat
        }
    }
}

/// The state of a job manager: how many identifiers it has given out (they
/// are `1..=issued`), the status of each job, the pool, and the jobs that a
/// worker gave up on.
pub struct ManagerView {
    pub issued: nat,
    pub statuses: Map<u32, JobStatus>,
    pub pool: PoolView,
    pub abandoned: Set<u32>,
}

impl ManagerView {
    /// A manager that has given out nothing, over a pool.
    pub open spec fn over(pool: PoolView) -> ManagerView {
        ManagerView { issued: 0, statuses: Map::empty(), pool, abandoned: Set::empty() }
    }

    /// Whether a job with the identifier is in the queue.
    pub open spec fn queued(self, id: u32) -> bool {
        exists|i: int| 0 <= i < self.pool.queue.len() && (#[trigger] self.pool.queue[i]).id == id
    }

    /// What holds of a manager at all times. The jobs with a status are the
    /// ones given out. A queued job is one of them and is queued once. A job
    /// is `Running` exactly while it is queued, in a worker's hands, or given
    /// up on, and it is at most one of the three.
    pub open spec fn wf(self) -> bool {
        &&& self.issued <= u32::MAX
        &&& forall|id: u32|
            (#[trigger] self.statuses.contains_key(id)) <==> 1 <= id <= self.issued
        &&& forall|i: int|
            0 <= i < self.pool.queue.len() ==> 1 <= (#[trigger] self.pool.queue[i]).id
                <= self.issued
        &&& forall|i: int, j: int|
            0 <= i < j < self.pool.queue.len() ==> (#[trigger] self.pool.queue[i]).id != (
            #[trigger] self.pool.queue[j]).id
        &&& forall|id: u32|
            1 <= id <= self.issued ==> ((#[trigger] self.statuses[id]) == JobStatus::Running <==> (
            self.queued(id) || self.pool.locks.contains_key(id) || self.abandoned.contains(id)))
        &&& forall|id: u32|
            (#[trigger] self.pool.locks.contains_key(id)) ==> 1 <= id <= self.issued
                && !self.queued(id) && !self.abandoned.contains(id)
        &&& forall|id: u32|
            (#[trigger] self.abandoned.contains(id)) ==> 1 <= id <= self.issued && !self.queued(
                id,
            )
    }

    /// The number of jobs whose status is `Running`.
    pub open spec fn pending(self) -> nat {
        running_upto(self.statuses, self.issued)
    }

    /// The identifier that the next job gets.
    pub open spec fn next_id(self) -> u32 {
        (self.issued + 1) as u32
    }

    /// Whether a job is accepted, and under which identifier: not while
    /// shutting down, nor when every identifier has been given out.
    pub open spec fn accept(self) -> Result<u32, SubmitError> {
        if self.pool.shutdown {
            Err(SubmitError::ShuttingDown)
        } else if self.issued >= u32::MAX {
            Err(SubmitError::IdsExhausted)
        } else {
            Ok(self.next_id())
        }
    }

    /// The manager with one more job accepted: the job has the next
    /// identifier, is `Running`, and stands at the end of the queue.
    pub open spec fn submit(self, request_type: RequestType, req_data: Seq<char>) -> ManagerView {
        ManagerView {
            issued: self.issued + 1,
            statuses: self.statuses.insert(self.next_id(), JobStatus::Running),
            pool: self.pool.execute(JobView { id: self.next_id(), request_type, req_data }),
            ..self
        }
    }

    /// The manager that accepts no more jobs.
    pub open spec fn shut_down(self) -> ManagerView {
        ManagerView { pool: self.pool.shut_down(), ..self }
    }

    /// One turn of a worker's loop.
    pub open spec fn next(self, worker: usize) -> (ManagerView, ActionView) {
        (ManagerView { pool: self.pool.next(worker).0, ..self }, self.pool.next(worker).1)
    }

    /// The manager after a worker has written a job's result: the job leaves
    /// the worker's hands and is `Done`. Nothing changes for a job that is
    /// in no worker's hands.
    pub open spec fn complete(self, id: u32) -> ManagerView {
        if self.pool.locks.contains_key(id) {
            ManagerView {
                statuses: self.statuses.insert(id, JobStatus::Done),
                pool: self.pool.release(id),
                ..self
            }
        } else {
            self
        }
    }

    /// The manager after a worker has given up on a job: the job leaves the
    /// worker's hands and stays `Running`. Nothing changes for a job that is
    /// in no worker's hands.
    pub open spec fn abandon(self, id: u32) -> ManagerView {
        if self.pool.locks.contains_key(id) {
            ManagerView {
                pool: self.pool.release(id),
                abandoned: self.abandoned.insert(id),
                ..self
            }
        } else {
            self
        }
    }
}

/// A manager over an idle pool is well formed.
pub proof fn fresh_manager_is_wf(pool: PoolView)
    requires
        pool.idle(),
    ensures
        ManagerView::over(pool).wf(),
{
}

/// Accepting a job keeps a manager well formed.
pub proof fn submit_keeps_wf(m: ManagerView, request_type: RequestType, req_data: Seq<char>)
    requires
        m.wf(),
        m.issued < u32::MAX,
    ensures
        m.submit(request_type, req_data).wf(),
{
    let after = m.submit(request_type, req_data);
    let id = m.next_id();
    let before_queue = m.pool.queue;
    let queue = after.pool.queue;
    assert(queue[before_queue.len() as int].id == id);
    assert forall|other: u32| true implies (after.queued(other) <==> m.queued(other) || other
        == id) by {
        if m.queued(other) {
            let i = choose|i: int| 0 <= i < before_queue.len() && (#[trigger] before_queue[i]).id == other;
            assert(queue[i].id == other);
        }
        if after.queued(other) {
            let i = choose|i: int| 0 <= i < queue.len() && (#[trigger] queue[i]).id == other;
            if i < before_queue.len() {
                assert(before_queue[i].id == other);
            }
        }
    }
    assert forall|i: int, j: int| 0 <= i < j < queue.len() implies (#[trigger] queue[i]).id != (
    #[trigger] queue[j]).id by {
        assert(before_queue[i] == queue[i]);
        if j < before_queue.len() {
            assert(before_queue[j] == queue[j]);
        }
    }
    assert forall|i: int| 0 <= i < queue.len() implies 1 <= (#[trigger] queue[i]).id
        <= after.issued by {
        if i < before_queue.len() {
            assert(before_queue[i] == queue[i]);
        }
    }
}

/// The shutdown signal keeps a manager well formed.
pub proof fn shut_down_keeps_wf(m: ManagerView)
    requires
        m.wf(),
    ensures
        m.shut_down().wf(),
{
    let after = m.shut_down();
    assert forall|id: u32| true implies (after.queued(id) <==> m.queued(id)) by {}
}

/// A worker's turn keeps a manager well formed; the job that the worker gets
/// was in no worker's hands and is no longer queued.
pub proof fn next_keeps_wf(m: ManagerView, worker: usize)
    requires
        m.wf(),
    ensures
        m.next(worker).0.wf(),
        m.next(worker).1 matches ActionView::Run(job) ==> !m.pool.locks.contains_key(job.id)
            && !m.next(worker).0.queued(job.id) && m.statuses[job.id] == JobStatus::Running,
{
    let after = m.next(worker).0;
    let before_queue = m.pool.queue;
    let queue = after.pool.queue;
    if before_queue.len() > 0 {
        let taken = before_queue[0].id;
        assert(m.queued(taken));
        assert forall|id: u32| true implies (m.queued(id) <==> after.queued(id) || id == taken) by {
            if m.queued(id) && id != taken {
                let i = choose|i: int|
                    0 <= i < before_queue.len() && (#[trigger] before_queue[i]).id == id;
                assert(queue[i - 1].id == id);
            }
            if after.queued(id) {
                let i = choose|i: int| 0 <= i < queue.len() && (#[trigger] queue[i]).id == id;
                assert(before_queue[i + 1].id == id);
            }
        }
        assert(!after.queued(taken)) by {
            if after.queued(taken) {
                let i = choose|i: int| 0 <= i < queue.len() && (#[trigger] queue[i]).id == taken;
                assert(before_queue[i + 1].id == taken);
                assert(before_queue[0].id != before_queue[i + 1].id);
            }
        }
        assert forall|i: int, j: int| 0 <= i < j < queue.len() implies (#[trigger] queue[i]).id
            != (#[trigger] queue[j]).id by {
            assert(before_queue[i + 1] == queue[i]);
            assert(before_queue[j + 1] == queue[j]);
        }
        assert forall|i: int| 0 <= i < queue.len() implies 1 <= (#[trigger] queue[i]).id
            <= after.issued by {
            assert(before_queue[i + 1] == queue[i]);
        }
    } else {
        assert forall|id: u32| true implies (after.queued(id) <==> m.queued(id)) by {}
    }
}

/// Writing a job's result keeps a manager well formed.
pub proof fn complete_keeps_wf(m: ManagerView, id: u32)
    requires
        m.wf(),
    ensures
        m.complete(id).wf(),
{
    let after = m.complete(id);
    assert forall|other: u32| true implies (after.queued(other) <==> m.queued(other)) by {}
}

/// Giving up on a job keeps a manager well formed.
pub proof fn abandon_keeps_wf(m: ManagerView, id: u32)
    requires
        m.wf(),
    ensures
        m.abandon(id).wf(),
{
    let after = m.abandon(id);
    assert forall|other: u32| true implies (after.queued(other) <==> m.queued(other)) by {}
}

/// The identifiers among `1..=n` whose status is `Running`.
pub open spec fn running_ids(statuses: Map<u32, JobStatus>, n: nat) -> Set<u32> {
    Set::new(
        |id: u32|
            1 <= id <= n && statuses.contains_key(id) && statuses[id] == JobStatus::Running,
    )
}

/// `running_upto` is the number of the identifiers that are `Running`.
pub proof fn running_upto_counts(statuses: Map<u32, JobStatus>, n: nat)
    requires
        n <= u32::MAX,
    ensures
        running_ids(statuses, n).finite(),
        running_ids(statuses, n).len() == running_upto(statuses, n),
    decreases n,
{
    if n == 0 {
        assert(running_ids(statuses, 0) =~= Set::<u32>::empty());
    } else {
        running_upto_counts(statuses, (n - 1) as nat);
        let before = running_ids(statuses, (n - 1) as nat);
        if statuses.contains_key(n as u32) && statuses[n as u32] == JobStatus::Running {
            assert(running_ids(statuses, n) =~= before.insert(n as u32));
            assert(!before.contains(n as u32));
        } else {
            assert(running_ids(statuses, n) =~= before);
        }
    }
}

/// The pending count of a manager is the number of jobs whose status is
/// `Running`.
pub proof fn pending_counts_running(m: ManagerView)
    requires
        m.wf(),
    ensures
        Set::new(|id: u32| m.statuses.contains_key(id) && m.statuses[id] == JobStatus::Running).finite(),
        Set::new(|id: u32| m.statuses.contains_key(id) && m.statuses[id] == JobStatus::Running).len()
            == m.pending(),
{
    running_upto_counts(m.statuses, m.issued);
    assert(Set::new(
        |id: u32| m.statuses.contains_key(id) && m.statuses[id] == JobStatus::Running,
    ) =~= running_ids(m.statuses, m.issued));
}

/// The identifiers are given out in order, from 1 on, none left out: a
/// manager that has given out nothing gives out 1; the job that is accepted
/// next gets the number of identifiers given out so far plus one; and the
/// jobs that have a status are the ones with the identifiers given out.
pub proof fn ids_count_up(m: ManagerView, request_type: RequestType, req_data: Seq<char>)
    requires
        m.wf(),
        m.accept() is Ok,
    ensures
        ManagerView::over(m.pool).issued == 0,
        m.accept() == Ok::<u32, SubmitError>((m.issued + 1) as u32),
        m.issued + 1 <= u32::MAX,
        m.submit(request_type, req_data).issued == m.issued + 1,
        forall|id: u32|
            (#[trigger] m.submit(request_type, req_data).statuses.contains_key(id)) <==> 1 <= id
                <= m.issued + 1,
{
}

/// A job that is queued is run: with a job queued a worker's turn gives the
/// worker the job at the head of the queue, whether the manager is shutting
/// down or not, and the queue is shorter by that job. The shutdown signal
/// takes no job out of the queue.
pub proof fn queued_jobs_are_run(m: ManagerView, worker: usize)
    requires
        m.pool.queue.len() > 0,
    ensures
        m.next(worker).1 == ActionView::Run(m.pool.queue[0]),
        m.next(worker).0.pool.queue == m.pool.queue.drop_first(),
        m.shut_down().pool.queue == m.pool.queue,
        m.shut_down().next(worker).1 == ActionView::Run(m.pool.queue[0]),
{
}

/// Only a job that is `Running` becomes `Done`: a job in a worker's hands
/// is `Running`.
pub proof fn only_running_jobs_complete(m: ManagerView, id: u32)
    requires
        m.wf(),
        m.pool.locks.contains_key(id),
    ensures
        m.statuses[id] == JobStatus::Running,
        m.complete(id).statuses[id] == JobStatus::Done,
        forall|other: u32|
            other != id ==> #[trigger] m.complete(id).statuses[other] == m.statuses[other],
{
}

/// Once nothing is queued and no job is in a worker's hands, every job that
/// no worker gave up on is `Done`; where none was given up on, none is
/// `Running`.
pub proof fn drained_jobs_are_done(m: ManagerView)
    requires
        m.wf(),
        m.pool.idle(),
    ensures
        forall|id: u32|
            1 <= id <= m.issued && !m.abandoned.contains(id) ==> #[trigger] m.statuses[id]
                == JobStatus::Done,
        m.abandoned == Set::<u32>::empty() ==> m.pending() == 0,
{
    assert forall|id: u32|
        1 <= id <= m.issued && !m.abandoned.contains(id) implies #[trigger] m.statuses[id]
        == JobStatus::Done by {
        assert(!m.queued(id));
        assert(!m.pool.locks.contains_key(id));
    }
    if m.abandoned == Set::<u32>::empty() {
        none_running(m.statuses, m.issued);
    }
}

proof fn none_running(statuses: Map<u32, JobStatus>, n: nat)
    requires
        n <= u32::MAX,
        forall|id: u32| 1 <= id <= n ==> #[trigger] statuses[id] == JobStatus::Done,
    ensures
        running_upto(statuses, n) == 0,
    decreases n,
{
    if n > 0 {
        none_running(statuses, (n - 1) as nat);
        assert(statuses[n as u32] == JobStatus::Done);
    }
}

/// A job is in the queue or in one worker's hands, never both, and in the
/// queue once: no two workers are handed the same job.
pub proof fn job_is_in_one_place(m: ManagerView, i: int, j: int)
    requires
        m.wf(),
        0 <= i < m.pool.queue.len(),
        0 <= j < m.pool.queue.len(),
        i != j,
    ensures
        m.pool.queue[i].id != m.pool.queue[j].id,
        !m.pool.locks.contains_key(m.pool.queue[i].id),
{
    if i < j {
        assert(m.pool.queue[i].id != m.pool.queue[j].id);
    } else {
        assert(m.pool.queue[j].id != m.pool.queue[i].id);
    }
    if m.pool.locks.contains_key(m.pool.queue[i].id) {
        assert(m.queued(m.pool.queue[i].id));
    }
}

/// A job that is `Done` stays `Done`, whatever a worker does next.
pub proof fn done_stays_done(m: ManagerView, id: u32, worker: usize, other: u32)
    requires
        m.wf(),
        1 <= id <= m.issued,
        m.statuses[id] == JobStatus::Done,
    ensures
        m.next(worker).0.statuses[id] == JobStatus::Done,
        m.complete(other).statuses[id] == JobStatus::Done,
        m.abandon(other).statuses[id] == JobStatus::Done,
        m.shut_down().statuses[id] == JobStatus::Done,
        m.issued < u32::MAX ==> forall|request_type: RequestType, req_data: Seq<char>|
            (#[trigger] m.submit(request_type, req_data)).statuses[id] == JobStatus::Done,
{
}

} // verus!
