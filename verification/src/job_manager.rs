//! The server's jobs: each job with the scheduler of its tasks.

use std::collections::HashMap;
use vstd::prelude::*;

use crate::ids::{is_random_uuid, new_random_id};
use crate::job_db::collect_keys;
use crate::jobs::{FileRef, Job, Source};
use crate::command::{is_worker_task_of, WorkerTask};
use crate::paths::spec_source_path;
use crate::scheduler::{can_allocate, is_task_of, scheduler_wf, SchedulerModel, Task, TaskScheduler};
use crate::storage::MemStorage;

verus! {

broadcast use vstd::std_specs::hash::group_hash_axioms;

/// Identifies an allocated task: its job and the allocation.
#[derive(Clone, Copy, Debug, PartialEq, Eq, Structural)]
pub struct TaskId {
    pub job: u128,
    pub task: u128,
}

/// The body of an answer of the server: stored bytes, or a text.
#[derive(Clone, Debug, PartialEq, Eq)]
pub enum AnswerBody {
    Bytes(Vec<u8>),
    Text(String),
}

/// Status of an answer that carries what was asked for.
pub const STATUS_OK: u16 = 200;

/// Status of an answer to a request for something that does not exist.
pub const STATUS_NOT_FOUND: u16 = 404;

/// Status of an answer to a request that failed on the server's side.
pub const STATUS_SERVER_ERROR: u16 = 500;

/// The answer to a request for the source of a job, from what reading the
/// source gave: `None` when there is no such job, else the content of the
/// file or the text of the error that reading it gave. The server answers
/// not found with the text `Not found` for an unknown job, the content for
/// a file it read, and a server error naming the failure otherwise.
pub fn source_answer(read: Option<Result<Vec<u8>, String>>) -> (r: (u16, AnswerBody))
    ensures
        match read {
            None => answers_text(r, STATUS_NOT_FOUND, "Not found"@),
            Some(Ok(content)) => r.0 == STATUS_OK && r.1 == AnswerBody::Bytes(content),
            Some(Err(e)) => answers_text(r, STATUS_SERVER_ERROR, "Failed to read file: "@ + e@),
        },
{
    match read {
        None => (STATUS_NOT_FOUND, AnswerBody::Text(String::from_str("Not found"))),
        Some(Ok(content)) => (STATUS_OK, AnswerBody::Bytes(content)),
        Some(Err(e)) => {
            let mut t = String::from_str("Failed to read file: ");
            t.append(e.as_str());
            (STATUS_SERVER_ERROR, AnswerBody::Text(t))
        },
    }
}

/// `r` answers with `status` and the text `text`.
pub open spec fn answers_text(r: (u16, AnswerBody), status: u16, text: Seq<char>) -> bool {
    &&& r.0 == status
    &&& (r.1 matches AnswerBody::Text(t) && t@ == text)
}

/// The text of the error that reading a missing stored file gives.
pub open spec fn missing_file_text() -> Seq<char> {
    "no file is stored under this identifier"@
}

/// Every job with the scheduler of its tasks.
pub struct JobManager {
    map: HashMap<u128, TaskScheduler>,
}

impl View for JobManager {
    type V = Map<u128, SchedulerModel>;

    closed spec fn view(&self) -> Map<u128, SchedulerModel> {
        self.map@.map_values(|s: TaskScheduler| s@)
    }
}

/// Every scheduler of the manager is well formed, and schedules the job it
/// is stored under.
pub open spec fn manager_wf(m: Map<u128, SchedulerModel>) -> bool {
    forall|k: u128| #[trigger] m.contains_key(k) ==> scheduler_wf(m[k]) && m[k].job_id == k
}

impl JobManager {
    /// A manager without jobs.
    pub fn new() -> (r: JobManager)
        ensures
            r@ == Map::<u128, SchedulerModel>::empty(),
    {
        let r = JobManager { map: HashMap::new() };
        proof {
            assert(r@ =~= Map::<u128, SchedulerModel>::empty());
        }
        r
    }

    /// Number of jobs.
    pub fn job_count(&self) -> (r: usize)
        ensures
            r == self@.len(),
    {
        proof {
            assert(self@.dom() =~= self.map@.dom());
        }
        self.map.len()
    }

    /// The identifiers of the jobs, each once, in no particular order.
    pub fn job_ids(&self) -> (r: Vec<u128>)
        ensures
            r@.to_set() == self@.dom(),
            r@.no_duplicates(),
    {
        proof {
            assert(self@.dom() =~= self.map@.dom());
        }
        collect_keys(&self.map)
    }

    /// Adds a job under a new random identifier, with a scheduler that has
    /// not segmented it yet, and returns the identifier.
    pub fn add_job(&mut self, job: Job) -> (r: u128)
        requires
            manager_wf(old(self)@),
        ensures
            manager_wf(final(self)@),
            is_random_uuid(r),
            final(self)@ == old(self)@.insert(
                r,
                SchedulerModel { job_id: r, job, segment: None, allocated: None, output: None },
            ),
    {
        let id = new_random_id();
        let scheduler = TaskScheduler::new(id, job);
        self.map.insert(id, scheduler);
        proof {
            assert(self@ =~= old(self)@.insert(id, scheduler@));
        }
        id
    }

    /// The job stored under `job_id`.
    pub fn get_job(&self, job_id: &u128) -> (r: Option<&Job>)
        ensures
            match r {
                Some(j) => self@.contains_key(*job_id) && *j == self@[*job_id].job,
                None => !self@.contains_key(*job_id),
            },
    {
        match self.map.get(job_id) {
            Some(s) => Some(s.get_job()),
            None => None,
        }
    }

    /// The stored file a job reads: its source. `None` when there is no such
    /// job, which the server answers as not found.
    pub fn job_source_file(&self, job_id: &u128) -> (r: Option<FileRef>)
        ensures
            match r {
                Some(f) => self@.contains_key(*job_id) && self@[*job_id].job.source == Source::File(f),
                None => !self@.contains_key(*job_id),
            },
    {
        match self.get_job(job_id) {
            Some(job) => match job.source {
                Source::File(f) => Some(f),
            },
            None => None,
        }
    }

    /// The answer to a request for the source of job `job_id`, read from
    /// `storage`: not found for an unknown job, else the stored content of
    /// its source, or a server error when the file is missing.
    pub fn job_source(&self, storage: &MemStorage, job_id: &u128) -> (r: (u16, AnswerBody))
        ensures
            !self@.contains_key(*job_id) ==> answers_text(r, STATUS_NOT_FOUND, "Not found"@),
            self@.contains_key(*job_id) ==> match self@[*job_id].job.source {
                Source::File(f) => if storage@.contains_key(f.id) {
                    r.0 == STATUS_OK && (r.1 matches AnswerBody::Bytes(b) && b@ == storage@[f.id])
                } else {
                    answers_text(r, STATUS_SERVER_ERROR, "Failed to read file: "@ + missing_file_text())
                },
            },
    {
        match self.job_source_file(job_id) {
            None => source_answer(None),
            Some(f) => match storage.read_file(f.id) {
                Ok(content) => source_answer(Some(Ok(content.clone()))),
                Err(_) => source_answer(
                    Some(Err(String::from_str("no file is stored under this identifier"))),
                ),
            },
        }
    }

    /// The task allocated under `task` in job `job`, while the allocation
    /// lasts.
    pub fn get_job_task(&self, job: &u128, task: &u128) -> (r: Option<Task>)
        ensures
            match r {
                Some(t) => self@.contains_key(*job) && self@[*job].allocated == Some(*task)
                    && is_task_of(t, self@[*job], *task),
                None => !self@.contains_key(*job) || self@[*job].allocated != Some(*task),
            },
    {
        match self.map.get(job) {
            Some(s) => s.get_task(task),
            None => None,
        }
    }

    /// Allocates a task of some job whose segment is available, and returns
    /// its identifiers with the task. Returns `None` when no job has a task
    /// available.
    pub fn allocate(&mut self) -> (r: Option<(TaskId, Task)>)
        requires
            manager_wf(old(self)@),
        ensures
            manager_wf(final(self)@),
            match r {
                Some((id, t)) => {
                    &&& old(self)@.contains_key(id.job)
                    &&& can_allocate(old(self)@[id.job])
                    &&& t.id == id.task
                    &&& is_random_uuid(id.task)
                    &&& is_task_of(t, old(self)@[id.job], id.task)
                    &&& final(self)@ == old(self)@.insert(
                        id.job,
                        SchedulerModel {
                            segment: Some(crate::scheduler::AllocationState::Allocated),
                            allocated: Some(id.task),
                            ..old(self)@[id.job]
                        },
                    )
                },
                None => {
                    &&& forall|k: u128| #[trigger] old(self)@.contains_key(k) ==> !can_allocate(old(self)@[k])
                    &&& final(self)@ == old(self)@
                },
            },
    {
        let keys = collect_keys(&self.map);
        let mut n: usize = 0;
        while n < keys.len()
            invariant
                n <= keys@.len(),
                keys@.to_set() == old(self)@.dom(),
                self@ == old(self)@,
                manager_wf(old(self)@),
                forall|m: int| 0 <= m < n ==> !can_allocate(#[trigger] old(self)@[keys@[m]]),
            decreases keys@.len() - n,
        {
            let k = keys[n];
            proof {
                assert(keys@.to_set().contains(k));
                assert(self.map@.dom().contains(k));
            }
            let mut s = match self.map.remove(&k) {
                Some(s) => s,
                None => {
                    return None;
                },
            };
            let ghost before = s@;
            proof {
                assert(before == old(self)@[k]);
            }
            let allocated = s.allocate();
            self.map.insert(k, s);
            match allocated {
                Some(t) => {
                    proof {
                        assert(self@ =~= old(self)@.insert(k, s@));
                    }
                    return Some((TaskId { job: k, task: t.id }, t));
                },
                None => {
                    proof {
                        assert(self@ =~= old(self)@);
                    }
                },
            }
            n = n + 1;
        }
        proof {
            assert forall|k: u128| #[trigger] old(self)@.contains_key(k) implies !can_allocate(
                old(self)@[k],
            ) by {
                assert(keys@.to_set().contains(k));
                let m = choose|m: int| 0 <= m < keys@.len() && keys@[m] == k;
                assert(!can_allocate(old(self)@[keys@[m]]));
            }
        }
        None
    }
}

/// Segment `task` of job `job` was allocated from `pre` to `post`, and `w` is
/// what the worker receives for it.
pub open spec fn worker_task_handed_out(
    pre: Map<u128, SchedulerModel>,
    post: Map<u128, SchedulerModel>,
    job: u128,
    task: u128,
    w: WorkerTask,
) -> bool {
    &&& pre.contains_key(job)
    &&& can_allocate(pre[job])
    &&& is_random_uuid(task)
    &&& w.input_path@ == spec_source_path(job)
    &&& is_worker_task_of(w, pre[job].job.parameters)
    &&& post == pre.insert(
        job,
        SchedulerModel {
            segment: Some(crate::scheduler::AllocationState::Allocated),
            allocated: Some(task),
            ..pre[job]
        },
    )
}

/// What asking for a task did: either some segment was allocated and the
/// worker received it, or no job had a task available and nothing changed.
pub open spec fn request_outcome(
    pre: Map<u128, SchedulerModel>,
    post: Map<u128, SchedulerModel>,
    r: Result<WorkerTask, DeadlineExceeded>,
) -> bool {
    match r {
        Ok(w) => exists|job: u128, task: u128| #[trigger] worker_task_handed_out(pre, post, job, task, w),
        Err(_) => {
            &&& forall|k: u128| #[trigger] pre.contains_key(k) ==> !can_allocate(pre[k])
            &&& post == pre
        },
    }
}

/// No task was available to hand out; the request does not wait for one.
#[derive(Clone, Copy, Debug, PartialEq, Eq, Structural)]
pub struct DeadlineExceeded;

impl JobManager {
    /// Hands a task to a worker that asks for one: the task of some job
    /// whose segment is available, with missing parameters given as empty
    /// texts. Fails at once when no job has a task available.
    pub fn request_task(&mut self) -> (r: Result<WorkerTask, DeadlineExceeded>)
        requires
            manager_wf(old(self)@),
        ensures
            manager_wf(final(self)@),
            request_outcome(old(self)@, final(self)@, r),
    {
        let allocated = self.allocate();
        let ghost post = self@;
        match allocated {
            Some((id, task)) => {
                let w = WorkerTask::from_parameters(task.input_path, &task.parameters);
                let r = Ok(w);
                proof {
                    assert(worker_task_handed_out(old(self)@, post, id.job, id.task, r->Ok_0));
                    assert(request_outcome(old(self)@, post, r));
                }
                r
            },
            None => {
                let r = Err(DeadlineExceeded);
                proof {
                    assert(request_outcome(old(self)@, post, r));
                }
                r
            },
        }
    }
}

/// Each job hands out its task once at a time: after an allocation the job
/// has no task available, and the other jobs are as they were.
pub proof fn law_each_job_is_allocated_once(m: Map<u128, SchedulerModel>, job: u128, task: u128)
    requires
        manager_wf(m),
        m.contains_key(job),
        can_allocate(m[job]),
    ensures
        ({
            let post = m.insert(
                job,
                SchedulerModel {
                    segment: Some(crate::scheduler::AllocationState::Allocated),
                    allocated: Some(task),
                    ..m[job]
                },
            );
            &&& manager_wf(post)
            &&& !can_allocate(post[job])
            &&& forall|k: u128| #[trigger] post.contains_key(k) && k != job ==> post[k] == m[k]
        }),
{
}

} // verus!
