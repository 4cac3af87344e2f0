//! The job manager: the interface the server uses to manage jobs and tasks,
//! on top of the job database.
//!
//! A task's dependencies are the tasks whose outputs it takes as inputs; input
//! index 0 is the job's source and is no dependency.

use vstd::prelude::*;

use crate::ids::is_random_uuid;
use crate::job_db::{
    allocated_in, db_wf, first_with_run_id, lemma_first_with_run_id_props, has_available, is_available, with_allocation,
    with_fulfilled, with_status, DbError, JobModel, LocalJobDb, TaskModel,
};
use crate::task::{
    copy_vec, Input, Instance, InstanceView, JobSource, Status, TaskSource, TaskState,
};

verus! {

/// Why the manager refused a request.
#[derive(Clone, Copy, Debug, PartialEq, Eq, Structural)]
pub enum ManagerError {
    /// The job database refused the request.
    Db(DbError),
    /// Only the `Finished` status can be reported.
    NotImplemented,
    /// The task has no input with the given index.
    InputOutOfBounds,
    /// The job has more tasks than a `u32` index can count.
    IndexOutOfRange,
}

/// The state of the manager: every job with its tasks.
pub type ManagerModel = Map<u128, JobModel<JobSource, TaskSource, TaskState>>;

/// The tasks that a task with these inputs waits on: the indexes of its inputs,
/// but for index 0, which is the job's source.
pub open spec fn input_deps(inputs: Seq<Input>) -> Set<u32> {
    Set::new(|d: u32| d != 0 && exists|k: int| 0 <= k < inputs.len() && inputs[k].index == d)
}

/// `inst` is the instance of task `idx` of job `j`, allocated under `task_id`.
pub open spec fn is_instance_of(
    inst: InstanceView,
    job_id: u128,
    task_id: u128,
    j: JobModel<JobSource, TaskSource, TaskState>,
    idx: int,
) -> bool {
    &&& 0 <= idx < j.tasks.len()
    &&& inst.job_id == job_id
    &&& inst.task_id == task_id
    &&& inst.inputs == j.tasks[idx].task@.inputs
    &&& inst.recipe == j.tasks[idx].task@.recipe
    &&& inst.job_options == j.job@.options
}

/// The index of the task of job `job_id` allocated under `task_id`, if the job
/// and such a task exist.
pub open spec fn allocated_index(m: ManagerModel, job_id: u128, task_id: u128) -> Option<int> {
    if m.contains_key(job_id) {
        first_with_run_id(m[job_id].tasks, task_id)
    } else {
        None
    }
}

/// The output recorded for task `idx` of job `job_id`.
pub open spec fn task_output(m: ManagerModel, job_id: u128, idx: int) -> Option<u128> {
    match m[job_id].tasks[idx].status {
        Some(s) => s.output,
        None => None,
    }
}

/// The dependencies of a task with these inputs, each input index but 0.
fn deps_of_inputs(inputs: &Vec<Input>) -> (r: Vec<u32>)
    ensures
        r@.to_set() == input_deps(inputs@),
{
    let mut r: Vec<u32> = Vec::new();
    let mut i: usize = 0;
    while i < inputs.len()
        invariant
            i <= inputs@.len(),
            forall|d: u32|
                r@.contains(d) <==> (d != 0 && exists|k: int|
                    0 <= k < i && #[trigger] inputs@[k].index == d),
        decreases inputs@.len() - i,
    {
        let ghost prev = r@;
        let idx = inputs[i].index;
        if idx != 0 {
            r.push(idx);
        }
        proof {
            assert forall|d: u32|
                r@.contains(d) <==> (d != 0 && exists|k: int|
                    0 <= k < i + 1 && #[trigger] inputs@[k].index == d) by {
                if r@.contains(d) {
                    if prev.contains(d) {
                    } else {
                        let j = choose|j: int| 0 <= j < r@.len() && r@[j] == d;
                        assert(j == prev.len());
                        assert(inputs@[i as int].index == d);
                    }
                }
                if d != 0 && exists|k: int| 0 <= k < i + 1 && #[trigger] inputs@[k].index == d {
                    let k = choose|k: int| 0 <= k < i + 1 && #[trigger] inputs@[k].index == d;
                    if k < i {
                        assert(prev.contains(d));
                        let j = choose|j: int| 0 <= j < prev.len() && prev[j] == d;
                        assert(r@[j] == d);
                    } else {
                        assert(r@[prev.len() as int] == d);
                    }
                }
            }
        }
        i = i + 1;
    }
    proof {
        assert(r@.to_set() =~= input_deps(inputs@));
    }
    r
}

/// Manages jobs and their tasks.
pub struct JobManager {
    db: LocalJobDb<JobSource, TaskSource, TaskState>,
}

impl View for JobManager {
    type V = ManagerModel;

    closed spec fn view(&self) -> ManagerModel {
        self.db@
    }
}

impl JobManager {
    /// The manager's state is well formed.
    pub closed spec fn well_formed(&self) -> bool {
        self.db.well_formed()
    }

    /// A manager without jobs.
    pub fn new() -> (r: JobManager)
        ensures
            r@ == ManagerModel::empty(),
            r.well_formed(),
    {
        JobManager { db: LocalJobDb::new() }
    }

    /// Stores a job under a new random identifier and returns the identifier.
    pub fn create_job(&mut self, job: JobSource) -> (r: Result<u128, DbError>)
        requires
            old(self).well_formed(),
        ensures
            final(self).well_formed(),
            r matches Ok(id) && is_random_uuid(id) && final(self)@ == old(self)@.insert(
                id,
                JobModel { job, tasks: Seq::empty() },
            ),
    {
        self.db.create_job(job)
    }

    /// A copy of the job stored under `job_id`, if any.
    pub fn get_job(&self, job_id: &u128) -> (r: Result<Option<JobSource>, DbError>)
        ensures
            r matches Ok(o) && match o {
                Some(j) => self@.contains_key(*job_id) && j@ == self@[*job_id].job@,
                None => !self@.contains_key(*job_id),
            },
    {
        match self.db.get_job(job_id) {
            Ok(Some(j)) => Ok(Some(j.duplicate())),
            Ok(None) => Ok(None),
            Err(e) => Err(e),
        }
    }

    /// The identifiers of the jobs, each once, in no particular order.
    pub fn get_job_list(&self) -> (r: Result<Vec<u128>, DbError>)
        ensures
            r matches Ok(ids) && ids@.to_set() == self@.dom() && ids@.no_duplicates(),
    {
        self.db.list_job_ids()
    }

    /// Allocates an available task and returns it as an instance for a
    /// worker. Returns `None` when no task is available.
    pub fn allocate_task(&mut self) -> (r: Result<Option<Instance>, DbError>)
        requires
            old(self).well_formed(),
        ensures
            final(self).well_formed(),
            r matches Ok(o) && match o {
                None => !has_available(old(self)@) && final(self)@ == old(self)@,
                Some(inst) => {
                    &&& is_random_uuid(inst.task_id)
                    &&& old(self)@.contains_key(inst.job_id)
                    &&& allocated_in(old(self)@, final(self)@, inst.job_id, inst.task_id)
                    &&& allocated_index(final(self)@, inst.job_id, inst.task_id) matches Some(idx)
                        && is_instance_of(
                        inst@,
                        inst.job_id,
                        inst.task_id,
                        final(self)@[inst.job_id],
                        idx,
                    )
                },
            },
    {
        proof {
            use_wf(&*self);
        }
        match self.db.allocate_task() {
            Err(e) => Err(e),
            Ok(None) => Ok(None),
            Ok(Some((job_id, task_id))) => {
                proof {
                    law_allocated_task_is_found(old(self)@, self@, job_id, task_id);
                    lemma_first_with_run_id_props(self@[job_id].tasks, task_id);
                }
                match self.db.get_allocated_task(&job_id, &task_id) {
                    Ok(Some(allocated)) => {
                        let inst = Instance {
                            job_id,
                            task_id,
                            inputs: copy_vec(&allocated.task.inputs),
                            recipe: allocated.task.recipe.duplicate(),
                            job_options: allocated.job.options.duplicate(),
                        };
                        Ok(Some(inst))
                    },
                    Ok(None) => Ok(None),
                    Err(e) => Err(e),
                }
            },
        }
    }

    /// Appends a task to a job and returns its index. The task waits on the
    /// tasks whose outputs it takes as inputs.
    pub fn add_task_to_job(&mut self, job_id: &u128, task: TaskSource) -> (r: Result<u32, DbError>)
        requires
            old(self).well_formed(),
        ensures
            final(self).well_formed(),
            match r {
                Ok(idx) => {
                    &&& old(self)@.contains_key(*job_id)
                    &&& idx == old(self)@[*job_id].tasks.len()
                    &&& forall|d: u32| input_deps(task.inputs@).contains(d) ==> d < idx
                    &&& final(self)@ == old(self)@.insert(
                        *job_id,
                        JobModel {
                            job: old(self)@[*job_id].job,
                            tasks: old(self)@[*job_id].tasks.push(
                                TaskModel {
                                    task,
                                    run_id: None,
                                    deps: input_deps(task.inputs@),
                                    status: None,
                                },
                            ),
                        },
                    )
                },
                Err(DbError::JobNotFound) => !old(self)@.contains_key(*job_id) && final(self)@
                    == old(self)@,
                Err(DbError::TooManyTasks) => {
                    &&& old(self)@.contains_key(*job_id)
                    &&& old(self)@[*job_id].tasks.len() > u32::MAX
                    &&& final(self)@ == old(self)@
                },
                Err(DbError::DependencyNotFound) => {
                    &&& old(self)@.contains_key(*job_id)
                    &&& old(self)@[*job_id].tasks.len() <= u32::MAX
                    &&& exists|d: u32|
                        input_deps(task.inputs@).contains(d) && d >= old(self)@[*job_id].tasks.len()
                    &&& final(self)@ == old(self)@
                },
                Err(DbError::TaskNotFound) => false,
            },
    {
        let deps = deps_of_inputs(&task.inputs);
        let ghost inputs = task.inputs@;
        let r = self.db.append_task(job_id, task, deps.as_slice());
        proof {
            match r {
                Ok(idx) => {
                    assert forall|d: u32| input_deps(inputs).contains(d) implies d < idx by {
                        assert(deps@.to_set().contains(d));
                        let k = choose|k: int| 0 <= k < deps@.len() && deps@[k] == d;
                    }
                },
                Err(DbError::DependencyNotFound) => {
                    let i = choose|i: int|
                        0 <= i < deps@.len() && deps@[i] >= old(self)@[*job_id].tasks.len();
                    assert(deps@.to_set().contains(deps@[i]));
                },
                _ => {},
            }
        }
        r
    }

    /// A copy of task `task_idx` of a job, if both exist.
    pub fn get_task_source(&self, job_id: &u128, task_idx: u32) -> (r: Result<
        Option<TaskSource>,
        DbError,
    >)
        ensures
            r matches Ok(o) && match o {
                Some(t) => {
                    &&& self@.contains_key(*job_id)
                    &&& task_idx < self@[*job_id].tasks.len()
                    &&& t@ == self@[*job_id].tasks[task_idx as int].task@
                },
                None => !self@.contains_key(*job_id) || task_idx >= self@[*job_id].tasks.len(),
            },
    {
        match self.db.get_task(job_id, task_idx) {
            Ok(Some(t)) => Ok(Some(t.duplicate())),
            Ok(None) => Ok(None),
            Err(e) => Err(e),
        }
    }

    /// The instance allocated under `task_id` in job `job_id`, if any.
    pub fn get_task(&self, job_id: &u128, task_id: &u128) -> (r: Result<Option<Instance>, DbError>)
        requires
            self.well_formed(),
        ensures
            r matches Ok(o) && match o {
                Some(inst) => allocated_index(self@, *job_id, *task_id) matches Some(idx)
                    && is_instance_of(inst@, *job_id, *task_id, self@[*job_id], idx),
                None => allocated_index(self@, *job_id, *task_id) is None,
            },
    {
        proof {
            if self@.contains_key(*job_id) {
                lemma_first_with_run_id_props(self@[*job_id].tasks, *task_id);
            }
        }
        match self.db.get_allocated_task(job_id, task_id) {
            Ok(Some(allocated)) => Ok(
                Some(
                    Instance {
                        job_id: *job_id,
                        task_id: *task_id,
                        inputs: copy_vec(&allocated.task.inputs),
                        recipe: allocated.task.recipe.duplicate(),
                        job_options: allocated.job.options.duplicate(),
                    },
                ),
            ),
            Ok(None) => Ok(None),
            Err(e) => Err(e),
        }
    }

    /// Records a status report of the task allocated under `task_id`. A
    /// finished task is fulfilled, so that the tasks that wait on it can run.
    /// Returns `None` when no task of the job carries that allocation.
    pub fn update_task_status(&mut self, job_id: &u128, task_id: &u128, status: Status) -> (r:
        Result<Option<()>, ManagerError>)
        requires
            old(self).well_formed(),
        ensures
            final(self).well_formed(),
            match r {
                Ok(Some(())) => {
                    &&& status == Status::Finished
                    &&& allocated_index(old(self)@, *job_id, *task_id) matches Some(idx)
                        && final(self)@ == old(self)@.insert(
                        *job_id,
                        with_fulfilled(old(self)@[*job_id], idx as u32),
                    )
                },
                Ok(None) => {
                    &&& status == Status::Finished
                    &&& allocated_index(old(self)@, *job_id, *task_id) is None
                    &&& final(self)@ == old(self)@
                },
                Err(e) => {
                    &&& e == ManagerError::NotImplemented
                    &&& status == Status::Running
                    &&& final(self)@ == old(self)@
                },
            },
    {
        match status {
            Status::Finished => {
                proof {
                    if old(self)@.contains_key(*job_id) {
                        lemma_first_with_run_id_props(old(self)@[*job_id].tasks, *task_id);
                    }
                }
                let idx = match self.db.get_allocated_task(job_id, task_id) {
                    Ok(Some(allocated)) => allocated.idx,
                    Ok(None) => {
                        return Ok(None);
                    },
                    Err(e) => {
                        return Err(ManagerError::Db(e));
                    },
                };
                match self.db.fulfill(job_id, idx) {
                    Ok(()) => Ok(Some(())),
                    Err(e) => Err(ManagerError::Db(e)),
                }
            },
            Status::Running => Err(ManagerError::NotImplemented),
        }
    }

    /// Records the output file of the task allocated under `task_id`. When no
    /// task of the job carries that allocation, the index `u32::MAX` is used,
    /// as the database does not hold a task under it unless the job is full.
    pub fn set_task_output(&mut self, job_id: &u128, task_id: &u128, output: u128) -> (r: Result<
        Option<()>,
        DbError,
    >)
        requires
            old(self).well_formed(),
        ensures
            final(self).well_formed(),
            ({
                let idx: int = match allocated_index(old(self)@, *job_id, *task_id) {
                    Some(i) => i,
                    None => u32::MAX as int,
                };
                r matches Ok(o) && match o {
                    Some(()) => {
                        &&& old(self)@.contains_key(*job_id)
                        &&& idx < old(self)@[*job_id].tasks.len()
                        &&& final(self)@ == old(self)@.insert(
                            *job_id,
                            with_status(old(self)@[*job_id], idx, TaskState { output: Some(output) }),
                        )
                    },
                    None => {
                        &&& !old(self)@.contains_key(*job_id) || idx >= old(self)@[*job_id].tasks.len()
                        &&& final(self)@ == old(self)@
                    },
                }
            }),
    {
        let idx = match self.db.get_allocated_task(job_id, task_id) {
            Ok(Some(allocated)) => allocated.idx,
            Ok(None) => u32::MAX,
            Err(e) => {
                return Err(e);
            },
        };
        self.db.set_task_status(job_id, idx, TaskState { output: Some(output) })
    }

    /// The output recorded for task `task_idx` of a job; `None` while there is
    /// none.
    pub fn get_task_output(&self, job_id: &u128, task_idx: u32) -> (r: Result<Option<u128>, DbError>)
        ensures
            match r {
                Ok(o) => {
                    &&& self@.contains_key(*job_id)
                    &&& task_idx < self@[*job_id].tasks.len()
                    &&& o == task_output(self@, *job_id, task_idx as int)
                },
                Err(e) => e == DbError::TaskNotFound && (!self@.contains_key(*job_id) || task_idx
                    >= self@[*job_id].tasks.len()),
            },
    {
        match self.db.get_task_status(job_id, task_idx) {
            Ok(Some(s)) => Ok(s.output),
            Ok(None) => Ok(None),
            Err(e) => Err(e),
        }
    }

    /// The stored file that input `input_idx` of task `task_idx` reads: the
    /// job's source. Returns `None` when the job or the task does not exist,
    /// and an error when the task has no such input.
    pub fn get_task_input(&self, job_id: &u128, task_idx: u32, input_idx: u32) -> (r: Result<
        Option<u128>,
        ManagerError,
    >)
        ensures
            match r {
                Ok(Some(id)) => {
                    &&& self@.contains_key(*job_id)
                    &&& task_idx < self@[*job_id].tasks.len()
                    &&& input_idx < self@[*job_id].tasks[task_idx as int].task@.inputs.len()
                    &&& id == self@[*job_id].job.input_id
                },
                Ok(None) => !self@.contains_key(*job_id) || task_idx >= self@[*job_id].tasks.len(),
                Err(e) => {
                    &&& e == ManagerError::InputOutOfBounds
                    &&& self@.contains_key(*job_id)
                    &&& task_idx < self@[*job_id].tasks.len()
                    &&& input_idx >= self@[*job_id].tasks[task_idx as int].task@.inputs.len()
                },
            },
    {
        let task = match self.db.get_task(job_id, task_idx) {
            Ok(Some(t)) => t,
            Ok(None) => {
                return Ok(None);
            },
            Err(e) => {
                return Err(ManagerError::Db(e));
            },
        };
        if input_idx as usize >= task.inputs.len() {
            return Err(ManagerError::InputOutOfBounds);
        }
        match self.db.get_job(job_id) {
            Ok(Some(job)) => Ok(Some(job.input_id)),
            Ok(None) => Err(ManagerError::Db(DbError::JobNotFound)),
            Err(e) => Err(ManagerError::Db(e)),
        }
    }

    /// The stored file that input `input_idx` of the task allocated under
    /// `task_id` reads. Returns `None` when no task of the job carries that
    /// allocation.
    pub fn get_allocated_task_input(&self, job_id: &u128, task_id: &u128, input_idx: u32) -> (r:
        Result<Option<u128>, ManagerError>)
        requires
            self.well_formed(),
        ensures
            match allocated_index(self@, *job_id, *task_id) {
                None => r == Ok::<Option<u128>, ManagerError>(None),
                Some(idx) => match r {
                    Ok(Some(id)) => {
                        &&& input_idx < self@[*job_id].tasks[idx].task@.inputs.len()
                        &&& id == self@[*job_id].job.input_id
                    },
                    Ok(None) => false,
                    Err(e) => e == ManagerError::InputOutOfBounds && input_idx
                        >= self@[*job_id].tasks[idx].task@.inputs.len(),
                },
            },
    {
        proof {
            if self@.contains_key(*job_id) {
                lemma_first_with_run_id_props(self@[*job_id].tasks, *task_id);
            }
        }
        let idx = match self.db.get_allocated_task(job_id, task_id) {
            Ok(Some(allocated)) => allocated.idx,
            Ok(None) => {
                return Ok(None);
            },
            Err(e) => {
                return Err(ManagerError::Db(e));
            },
        };
        self.get_task_input(job_id, idx, input_idx)
    }

    /// The output recorded for the task allocated under `task_id`. Returns
    /// `None` when no task of the job carries that allocation, or while the
    /// task has no output.
    pub fn get_allocated_task_output(&self, job_id: &u128, task_id: &u128) -> (r: Result<
        Option<u128>,
        DbError,
    >)
        requires
            self.well_formed(),
        ensures
            r == Ok::<Option<u128>, DbError>(
                match allocated_index(self@, *job_id, *task_id) {
                    None => None,
                    Some(idx) => task_output(self@, *job_id, idx),
                },
            ),
    {
        proof {
            if self@.contains_key(*job_id) {
                lemma_first_with_run_id_props(self@[*job_id].tasks, *task_id);
            }
        }
        let idx = match self.db.get_allocated_task(job_id, task_id) {
            Ok(Some(allocated)) => allocated.idx,
            Ok(None) => {
                return Ok(None);
            },
            Err(e) => {
                return Err(e);
            },
        };
        self.get_task_output(job_id, idx)
    }

    /// The output of the last task of a job: the job's output. Returns `None`
    /// while the job has no task or the last task has no output.
    pub fn get_job_output(&self, job_id: &u128) -> (r: Result<Option<u128>, ManagerError>)
        requires
            self.well_formed(),
        ensures
            match r {
                Ok(o) => {
                    &&& self@.contains_key(*job_id)
                    &&& self@[*job_id].tasks.len() <= u32::MAX
                    &&& o == if self@[*job_id].tasks.len() == 0 {
                        None
                    } else {
                        task_output(self@, *job_id, self@[*job_id].tasks.len() - 1)
                    }
                },
                Err(e) => {
                    ||| e == ManagerError::Db(DbError::JobNotFound) && !self@.contains_key(*job_id)
                    ||| e == ManagerError::IndexOutOfRange && self@.contains_key(*job_id)
                        && self@[*job_id].tasks.len() > u32::MAX
                },
            },
    {
        proof {
            use_wf(self);
        }
        let count = match self.db.get_tasks(job_id) {
            Ok(Some(tasks)) => tasks.len(),
            Ok(None) => {
                return Err(ManagerError::Db(DbError::JobNotFound));
            },
            Err(e) => {
                return Err(ManagerError::Db(e));
            },
        };
        if count > u32::MAX as usize {
            return Err(ManagerError::IndexOutOfRange);
        }
        if count == 0 {
            return Ok(None);
        }
        let last = (count - 1) as u32;
        match self.get_task_output(job_id, last) {
            Ok(o) => Ok(o),
            Err(e) => Err(ManagerError::Db(e)),
        }
    }
}

/// A task handed out under an identifier is found again under that
/// identifier: after an allocation, the allocated job holds a task that
/// carries the allocation identifier.
pub proof fn law_allocated_task_is_found(pre: ManagerModel, post: ManagerModel, job_id: u128, run_id: u128)
    requires
        pre.contains_key(job_id),
        allocated_in(pre, post, job_id, run_id),
    ensures
        allocated_index(post, job_id, run_id) is Some,
{
    let i = choose|i: int|
        0 <= i < pre[job_id].tasks.len() && is_available(#[trigger] pre[job_id].tasks[i]) && post
            == pre.insert(job_id, with_allocation(pre[job_id], i, run_id));
    assert(post[job_id].tasks[i].run_id == Some(run_id));
}

proof fn use_wf(m: &JobManager)
    requires
        m.well_formed(),
    ensures
        db_wf(m@),
{
}

/// A task added to a job waits on exactly the tasks whose outputs it reads:
/// every input index but 0 (the job's source), at any position of its
/// inputs, and nothing else. So it waits on nothing exactly when it reads
/// only the source.
pub proof fn law_added_task_waits_on_its_inputs(inputs: Seq<Input>)
    ensures
        forall|d: u32|
            #[trigger] input_deps(inputs).contains(d) <==> (d != 0 && exists|k: int|
                0 <= k < inputs.len() && inputs[k].index == d),
        forall|k: int|
            0 <= k < inputs.len() && inputs[k].index != 0 ==> input_deps(inputs).contains(
                #[trigger] inputs[k].index,
            ),
        !input_deps(inputs).contains(0),
        input_deps(inputs).is_empty() <==> forall|k: int|
            0 <= k < inputs.len() ==> #[trigger] inputs[k].index == 0,
{
    if !(forall|k: int| 0 <= k < inputs.len() ==> #[trigger] inputs[k].index == 0) {
        let k = choose|k: int| 0 <= k < inputs.len() && inputs[k].index != 0;
        assert(input_deps(inputs).contains(inputs[k].index));
    } else {
        assert(input_deps(inputs) =~= Set::<u32>::empty());
    }
}

} // verus!
