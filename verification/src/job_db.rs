//! # Job database
//!
//! Stores jobs and their tasks. A task may depend on earlier tasks of the same
//! job; it can be allocated to a worker once it is not allocated yet and every
//! task it depends on has been fulfilled.
//!
//! Main operations: create a job, append a task to a job, allocate a task,
//! mark a task as fulfilled, read and write the status of a task.

use std::collections::{BTreeSet, HashMap};
use vstd::prelude::*;
use vstd::std_specs::hash::spec_keys_iter;
use vstd::std_specs::iter::IteratorSpec;

use crate::ids::{is_random_uuid, new_random_id};

verus! {

broadcast use {
    vstd::std_specs::hash::group_hash_axioms,
    vstd::std_specs::btree::group_btree_axioms,
    vstd::laws_cmp::group_laws_cmp,
};

/// An allocated task, the job it belongs to and its index in that job.
#[derive(Clone, Debug, PartialEq)]
pub struct Allocated<JOB, TASK> {
    pub task: TASK,
    pub job: JOB,
    pub idx: u32,
}

/// Why a request to the database was refused.
#[derive(Clone, Copy, Debug, PartialEq, Eq, Structural)]
pub enum DbError {
    /// No job has the given identifier.
    JobNotFound,
    /// A dependency names a task that does not come before the new task.
    DependencyNotFound,
    /// The job has no task with the given index.
    TaskNotFound,
    /// The job already holds as many tasks as a `u32` index can count.
    TooManyTasks,
}

/// Model of one task of a job.
pub struct TaskModel<TASK, STATUS> {
    pub task: TASK,
    /// Identifier of the current allocation, if the task is allocated.
    pub run_id: Option<u128>,
    /// Indexes of the tasks that must be fulfilled before this one can run.
    pub deps: Set<u32>,
    pub status: Option<STATUS>,
}

/// Model of a job: the job itself and its tasks, by index.
pub struct JobModel<JOB, TASK, STATUS> {
    pub job: JOB,
    pub tasks: Seq<TaskModel<TASK, STATUS>>,
}

/// A task can be allocated when it is not allocated and waits on no other task.
pub open spec fn is_available<TASK, STATUS>(t: TaskModel<TASK, STATUS>) -> bool {
    t.run_id is None && t.deps.is_empty()
}

/// Some task of some job can be allocated.
pub open spec fn has_available<JOB, TASK, STATUS>(m: Map<u128, JobModel<JOB, TASK, STATUS>>) -> bool {
    exists|k: u128, i: int|
        #![trigger m[k].tasks[i]]
        m.contains_key(k) && 0 <= i < m[k].tasks.len() && is_available(m[k].tasks[i])
}

/// The tasks of a job are well formed: their indexes fit in a `u32` and every
/// task depends only on tasks that come before it.
pub open spec fn tasks_wf<TASK, STATUS>(tasks: Seq<TaskModel<TASK, STATUS>>) -> bool {
    &&& tasks.len() <= u32::MAX + 1
    &&& forall|i: int, d: u32|
        #![trigger tasks[i].deps.contains(d)]
        0 <= i < tasks.len() && tasks[i].deps.contains(d) ==> d < i
}

/// Every job of the database is well formed.
pub open spec fn db_wf<JOB, TASK, STATUS>(m: Map<u128, JobModel<JOB, TASK, STATUS>>) -> bool {
    forall|k: u128| #[trigger] m.contains_key(k) ==> tasks_wf(m[k].tasks)
}

/// A fresh task, as `append_task` stores it.
pub open spec fn new_task<TASK, STATUS>(task: TASK, dep: Seq<u32>) -> TaskModel<TASK, STATUS> {
    TaskModel { task, run_id: None, deps: dep.to_set(), status: None }
}

/// The job after its task `i` was allocated under `run_id`.
pub open spec fn with_allocation<JOB, TASK, STATUS>(
    j: JobModel<JOB, TASK, STATUS>,
    i: int,
    run_id: u128,
) -> JobModel<JOB, TASK, STATUS> {
    JobModel {
        job: j.job,
        tasks: j.tasks.update(
            i,
            TaskModel {
                task: j.tasks[i].task,
                run_id: Some(run_id),
                deps: j.tasks[i].deps,
                status: j.tasks[i].status,
            },
        ),
    }
}

/// The job after its task `idx` was fulfilled: no task from `idx` on waits
/// for it any more.
pub open spec fn with_fulfilled<JOB, TASK, STATUS>(
    j: JobModel<JOB, TASK, STATUS>,
    idx: u32,
) -> JobModel<JOB, TASK, STATUS> {
    JobModel {
        job: j.job,
        tasks: Seq::new(
            j.tasks.len(),
            |k: int|
                if k >= idx {
                    TaskModel {
                        task: j.tasks[k].task,
                        run_id: j.tasks[k].run_id,
                        deps: j.tasks[k].deps.remove(idx),
                        status: j.tasks[k].status,
                    }
                } else {
                    j.tasks[k]
                },
        ),
    }
}

/// The job after the status of its task `i` was set.
pub open spec fn with_status<JOB, TASK, STATUS>(
    j: JobModel<JOB, TASK, STATUS>,
    i: int,
    status: STATUS,
) -> JobModel<JOB, TASK, STATUS> {
    JobModel {
        job: j.job,
        tasks: j.tasks.update(
            i,
            TaskModel {
                task: j.tasks[i].task,
                run_id: j.tasks[i].run_id,
                deps: j.tasks[i].deps,
                status: Some(status),
            },
        ),
    }
}

/// `post` is `pre` after the first available task of job `job_id` was
/// allocated under `run_id`.
pub open spec fn allocated_in<JOB, TASK, STATUS>(
    pre: Map<u128, JobModel<JOB, TASK, STATUS>>,
    post: Map<u128, JobModel<JOB, TASK, STATUS>>,
    job_id: u128,
    run_id: u128,
) -> bool {
    exists|i: int|
        {
            &&& 0 <= i < pre[job_id].tasks.len()
            &&& is_available(#[trigger] pre[job_id].tasks[i])
            &&& forall|k: int| 0 <= k < i ==> !is_available(pre[job_id].tasks[k])
            &&& post == pre.insert(job_id, with_allocation(pre[job_id], i, run_id))
        }
}

/// The first index of a task of `tasks` allocated under `run_id`, if any.
pub open spec fn first_with_run_id<TASK, STATUS>(
    tasks: Seq<TaskModel<TASK, STATUS>>,
    run_id: u128,
) -> Option<int> {
    if exists|i: int| 0 <= i < tasks.len() && tasks[i].run_id == Some(run_id) {
        Some(
            choose|i: int|
                0 <= i < tasks.len() && tasks[i].run_id == Some(run_id) && forall|j: int|
                    0 <= j < i ==> tasks[j].run_id != Some(run_id),
        )
    } else {
        None
    }
}

proof fn lemma_exists_first<TASK, STATUS>(tasks: Seq<TaskModel<TASK, STATUS>>, run_id: u128, i: int)
    requires
        0 <= i < tasks.len(),
        tasks[i].run_id == Some(run_id),
    ensures
        exists|k: int|
            0 <= k < tasks.len() && tasks[k].run_id == Some(run_id) && forall|j: int|
                0 <= j < k ==> tasks[j].run_id != Some(run_id),
    decreases i,
{
    if exists|j: int| 0 <= j < i && tasks[j].run_id == Some(run_id) {
        let j = choose|j: int| 0 <= j < i && tasks[j].run_id == Some(run_id);
        lemma_exists_first(tasks, run_id, j);
    } else {
        assert(forall|j: int| 0 <= j < i ==> tasks[j].run_id != Some(run_id));
    }
}

/// `first_with_run_id` names the first task that carries the allocation
/// identifier, and is `None` exactly when no task carries it.
pub proof fn lemma_first_with_run_id_props<TASK, STATUS>(
    tasks: Seq<TaskModel<TASK, STATUS>>,
    run_id: u128,
)
    ensures
        match first_with_run_id(tasks, run_id) {
            Some(i) => {
                &&& 0 <= i < tasks.len()
                &&& tasks[i].run_id == Some(run_id)
                &&& forall|j: int| 0 <= j < i ==> tasks[j].run_id != Some(run_id)
            },
            None => forall|j: int| 0 <= j < tasks.len() ==> tasks[j].run_id != Some(run_id),
        },
{
    if exists|i: int| 0 <= i < tasks.len() && tasks[i].run_id == Some(run_id) {
        let i = choose|i: int| 0 <= i < tasks.len() && tasks[i].run_id == Some(run_id);
        lemma_exists_first(tasks, run_id, i);
    }
}

struct Entry<TASK, STATUS> {
    task: TASK,
    run_id: Option<u128>,
    dependencies: BTreeSet<u32>,
    status: Option<STATUS>,
}

impl<TASK, STATUS> Entry<TASK, STATUS> {
    spec fn model(self) -> TaskModel<TASK, STATUS> {
        TaskModel {
            task: self.task,
            run_id: self.run_id,
            deps: self.dependencies@,
            status: self.status,
        }
    }
}

struct JobEntry<JOB, TASK, STATUS> {
    job: JOB,
    tasks: Vec<Entry<TASK, STATUS>>,
}

impl<JOB, TASK, STATUS> JobEntry<JOB, TASK, STATUS> {
    spec fn model(self) -> JobModel<JOB, TASK, STATUS> {
        JobModel { job: self.job, tasks: self.tasks@.map_values(|e: Entry<TASK, STATUS>| e.model()) }
    }
}

/// In-memory job database.
pub struct LocalJobDb<JOB, TASK, STATUS> {
    jobs: HashMap<u128, JobEntry<JOB, TASK, STATUS>>,
}

impl<JOB, TASK, STATUS> View for LocalJobDb<JOB, TASK, STATUS> {
    type V = Map<u128, JobModel<JOB, TASK, STATUS>>;

    closed spec fn view(&self) -> Self::V {
        self.jobs@.map_values(|e: JobEntry<JOB, TASK, STATUS>| e.model())
    }
}

proof fn lemma_to_set_empty<A>(s: Seq<A>)
    ensures
        s.to_set().is_empty() <==> s.len() == 0,
{
    if s.len() > 0 {
        assert(s.to_set().contains(s[0]));
    } else {
        assert(s.to_set() =~= Set::empty());
    }
}

/// Collects the keys of a map keyed by identifiers, each once.
pub(crate) fn collect_keys<V>(m: &HashMap<u128, V>) -> (r: Vec<u128>)
    ensures
        r@.to_set() == m@.dom(),
        r@.no_duplicates(),
{
    let mut r: Vec<u128> = Vec::new();
    let ghost all = spec_keys_iter(m).remaining().unref();
    for k in it: m.keys()
        invariant
            it.seq().unref() == all,
            all.to_set() == m@.dom(),
            all.no_duplicates(),
            r@ == all.take(it.index() as int),
    {
        r.push(*k);
        proof {
            assert(all.take(it.index() + 1) == all.take(it.index() as int).push(
                all[it.index() as int],
            ));
        }
    }
    proof {
        assert(all.take(all.len() as int) == all);
    }
    r
}

/// The index of the first task that can be allocated, if there is one.
fn first_available<TASK, STATUS>(tasks: &Vec<Entry<TASK, STATUS>>) -> (r: Option<usize>)
    ensures
        match r {
            Some(i) => i < tasks.len() && is_available(tasks@[i as int].model()) && forall|j: int|
                0 <= j < i ==> !is_available(#[trigger] tasks@[j].model()),
            None => forall|i: int| 0 <= i < tasks.len() ==> !is_available(#[trigger] tasks@[i].model()),
        },
{
    let mut i: usize = 0;
    while i < tasks.len()
        invariant
            i <= tasks.len(),
            forall|j: int| 0 <= j < i ==> !is_available(#[trigger] tasks@[j].model()),
        decreases tasks.len() - i,
    {
        let e = &tasks[i];
        if e.run_id.is_none() && e.dependencies.is_empty() {
            return Some(i);
        }
        i = i + 1;
    }
    None
}

/// The index of the first task allocated under `run_id`, if any.
fn find_run<TASK, STATUS>(tasks: &Vec<Entry<TASK, STATUS>>, run_id: u128) -> (r: Option<usize>)
    ensures
        match r {
            Some(i) => {
                &&& i < tasks.len()
                &&& tasks@[i as int].run_id == Some(run_id)
                &&& forall|j: int| 0 <= j < i ==> tasks@[j].run_id != Some(run_id)
            },
            None => forall|j: int| 0 <= j < tasks.len() ==> tasks@[j].run_id != Some(run_id),
        },
{
    let mut i: usize = 0;
    while i < tasks.len()
        invariant
            i <= tasks.len(),
            forall|j: int| 0 <= j < i ==> tasks@[j].run_id != Some(run_id),
        decreases tasks.len() - i,
    {
        match tasks[i].run_id {
            Some(id) => {
                if id == run_id {
                    return Some(i);
                }
            },
            None => {},
        }
        i = i + 1;
    }
    None
}

pub(crate) proof fn lemma_first_with_run_id<TASK, STATUS>(
    tasks: Seq<TaskModel<TASK, STATUS>>,
    run_id: u128,
    r: Option<int>,
)
    requires
        match r {
            Some(i) => {
                &&& 0 <= i < tasks.len()
                &&& tasks[i].run_id == Some(run_id)
                &&& forall|j: int| 0 <= j < i ==> tasks[j].run_id != Some(run_id)
            },
            None => forall|j: int| 0 <= j < tasks.len() ==> tasks[j].run_id != Some(run_id),
        },
    ensures
        first_with_run_id(tasks, run_id) == r,
{
    if let Some(i) = r {
        assert(0 <= i < tasks.len() && tasks[i].run_id == Some(run_id));
        let c = choose|c: int|
            0 <= c < tasks.len() && tasks[c].run_id == Some(run_id) && forall|j: int|
                0 <= j < c ==> tasks[j].run_id != Some(run_id);
        assert(0 <= c < tasks.len() && tasks[c].run_id == Some(run_id) && forall|j: int|
            0 <= j < c ==> tasks[j].run_id != Some(run_id));
        if c < i {
            assert(tasks[c].run_id != Some(run_id));
        } else if c > i {
            assert(tasks[i].run_id != Some(run_id));
        }
    }
}

impl<JOB, TASK, STATUS> LocalJobDb<JOB, TASK, STATUS> {
    /// The database is well formed.
    pub open spec fn well_formed(&self) -> bool {
        db_wf(self@)
    }

    /// An empty database.
    pub fn new() -> (r: Self)
        ensures
            r@ == Map::<u128, JobModel<JOB, TASK, STATUS>>::empty(),
            r.well_formed(),
    {
        let r = LocalJobDb { jobs: HashMap::new() };
        proof {
            assert(r@ =~= Map::<u128, JobModel<JOB, TASK, STATUS>>::empty());
        }
        r
    }

    /// The job stored under `id`, if any.
    pub fn get_job(&self, id: &u128) -> (r: Result<Option<&JOB>, DbError>)
        ensures
            r matches Ok(o) && match o {
                Some(j) => self@.contains_key(*id) && *j == self@[*id].job,
                None => !self@.contains_key(*id),
            },
    {
        match self.jobs.get(id) {
            Some(e) => Ok(Some(&e.job)),
            None => Ok(None),
        }
    }

    /// Stores a new job without tasks under a new random identifier, and
    /// returns the identifier.
    pub fn create_job(&mut self, job: JOB) -> (r: Result<u128, DbError>)
        requires
            old(self).well_formed(),
        ensures
            final(self).well_formed(),
            r matches Ok(id) && is_random_uuid(id) && final(self)@ == old(self)@.insert(
                id,
                JobModel { job, tasks: Seq::empty() },
            ),
    {
        let key = new_random_id();
        let entry = JobEntry { job, tasks: Vec::new() };
        self.jobs.insert(key, entry);
        proof {
            assert(entry.model().tasks =~= Seq::empty());
            assert(self@ =~= old(self)@.insert(key, JobModel { job, tasks: Seq::empty() }));
        }
        Ok(key)
    }

    /// The identifiers of all jobs, each once.
    pub fn list_job_ids(&self) -> (r: Result<Vec<u128>, DbError>)
        ensures
            r matches Ok(ids) && ids@.to_set() == self@.dom() && ids@.no_duplicates(),
    {
        let ids = collect_keys(&self.jobs);
        proof {
            assert(self@.dom() =~= self.jobs@.dom());
        }
        Ok(ids)
    }

    /// Appends a task to a job and returns its index. The task waits on the
    /// tasks of the same job listed in `dep`, which must all come before it.
    pub fn append_task(&mut self, job_id: &u128, task: TASK, dep: &[u32]) -> (r: Result<u32, DbError>)
        requires
            old(self).well_formed(),
        ensures
            final(self).well_formed(),
            match r {
                Ok(idx) => {
                    &&& old(self)@.contains_key(*job_id)
                    &&& idx == old(self)@[*job_id].tasks.len()
                    &&& forall|i: int| 0 <= i < dep@.len() ==> dep@[i] < idx
                    &&& final(self)@ == old(self)@.insert(
                        *job_id,
                        JobModel {
                            job: old(self)@[*job_id].job,
                            tasks: old(self)@[*job_id].tasks.push(new_task(task, dep@)),
                        },
                    )
                },
                Err(DbError::JobNotFound) => !old(self)@.contains_key(*job_id) && final(self)@
                    == old(self)@,
                Err(DbError::TooManyTasks) => {
                    &&& old(self)@.contains_key(*job_id)
                    &&& old(self)@[*job_id].tasks.len() > u32::MAX
                    &&& final(self)@ == old(self)@
                },
                Err(DbError::DependencyNotFound) => {
                    &&& old(self)@.contains_key(*job_id)
                    &&& old(self)@[*job_id].tasks.len() <= u32::MAX
                    &&& exists|i: int|
                        0 <= i < dep@.len() && dep@[i] >= old(self)@[*job_id].tasks.len()
                    &&& final(self)@ == old(self)@
                },
                Err(DbError::TaskNotFound) => false,
            },
    {
        let len = match self.jobs.get(job_id) {
            None => {
                return Err(DbError::JobNotFound);
            },
            Some(e) => e.tasks.len(),
        };
        if len > u32::MAX as usize {
            return Err(DbError::TooManyTasks);
        }
        let idx = len as u32;
        let mut deps: BTreeSet<u32> = BTreeSet::new();
        let mut i: usize = 0;
        while i < dep.len()
            invariant
                i <= dep@.len(),
                deps@ == dep@.take(i as int).to_set(),
                forall|j: int| 0 <= j < i ==> dep@[j] < idx,
                self@ == old(self)@,
                old(self).well_formed(),
                old(self)@.contains_key(*job_id),
                idx == old(self)@[*job_id].tasks.len(),
            decreases dep@.len() - i,
        {
            if dep[i] >= idx {
                return Err(DbError::DependencyNotFound);
            }
            deps.insert(dep[i]);
            proof {
                assert(dep@.take(i + 1) == dep@.take(i as int).push(dep@[i as int]));
                dep@.take(i as int).lemma_push_to_set_commute(dep@[i as int]);
            }
            i = i + 1;
        }
        proof {
            assert(dep@.take(dep@.len() as int) == dep@);
        }
        let mut entry = match self.jobs.remove(job_id) {
            Some(e) => e,
            None => {
                return Err(DbError::JobNotFound);
            },
        };
        let ghost before = entry.model();
        entry.tasks.push(Entry { task, run_id: None, dependencies: deps, status: None });
        let ghost after = entry.model();
        proof {
            assert(after.tasks =~= before.tasks.push(new_task(task, dep@)));
            assert(before == old(self)@[*job_id]);
        }
        self.jobs.insert(*job_id, entry);
        proof {
            let new_m = old(self)@.insert(*job_id, JobModel { job: before.job, tasks: before.tasks.push(new_task(task, dep@)) });
            assert(self@ =~= new_m);
            assert forall|k: u128| #[trigger] self@.contains_key(k) implies tasks_wf(self@[k].tasks) by {
                if k == *job_id {
                    let ts = self@[k].tasks;
                    assert forall|a: int, d: u32| 0 <= a < ts.len() && #[trigger] ts[a].deps.contains(d) implies d < a by {
                        if a < before.tasks.len() {
                            assert(ts[a] == before.tasks[a]);
                        } else {
                            assert(ts[a].deps == dep@.to_set());
                            assert(dep@.contains(d));
                        }
                    }
                }
            }
        }
        Ok(idx)
    }

    /// The tasks of a job, in index order, if the job exists.
    pub fn get_tasks(&self, job_id: &u128) -> (r: Result<Option<Vec<&TASK>>, DbError>)
        ensures
            r matches Ok(o) && match o {
                Some(ts) => {
                    &&& self@.contains_key(*job_id)
                    &&& ts@.len() == self@[*job_id].tasks.len()
                    &&& forall|i: int| 0 <= i < ts@.len() ==> *ts@[i] == self@[*job_id].tasks[i].task
                },
                None => !self@.contains_key(*job_id),
            },
    {
        match self.jobs.get(job_id) {
            None => Ok(None),
            Some(e) => {
                let mut out: Vec<&TASK> = Vec::new();
                let mut i: usize = 0;
                while i < e.tasks.len()
                    invariant
                        i <= e.tasks@.len(),
                        out@.len() == i,
                        forall|j: int| 0 <= j < i ==> *out@[j] == e.tasks@[j].task,
                    decreases e.tasks@.len() - i,
                {
                    out.push(&e.tasks[i].task);
                    i = i + 1;
                }
                Ok(Some(out))
            },
        }
    }

    /// The task with index `task_idx` of a job, if both exist.
    pub fn get_task(&self, job_id: &u128, task_idx: u32) -> (r: Result<Option<&TASK>, DbError>)
        ensures
            r matches Ok(o) && match o {
                Some(t) => {
                    &&& self@.contains_key(*job_id)
                    &&& task_idx < self@[*job_id].tasks.len()
                    &&& *t == self@[*job_id].tasks[task_idx as int].task
                },
                None => !self@.contains_key(*job_id) || task_idx >= self@[*job_id].tasks.len(),
            },
    {
        match self.jobs.get(job_id) {
            None => Ok(None),
            Some(e) => {
                let i = task_idx as usize;
                if i < e.tasks.len() {
                    Ok(Some(&e.tasks[i].task))
                } else {
                    Ok(None)
                }
            },
        }
    }

    /// The task of a job allocated under `task_id`, with the job and the task's
    /// index. Where several tasks carry that allocation, the first one counts.
    pub fn get_allocated_task(&self, job_id: &u128, task_id: &u128) -> (r: Result<
        Option<Allocated<&JOB, &TASK>>,
        DbError,
    >)
        requires
            self.well_formed(),
        ensures
            r matches Ok(o) && match o {
                Some(a) => {
                    &&& self@.contains_key(*job_id)
                    &&& first_with_run_id(self@[*job_id].tasks, *task_id) == Some(a.idx as int)
                    &&& *a.job == self@[*job_id].job
                    &&& *a.task == self@[*job_id].tasks[a.idx as int].task
                },
                None => !self@.contains_key(*job_id) || first_with_run_id(
                    self@[*job_id].tasks,
                    *task_id,
                ) is None,
            },
    {
        match self.jobs.get(job_id) {
            None => Ok(None),
            Some(e) => {
                let found = find_run(&e.tasks, *task_id);
                proof {
                    let m = e.model().tasks;
                    assert(m.len() == e.tasks@.len());
                    assert forall|j: int| 0 <= j < m.len() implies m[j].run_id == #[trigger] e.tasks@[j].run_id by {}
                    match found {
                        Some(i) => lemma_first_with_run_id(m, *task_id, Some(i as int)),
                        None => lemma_first_with_run_id(m, *task_id, None),
                    }
                }
                match found {
                    None => Ok(None),
                    Some(i) => {
                        proof {
                            assert(self@[*job_id] == e.model());
                            assert(self@.contains_key(*job_id));
                            assert(tasks_wf(self@[*job_id].tasks));
                            assert(i <= u32::MAX);
                        }
                        Ok(Some(Allocated { task: &e.tasks[i].task, job: &e.job, idx: i as u32 }))
                    },
                }
            },
        }
    }

    /// Allocates a task that is available, under a new random allocation
    /// identifier, and returns the job's identifier with the allocation
    /// identifier. Returns `None` when no task of any job is available.
    pub fn allocate_task(&mut self) -> (r: Result<Option<(u128, u128)>, DbError>)
        requires
            old(self).well_formed(),
        ensures
            final(self).well_formed(),
            r matches Ok(o) && match o {
                None => !has_available(old(self)@) && final(self)@ == old(self)@,
                Some((job_id, run_id)) => {
                    &&& is_random_uuid(run_id)
                    &&& old(self)@.contains_key(job_id)
                    &&& allocated_in(old(self)@, final(self)@, job_id, run_id)
                },
            },
    {
        let keys = collect_keys(&self.jobs);
        let mut n: usize = 0;
        while n < keys.len()
            invariant
                n <= keys@.len(),
                keys@.to_set() == old(self)@.dom(),
                self@ == old(self)@,
                old(self).well_formed(),
                forall|m: int, i: int|
                    0 <= m < n && 0 <= i < old(self)@[keys@[m]].tasks.len() ==> !is_available(
                        #[trigger] old(self)@[keys@[m]].tasks[i],
                    ),
            decreases keys@.len() - n,
        {
            let k = keys[n];
            proof {
                assert(keys@.to_set().contains(k));
                assert(self@.contains_key(k));
            }
            let pos = match self.jobs.get(&k) {
                Some(e) => {
                    let p = first_available(&e.tasks);
                    proof {
                        assert(old(self)@[k] == e.model());
                    }
                    p
                },
                None => None,
            };
            match pos {
                Some(i) => {
                    let mut entry = match self.jobs.remove(&k) {
                        Some(e) => e,
                        None => {
                            return Ok(None);
                        },
                    };
                    let ghost before = entry.model();
                    proof {
                        assert(before == old(self)@[k]);
                        assert(before.tasks[i as int] == entry.tasks@[i as int].model());
                    }
                    let id = new_random_id();
                    let mut t = entry.tasks.remove(i);
                    t.run_id = Some(id);
                    entry.tasks.insert(i, t);
                    proof {
                        assert(before == old(self)@[k]);
                        assert(entry.model().tasks =~= with_allocation(before, i as int, id).tasks);
                    }
                    self.jobs.insert(k, entry);
                    proof {
                        assert(self@ =~= old(self)@.insert(k, with_allocation(before, i as int, id)));
                        assert forall|kk: u128| #[trigger] self@.contains_key(kk) implies tasks_wf(self@[kk].tasks) by {
                            if kk == k {
                                let ts = self@[kk].tasks;
                                assert forall|a: int, d: u32| 0 <= a < ts.len() && #[trigger] ts[a].deps.contains(d) implies d < a by {
                                    assert(ts[a].deps == before.tasks[a].deps);
                                }
                            }
                        }
                    }
                    proof {
                        assert(0 <= i < old(self)@[k].tasks.len() && is_available(old(self)@[k].tasks[i as int])
                            && self@ == old(self)@.insert(k, with_allocation(old(self)@[k], i as int, id)));
                        assert(allocated_in(old(self)@, self@, k, id));
                    }
                    return Ok(Some((k, id)));
                },
                None => {},
            }
            n = n + 1;
        }
        proof {
            if has_available(old(self)@) {
                let (k, i) = choose|k: u128, i: int|
                    old(self)@.contains_key(k) && 0 <= i < old(self)@[k].tasks.len() && is_available(
                        old(self)@[k].tasks[i],
                    );
                assert(keys@.to_set().contains(k));
                let m = choose|m: int| 0 <= m < keys@.len() && keys@[m] == k;
                assert(!is_available(old(self)@[keys@[m]].tasks[i]));
            }
        }
        Ok(None)
    }

    /// Marks task `task_idx` of a job as fulfilled: the tasks that waited on
    /// it no longer do.
    pub fn fulfill(&mut self, job_id: &u128, task_idx: u32) -> (r: Result<(), DbError>)
        requires
            old(self).well_formed(),
        ensures
            final(self).well_formed(),
            match r {
                Ok(()) => {
                    &&& old(self)@.contains_key(*job_id)
                    &&& task_idx < old(self)@[*job_id].tasks.len()
                    &&& final(self)@ == old(self)@.insert(
                        *job_id,
                        with_fulfilled(old(self)@[*job_id], task_idx),
                    )
                },
                Err(e) => {
                    &&& e == DbError::TaskNotFound
                    &&& !old(self)@.contains_key(*job_id) || task_idx >= old(self)@[*job_id].tasks.len()
                    &&& final(self)@ == old(self)@
                },
            },
    {
        let len = match self.jobs.get(job_id) {
            None => {
                return Err(DbError::TaskNotFound);
            },
            Some(e) => e.tasks.len(),
        };
        if task_idx as usize >= len {
            return Err(DbError::TaskNotFound);
        }
        let mut entry = match self.jobs.remove(job_id) {
            Some(e) => e,
            None => {
                return Err(DbError::TaskNotFound);
            },
        };
        let ghost before = entry.model();
        let ghost goal = with_fulfilled(before, task_idx);
        let mut j: usize = task_idx as usize;
        while j < entry.tasks.len()
            invariant
                entry.tasks@.len() == before.tasks.len(),
                task_idx <= j <= before.tasks.len(),
                entry.job == before.job,
                goal == with_fulfilled(before, task_idx),
                forall|k: int|
                    0 <= k < before.tasks.len() ==> #[trigger] entry.tasks@[k].model() == if task_idx <= k < j {
                        goal.tasks[k]
                    } else {
                        before.tasks[k]
                    },
            decreases before.tasks.len() - j,
        {
            let ghost prev = entry.tasks@;
            assert(entry.tasks@[j as int].model() == before.tasks[j as int]);
            let mut t = entry.tasks.remove(j);
            t.dependencies.remove(&task_idx);
            entry.tasks.insert(j, t);
            proof {
                assert(entry.tasks@ == prev.update(j as int, t));
                assert(t.model() == goal.tasks[j as int]);
            }
            j = j + 1;
        }
        proof {
            assert(before == old(self)@[*job_id]);
            assert(entry.model().tasks =~= goal.tasks);
        }
        self.jobs.insert(*job_id, entry);
        proof {
            assert(self@ =~= old(self)@.insert(*job_id, goal));
            assert forall|kk: u128| #[trigger] self@.contains_key(kk) implies tasks_wf(self@[kk].tasks) by {
                if kk == *job_id {
                    let ts = self@[kk].tasks;
                    assert forall|a: int, d: u32| 0 <= a < ts.len() && #[trigger] ts[a].deps.contains(d) implies d < a by {
                        assert(before.tasks[a].deps.contains(d));
                    }
                }
            }
        }
        Ok(())
    }

    /// The status of task `task_idx` of a job; `None` while no status was set.
    pub fn get_task_status(&self, job_id: &u128, task_idx: u32) -> (r: Result<Option<&STATUS>, DbError>)
        ensures
            match r {
                Ok(o) => {
                    &&& self@.contains_key(*job_id)
                    &&& task_idx < self@[*job_id].tasks.len()
                    &&& match o {
                        Some(s) => self@[*job_id].tasks[task_idx as int].status == Some(*s),
                        None => self@[*job_id].tasks[task_idx as int].status is None,
                    }
                },
                Err(e) => e == DbError::TaskNotFound && (!self@.contains_key(*job_id) || task_idx
                    >= self@[*job_id].tasks.len()),
            },
    {
        match self.jobs.get(job_id) {
            None => Err(DbError::TaskNotFound),
            Some(e) => {
                let i = task_idx as usize;
                if i < e.tasks.len() {
                    proof {
                        assert(self@[*job_id] == e.model());
                    }
                    match &e.tasks[i].status {
                        Some(s) => Ok(Some(s)),
                        None => Ok(None),
                    }
                } else {
                    Err(DbError::TaskNotFound)
                }
            },
        }
    }

    /// Sets the status of task `task_idx` of a job. Returns `None`, changing
    /// nothing, when the job or the task does not exist.
    pub fn set_task_status(&mut self, job_id: &u128, task_idx: u32, status: STATUS) -> (r: Result<
        Option<()>,
        DbError,
    >)
        requires
            old(self).well_formed(),
        ensures
            final(self).well_formed(),
            r matches Ok(o) && match o {
                Some(()) => {
                    &&& old(self)@.contains_key(*job_id)
                    &&& task_idx < old(self)@[*job_id].tasks.len()
                    &&& final(self)@ == old(self)@.insert(
                        *job_id,
                        with_status(old(self)@[*job_id], task_idx as int, status),
                    )
                },
                None => {
                    &&& !old(self)@.contains_key(*job_id) || task_idx >= old(self)@[*job_id].tasks.len()
                    &&& final(self)@ == old(self)@
                },
            },
    {
        let len = match self.jobs.get(job_id) {
            None => {
                return Ok(None);
            },
            Some(e) => e.tasks.len(),
        };
        let i = task_idx as usize;
        if i >= len {
            return Ok(None);
        }
        let mut entry = match self.jobs.remove(job_id) {
            Some(e) => e,
            None => {
                return Ok(None);
            },
        };
        let ghost before = entry.model();
        let mut t = entry.tasks.remove(i);
        t.status = Some(status);
        entry.tasks.insert(i, t);
        proof {
            assert(before == old(self)@[*job_id]);
            assert(entry.model().tasks =~= with_status(before, i as int, status).tasks);
        }
        self.jobs.insert(*job_id, entry);
        proof {
            assert(self@ =~= old(self)@.insert(*job_id, with_status(before, i as int, status)));
            assert forall|kk: u128| #[trigger] self@.contains_key(kk) implies tasks_wf(self@[kk].tasks) by {
                if kk == *job_id {
                    let ts = self@[kk].tasks;
                    assert forall|a: int, d: u32| 0 <= a < ts.len() && #[trigger] ts[a].deps.contains(d) implies d < a by {
                        assert(ts[a].deps == before.tasks[a].deps);
                    }
                }
            }
        }
        Ok(Some(()))
    }
}

/// A job read back after it was created is the job that was created, and it
/// has no task yet.
pub proof fn law_create_then_get_job<JOB, TASK, STATUS>(
    pre: Map<u128, JobModel<JOB, TASK, STATUS>>,
    id: u128,
    job: JOB,
)
    ensures
        ({
            let post = pre.insert(id, JobModel { job, tasks: Seq::<TaskModel<TASK, STATUS>>::empty() });
            &&& post.contains_key(id)
            &&& post[id].job == job
            &&& post[id].tasks.len() == 0
        }),
{
}

/// A task read back by the index that appending it returned is the appended
/// task; the tasks that were there before keep their indexes.
pub proof fn law_append_then_get_task<JOB, TASK, STATUS>(
    pre: Map<u128, JobModel<JOB, TASK, STATUS>>,
    job_id: u128,
    task: TASK,
    dep: Seq<u32>,
)
    requires
        pre.contains_key(job_id),
    ensures
        ({
            let idx = pre[job_id].tasks.len() as int;
            let post = pre.insert(
                job_id,
                JobModel { job: pre[job_id].job, tasks: pre[job_id].tasks.push(new_task(task, dep)) },
            );
            &&& post[job_id].tasks.len() == idx + 1
            &&& post[job_id].tasks[idx].task == task
            &&& post[job_id].tasks[idx].status is None
            &&& forall|i: int| 0 <= i < idx ==> post[job_id].tasks[i] == pre[job_id].tasks[i]
        }),
{
}

/// A task appended without dependencies can be allocated at once; one with a
/// dependency cannot.
pub proof fn law_new_task_available_iff_no_deps<TASK, STATUS>(task: TASK, dep: Seq<u32>)
    ensures
        is_available(new_task::<TASK, STATUS>(task, dep)) <==> dep.len() == 0,
{
    lemma_to_set_empty(dep);
}

/// Allocating a task takes exactly that task out of the available ones: it
/// was available, it is not any more and it carries the allocation
/// identifier; every task available afterwards was available before.
pub proof fn law_allocation_consumes_task<JOB, TASK, STATUS>(
    pre: Map<u128, JobModel<JOB, TASK, STATUS>>,
    post: Map<u128, JobModel<JOB, TASK, STATUS>>,
    job_id: u128,
    run_id: u128,
)
    requires
        pre.contains_key(job_id),
        allocated_in(pre, post, job_id, run_id),
    ensures
        exists|i: int|
            0 <= i < pre[job_id].tasks.len() && is_available(#[trigger] pre[job_id].tasks[i])
                && !is_available(post[job_id].tasks[i]) && post[job_id].tasks[i].run_id == Some(
                run_id,
            ),
        post.dom() == pre.dom(),
        forall|k: u128, i: int|
            post.contains_key(k) && 0 <= i < post[k].tasks.len() && is_available(
                #[trigger] post[k].tasks[i],
            ) ==> i < pre[k].tasks.len() && is_available(pre[k].tasks[i]),
{
    let i = choose|i: int|
        0 <= i < pre[job_id].tasks.len() && is_available(#[trigger] pre[job_id].tasks[i]) && post
            == pre.insert(job_id, with_allocation(pre[job_id], i, run_id));
    assert(!is_available(post[job_id].tasks[i]));
    assert(post.dom() =~= pre.dom());
}

/// A fresh allocation identifier finds the allocated task again: when no task
/// of the job carried the identifier before, the first task that carries it
/// afterwards is the one just allocated.
pub proof fn law_allocation_found_by_id<JOB, TASK, STATUS>(
    pre: Map<u128, JobModel<JOB, TASK, STATUS>>,
    post: Map<u128, JobModel<JOB, TASK, STATUS>>,
    job_id: u128,
    run_id: u128,
)
    requires
        pre.contains_key(job_id),
        allocated_in(pre, post, job_id, run_id),
        forall|j: int| 0 <= j < pre[job_id].tasks.len() ==> pre[job_id].tasks[j].run_id != Some(run_id),
    ensures
        first_with_run_id(post[job_id].tasks, run_id) matches Some(i) && is_available(
            pre[job_id].tasks[i],
        ) && post == pre.insert(job_id, with_allocation(pre[job_id], i, run_id)),
{
    let i = choose|i: int|
        0 <= i < pre[job_id].tasks.len() && is_available(#[trigger] pre[job_id].tasks[i]) && post
            == pre.insert(job_id, with_allocation(pre[job_id], i, run_id));
    lemma_first_with_run_id(post[job_id].tasks, run_id, Some(i));
}

/// Fulfilling a task removes it from the dependencies of every task of the
/// job and changes nothing else; a task that waited on that task alone and is
/// not allocated becomes available.
pub proof fn law_fulfill_releases_dependents<JOB, TASK, STATUS>(
    j: JobModel<JOB, TASK, STATUS>,
    idx: u32,
)
    requires
        tasks_wf(j.tasks),
        idx < j.tasks.len(),
    ensures
        ({
            let post = with_fulfilled(j, idx);
            &&& post.job == j.job
            &&& post.tasks.len() == j.tasks.len()
            &&& forall|k: int|
                0 <= k < j.tasks.len() ==> {
                    &&& (#[trigger] post.tasks[k]).deps == j.tasks[k].deps.remove(idx)
                    &&& post.tasks[k].task == j.tasks[k].task
                    &&& post.tasks[k].run_id == j.tasks[k].run_id
                    &&& post.tasks[k].status == j.tasks[k].status
                }
            &&& forall|k: int|
                0 <= k < j.tasks.len() && j.tasks[k].run_id is None && j.tasks[k].deps == set![idx]
                    ==> is_available(#[trigger] post.tasks[k])
            &&& tasks_wf(post.tasks)
        }),
{
    let post = with_fulfilled(j, idx);
    assert forall|k: int| 0 <= k < j.tasks.len() implies (#[trigger] post.tasks[k]).deps
        == j.tasks[k].deps.remove(idx) by {
        if k < idx {
            assert(!j.tasks[k].deps.contains(idx));
            assert(j.tasks[k].deps.remove(idx) =~= j.tasks[k].deps);
        }
    }
    assert forall|k: int|
        0 <= k < j.tasks.len() && j.tasks[k].run_id is None && j.tasks[k].deps == set![idx]
        implies is_available(#[trigger] post.tasks[k]) by {
        assert(post.tasks[k].deps =~= Set::<u32>::empty());
    }
    assert forall|a: int, d: u32|
        0 <= a < post.tasks.len() && #[trigger] post.tasks[a].deps.contains(d) implies d < a by {
        assert(j.tasks[a].deps.contains(d));
    }
}

/// A status read back after it was written is the written status; the other
/// tasks keep theirs.
pub proof fn law_status_read_after_write<JOB, TASK, STATUS>(
    j: JobModel<JOB, TASK, STATUS>,
    i: int,
    status: STATUS,
)
    requires
        0 <= i < j.tasks.len(),
    ensures
        with_status(j, i, status).tasks[i].status == Some(status),
        forall|k: int|
            0 <= k < j.tasks.len() && k != i ==> #[trigger] with_status(j, i, status).tasks[k]
                == j.tasks[k],
        with_status(j, i, status).tasks.len() == j.tasks.len(),
{
}

/// One change of the database, as the operations make them: a job created
/// under a fresh identifier, a task appended, a task fulfilled, a task
/// allocated, a status set, or no change (reads and refused requests).
pub enum DbStep<JOB, TASK, STATUS> {
    Create(u128, JOB),
    Append(u128, TASK, Seq<u32>),
    Fulfill(u128, u32),
    Allocate(u128, u128),
    SetStatus(u128, int, STATUS),
    Unchanged,
}

/// `post` is `pre` after the change `op`, as the contracts of the
/// operations state it.
pub open spec fn db_step_is<JOB, TASK, STATUS>(
    pre: Map<u128, JobModel<JOB, TASK, STATUS>>,
    post: Map<u128, JobModel<JOB, TASK, STATUS>>,
    op: DbStep<JOB, TASK, STATUS>,
) -> bool {
    match op {
        DbStep::Create(id, job) => !pre.contains_key(id) && post == pre.insert(
            id,
            JobModel { job, tasks: Seq::empty() },
        ),
        DbStep::Append(id, task, dep) => pre.contains_key(id) && post == pre.insert(
            id,
            JobModel { job: pre[id].job, tasks: pre[id].tasks.push(new_task(task, dep)) },
        ),
        DbStep::Fulfill(id, idx) => pre.contains_key(id) && idx < pre[id].tasks.len() && post
            == pre.insert(id, with_fulfilled(pre[id], idx)),
        DbStep::Allocate(id, run_id) => pre.contains_key(id) && allocated_in(pre, post, id, run_id),
        DbStep::SetStatus(id, i, status) => pre.contains_key(id) && 0 <= i < pre[id].tasks.len()
            && post == pre.insert(id, with_status(pre[id], i, status)),
        DbStep::Unchanged => post == pre,
    }
}

/// `states` is a run of the database: each state follows from the one
/// before by the change at the same position of `ops`.
pub open spec fn is_db_run<JOB, TASK, STATUS>(
    states: Seq<Map<u128, JobModel<JOB, TASK, STATUS>>>,
    ops: Seq<DbStep<JOB, TASK, STATUS>>,
) -> bool {
    &&& states.len() == ops.len() + 1
    &&& forall|x: int| 0 <= x < ops.len() ==> db_step_is(states[x], #[trigger] states[x + 1], ops[x])
}

/// Task `i` of job `k` exists in `m`.
pub open spec fn has_task<JOB, TASK, STATUS>(m: Map<u128, JobModel<JOB, TASK, STATUS>>, k: u128, i: int) -> bool {
    m.contains_key(k) && 0 <= i < m[k].tasks.len()
}

proof fn lemma_step_keeps_task<JOB, TASK, STATUS>(
    pre: Map<u128, JobModel<JOB, TASK, STATUS>>,
    post: Map<u128, JobModel<JOB, TASK, STATUS>>,
    op: DbStep<JOB, TASK, STATUS>,
    k: u128,
    i: int,
)
    requires
        db_step_is(pre, post, op),
        has_task(pre, k, i),
    ensures
        has_task(post, k, i),
        pre[k].tasks[i].run_id is Some ==> post[k].tasks[i].run_id == pre[k].tasks[i].run_id,
        post[k].tasks[i].deps.subset_of(pre[k].tasks[i].deps),
        forall|d: u32|
            pre[k].tasks[i].deps.contains(d) && !post[k].tasks[i].deps.contains(d) ==> op
                == DbStep::<JOB, TASK, STATUS>::Fulfill(k, d),
{
    match op {
        DbStep::Create(id, job) => {
            assert(id != k);
        },
        DbStep::Append(id, task, dep) => {
            if id == k {
                assert(post[k].tasks[i] == pre[k].tasks[i]);
            }
        },
        DbStep::Fulfill(id, idx) => {
            if id == k {
                let t = pre[k].tasks[i];
                assert(post[k].tasks[i].deps == if i >= idx {
                    t.deps.remove(idx)
                } else {
                    t.deps
                });
            }
        },
        DbStep::Allocate(id, run_id) => {
            let a = choose|a: int|
                {
                    &&& 0 <= a < pre[id].tasks.len()
                    &&& is_available(#[trigger] pre[id].tasks[a])
                    &&& forall|x: int| 0 <= x < a ==> !is_available(pre[id].tasks[x])
                    &&& post == pre.insert(id, with_allocation(pre[id], a, run_id))
                };
            if id == k && a != i {
                assert(post[k].tasks[i] == pre[k].tasks[i]);
            }
        },
        DbStep::SetStatus(id, a, status) => {
            if id == k && a != i {
                assert(post[k].tasks[i] == pre[k].tasks[i]);
            }
        },
        DbStep::Unchanged => {},
    }
}

/// An allocation is final: along any run of the database in which every
/// job is created under an identifier that no job has yet, a task once
/// allocated keeps its allocation identifier in every later state and is
/// never available again, so that no task is handed out twice. And a task
/// loses a dependency only through the fulfilment of that task, so that a
/// task is handed out only once every task it depends on was fulfilled.
pub proof fn law_allocation_is_final<JOB, TASK, STATUS>(
    states: Seq<Map<u128, JobModel<JOB, TASK, STATUS>>>,
    ops: Seq<DbStep<JOB, TASK, STATUS>>,
    j: int,
    l: int,
    k: u128,
    i: int,
)
    requires
        is_db_run(states, ops),
        0 <= j <= l < states.len(),
        has_task(states[j], k, i),
    ensures
        has_task(states[l], k, i),
        states[j][k].tasks[i].run_id is Some ==> {
            &&& states[l][k].tasks[i].run_id == states[j][k].tasks[i].run_id
            &&& !is_available(states[l][k].tasks[i])
        },
        states[l][k].tasks[i].deps.subset_of(states[j][k].tasks[i].deps),
        forall|d: u32|
            states[j][k].tasks[i].deps.contains(d) && !states[l][k].tasks[i].deps.contains(d)
                ==> exists|x: int|
                j <= x < l && #[trigger] ops[x] == DbStep::<JOB, TASK, STATUS>::Fulfill(k, d),
    decreases l - j,
{
    if j < l {
        assert(db_step_is(states[j], states[j + 1], ops[j]));
        lemma_step_keeps_task(states[j], states[j + 1], ops[j], k, i);
        law_allocation_is_final(states, ops, j + 1, l, k, i);
        assert forall|d: u32|
            states[j][k].tasks[i].deps.contains(d) && !states[l][k].tasks[i].deps.contains(d)
            implies exists|x: int|
            j <= x < l && #[trigger] ops[x] == DbStep::<JOB, TASK, STATUS>::Fulfill(k, d) by {
            if !states[j + 1][k].tasks[i].deps.contains(d) {
                assert(ops[j] == DbStep::<JOB, TASK, STATUS>::Fulfill(k, d));
            } else {
                let x = choose|x: int|
                    j + 1 <= x < l && #[trigger] ops[x] == DbStep::<JOB, TASK, STATUS>::Fulfill(k, d);
                assert(j <= x < l);
            }
        }
    }
}

} // verus!
