//! The tasks of one job, their allocation to workers and the outputs they
//! produced.
//!
//! A job is cut into tasks by its [`Segmenter`]; only the first task is ever
//! handed out. An allocation lasts until it is released; a task whose
//! allocation is released before it received an output becomes available
//! again, one with an output never does. A task receives its output once.

use std::collections::HashMap;
use vstd::prelude::*;

use crate::ids::{is_random_uuid, new_random_id};
use crate::jobs::{spec_segments, FileRef, Job, Segmenter, TaskInfo};

verus! {

broadcast use vstd::std_specs::hash::group_hash_axioms;

/// Model of a task of the job.
pub struct ScheduledModel {
    pub available: bool,
    pub task: TaskInfo,
    pub output: Option<FileRef>,
}

/// Model of a scheduler: the job, its tasks, and for each live allocation
/// the index of the task it holds.
pub struct JobSchedulerModel {
    pub job: Job,
    pub tasks: Seq<ScheduledModel>,
    pub allocated: Map<u128, int>,
}

/// Every allocation holds a task of the job that is not available, and no
/// two allocations hold the same task.
pub open spec fn scheduler_model_wf(m: JobSchedulerModel) -> bool {
    &&& forall|id: u128|
        #[trigger] m.allocated.contains_key(id) ==> 0 <= m.allocated[id] < m.tasks.len()
            && !m.tasks[m.allocated[id]].available
    &&& forall|a: u128, b: u128|
        #![trigger m.allocated[a], m.allocated[b]]
        m.allocated.contains_key(a) && m.allocated.contains_key(b) && m.allocated[a]
            == m.allocated[b] ==> a == b
}

/// The first task can be handed out.
pub open spec fn first_available(m: JobSchedulerModel) -> bool {
    m.tasks.len() > 0 && m.tasks[0].available
}

/// A task of the job.
struct ScheduledTask {
    available: bool,
    task: TaskInfo,
    output: Option<FileRef>,
}

impl View for ScheduledTask {
    type V = ScheduledModel;

    closed spec fn view(&self) -> ScheduledModel {
        ScheduledModel { available: self.available, task: self.task, output: self.output }
    }
}

/// Holds a job and its tasks, and the tasks allocated to workers.
pub struct JobScheduler {
    job: Job,
    tasks: Vec<ScheduledTask>,
    allocated: HashMap<u128, usize>,
}

impl View for JobScheduler {
    type V = JobSchedulerModel;

    closed spec fn view(&self) -> JobSchedulerModel {
        JobSchedulerModel {
            job: self.job,
            tasks: self.tasks@.map_values(|t: ScheduledTask| t@),
            allocated: self.allocated@.map_values(|i: usize| i as int),
        }
    }
}

impl JobScheduler {
    /// The scheduler is well formed: its model is.
    pub open spec fn well_formed(&self) -> bool {
        scheduler_model_wf(self@)
    }

    /// A scheduler for `job`: every task the job is cut into, available and
    /// without output; nothing allocated.
    pub fn new(job: Job) -> (r: JobScheduler)
        ensures
            r.well_formed(),
            r@.job == job,
            r@.tasks.len() == spec_segments(job).len(),
            forall|i: int|
                0 <= i < r@.tasks.len() ==> #[trigger] r@.tasks[i] == (ScheduledModel {
                    available: true,
                    task: spec_segments(job)[i],
                    output: None,
                }),
            r@.allocated == Map::<u128, int>::empty(),
    {
        let segments = Segmenter::segment(&job);
        let infos = segments.tasks;
        let mut tasks: Vec<ScheduledTask> = Vec::new();
        let mut i: usize = 0;
        while i < infos.len()
            invariant
                i <= infos@.len(),
                infos@ == spec_segments(job),
                tasks@.len() == i,
                forall|k: int|
                    0 <= k < i ==> #[trigger] tasks@[k]@ == (ScheduledModel {
                        available: true,
                        task: infos@[k],
                        output: None,
                    }),
            decreases infos@.len() - i,
        {
            let info = TaskInfo { input: infos[i].input, parameters: infos[i].parameters.duplicate() };
            tasks.push(ScheduledTask { available: true, task: info, output: None });
            i = i + 1;
        }
        let r = JobScheduler { job, tasks, allocated: HashMap::new() };
        proof {
            assert(r@.allocated =~= Map::<u128, int>::empty());
        }
        r
    }
}

impl JobScheduler {
    /// The job.
    pub fn get_job(&self) -> (r: &Job)
        ensures
            *r == self@.job,
    {
        &self.job
    }

    /// Hands out the first task of the job, if it is available, under a new
    /// random allocation identifier; the task is no longer available.
    /// Returns `None`, and changes nothing, when it is not.
    pub fn allocate(&mut self) -> (r: Option<(u128, TaskInfo)>)
        requires
            old(self).well_formed(),
        ensures
            final(self).well_formed(),
            match r {
                Some((id, t)) => {
                    &&& first_available(old(self)@)
                    &&& is_random_uuid(id)
                    &&& t == old(self)@.tasks[0].task
                    &&& final(self)@ == (JobSchedulerModel {
                        tasks: old(self)@.tasks.update(
                            0,
                            ScheduledModel { available: false, ..old(self)@.tasks[0] },
                        ),
                        allocated: old(self)@.allocated.insert(id, 0),
                        ..old(self)@
                    })
                },
                None => !first_available(old(self)@) && final(self)@ == old(self)@,
            },
    {
        if self.tasks.len() == 0 || !self.tasks[0].available {
            return None;
        }
        let id = new_random_id();
        let ghost pre = self@;
        let t = TaskInfo { input: self.tasks[0].task.input, parameters: self.tasks[0].task.parameters.duplicate() };
        self.tasks.set(
            0,
            ScheduledTask {
                available: false,
                task: TaskInfo { input: t.input, parameters: t.parameters.duplicate() },
                output: self.tasks[0].output,
            },
        );
        self.allocated.insert(id, 0);
        proof {
            assert(self@.tasks =~= pre.tasks.update(0, ScheduledModel { available: false, ..pre.tasks[0] }));
            assert(self@.allocated =~= pre.allocated.insert(id, 0));
            assert forall|a: u128| #[trigger] pre.allocated.contains_key(a) implies pre.allocated[a] != 0 by {}
        }
        Some((id, t))
    }

    /// The task held by allocation `id`, while it lasts.
    pub fn get_allocated(&self, id: &u128) -> (r: Option<&TaskInfo>)
        requires
            self.well_formed(),
        ensures
            match r {
                Some(t) => self@.allocated.contains_key(*id) && *t == self@.tasks[self@.allocated[*id]].task,
                None => !self@.allocated.contains_key(*id),
            },
    {
        match self.allocated.get(id) {
            Some(idx) => {
                proof {
                    assert(self@.allocated.contains_key(*id));
                }
                Some(&self.tasks[*idx].task)
            },
            None => None,
        }
    }

    /// The number of live allocations.
    pub fn allocated_count(&self) -> (r: usize)
        ensures
            r == self@.allocated.len(),
    {
        proof {
            assert(self@.allocated.dom() =~= self.allocated@.dom());
        }
        self.allocated.len()
    }

    /// Ends allocation `id`. Its task becomes available again unless it
    /// received an output. Returns whether `id` was a live allocation.
    pub fn release(&mut self, id: &u128) -> (r: bool)
        requires
            old(self).well_formed(),
        ensures
            final(self).well_formed(),
            r == old(self)@.allocated.contains_key(*id),
            r ==> {
                let idx = old(self)@.allocated[*id];
                final(self)@ == (JobSchedulerModel {
                    tasks: if old(self)@.tasks[idx].output is None {
                        old(self)@.tasks.update(idx, ScheduledModel { available: true, ..old(self)@.tasks[idx] })
                    } else {
                        old(self)@.tasks
                    },
                    allocated: old(self)@.allocated.remove(*id),
                    ..old(self)@
                })
            },
            !r ==> final(self)@ == old(self)@,
    {
        let idx = match self.allocated.get(id) {
            Some(i) => *i,
            None => {
                return false;
            },
        };
        proof {
            assert(old(self)@.allocated.contains_key(*id));
        }
        let ghost pre = self@;
        self.allocated.remove(id);
        if self.tasks[idx].output.is_none() {
            let t = TaskInfo {
                input: self.tasks[idx].task.input,
                parameters: self.tasks[idx].task.parameters.duplicate(),
            };
            self.tasks.set(idx, ScheduledTask { available: true, task: t, output: None });
            proof {
                assert(self@.tasks =~= pre.tasks.update(
                    idx as int,
                    ScheduledModel { available: true, ..pre.tasks[idx as int] },
                ));
            }
        }
        proof {
            assert(self@.allocated =~= pre.allocated.remove(*id));
            assert forall|a: u128| #[trigger] self@.allocated.contains_key(a) implies self@.allocated[a]
                != idx by {
                assert(pre.allocated[a] == pre.allocated[*id] ==> a == *id);
            }
        }
        true
    }

    /// Records the output of the task held by allocation `id`. Fails, and
    /// hands the output back, when the task already has one; `None` when `id`
    /// is not a live allocation.
    pub fn set_output(&mut self, id: &u128, output: FileRef) -> (r: Option<Result<(), FileRef>>)
        requires
            old(self).well_formed(),
        ensures
            final(self).well_formed(),
            match r {
                None => !old(self)@.allocated.contains_key(*id) && final(self)@ == old(self)@,
                Some(Ok(())) => {
                    let idx = old(self)@.allocated[*id];
                    &&& old(self)@.allocated.contains_key(*id)
                    &&& old(self)@.tasks[idx].output is None
                    &&& final(self)@ == (JobSchedulerModel {
                        tasks: old(self)@.tasks.update(
                            idx,
                            ScheduledModel { output: Some(output), ..old(self)@.tasks[idx] },
                        ),
                        ..old(self)@
                    })
                },
                Some(Err(back)) => {
                    &&& back == output
                    &&& old(self)@.allocated.contains_key(*id)
                    &&& old(self)@.tasks[old(self)@.allocated[*id]].output is Some
                    &&& final(self)@ == old(self)@
                },
            },
    {
        let idx = match self.allocated.get(id) {
            Some(i) => *i,
            None => {
                return None;
            },
        };
        proof {
            assert(old(self)@.allocated.contains_key(*id));
        }
        if self.tasks[idx].output.is_some() {
            return Some(Err(output));
        }
        let ghost pre = self@;
        let t = TaskInfo {
            input: self.tasks[idx].task.input,
            parameters: self.tasks[idx].task.parameters.duplicate(),
        };
        let available = self.tasks[idx].available;
        self.tasks.set(idx, ScheduledTask { available, task: t, output: Some(output) });
        proof {
            assert(self@.tasks =~= pre.tasks.update(
                idx as int,
                ScheduledModel { output: Some(output), ..pre.tasks[idx as int] },
            ));
        }
        Some(Ok(()))
    }

    /// The output of the task held by allocation `id`; `None` when `id` is
    /// not a live allocation.
    pub fn get_output(&self, id: &u128) -> (r: Option<Option<FileRef>>)
        requires
            self.well_formed(),
        ensures
            match r {
                Some(o) => self@.allocated.contains_key(*id) && o == self@.tasks[self@.allocated[*id]].output,
                None => !self@.allocated.contains_key(*id),
            },
    {
        match self.allocated.get(id) {
            Some(idx) => {
                proof {
                    assert(self@.allocated.contains_key(*id));
                }
                Some(self.tasks[*idx].output)
            },
            None => None,
        }
    }
}

/// The life of a task: once handed out it is not handed out again until the
/// allocation is released; released without an output it can be handed out
/// again; released after receiving an output it never can.
pub proof fn law_task_allocation_life(m: JobSchedulerModel, id: u128, file: FileRef)
    requires
        scheduler_model_wf(m),
        first_available(m),
    ensures
        ({
            let allocated = JobSchedulerModel {
                tasks: m.tasks.update(0, ScheduledModel { available: false, ..m.tasks[0] }),
                allocated: m.allocated.insert(id, 0),
                ..m
            };
            let released = JobSchedulerModel {
                tasks: if allocated.tasks[0].output is None {
                    allocated.tasks.update(0, ScheduledModel { available: true, ..allocated.tasks[0] })
                } else {
                    allocated.tasks
                },
                allocated: allocated.allocated.remove(id),
                ..allocated
            };
            let with_output = JobSchedulerModel {
                tasks: allocated.tasks.update(0, ScheduledModel { output: Some(file), ..allocated.tasks[0] }),
                ..allocated
            };
            let done = JobSchedulerModel {
                tasks: with_output.tasks,
                allocated: with_output.allocated.remove(id),
                ..with_output
            };
            &&& !first_available(allocated)
            &&& m.tasks[0].output is None ==> first_available(released)
            &&& !first_available(done)
            &&& done.tasks[0].output == Some(file)
        }),
{
}

/// The model after the output `output` was recorded for allocation `id`,
/// as `set_output` records it.
pub open spec fn with_output(m: JobSchedulerModel, id: u128, output: FileRef) -> JobSchedulerModel {
    JobSchedulerModel {
        tasks: m.tasks.update(
            m.allocated[id],
            ScheduledModel { output: Some(output), ..m.tasks[m.allocated[id]] },
        ),
        ..m
    }
}

/// An output, once recorded for a live allocation, is what `get_output`
/// reads back for it, and it stays: a second output for the task is refused
/// and changes nothing. The state stays well formed.
pub proof fn law_output_is_recorded_once(m: JobSchedulerModel, id: u128, o1: FileRef)
    requires
        scheduler_model_wf(m),
        m.allocated.contains_key(id),
        m.tasks[m.allocated[id]].output is None,
    ensures
        ({
            let after = with_output(m, id, o1);
            &&& scheduler_model_wf(after)
            &&& after.allocated == m.allocated
            &&& after.tasks[after.allocated[id]].output == Some(o1)
            &&& after.tasks[after.allocated[id]].output is Some
            &&& forall|i: int|
                0 <= i < m.tasks.len() && i != m.allocated[id] ==> #[trigger] after.tasks[i]
                    == m.tasks[i]
        }),
{
    let after = with_output(m, id, o1);
    assert forall|k: u128| #[trigger] after.allocated.contains_key(k) implies 0 <= after.allocated[k]
        < after.tasks.len() && !after.tasks[after.allocated[k]].available by {
        assert(m.allocated.contains_key(k));
    }
}

} // verus!
