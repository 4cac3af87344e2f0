//! Scheduling of the tasks of one job that is not segmented.
//!
//! The job has a single segment. The segment waits in the queue until a
//! worker is allocated to it; the allocation can be cancelled, which puts the
//! segment back in the queue, or completed, after which the segment is never
//! allocated again.

use vstd::prelude::*;

use crate::ids::{is_random_uuid, new_random_id};
use crate::jobs::{FileRef, Job, JobParams};
use crate::paths::{source_path, spec_source_path};

verus! {

/// Where a segment stands.
#[derive(Clone, Copy, Debug, PartialEq, Eq, Structural)]
pub enum AllocationState {
    Queue,
    Allocated,
    Completed,
}

/// What a worker needs to run a task: the job and task identifiers, where
/// to read the input and the encoder parameters.
#[derive(Clone, Debug, PartialEq, Eq)]
pub struct Task {
    pub job_id: u128,
    pub id: u128,
    pub input_path: String,
    pub parameters: JobParams,
}

/// Model of a scheduler: the job and its identifier, the state of its
/// segment (`None` until the job was segmented) and the identifier of the
/// current allocation.
pub struct SchedulerModel {
    pub job_id: u128,
    pub job: Job,
    pub segment: Option<AllocationState>,
    pub allocated: Option<u128>,
    /// The output of the segment, once a worker stored it.
    pub output: Option<FileRef>,
}

/// A well formed scheduler holds an allocation exactly while its segment is
/// allocated.
pub open spec fn scheduler_wf(m: SchedulerModel) -> bool {
    m.allocated is Some <==> m.segment == Some(AllocationState::Allocated)
}

/// A segment can be allocated while it is in the queue, or before the job
/// was segmented.
pub open spec fn can_allocate(m: SchedulerModel) -> bool {
    m.segment is None || m.segment == Some(AllocationState::Queue)
}

/// The task a worker receives for allocation `id` of the job.
pub open spec fn is_task_of(t: Task, m: SchedulerModel, id: u128) -> bool {
    &&& t.job_id == m.job_id
    &&& t.id == id
    &&& t.input_path@ == spec_source_path(m.job_id)
    &&& t.parameters == m.job.parameters
}

/// Allocates the single segment of a job, cancels and completes its
/// allocation.
pub struct TaskScheduler {
    job_id: u128,
    job: Job,
    segment: Option<AllocationState>,
    allocated: Option<u128>,
    output: Option<FileRef>,
}

impl View for TaskScheduler {
    type V = SchedulerModel;

    closed spec fn view(&self) -> SchedulerModel {
        SchedulerModel {
            job_id: self.job_id,
            job: self.job,
            segment: self.segment,
            allocated: self.allocated,
            output: self.output,
        }
    }
}

impl TaskScheduler {
    /// A scheduler for `job`, stored under `job_id`, before the job is
    /// segmented.
    pub fn new(job_id: u128, job: Job) -> (r: TaskScheduler)
        ensures
            r@ == (SchedulerModel { job_id, job, segment: None, allocated: None, output: None }),
            scheduler_wf(r@),
    {
        TaskScheduler { job_id, job, segment: None, allocated: None, output: None }
    }

    fn make_task(&self, id: u128) -> (r: Task)
        ensures
            is_task_of(r, self@, id),
    {
        Task {
            job_id: self.job_id,
            id,
            input_path: source_path(self.job_id),
            parameters: self.job.parameters.duplicate(),
        }
    }

    /// Allocates the segment if it is available, under a new random task
    /// identifier, and returns the task. Does not wait for the segment to
    /// become available.
    pub fn allocate(&mut self) -> (r: Option<Task>)
        requires
            scheduler_wf(old(self)@),
        ensures
            scheduler_wf(final(self)@),
            match r {
                Some(t) => {
                    &&& can_allocate(old(self)@)
                    &&& is_random_uuid(t.id)
                    &&& is_task_of(t, old(self)@, t.id)
                    &&& final(self)@ == (SchedulerModel {
                        segment: Some(AllocationState::Allocated),
                        allocated: Some(t.id),
                        ..old(self)@
                    })
                },
                None => !can_allocate(old(self)@) && final(self)@ == old(self)@,
            },
    {
        let available = match self.segment {
            None => true,
            Some(AllocationState::Queue) => true,
            Some(_) => false,
        };
        if !available {
            return None;
        }
        let id = new_random_id();
        self.segment = Some(AllocationState::Allocated);
        self.allocated = Some(id);
        Some(self.make_task(id))
    }

    /// The task allocated under `id`, while its allocation lasts.
    pub fn get_task(&self, id: &u128) -> (r: Option<Task>)
        ensures
            match r {
                Some(t) => self@.allocated == Some(*id) && is_task_of(t, self@, *id),
                None => self@.allocated != Some(*id),
            },
    {
        match self.allocated {
            Some(current) => if current == *id {
                Some(self.make_task(*id))
            } else {
                None
            },
            None => None,
        }
    }

    /// The job.
    pub fn get_job(&self) -> (r: &Job)
        ensures
            *r == self@.job,
    {
        &self.job
    }

    /// The state of segment `segment_number`, once the job was segmented. A
    /// job that is not segmented has segment 0 only.
    pub fn get_segment(&self, segment_number: usize) -> (r: Option<AllocationState>)
        ensures
            r == (if segment_number == 0 { self@.segment } else { None }),
    {
        if segment_number == 0 {
            self.segment
        } else {
            None
        }
    }

    /// Stores the output of the task allocated under `id`; the segment keeps
    /// it once the task is completed. Fails when the segment already has an
    /// output; `None` when `id` is not the current allocation.
    pub fn set_task_output(&mut self, id: &u128, output: FileRef) -> (r: Option<Result<(), ()>>)
        requires
            scheduler_wf(old(self)@),
        ensures
            scheduler_wf(final(self)@),
            match r {
                None => old(self)@.allocated != Some(*id) && final(self)@ == old(self)@,
                Some(Ok(())) => old(self)@.allocated == Some(*id) && old(self)@.output is None
                    && final(self)@ == (SchedulerModel { output: Some(output), ..old(self)@ }),
                Some(Err(())) => old(self)@.allocated == Some(*id) && old(self)@.output is Some
                    && final(self)@ == old(self)@,
            },
    {
        match self.allocated {
            Some(current) => if current == *id {
                if self.output.is_some() {
                    Some(Err(()))
                } else {
                    self.output = Some(output);
                    Some(Ok(()))
                }
            } else {
                None
            },
            None => None,
        }
    }

    /// The output of segment `segment_number`, once the job was segmented
    /// and a worker stored it.
    pub fn get_segment_output(&self, segment_number: usize) -> (r: Option<FileRef>)
        ensures
            r == (if segment_number == 0 && self@.segment is Some { self@.output } else { None }),
    {
        if segment_number == 0 && self.segment.is_some() {
            self.output
        } else {
            None
        }
    }

    /// Cancels the allocation `id`: the segment goes back to the queue.
    /// Fails when `id` is not the current allocation.
    pub fn cancel_task(&mut self, id: &u128) -> (r: Result<(), ()>)
        requires
            scheduler_wf(old(self)@),
        ensures
            scheduler_wf(final(self)@),
            match r {
                Ok(()) => old(self)@.allocated == Some(*id) && final(self)@ == (SchedulerModel {
                    segment: Some(AllocationState::Queue),
                    allocated: None,
                    ..old(self)@
                }),
                Err(()) => old(self)@.allocated != Some(*id) && final(self)@ == old(self)@,
            },
    {
        match self.allocated {
            Some(current) => if current == *id {
                self.allocated = None;
                self.segment = Some(AllocationState::Queue);
                Ok(())
            } else {
                Err(())
            },
            None => Err(()),
        }
    }

    /// Marks the allocation `id` as completed: the segment is done and is
    /// never allocated again. Returns the number of the segment, or `None`
    /// when `id` is not the current allocation.
    pub fn set_task_as_completed(&mut self, id: &u128) -> (r: Option<usize>)
        requires
            scheduler_wf(old(self)@),
        ensures
            scheduler_wf(final(self)@),
            match r {
                Some(n) => n == 0 && old(self)@.allocated == Some(*id) && final(self)@ == (
                SchedulerModel {
                    segment: Some(AllocationState::Completed),
                    allocated: None,
                    ..old(self)@
                }),
                None => old(self)@.allocated != Some(*id) && final(self)@ == old(self)@,
            },
    {
        match self.allocated {
            Some(current) => if current == *id {
                self.allocated = None;
                self.segment = Some(AllocationState::Completed);
                Some(0)
            } else {
                None
            },
            None => None,
        }
    }
}

/// The life of a segment: it can be allocated once at a time; cancelling
/// the allocation makes it available again; completing it makes it
/// unavailable for good.
pub proof fn law_segment_life(m: SchedulerModel, id: u128)
    requires
        scheduler_wf(m),
        can_allocate(m),
    ensures
        ({
            let allocated = SchedulerModel {
                segment: Some(AllocationState::Allocated),
                allocated: Some(id),
                ..m
            };
            let cancelled = SchedulerModel {
                segment: Some(AllocationState::Queue),
                allocated: None,
                ..allocated
            };
            let completed = SchedulerModel {
                segment: Some(AllocationState::Completed),
                allocated: None,
                ..allocated
            };
            &&& scheduler_wf(allocated) && !can_allocate(allocated)
            &&& scheduler_wf(cancelled) && can_allocate(cancelled)
            &&& scheduler_wf(completed) && !can_allocate(completed)
            &&& completed.allocated != Some(id)
        }),
{
}

} // verus!
