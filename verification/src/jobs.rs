//! Jobs and their segmentation into tasks.
//!
//! A job is a source file plus the encoder parameters to apply to it. The
//! [`Segmenter`] of a job decides how the job is cut into tasks.

use vstd::prelude::*;

verus! {

/// Reference to a stored file, by the identifier the storage gave it.
#[derive(Clone, Copy, Debug, PartialEq, Eq, Structural)]
pub struct FileRef {
    pub id: u128,
}

/// Where the input of a job comes from.
#[derive(Clone, Copy, Debug, PartialEq, Eq, Structural)]
pub enum Source {
    File(FileRef),
}

/// Encoder parameters of a job.
#[derive(Clone, Debug, PartialEq, Eq)]
pub struct JobParams {
    pub video_encoder: Option<String>,
    pub video_args: Option<String>,
    pub audio_encoder: Option<String>,
    pub audio_args: Option<String>,
}

/// Copies an optional string; the copy equals it.
pub fn copy_opt_string(s: &Option<String>) -> (r: Option<String>)
    ensures
        r == *s,
{
    match s {
        Some(v) => Some(v.clone()),
        None => None,
    }
}

impl JobParams {
    /// A set of parameters that encodes video with SVT-AV1 at CRF 30 and audio
    /// with Opus.
    pub fn sample_params() -> (r: JobParams)
        ensures
            r.video_encoder.is_some() && r.video_encoder.unwrap()@ == "libsvtav1"@,
            r.video_args.is_some() && r.video_args.unwrap()@ == "-crf 30"@,
            r.audio_encoder.is_some() && r.audio_encoder.unwrap()@ == "libopus"@,
            r.audio_args.is_none(),
    {
        JobParams {
            video_encoder: Some(String::from_str("libsvtav1")),
            video_args: Some(String::from_str("-crf 30")),
            audio_encoder: Some(String::from_str("libopus")),
            audio_args: None,
        }
    }

    /// A copy of the parameters, equal to them.
    pub fn duplicate(&self) -> (r: JobParams)
        ensures
            r == *self,
    {
        JobParams {
            video_encoder: copy_opt_string(&self.video_encoder),
            video_args: copy_opt_string(&self.video_args),
            audio_encoder: copy_opt_string(&self.audio_encoder),
            audio_args: copy_opt_string(&self.audio_args),
        }
    }
}

/// How a job is cut into tasks.
#[derive(Clone, Copy, Debug, PartialEq, Eq, Structural)]
pub enum Segmenter {
    /// The whole job is a single task.
    DoNotSegment,
}

/// A job: its source, its parameters and how it is segmented.
#[derive(Debug, PartialEq, Eq)]
pub struct Job {
    pub source: Source,
    pub parameters: JobParams,
    pub segmenter: Segmenter,
}

impl Job {
    /// A new job, which is not segmented.
    pub fn new(source: Source, parameters: JobParams) -> (r: Job)
        ensures
            r == (Job { source, parameters, segmenter: Segmenter::DoNotSegment }),
    {
        Job { source, parameters, segmenter: Segmenter::DoNotSegment }
    }
}

/// What a worker needs to run one task of a job.
#[derive(Clone, Debug, PartialEq, Eq)]
pub struct TaskInfo {
    pub input: Source,
    pub parameters: JobParams,
}

/// The tasks a job is cut into.
pub struct JobSegments {
    pub tasks: Vec<TaskInfo>,
}

/// The tasks that segmenting `job` gives, in order.
pub open spec fn spec_segments(job: Job) -> Seq<TaskInfo> {
    match job.segmenter {
        Segmenter::DoNotSegment => seq![TaskInfo { input: job.source, parameters: job.parameters }],
    }
}

impl Segmenter {
    /// Cuts a job into tasks. A job that is not segmented gives a single task
    /// with the job's own source and parameters.
    pub fn segment(job: &Job) -> (r: JobSegments)
        ensures
            r.tasks@ == spec_segments(*job),
    {
        match job.segmenter {
            Segmenter::DoNotSegment => {
                let task = TaskInfo { input: job.source, parameters: job.parameters.duplicate() };
                let mut tasks = Vec::new();
                tasks.push(task);
                JobSegments { tasks }
            },
        }
    }
}

} // verus!
