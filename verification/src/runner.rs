//! What a worker does with the task it received: an analysis adds a
//! transcode task to the job; a transcode runs the encoder on the task's
//! inputs and uploads what it writes.

use vstd::prelude::*;

use crate::command::{opt_chars, runner_args, spec_input_args, spec_inputs_args, spec_runner_args, transcode_args, InputArgs};
use crate::jobs::copy_opt_string;
use crate::headers::views;
use crate::paths::{input_url, spec_input_url};
use crate::task::{Input, Instance, Recipe, RecipeView, TaskSource, TaskSourceView};

verus! {

/// What running a task amounts to.
#[derive(Clone, Debug, PartialEq)]
pub enum RunStep {
    /// Append a task to a job.
    AddTask(u128, TaskSource),
    /// Run the encoder on the task's inputs.
    Transcode,
    /// Concatenate outputs, which workers do not do.
    Merge,
}

/// The task an analysis adds: a transcode of the job's source without
/// extra options.
pub open spec fn analysis_follow_up() -> TaskSourceView {
    TaskSourceView {
        inputs: seq![Input { index: 0, start: None, end: None }],
        recipe: RecipeView::Transcode(Seq::empty()),
    }
}

/// What running the task `task` amounts to, by its recipe.
pub fn run_step(task: &Instance) -> (r: RunStep)
    ensures
        match task.recipe@ {
            RecipeView::Analysis(_) => r matches RunStep::AddTask(job, t) && job == task.job_id && t@
                == analysis_follow_up(),
            RecipeView::Transcode(_) => r == RunStep::Transcode,
            RecipeView::Merge(_) => r == RunStep::Merge,
        },
{
    match &task.recipe {
        Recipe::Analysis(_) => {
            let mut inputs: Vec<Input> = Vec::new();
            inputs.push(Input::source());
            let t = TaskSource { inputs, recipe: Recipe::Transcode(Vec::new()) };
            proof {
                assert(t@.inputs =~= analysis_follow_up().inputs);
                assert(t@.recipe == analysis_follow_up().recipe);
            }
            RunStep::AddTask(task.job_id, t)
        },
        Recipe::Transcode(_) => RunStep::Transcode,
        Recipe::Merge(_) => RunStep::Merge,
    }
}

/// The credentials a worker sends: its API key, or nothing.
pub fn input_creds(api_key: Option<&str>) -> (r: String)
    ensures
        r@ == match api_key {
            Some(k) => k@,
            None => Seq::<char>::empty(),
        },
{
    match api_key {
        Some(k) => String::from_str(k),
        None => String::new(),
    }
}

/// The arguments that read the inputs of task `task_id` of job `job_id`:
/// each input from its URL under `base`, with the start and end texts given
/// for it.
pub open spec fn spec_read_args(
    base: Seq<char>,
    job_id: u128,
    task_id: u128,
    inputs: Seq<Input>,
    times: Seq<(Option<String>, Option<String>)>,
    creds: Seq<char>,
) -> Seq<Seq<char>>
    decreases inputs.len(),
{
    if inputs.len() == 0 {
        Seq::empty()
    } else {
        spec_read_args(base, job_id, task_id, inputs.drop_last(), times.drop_last(), creds)
            + spec_input_args(
            spec_input_url(base, job_id, task_id, inputs.last().index),
            opt_chars(times.last().0),
            opt_chars(times.last().1),
            creds,
        )
    }
}

proof fn lemma_read_args(
    built: Seq<InputArgs>,
    base: Seq<char>,
    job_id: u128,
    task_id: u128,
    inputs: Seq<Input>,
    times: Seq<(Option<String>, Option<String>)>,
    creds: Seq<char>,
)
    requires
        built.len() == inputs.len(),
        times.len() == inputs.len(),
        forall|k: int|
            0 <= k < built.len() ==> {
                &&& (#[trigger] built[k]).url@ == spec_input_url(base, job_id, task_id, inputs[k].index)
                &&& opt_chars(built[k].start) == opt_chars(times[k].0)
                &&& opt_chars(built[k].end) == opt_chars(times[k].1)
            },
    ensures
        spec_inputs_args(built, creds) == spec_read_args(base, job_id, task_id, inputs, times, creds),
    decreases inputs.len(),
{
    if inputs.len() > 0 {
        lemma_read_args(built.drop_last(), base, job_id, task_id, inputs.drop_last(), times.drop_last(), creds);
        assert(built.last() == built[built.len() - 1]);
    }
}

/// The full encoder command of a transcode task: every input read from its
/// URL under `base` with the credentials `creds` and the start and end texts
/// given for it, then the video codec and parameters of the job, then the
/// arguments the runner adds. The task must have a video codec.
pub fn transcode_command(
    base: &str,
    creds: &str,
    task: &Instance,
    times: &Vec<(Option<String>, Option<String>)>,
) -> (r: Vec<String>)
    requires
        task.job_options.video.codec is Some,
        times@.len() == task.inputs@.len(),
    ensures
        views(r@) == spec_read_args(base@, task.job_id, task.task_id, task.inputs@, times@, creds@)
            + seq!["-c:v"@, task.job_options.video.codec.unwrap()@] + views(task.job_options.video.params@)
            + spec_runner_args(),
{
    let mut inputs: Vec<InputArgs> = Vec::new();
    let mut i: usize = 0;
    while i < task.inputs.len()
        invariant
            i <= task.inputs@.len(),
            times@.len() == task.inputs@.len(),
            inputs@.len() == i,
            forall|k: int|
                0 <= k < i ==> {
                    &&& (#[trigger] inputs@[k]).url@ == spec_input_url(
                        base@,
                        task.job_id,
                        task.task_id,
                        task.inputs@[k].index,
                    )
                    &&& opt_chars(inputs@[k].start) == opt_chars(times@[k].0)
                    &&& opt_chars(inputs@[k].end) == opt_chars(times@[k].1)
                },
        decreases task.inputs@.len() - i,
    {
        let url = input_url(base, task.job_id, task.task_id, task.inputs[i].index);
        let start = copy_opt_string(&times[i].0);
        let end = copy_opt_string(&times[i].1);
        inputs.push(InputArgs { url, start, end });
        i = i + 1;
    }
    proof {
        lemma_read_args(inputs@, base@, task.job_id, task.task_id, task.inputs@, times@, creds@);
    }
    let codec = match &task.job_options.video.codec {
        Some(c) => c,
        None => {
            return Vec::new();
        },
    };
    let args = transcode_args(&inputs, creds, codec.as_str(), &task.job_options.video.params);
    runner_args(args)
}

/// What a worker does once the encoder of a transcode task has ended and
/// the upload of its output has returned.
#[derive(Clone, Copy, Debug, PartialEq, Eq, Structural)]
pub enum TranscodeEnd {
    /// Tell the server the task is finished.
    MarkComplete,
    /// The encoder did not exit with a code: the run failed.
    EncoderFailed,
    /// The output did not reach the server: the run failed.
    UploadFailed,
}

/// The step after a transcode run, from whether the upload of the output
/// succeeded and the exit code of the encoder, if it exited with one. The
/// exit code is checked first. The task is reported finished only after its
/// output was uploaded.
pub fn transcode_end(upload_ok: bool, exit_code: Option<i32>) -> (r: TranscodeEnd)
    ensures
        r == (if exit_code is None {
            TranscodeEnd::EncoderFailed
        } else if !upload_ok {
            TranscodeEnd::UploadFailed
        } else {
            TranscodeEnd::MarkComplete
        }),
        r == TranscodeEnd::MarkComplete ==> upload_ok,
{
    match exit_code {
        None => TranscodeEnd::EncoderFailed,
        Some(_) => if upload_ok {
            TranscodeEnd::MarkComplete
        } else {
            TranscodeEnd::UploadFailed
        },
    }
}

} // verus!
