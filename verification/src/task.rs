//! Tasks as the job manager stores and hands them out.
//!
//! Time offsets of inputs and the segment length of an analysis are seconds
//! held as the bit pattern of an `f64` (`f64::to_bits`): the library only stores
//! and copies them.

use vstd::prelude::*;

verus! {

/// Encoder and encoder parameters for one stream.
#[derive(Clone, Debug, PartialEq, Default)]
pub struct Options {
    pub codec: Option<String>,
    pub params: Vec<String>,
}

/// Options of a job: video, and audio if it is encoded.
#[derive(Clone, Debug, PartialEq)]
pub struct JobOptions {
    pub video: Options,
    pub audio: Option<Options>,
}

/// A job as the client submits it: the stored input file and the options.
#[derive(Clone, Debug, PartialEq)]
pub struct JobSource {
    pub input_id: u128,
    pub options: JobOptions,
}

/// What a task does.
#[derive(Clone, Debug, PartialEq)]
pub enum Recipe {
    /// Analyse the input; the value is the length of the segments to cut,
    /// in seconds, as the bit pattern of an `f64`.
    Analysis(Option<u64>),
    /// Transcode the inputs with extra encoder options.
    Transcode(Vec<String>),
    /// Concatenate the outputs of the listed tasks.
    Merge(Vec<u32>),
}

/// Status a worker reports for a task.
#[derive(Clone, Copy, Debug, PartialEq, Eq, Structural)]
pub enum Status {
    Finished,
    Running,
}

/// An input of a task: the output of task `index`, or the job's source for
/// index 0, optionally cut between `start` and `end` (seconds, as the bit
/// pattern of an `f64`).
#[derive(Clone, Copy, Debug, PartialEq, Eq, Structural)]
pub struct Input {
    pub index: u32,
    pub start: Option<u64>,
    pub end: Option<u64>,
}

impl Input {
    /// The job's source, uncut.
    pub fn source() -> (r: Input)
        ensures
            r == (Input { index: 0, start: None, end: None }),
    {
        Input { index: 0, start: None, end: None }
    }
}

/// A task of a job: its inputs and what to do with them.
#[derive(Clone, Debug, PartialEq)]
pub struct TaskSource {
    pub inputs: Vec<Input>,
    pub recipe: Recipe,
}

/// An allocated task, as handed to a worker.
#[derive(Clone, Debug, PartialEq)]
pub struct Instance {
    pub job_id: u128,
    pub task_id: u128,
    pub inputs: Vec<Input>,
    pub recipe: Recipe,
    pub job_options: JobOptions,
}

/// What the manager records of a task: the file it produced, once there is one.
#[derive(Clone, Copy, Debug, PartialEq, Eq, Structural)]
pub struct TaskState {
    pub output: Option<u128>,
}

/// Model of [`Options`].
pub struct OptionsView {
    pub codec: Option<String>,
    pub params: Seq<String>,
}

/// Model of [`JobOptions`].
pub struct JobOptionsView {
    pub video: OptionsView,
    pub audio: Option<OptionsView>,
}

/// Model of [`JobSource`].
pub struct JobSourceView {
    pub input_id: u128,
    pub options: JobOptionsView,
}

/// Model of [`Recipe`].
pub enum RecipeView {
    Analysis(Option<u64>),
    Transcode(Seq<String>),
    Merge(Seq<u32>),
}

/// Model of [`TaskSource`].
pub struct TaskSourceView {
    pub inputs: Seq<Input>,
    pub recipe: RecipeView,
}

/// Model of [`Instance`].
pub struct InstanceView {
    pub job_id: u128,
    pub task_id: u128,
    pub inputs: Seq<Input>,
    pub recipe: RecipeView,
    pub job_options: JobOptionsView,
}

impl View for Options {
    type V = OptionsView;

    open spec fn view(&self) -> OptionsView {
        OptionsView { codec: self.codec, params: self.params@ }
    }
}

impl View for JobOptions {
    type V = JobOptionsView;

    open spec fn view(&self) -> JobOptionsView {
        JobOptionsView {
            video: self.video@,
            audio: match self.audio {
                Some(a) => Some(a@),
                None => None,
            },
        }
    }
}

impl View for JobSource {
    type V = JobSourceView;

    open spec fn view(&self) -> JobSourceView {
        JobSourceView { input_id: self.input_id, options: self.options@ }
    }
}

impl View for Recipe {
    type V = RecipeView;

    open spec fn view(&self) -> RecipeView {
        match self {
            Recipe::Analysis(a) => RecipeView::Analysis(*a),
            Recipe::Transcode(v) => RecipeView::Transcode(v@),
            Recipe::Merge(v) => RecipeView::Merge(v@),
        }
    }
}

impl View for TaskSource {
    type V = TaskSourceView;

    open spec fn view(&self) -> TaskSourceView {
        TaskSourceView { inputs: self.inputs@, recipe: self.recipe@ }
    }
}

impl View for Instance {
    type V = InstanceView;

    open spec fn view(&self) -> InstanceView {
        InstanceView {
            job_id: self.job_id,
            task_id: self.task_id,
            inputs: self.inputs@,
            recipe: self.recipe@,
            job_options: self.job_options@,
        }
    }
}

/// A copy of a list of strings.
pub fn copy_strings(v: &Vec<String>) -> (r: Vec<String>)
    ensures
        r@ == v@,
{
    let mut r: Vec<String> = Vec::new();
    let mut i: usize = 0;
    while i < v.len()
        invariant
            i <= v@.len(),
            r@ == v@.take(i as int),
        decreases v@.len() - i,
    {
        r.push(v[i].clone());
        proof {
            assert(v@.take(i + 1) == v@.take(i as int).push(v@[i as int]));
        }
        i = i + 1;
    }
    proof {
        assert(v@.take(v@.len() as int) == v@);
    }
    r
}

/// A copy of a list of values that are copied bit for bit.
pub fn copy_vec<T: Copy>(v: &Vec<T>) -> (r: Vec<T>)
    ensures
        r@ == v@,
{
    let mut r: Vec<T> = Vec::new();
    let mut i: usize = 0;
    while i < v.len()
        invariant
            i <= v@.len(),
            r@ == v@.take(i as int),
        decreases v@.len() - i,
    {
        r.push(v[i]);
        proof {
            assert(v@.take(i + 1) == v@.take(i as int).push(v@[i as int]));
        }
        i = i + 1;
    }
    proof {
        assert(v@.take(v@.len() as int) == v@);
    }
    r
}

impl Options {
    /// A copy of the options.
    pub fn duplicate(&self) -> (r: Options)
        ensures
            r@ == self@,
    {
        Options {
            codec: match &self.codec {
                Some(c) => Some(c.clone()),
                None => None,
            },
            params: copy_strings(&self.params),
        }
    }
}

impl JobOptions {
    /// A copy of the options.
    pub fn duplicate(&self) -> (r: JobOptions)
        ensures
            r@ == self@,
    {
        JobOptions {
            video: self.video.duplicate(),
            audio: match &self.audio {
                Some(a) => Some(a.duplicate()),
                None => None,
            },
        }
    }
}

impl JobSource {
    /// A copy of the job source.
    pub fn duplicate(&self) -> (r: JobSource)
        ensures
            r@ == self@,
    {
        JobSource { input_id: self.input_id, options: self.options.duplicate() }
    }
}

impl Recipe {
    /// A copy of the recipe.
    pub fn duplicate(&self) -> (r: Recipe)
        ensures
            r@ == self@,
    {
        match self {
            Recipe::Analysis(a) => Recipe::Analysis(*a),
            Recipe::Transcode(v) => Recipe::Transcode(copy_strings(v)),
            Recipe::Merge(v) => Recipe::Merge(copy_vec(v)),
        }
    }
}

impl TaskSource {
    /// A copy of the task source.
    pub fn duplicate(&self) -> (r: TaskSource)
        ensures
            r@ == self@,
    {
        TaskSource { inputs: copy_vec(&self.inputs), recipe: self.recipe.duplicate() }
    }
}

} // verus!
