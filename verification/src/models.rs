//! The messages of the HTTP API between the server and its workers, and
//! their conversion to and from the tasks the manager handles.
//!
//! Identifiers travel as the hyphenated text of a UUID, input indexes as
//! `i32`. Time values are seconds held as the bit pattern of an `f64`, as in
//! [`crate::task`].

use vstd::prelude::*;

use crate::clients::{parse_uuid, spec_parse_uuid};
use crate::paths::{spec_hyphenated, uuid_to_string};
use crate::task;
use crate::task::{copy_strings, InstanceView, JobOptionsView, OptionsView, RecipeView, TaskSourceView};

verus! {

/// An analysis task: the length of the segments to cut.
#[derive(Clone, Copy, Debug, PartialEq, Eq, Structural)]
pub struct AnalysisTask {
    pub duration: Option<u64>,
}

/// A transcode task: extra encoder options.
#[derive(Clone, Debug, PartialEq)]
pub struct TranscodeTask {
    pub options: Vec<String>,
}

/// A merge task: the tasks whose outputs are concatenated.
#[derive(Clone, Debug, PartialEq)]
pub struct MergeTask {
    pub concatenate: Vec<i32>,
}

/// What a task does; exactly one of the three is given.
#[derive(Clone, Debug, PartialEq)]
pub struct Recipe {
    pub analysis: Option<AnalysisTask>,
    pub transcode: Option<TranscodeTask>,
    pub merge: Option<MergeTask>,
}

/// An input of a task.
#[derive(Clone, Copy, Debug, PartialEq, Eq, Structural)]
pub struct TaskInputInner {
    pub input: i32,
    pub start: Option<u64>,
    pub end: Option<u64>,
}

/// Encoder and encoder parameters of one stream.
#[derive(Clone, Debug, PartialEq)]
pub struct CodecParams {
    pub codec: Option<String>,
    pub params: Option<Vec<String>>,
}

/// Options of a job.
#[derive(Clone, Debug, PartialEq)]
pub struct JobOptions {
    pub video: CodecParams,
    pub audio: Option<CodecParams>,
}

/// A task as it is handed to a worker.
#[derive(Clone, Debug, PartialEq)]
pub struct Task {
    pub job_id: String,
    pub task_id: String,
    pub input: Vec<TaskInputInner>,
    pub recipe: Recipe,
    pub job_options: JobOptions,
}

/// The status a worker reports for a task.
#[derive(Clone, Copy, Debug, PartialEq, Eq, Structural)]
pub struct TaskStatus {
    pub successfully_completed: Option<bool>,
}

/// What a task that a worker asks to add does.
#[derive(Clone, Debug, PartialEq)]
pub enum TaskRequestRecipe {
    TranscodeTask(TranscodeTask),
    MergeTask(MergeTask),
}

/// A task a worker asks to add to a job.
#[derive(Clone, Debug, PartialEq)]
pub struct TaskRequest {
    pub inputs: Vec<TaskInputInner>,
    pub recipe: TaskRequestRecipe,
}

/// A `u32` as an `i32`, the largest `i32` when it does not fit.
pub open spec fn i32_saturating(u: u32) -> i32 {
    if u <= i32::MAX as u32 {
        u as i32
    } else {
        i32::MAX
    }
}

/// An `i32` as a `u32`, the largest `u32` when it is negative.
pub open spec fn u32_or_max(v: i32) -> u32 {
    if v >= 0 {
        v as u32
    } else {
        u32::MAX
    }
}

fn to_i32_saturating(u: u32) -> (r: i32)
    ensures
        r == i32_saturating(u),
{
    if u <= 2147483647u32 {
        u as i32
    } else {
        2147483647i32
    }
}

fn to_u32_or_max(v: i32) -> (r: u32)
    ensures
        r == u32_or_max(v),
{
    if v >= 0 {
        v as u32
    } else {
        4294967295u32
    }
}

/// The recipe a message describes, if it gives exactly one kind of task. A
/// merge keeps no list of tasks.
pub open spec fn spec_recipe_from_model(m: Recipe) -> Option<RecipeView> {
    if m.analysis is Some && m.transcode is None && m.merge is None {
        Some(RecipeView::Analysis(m.analysis.unwrap().duration))
    } else if m.analysis is None && m.transcode is Some && m.merge is None {
        Some(RecipeView::Transcode(m.transcode.unwrap().options@))
    } else if m.analysis is None && m.transcode is None && m.merge is Some {
        Some(RecipeView::Merge(Seq::empty()))
    } else {
        None
    }
}

/// Reads the recipe of a message; fails unless it gives exactly one kind of
/// task.
pub fn recipe_from_model(m: &Recipe) -> (r: Result<task::Recipe, ()>)
    ensures
        match r {
            Ok(x) => spec_recipe_from_model(*m) == Some(x@),
            Err(_) => spec_recipe_from_model(*m) is None,
        },
{
    match (&m.analysis, &m.transcode, &m.merge) {
        (Some(a), None, None) => Ok(task::Recipe::Analysis(a.duration)),
        (None, Some(t), None) => Ok(task::Recipe::Transcode(copy_strings(&t.options))),
        (None, None, Some(_)) => Ok(task::Recipe::Merge(Vec::new())),
        (_, _, _) => Err(()),
    }
}

/// The message of a recipe: the one kind of task it is, with the indexes
/// of a merge as `i32`.
pub open spec fn is_recipe_model(m: Recipe, x: RecipeView) -> bool {
    match x {
        RecipeView::Analysis(d) => m.analysis == Some(AnalysisTask { duration: d })
            && m.transcode is None && m.merge is None,
        RecipeView::Transcode(o) => m.analysis is None && m.transcode is Some
            && m.transcode.unwrap().options@ == o && m.merge is None,
        RecipeView::Merge(v) => m.analysis is None && m.transcode is None && m.merge is Some
            && m.merge.unwrap().concatenate@ == v.map_values(|u: u32| i32_saturating(u)),
    }
}

/// The indexes of a merge as `i32`.
fn merge_indexes(v: &Vec<u32>) -> (r: Vec<i32>)
    ensures
        r@ == v@.map_values(|u: u32| i32_saturating(u)),
{
    let mut r: Vec<i32> = Vec::new();
    let mut i: usize = 0;
    while i < v.len()
        invariant
            i <= v@.len(),
            r@ == v@.take(i as int).map_values(|u: u32| i32_saturating(u)),
        decreases v@.len() - i,
    {
        r.push(to_i32_saturating(v[i]));
        proof {
            assert(v@.take(i + 1) =~= v@.take(i as int).push(v@[i as int]));
        }
        i = i + 1;
        proof {
            assert(r@ =~= v@.take(i as int).map_values(|u: u32| i32_saturating(u)));
        }
    }
    proof {
        assert(v@.take(v@.len() as int) =~= v@);
    }
    r
}

/// The message of a recipe.
pub fn recipe_to_model(x: &task::Recipe) -> (r: Recipe)
    ensures
        is_recipe_model(r, x@),
{
    match x {
        task::Recipe::Analysis(d) => Recipe {
            analysis: Some(AnalysisTask { duration: *d }),
            transcode: None,
            merge: None,
        },
        task::Recipe::Transcode(o) => Recipe {
            analysis: None,
            transcode: Some(TranscodeTask { options: copy_strings(o) }),
            merge: None,
        },
        task::Recipe::Merge(v) => Recipe {
            analysis: None,
            transcode: None,
            merge: Some(MergeTask { concatenate: merge_indexes(v) }),
        },
    }
}

/// The input a message describes; its index must not be negative.
pub open spec fn spec_input_from_model(m: TaskInputInner) -> task::Input {
    task::Input { index: m.input as u32, start: m.start, end: m.end }
}

/// Reads an input; fails when its index is negative.
pub fn input_from_model(m: TaskInputInner) -> (r: Result<task::Input, ()>)
    ensures
        match r {
            Ok(i) => m.input >= 0 && i == spec_input_from_model(m),
            Err(_) => m.input < 0,
        },
{
    if m.input < 0 {
        Err(())
    } else {
        Ok(task::Input { index: m.input as u32, start: m.start, end: m.end })
    }
}

/// The message of an input, with an index too large for an `i32` given as
/// the largest `i32`.
pub open spec fn spec_input_to_model(i: task::Input) -> TaskInputInner {
    TaskInputInner { input: i32_saturating(i.index), start: i.start, end: i.end }
}

/// The message of an input.
pub fn input_to_model(i: task::Input) -> (r: TaskInputInner)
    ensures
        r == spec_input_to_model(i),
{
    TaskInputInner { input: to_i32_saturating(i.index), start: i.start, end: i.end }
}

/// Reads a list of inputs; fails when an index is negative.
pub fn inputs_from_model(v: &Vec<TaskInputInner>) -> (r: Result<Vec<task::Input>, ()>)
    ensures
        match r {
            Ok(ins) => (forall|k: int| 0 <= k < v@.len() ==> #[trigger] v@[k].input >= 0) && ins@
                == v@.map_values(|m: TaskInputInner| spec_input_from_model(m)),
            Err(_) => exists|k: int| 0 <= k < v@.len() && #[trigger] v@[k].input < 0,
        },
{
    let mut r: Vec<task::Input> = Vec::new();
    let mut i: usize = 0;
    while i < v.len()
        invariant
            i <= v@.len(),
            forall|k: int| 0 <= k < i ==> #[trigger] v@[k].input >= 0,
            r@ == v@.take(i as int).map_values(|m: TaskInputInner| spec_input_from_model(m)),
        decreases v@.len() - i,
    {
        match input_from_model(v[i]) {
            Ok(input) => {
                r.push(input);
                proof {
                    assert(v@.take(i + 1) =~= v@.take(i as int).push(v@[i as int]));
                    assert(r@ =~= v@.take(i + 1).map_values(
                        |m: TaskInputInner| spec_input_from_model(m),
                    ));
                }
            },
            Err(()) => {
                return Err(());
            },
        }
        i = i + 1;
    }
    proof {
        assert(v@.take(v@.len() as int) =~= v@);
    }
    Ok(r)
}

/// The messages of a list of inputs.
pub fn inputs_to_model(v: &Vec<task::Input>) -> (r: Vec<TaskInputInner>)
    ensures
        r@ == v@.map_values(|i: task::Input| spec_input_to_model(i)),
{
    let mut r: Vec<TaskInputInner> = Vec::new();
    let mut i: usize = 0;
    while i < v.len()
        invariant
            i <= v@.len(),
            r@ == v@.take(i as int).map_values(|x: task::Input| spec_input_to_model(x)),
        decreases v@.len() - i,
    {
        r.push(input_to_model(v[i]));
        proof {
            assert(v@.take(i + 1) =~= v@.take(i as int).push(v@[i as int]));
            assert(r@ =~= v@.take(i + 1).map_values(|x: task::Input| spec_input_to_model(x)));
        }
        i = i + 1;
    }
    proof {
        assert(v@.take(v@.len() as int) =~= v@);
    }
    r
}

/// The options a message describes; missing parameters are none.
pub open spec fn spec_options_from_model(m: CodecParams) -> OptionsView {
    OptionsView {
        codec: m.codec,
        params: match m.params {
            Some(p) => p@,
            None => Seq::empty(),
        },
    }
}

/// Reads the options of one stream.
pub fn options_from_model(m: CodecParams) -> (r: task::Options)
    ensures
        r@ == spec_options_from_model(m),
{
    let params = match m.params {
        Some(p) => p,
        None => Vec::new(),
    };
    task::Options { codec: m.codec, params }
}

/// The message of the options of one stream; the parameters are always
/// given.
pub fn options_to_model(o: task::Options) -> (r: CodecParams)
    ensures
        r.codec == o.codec,
        r.params matches Some(p) && p@ == o.params@,
{
    CodecParams { codec: o.codec, params: Some(o.params) }
}

/// The options of a job a message describes.
pub open spec fn spec_job_options_from_model(m: JobOptions) -> JobOptionsView {
    JobOptionsView {
        video: spec_options_from_model(m.video),
        audio: match m.audio {
            Some(a) => Some(spec_options_from_model(a)),
            None => None,
        },
    }
}

/// Reads the options of a job.
pub fn job_options_from_model(m: JobOptions) -> (r: task::JobOptions)
    ensures
        r@ == spec_job_options_from_model(m),
{
    let audio = match m.audio {
        Some(a) => Some(options_from_model(a)),
        None => None,
    };
    task::JobOptions { video: options_from_model(m.video), audio }
}

/// `m` is the message of the options `o` of a job.
pub open spec fn is_job_options_model(m: JobOptions, o: JobOptionsView) -> bool {
    &&& m.video.codec == o.video.codec
    &&& m.video.params matches Some(p) && p@ == o.video.params
    &&& match o.audio {
        Some(a) => {
            &&& m.audio matches Some(ma)
            &&& m.audio.unwrap().codec == a.codec
            &&& m.audio.unwrap().params matches Some(p)
            &&& m.audio.unwrap().params.unwrap()@ == a.params
        },
        None => m.audio is None,
    }
}

/// The message of the options of a job.
pub fn job_options_to_model(o: task::JobOptions) -> (r: JobOptions)
    ensures
        is_job_options_model(r, o@),
{
    let audio = match o.audio {
        Some(a) => Some(options_to_model(a)),
        None => None,
    };
    JobOptions { video: options_to_model(o.video), audio }
}

/// The status a message reports: finished only when it says the task
/// completed successfully.
pub open spec fn spec_status_from_model(m: TaskStatus) -> task::Status {
    if m.successfully_completed == Some(true) {
        task::Status::Finished
    } else {
        task::Status::Running
    }
}

/// Reads a status report.
pub fn status_from_model(m: TaskStatus) -> (r: task::Status)
    ensures
        r == spec_status_from_model(m),
{
    match m.successfully_completed {
        Some(true) => task::Status::Finished,
        _ => task::Status::Running,
    }
}

/// The message of a status: a finished task completed successfully; a
/// running one says nothing.
pub fn status_to_model(s: task::Status) -> (r: TaskStatus)
    ensures
        r.successfully_completed == match s {
            task::Status::Finished => Some(true),
            task::Status::Running => None::<bool>,
        },
{
    let finished = match s {
        task::Status::Finished => Some(true),
        task::Status::Running => None,
    };
    TaskStatus { successfully_completed: finished }
}

/// `m` is the message of the instance `i`.
pub open spec fn is_task_model(m: Task, i: InstanceView) -> bool {
    &&& m.job_id@ == spec_hyphenated(i.job_id)
    &&& m.task_id@ == spec_hyphenated(i.task_id)
    &&& m.input@ == i.inputs.map_values(|x: task::Input| spec_input_to_model(x))
    &&& is_recipe_model(m.recipe, i.recipe)
    &&& is_job_options_model(m.job_options, i.job_options)
}

/// The message that hands an allocated task to a worker.
pub fn instance_to_model(i: task::Instance) -> (r: Task)
    ensures
        is_task_model(r, i@),
{
    let job_id = uuid_to_string(i.job_id);
    let task_id = uuid_to_string(i.task_id);
    let input = inputs_to_model(&i.inputs);
    let recipe = recipe_to_model(&i.recipe);
    let job_options = job_options_to_model(i.job_options);
    Task { job_id, task_id, input, recipe, job_options }
}

/// The instance a message describes, when its identifiers read as UUIDs,
/// no input index is negative and its recipe gives one kind of task.
pub open spec fn spec_instance_from_model(m: Task) -> Option<InstanceView> {
    if spec_parse_uuid(m.job_id@) is Some && spec_parse_uuid(m.task_id@) is Some && (forall|k: int|
        0 <= k < m.input@.len() ==> #[trigger] m.input@[k].input >= 0) && spec_recipe_from_model(
        m.recipe,
    ) is Some {
        Some(
            InstanceView {
                job_id: spec_parse_uuid(m.job_id@).unwrap(),
                task_id: spec_parse_uuid(m.task_id@).unwrap(),
                inputs: m.input@.map_values(|x: TaskInputInner| spec_input_from_model(x)),
                recipe: spec_recipe_from_model(m.recipe).unwrap(),
                job_options: spec_job_options_from_model(m.job_options),
            },
        )
    } else {
        None
    }
}

/// Reads the task a worker received. Identifiers in hyphenated form read
/// as the UUIDs they were written from.
pub fn instance_from_model(m: Task) -> (r: Result<task::Instance, ()>)
    ensures
        match r {
            Ok(i) => spec_instance_from_model(m) == Some(i@),
            Err(_) => spec_instance_from_model(m) is None,
        },
        forall|a: u128, b: u128|
            m.job_id@ == #[trigger] spec_hyphenated(a) && m.task_id@ == #[trigger] spec_hyphenated(b)
                ==> {
                &&& (r is Ok <==> ((forall|k: int|
                    0 <= k < m.input@.len() ==> #[trigger] m.input@[k].input >= 0)
                    && spec_recipe_from_model(m.recipe) is Some))
                &&& (r matches Ok(i) ==> i.job_id == a && i.task_id == b)
            },
{
    let job_id = match parse_uuid(m.job_id.as_str()) {
        Some(id) => id,
        None => {
            return Err(());
        },
    };
    let task_id = match parse_uuid(m.task_id.as_str()) {
        Some(id) => id,
        None => {
            return Err(());
        },
    };
    let inputs = match inputs_from_model(&m.input) {
        Ok(v) => v,
        Err(()) => {
            return Err(());
        },
    };
    let recipe = match recipe_from_model(&m.recipe) {
        Ok(x) => x,
        Err(()) => {
            return Err(());
        },
    };
    let job_options = job_options_from_model(m.job_options);
    Ok(task::Instance { job_id, task_id, inputs, recipe, job_options })
}

/// The task a worker asks to add, as the manager stores it: a merge's
/// negative indexes become the largest `u32`.
pub open spec fn spec_task_source_from_request(m: TaskRequest) -> Option<TaskSourceView> {
    if forall|k: int| 0 <= k < m.inputs@.len() ==> #[trigger] m.inputs@[k].input >= 0 {
        Some(
            TaskSourceView {
                inputs: m.inputs@.map_values(|x: TaskInputInner| spec_input_from_model(x)),
                recipe: match m.recipe {
                    TaskRequestRecipe::TranscodeTask(t) => RecipeView::Transcode(t.options@),
                    TaskRequestRecipe::MergeTask(t) => RecipeView::Merge(
                        t.concatenate@.map_values(|v: i32| u32_or_max(v)),
                    ),
                },
            },
        )
    } else {
        None
    }
}

/// The indexes of a merge as `u32`.
fn concatenate_indexes(v: &Vec<i32>) -> (r: Vec<u32>)
    ensures
        r@ == v@.map_values(|x: i32| u32_or_max(x)),
{
    let mut r: Vec<u32> = Vec::new();
    let mut i: usize = 0;
    while i < v.len()
        invariant
            i <= v@.len(),
            r@ == v@.take(i as int).map_values(|x: i32| u32_or_max(x)),
        decreases v@.len() - i,
    {
        r.push(to_u32_or_max(v[i]));
        proof {
            assert(v@.take(i + 1) =~= v@.take(i as int).push(v@[i as int]));
            assert(r@ =~= v@.take(i + 1).map_values(|x: i32| u32_or_max(x)));
        }
        i = i + 1;
    }
    proof {
        assert(v@.take(v@.len() as int) =~= v@);
    }
    r
}

/// Reads a task a worker asks to add; fails when an input index is
/// negative.
pub fn task_source_from_request(m: TaskRequest) -> (r: Result<task::TaskSource, ()>)
    ensures
        match r {
            Ok(t) => spec_task_source_from_request(m) == Some(t@),
            Err(_) => spec_task_source_from_request(m) is None,
        },
{
    let recipe = match &m.recipe {
        TaskRequestRecipe::TranscodeTask(t) => task::Recipe::Transcode(copy_strings(&t.options)),
        TaskRequestRecipe::MergeTask(t) => task::Recipe::Merge(concatenate_indexes(&t.concatenate)),
    };
    match inputs_from_model(&m.inputs) {
        Ok(inputs) => Ok(task::TaskSource { inputs, recipe }),
        Err(()) => Err(()),
    }
}

/// The request a worker sends to add a task to a job: only transcode tasks
/// are sent, reading the job's source.
pub fn task_request_for(t: task::TaskSource) -> (r: Option<TaskRequest>)
    ensures
        match t@.recipe {
            RecipeView::Transcode(o) => {
                &&& r is Some
                &&& r.unwrap().inputs@ == seq![TaskInputInner { input: 0, start: None, end: None }]
                &&& r.unwrap().recipe matches TaskRequestRecipe::TranscodeTask(tt)
                &&& r.unwrap().recipe->TranscodeTask_0.options@ == o
            },
            _ => r is None,
        },
{
    match t.recipe {
        task::Recipe::Transcode(options) => {
            let mut inputs: Vec<TaskInputInner> = Vec::new();
            inputs.push(input_to_model(task::Input::source()));
            Some(
                TaskRequest {
                    inputs,
                    recipe: TaskRequestRecipe::TranscodeTask(TranscodeTask { options }),
                },
            )
        },
        _ => None,
    }
}

/// A message reads back as what it was written from: the recipe, when it is
/// not a merge; an input, when its index fits in an `i32`; the options of a
/// job; a status.
pub proof fn law_messages_read_back(
    x: RecipeView,
    m: Recipe,
    input: task::Input,
    options: JobOptionsView,
    options_model: JobOptions,
    status: task::Status,
    status_model: TaskStatus,
)
    requires
        is_recipe_model(m, x),
        !(x is Merge),
        input.index <= i32::MAX,
        is_job_options_model(options_model, options),
        status_model.successfully_completed == match status {
            task::Status::Finished => Some(true),
            task::Status::Running => None::<bool>,
        },
    ensures
        spec_recipe_from_model(m) == Some(x),
        spec_input_from_model(spec_input_to_model(input)) == input,
        spec_job_options_from_model(options_model) == options,
        spec_status_from_model(status_model) == status,
{
    match options.audio {
        Some(a) => {
            assert(spec_options_from_model(options_model.audio.unwrap()).params =~= a.params);
        },
        None => {},
    }
    assert(spec_options_from_model(options_model.video).params =~= options.video.params);
}

} // verus!
