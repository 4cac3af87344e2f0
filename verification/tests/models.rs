use segmented_encoder::models::{
    input_from_model, input_to_model, instance_from_model, instance_to_model, job_options_from_model,
    job_options_to_model, recipe_from_model, recipe_to_model, status_from_model, status_to_model,
    task_request_for, task_source_from_request, AnalysisTask, CodecParams, JobOptions as ModelJobOptions,
    MergeTask, Recipe as ModelRecipe, Task as ModelTask, TaskInputInner, TaskRequest, TaskRequestRecipe,
    TaskStatus, TranscodeTask,
};
use segmented_encoder::task::{Input, Instance, JobOptions, Options, Recipe, Status, TaskSource};

fn options() -> JobOptions {
    JobOptions {
        video: Options { codec: Some("libx264".to_string()), params: vec!["-preset".to_string(), "fast".to_string()] },
        audio: Some(Options { codec: None, params: vec![] }),
    }
}

#[test]
fn recipe_needs_exactly_one_kind() {
    let analysis = ModelRecipe { analysis: Some(AnalysisTask { duration: Some(10.0f64.to_bits()) }), transcode: None, merge: None };
    assert_eq!(recipe_from_model(&analysis), Ok(Recipe::Analysis(Some(10.0f64.to_bits()))));
    let transcode = ModelRecipe { analysis: None, transcode: Some(TranscodeTask { options: vec!["-crf".into(), "30".into()] }), merge: None };
    assert_eq!(recipe_from_model(&transcode), Ok(Recipe::Transcode(vec!["-crf".into(), "30".into()])));
    let merge = ModelRecipe { analysis: None, transcode: None, merge: Some(MergeTask { concatenate: vec![1, 2] }) };
    assert_eq!(recipe_from_model(&merge), Ok(Recipe::Merge(vec![])));
    let none = ModelRecipe { analysis: None, transcode: None, merge: None };
    assert_eq!(recipe_from_model(&none), Err(()));
    let two = ModelRecipe { analysis: Some(AnalysisTask { duration: None }), transcode: None, merge: Some(MergeTask { concatenate: vec![] }) };
    assert_eq!(recipe_from_model(&two), Err(()));
}

#[test]
fn recipe_model_saturates_merge_indexes() {
    let m = recipe_to_model(&Recipe::Merge(vec![3, u32::MAX]));
    assert_eq!(m.merge.unwrap().concatenate, vec![3, i32::MAX]);
    let a = recipe_to_model(&Recipe::Analysis(None));
    assert_eq!(a.analysis, Some(AnalysisTask { duration: None }));
    assert!(a.transcode.is_none() && a.merge.is_none());
}

#[test]
fn input_index_must_not_be_negative() {
    assert_eq!(input_from_model(TaskInputInner { input: -1, start: None, end: None }), Err(()));
    assert_eq!(
        input_from_model(TaskInputInner { input: 2, start: Some(1), end: None }),
        Ok(Input { index: 2, start: Some(1), end: None })
    );
    assert_eq!(input_to_model(Input { index: u32::MAX, start: None, end: Some(5) }).input, i32::MAX);
}

#[test]
fn job_options_missing_params_are_empty() {
    let m = ModelJobOptions { video: CodecParams { codec: Some("vp9".into()), params: None }, audio: None };
    let o = job_options_from_model(m);
    assert_eq!(o.video.codec.as_deref(), Some("vp9"));
    assert!(o.video.params.is_empty());
    let back = job_options_to_model(options());
    assert_eq!(back.video.params, Some(vec!["-preset".to_string(), "fast".to_string()]));
    assert_eq!(back.audio.unwrap().params, Some(vec![]));
}

#[test]
fn status_is_finished_only_when_completed() {
    assert_eq!(status_from_model(TaskStatus { successfully_completed: Some(true) }), Status::Finished);
    assert_eq!(status_from_model(TaskStatus { successfully_completed: Some(false) }), Status::Running);
    assert_eq!(status_from_model(TaskStatus { successfully_completed: None }), Status::Running);
    assert_eq!(status_to_model(Status::Finished).successfully_completed, Some(true));
    assert_eq!(status_to_model(Status::Running).successfully_completed, None);
}

#[test]
fn instance_round_trips_through_its_message() {
    let instance = Instance {
        job_id: 0x67e5_5044_10b1_426f_9247_bb68_0e5f_e0c8,
        task_id: 0x1234_5678_9abc_4def_8123_4567_89ab_cdef,
        inputs: vec![Input { index: 0, start: Some(1.5f64.to_bits()), end: None }, Input { index: 3, start: None, end: None }],
        recipe: Recipe::Transcode(vec!["-crf".into(), "28".into()]),
        job_options: options(),
    };
    let message = instance_to_model(instance.clone());
    assert_eq!(message.job_id, "67e55044-10b1-426f-9247-bb680e5fe0c8");
    assert_eq!(message.task_id, "12345678-9abc-4def-8123-456789abcdef");
    assert_eq!(instance_from_model(message), Ok(instance));
}

#[test]
fn instance_message_with_bad_id_is_refused() {
    let message = ModelTask {
        job_id: "not an id".into(),
        task_id: "12345678-9abc-4def-8123-456789abcdef".into(),
        input: vec![],
        recipe: ModelRecipe { analysis: Some(AnalysisTask { duration: None }), transcode: None, merge: None },
        job_options: ModelJobOptions { video: CodecParams { codec: None, params: None }, audio: None },
    };
    assert_eq!(instance_from_model(message), Err(()));
}

#[test]
fn task_request_reads_merge_indexes() {
    let req = TaskRequest {
        inputs: vec![TaskInputInner { input: 0, start: None, end: None }, TaskInputInner { input: 1, start: None, end: None }],
        recipe: TaskRequestRecipe::MergeTask(MergeTask { concatenate: vec![1, -4] }),
    };
    let t = task_source_from_request(req).unwrap();
    assert_eq!(t.recipe, Recipe::Merge(vec![1, u32::MAX]));
    assert_eq!(t.inputs, vec![Input::source(), Input { index: 1, start: None, end: None }]);
    let bad = TaskRequest {
        inputs: vec![TaskInputInner { input: -2, start: None, end: None }],
        recipe: TaskRequestRecipe::TranscodeTask(TranscodeTask { options: vec![] }),
    };
    assert_eq!(task_source_from_request(bad), Err(()));
}

#[test]
fn only_transcode_tasks_are_requested() {
    let t = TaskSource { inputs: vec![Input { index: 4, start: None, end: None }], recipe: Recipe::Transcode(vec!["-an".into()]) };
    let req = task_request_for(t).unwrap();
    assert_eq!(req.inputs, vec![TaskInputInner { input: 0, start: None, end: None }]);
    assert_eq!(req.recipe, TaskRequestRecipe::TranscodeTask(TranscodeTask { options: vec!["-an".into()] }));
    let a = TaskSource { inputs: vec![Input::source()], recipe: Recipe::Analysis(None) };
    assert!(task_request_for(a).is_none());
}
