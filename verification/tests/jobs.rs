use segmented_encoder::jobs::{FileRef, Job, JobParams, Segmenter, Source};

fn fake_file() -> FileRef {
    FileRef { id: 0x6f1c_2a4e_9b3d_4c21_8e5f_0a1b_2c3d_4e5f }
}

fn fake_job() -> Job {
    Job::new(Source::File(fake_file()), JobParams::sample_params())
}

#[test]
fn segmenter_don_not_segment_generate_response_with_an_array_with_a_single_task_info() {
    let job = fake_job();
    let segmented = Segmenter::segment(&job);
    let array: Vec<_> = segmented.tasks;
    assert_eq!(array.len(), 1);
}

#[test]
fn segmenter_don_not_segment_generate_task_info_with_same_input_and_parameters() {
    let job = fake_job();
    let segmented = Segmenter::segment(&job);
    let task = segmented.tasks.first().expect("Should generate some");
    assert_eq!(task.parameters, job.parameters);
    assert_eq!(task.input, job.source);
}

#[test]
fn job_takes_source_and_parameters() {
    let source = Source::File(fake_file());
    let parameters = JobParams::sample_params();
    let job = Job::new(source.clone(), parameters.clone());

    assert_eq!(job.source, source);
    assert_eq!(job.parameters, parameters);
    assert_eq!(job.segmenter, Segmenter::DoNotSegment);
}

#[test]
fn sample_params_are_svt_av1_and_opus() {
    let params = JobParams::sample_params();
    assert_eq!(params.video_encoder.as_deref(), Some("libsvtav1"));
    assert_eq!(params.video_args.as_deref(), Some("-crf 30"));
    assert_eq!(params.audio_encoder.as_deref(), Some("libopus"));
    assert_eq!(params.audio_args, None);
}

#[test]
fn duplicated_params_are_equal() {
    let params = JobParams {
        video_encoder: None,
        video_args: Some("-preset 4".to_string()),
        audio_encoder: Some("aac".to_string()),
        audio_args: Some("-b:a 128k".to_string()),
    };
    assert_eq!(params.duplicate(), params);
}
