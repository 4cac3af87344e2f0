use segmented_encoder::job_manager::{source_answer, AnswerBody, JobManager};
use segmented_encoder::storage::MemStorage;
use segmented_encoder::jobs::{FileRef, Job, JobParams, Source};
use segmented_encoder::scheduler::{AllocationState, TaskScheduler};

const JOB_ID: u128 = 0x9f3c_1d2e_4b5a_4c6d_8e7f_0a1b_2c3d_4e5f;

fn job() -> Job {
    Job::new(Source::File(FileRef { id: 0 }), JobParams::sample_params())
}

fn scheduler() -> TaskScheduler {
    TaskScheduler::new(JOB_ID, job())
}

#[test]
fn job_segmenter_job_segmenter_get_available_return_some_for_do_not_segment() {
    let mut segmenter = scheduler();
    let available = segmenter.allocate();
    assert!(available.is_some())
}

#[test]
fn job_segmenter_job_segmenter_get_available_twice_return_none() {
    let mut segmenter = scheduler();
    let _available = segmenter.allocate();
    let available = segmenter.allocate();
    assert!(available.is_none())
}

#[test]
fn job_segmenter_job_segmenter_after_drop_can_allocate_again() {
    let mut segmenter = scheduler();
    let available = segmenter.allocate().unwrap();
    segmenter.cancel_task(&available.id).unwrap();
    let available = segmenter.allocate();
    assert!(available.is_some())
}

#[test]
fn segmenter_job_segmenter_get_available_return_some_for_do_not_segment() {
    let mut segmenter = scheduler();
    assert!(segmenter.allocate().is_some())
}

#[test]
fn segmenter_job_segmenter_get_available_twice_return_none() {
    let mut segmenter = scheduler();
    let _available = segmenter.allocate();
    assert!(segmenter.allocate().is_none())
}

#[test]
fn segmenter_job_segmenter_after_drop_can_allocate_again() {
    let mut segmenter = scheduler();
    let available = segmenter.allocate().unwrap();
    assert_eq!(segmenter.cancel_task(&available.id), Ok(()));
    assert!(segmenter.allocate().is_some())
}

#[test]
fn set_complete_return_segment_number() {
    let mut segmenter = scheduler();
    let available = segmenter.allocate().unwrap();
    let segment_number: usize = segmenter.set_task_as_completed(&available.id).unwrap();
    assert_eq!(segment_number, 0);
}

#[test]
fn segment_entry_got_with_segment_number_should_be_equivalent_to_allocated() {
    let mut segmenter = scheduler();
    let available = segmenter.allocate().unwrap();
    assert_eq!(segmenter.get_segment(0), Some(AllocationState::Allocated));
    let segment_number: usize = segmenter.set_task_as_completed(&available.id).unwrap();
    assert_eq!(segmenter.get_segment(segment_number), Some(AllocationState::Completed));
}

#[test]
fn get_segment_with_invalid_number_returns_none() {
    let mut segmenter = scheduler();
    let available = segmenter.allocate().unwrap();
    let segment_number: usize = segmenter.set_task_as_completed(&available.id).unwrap();
    assert!(segmenter.get_segment(segment_number + 1).is_none())
}

#[test]
fn after_drop_complete_should_not_be_able_to_allocate() {
    let mut segmenter = scheduler();
    let available = segmenter.allocate().unwrap();
    segmenter.set_task_as_completed(&available.id).unwrap();
    assert_eq!(segmenter.cancel_task(&available.id), Err(()));
    assert!(segmenter.allocate().is_none())
}

#[test]
fn segment_is_absent_before_the_job_is_segmented() {
    let segmenter = scheduler();
    assert_eq!(segmenter.get_segment(0), None);
}

#[test]
fn allocated_task_reads_the_job_source() {
    let mut segmenter = scheduler();
    let task = segmenter.allocate().unwrap();
    assert_eq!(task.job_id, JOB_ID);
    assert_eq!(task.input_path, "/api/jobs/9f3c1d2e-4b5a-4c6d-8e7f-0a1b2c3d4e5f/source");
    assert_eq!(task.parameters, JobParams::sample_params());
    assert_eq!(segmenter.get_task(&task.id), Some(task.clone()));
    assert_eq!(segmenter.get_task(&task.id.wrapping_add(1)), None);
}

#[test]
fn cancel_or_complete_with_another_id_fails() {
    let mut segmenter = scheduler();
    let task = segmenter.allocate().unwrap();
    let other = task.id ^ 1;
    assert_eq!(segmenter.cancel_task(&other), Err(()));
    assert_eq!(segmenter.set_task_as_completed(&other), None);
    assert_eq!(segmenter.get_segment(0), Some(AllocationState::Allocated));
}

#[test]
fn job_manager_new_job_manager_has_0_jobs() {
    let manager = JobManager::new();
    assert_eq!(manager.job_count(), 0);
}

#[test]
fn job_manager_new_manager_has_1_job_after_enqueue() {
    let mut manager = JobManager::new();
    manager.add_job(job());
    assert_eq!(manager.job_count(), 1);
}

#[test]
fn job_manager_allocates_each_job_once() {
    let mut manager = JobManager::new();
    assert!(manager.allocate().is_none());
    let job_id = manager.add_job(job());
    let (id, task) = manager.allocate().unwrap();
    assert_eq!(id.job, job_id);
    assert_eq!(id.task, task.id);
    assert_eq!(manager.get_job_task(&id.job, &id.task), Some(task));
    assert!(manager.allocate().is_none());
}

#[test]
fn manager_new_job_manager_has_0_jobs() {
    let manager = JobManager::new();
    assert_eq!(manager.job_count(), 0);
}

#[test]
fn manager_new_manager_has_1_job_after_enqueue() {
    let mut manager = JobManager::new();
    manager.add_job(job());
    assert_eq!(manager.job_count(), 1);
}

#[test]
fn allocate_task_twice_with_two_do_not_segment_job_returns_twice() {
    let mut manager = JobManager::new();
    manager.add_job(job());
    manager.add_job(job());
    let first = manager.allocate().unwrap();
    let second = manager.allocate().unwrap();
    assert_ne!(first.0.job, second.0.job);
    assert!(manager.allocate().is_none());
}

#[test]
fn request_task_before_create_task_should_timeout() {
    let mut manager = JobManager::new();
    assert_eq!(manager.request_task(), Err(segmented_encoder::job_manager::DeadlineExceeded));
}

#[test]
fn request_task_check_task_params() {
    let mut manager = JobManager::new();
    let params = JobParams::sample_params();
    let job_id = manager.add_job(Job::new(Source::File(FileRef { id: 0 }), params.clone()));
    let task = manager.request_task().expect("Should return after a job is created");
    assert_eq!(task.a_codec, params.audio_encoder.clone().unwrap_or_default());
    assert_eq!(task.a_params, params.audio_args.clone().unwrap_or_default());
    assert_eq!(task.v_codec, params.video_encoder.clone().unwrap_or_default());
    assert_eq!(task.v_params, params.video_args.clone().unwrap_or_default());
    assert_eq!(task.input_path, format!("/api/jobs/{}/source", segmented_encoder::api::hyphenated(job_id)));
    assert!(manager.request_task().is_err());
}

#[test]
fn job_manager_get_job_nonexistent_uuid_none() {
    let manager = JobManager::new();
    assert!(manager.get_job(&0x5555).is_none());
}

#[test]
fn manager_get_job_nonexistent_uuid_none() {
    let manager = JobManager::new();
    assert!(manager.job_source_file(&0x5555).is_none());
}

#[test]
fn job_manager_get_reference_to_job_from_uuid() {
    let mut manager = JobManager::new();
    let uuid = manager.add_job(job());
    assert_eq!(manager.get_job(&uuid), Some(&job()));
    assert_eq!(manager.job_source_file(&uuid), Some(FileRef { id: 0 }));
}

#[test]
fn set_task_output_then_complete_keeps_the_output() {
    let mut segmenter = scheduler();
    let task = segmenter.allocate().unwrap();
    assert_eq!(segmenter.get_segment_output(0), None);
    assert_eq!(segmenter.set_task_output(&task.id, FileRef { id: 77 }), Some(Ok(())));
    assert_eq!(segmenter.set_task_output(&task.id, FileRef { id: 78 }), Some(Err(())));
    assert_eq!(segmenter.set_task_output(&(task.id ^ 1), FileRef { id: 79 }), None);
    segmenter.set_task_as_completed(&task.id).unwrap();
    assert_eq!(segmenter.get_segment_output(0), Some(FileRef { id: 77 }));
    assert_eq!(segmenter.get_segment_output(1), None);
    assert!(segmenter.get_task(&task.id).is_none());
}

#[test]
fn get_task_returns_equals_allocate() {
    let mut segmenter = scheduler();
    let task = segmenter.allocate().unwrap();
    assert_eq!(segmenter.get_task(&task.id), Some(task));
}

#[test]
fn after_cancel_can_not_get_canceled_task() {
    let mut segmenter = scheduler();
    let task = segmenter.allocate().unwrap();
    segmenter.cancel_task(&task.id).unwrap();
    assert!(segmenter.get_task(&task.id).is_none());
}

#[test]
fn job_ids_lists_every_job_once() {
    let mut manager = JobManager::new();
    let a = manager.add_job(job());
    let b = manager.add_job(job());
    let mut ids = manager.job_ids();
    ids.sort();
    let mut expected = vec![a, b];
    expected.sort();
    assert_eq!(ids, expected);
}

const WEBM_SAMPLE: &[u8] = &[0x1a, 0x45, 0xdf, 0xa3, 0x9f, 0x42, 0x86, 0x81, 0x01];

fn posted_job(manager: &mut JobManager, storage: &mut MemStorage) -> u128 {
    let file = storage.store_file(WEBM_SAMPLE.to_vec());
    let mut params = JobParams::sample_params();
    params.video_encoder = Some("libx264".to_string());
    manager.add_job(Job::new(Source::File(FileRef { id: file }), params))
}

#[test]
fn get_job_source_200() {
    let mut manager = JobManager::new();
    let mut storage = MemStorage::new();
    let job_id = posted_job(&mut manager, &mut storage);
    let (status, _) = manager.job_source(&storage, &job_id);
    assert_eq!(status, 200);
}

#[test]
fn get_job_source_same_as_input() {
    let mut manager = JobManager::new();
    let mut storage = MemStorage::new();
    let job_id = posted_job(&mut manager, &mut storage);
    let (status, body) = manager.job_source(&storage, &job_id);
    assert_eq!(status, 200);
    assert_eq!(body, AnswerBody::Bytes(WEBM_SAMPLE.to_vec()));
}

#[test]
fn get_job_source_unknown_job_404() {
    let manager = JobManager::new();
    let storage = MemStorage::new();
    let (status, body) = manager.job_source(&storage, &0x1234);
    assert_eq!(status, 404);
    assert_eq!(body, AnswerBody::Text("Not found".to_string()));
}

#[test]
fn job_source_of_a_missing_file_is_a_server_error() {
    let mut manager = JobManager::new();
    let storage = MemStorage::new();
    let job_id = manager.add_job(job());
    let (status, body) = manager.job_source(&storage, &job_id);
    assert_eq!(status, 500);
    assert_eq!(body, AnswerBody::Text("Failed to read file: no file is stored under this identifier".to_string()));
}

#[test]
fn source_answer_covers_each_outcome_of_the_read() {
    assert_eq!(source_answer(None), (404, AnswerBody::Text("Not found".to_string())));
    assert_eq!(source_answer(Some(Ok(vec![1, 2]))), (200, AnswerBody::Bytes(vec![1, 2])));
    assert_eq!(
        source_answer(Some(Err("disk gone".to_string()))),
        (500, AnswerBody::Text("Failed to read file: disk gone".to_string()))
    );
}
