use segmented_encoder::api::{
    hyphenated, parse_id, AppStateLocal, ErrorReply, ACCEPTED, BAD_REQUEST, FORBIDDEN, INTERNAL_SERVER_ERROR,
    NOT_FOUND, NO_CONTENT, SERVICE_UNAVAILABLE, UNPROCESSABLE_ENTITY,
};
use segmented_encoder::models::{TaskInputInner, TaskRequest, TaskRequestRecipe, TaskStatus, TranscodeTask};
use segmented_encoder::task::{Input, Recipe};

const TEST_CRED: &str = "test_auth";

fn state() -> AppStateLocal {
    AppStateLocal::with_cred(TEST_CRED)
}

fn post_job(state: &mut AppStateLocal) -> u128 {
    state.job_post(Some(b"libx264"), &[], b"video bytes".to_vec()).unwrap()
}

fn transcode_request(inputs: &[i32]) -> TaskRequest {
    TaskRequest {
        inputs: inputs.iter().map(|i| TaskInputInner { input: *i, start: None, end: None }).collect(),
        recipe: TaskRequestRecipe::TranscodeTask(TranscodeTask { options: vec!["-crf".into(), "30".into()] }),
    }
}

#[test]
fn get_login_without_auth_bad_request() {
    assert_eq!(state().login(None), Err(BAD_REQUEST));
}

#[test]
fn get_login_with_bad_auth_forbidden() {
    assert_eq!(state().login(Some(b"bad auth")), Err(FORBIDDEN));
}

#[test]
fn get_login_with_unreadable_credentials_bad_request() {
    assert_eq!(state().login(Some(&[0xFF])), Err(BAD_REQUEST));
}

#[test]
fn login_will_return_a_token_recognizable_by_auth_handler() {
    let mut state = state();
    let token = state.login(Some(TEST_CRED.as_bytes())).unwrap();
    assert!(!token.is_empty());
    assert_eq!(state.auth_handler().is_valid(&token), Ok(true));
    assert_eq!(state.authorize(Some(token.as_bytes())), Ok(token));
}

#[test]
fn logins_give_different_tokens() {
    let mut state = state();
    let first = state.login(Some(TEST_CRED.as_bytes())).unwrap();
    let second = state.login(Some(TEST_CRED.as_bytes())).unwrap();
    assert_eq!(first, "0");
    assert_eq!(second, "1");
}

#[test]
fn job_post_without_auth_forbidden() {
    let state = state();
    assert_eq!(
        state.authorize(None),
        Err(ErrorReply { status: FORBIDDEN, text: Some("Missing authorization") })
    );
    assert_eq!(
        state.authorize(Some(b"12")),
        Err(ErrorReply { status: FORBIDDEN, text: Some("Bad authorization") })
    );
}

#[test]
fn job_empty_post_with_auth_bad_request() {
    let mut state = state();
    assert_eq!(state.job_post(None, &[], vec![]), Err(BAD_REQUEST));
    assert_eq!(state.job_post(Some(b"libx264"), &[vec![0x00]], vec![]), Err(BAD_REQUEST));
    assert_eq!(state.manager().get_job(&0).unwrap(), None);
}

#[test]
fn job_post_creates_job_with_same_codec_and_params() {
    let mut state = state();
    let params = vec![b"-preset".to_vec(), b"fast,slow".to_vec()];
    let job_id = state.job_post(Some(b"libx264"), &params, b"content".to_vec()).unwrap();
    let job = state.manager().get_job(&job_id).unwrap().unwrap();
    assert_eq!(job.options.video.codec.as_deref(), Some("libx264"));
    assert_eq!(job.options.video.params, vec!["-preset".to_string(), "fast,slow".to_string()]);
    assert!(job.options.audio.is_none());
    assert_eq!(state.storage().read_file(job.input_id).unwrap(), &b"content".to_vec());
    assert_eq!(hyphenated(job_id).len(), 36);
}

#[test]
fn job_post_will_schedule_an_analysis_task() {
    let mut state = state();
    let job_id = post_job(&mut state);
    let task = state.manager().get_task_source(&job_id, 0).unwrap().unwrap();
    assert_eq!(task.recipe, Recipe::Analysis(None));
    assert_eq!(task.inputs, vec![Input::source()]);
    let allocated = state.allocate_task().unwrap();
    assert_eq!(allocated.job_id, hyphenated(job_id));
    assert!(allocated.recipe.analysis.is_some());
    assert_eq!(state.allocate_task().err(), Some(SERVICE_UNAVAILABLE));
}

#[test]
fn allocate_without_jobs_is_unavailable() {
    assert_eq!(state().allocate_task().err(), Some(SERVICE_UNAVAILABLE));
}

#[test]
fn worker_reads_input_and_writes_output() {
    let mut state = state();
    let job_id = post_job(&mut state);
    let task = state.manager_allocate();
    assert_eq!(state.get_task_input_file(job_id, task, 0).unwrap(), &b"video bytes".to_vec());
    assert_eq!(state.get_task_input_file(job_id, task, 1).err(), Some(INTERNAL_SERVER_ERROR));
    assert_eq!(state.get_task_input_file(job_id, task ^ 1, 0).err(), Some(NOT_FOUND));
    assert_eq!(
        state.task_output_get(job_id, task).err(),
        Some(ErrorReply { status: SERVICE_UNAVAILABLE, text: Some("Output not available yet") })
    );
    assert_eq!(state.put_task_output(job_id, task, b"encoded".to_vec()), ACCEPTED);
    assert_eq!(state.task_output_get(job_id, task).unwrap(), &b"encoded".to_vec());
    assert_eq!(state.job_output_get(job_id).unwrap(), &b"encoded".to_vec());
    assert_eq!(state.put_task_output(job_id, task ^ 1, vec![]), NOT_FOUND);
}

trait AllocateForTest {
    fn manager_allocate(&mut self) -> u128;
}

impl AllocateForTest for AppStateLocal {
    fn manager_allocate(&mut self) -> u128 {
        let t = self.allocate_task().unwrap();
        let text = t.task_id.replace('-', "");
        u128::from_str_radix(&text, 16).unwrap()
    }
}

#[test]
fn job_output_of_unknown_job_is_not_found() {
    let state = state();
    assert_eq!(
        state.get_job_output(7),
        Err(ErrorReply { status: NOT_FOUND, text: Some("Job not found") })
    );
}

#[test]
fn status_post_finishes_the_task() {
    let mut state = state();
    let job_id = post_job(&mut state);
    let task = state.manager_allocate();
    assert_eq!(state.task_status_post(job_id, task, TaskStatus { successfully_completed: None }), INTERNAL_SERVER_ERROR);
    assert_eq!(state.task_status_post(job_id, task ^ 1, TaskStatus { successfully_completed: Some(true) }), NOT_FOUND);
    assert_eq!(state.task_status_post(job_id, task, TaskStatus { successfully_completed: Some(true) }), NO_CONTENT);
}

#[test]
fn task_post_appends_and_answers_the_index() {
    let mut state = state();
    let job_id = post_job(&mut state);
    assert_eq!(state.task_post(job_id, transcode_request(&[0])), Ok("1".to_string()));
    assert_eq!(state.task_post(job_id, transcode_request(&[1])), Ok("2".to_string()));
    assert_eq!(state.task_post(job_id, transcode_request(&[9])), Err(NOT_FOUND));
    assert_eq!(state.task_post(job_id, transcode_request(&[-1])), Err(UNPROCESSABLE_ENTITY));
    assert_eq!(state.task_post(job_id ^ 1, transcode_request(&[0])), Err(NOT_FOUND));
    assert_eq!(state.append_task_to_job(job_id, transcode_request(&[-1])), Err(BAD_REQUEST));
    assert_eq!(state.append_task_to_job(job_id, transcode_request(&[2])), Ok(3));
}

#[test]
fn parse_id_reads_back_the_hyphenated_form() {
    let id: u128 = 0x0123_4567_89ab_cdef_0011_2233_4455_6677;
    assert_eq!(parse_id(&hyphenated(id)), Some(id));
    assert_eq!(parse_id("01234567-89ab-cdef-0011-223344556677"), Some(id));
    assert_eq!(parse_id("not an id"), None);
}
