use segmented_encoder::command::{
    args_for_urls, ffmpeg_args, runner_args, task_to_command, transcode_args, ClientTask, CommandError, InputArgs,
    WorkerTask, WorkerTaskId,
};
use segmented_encoder::jobs::JobParams;
use segmented_encoder::paths::{decimal_string, input_url, output_path, output_url, source_path};

fn strings(v: &[&str]) -> Vec<String> {
    v.iter().map(|s| s.to_string()).collect()
}

fn task(v_params: &str, a_params: &str) -> WorkerTask {
    WorkerTask {
        input_path: "/api/jobs/x/source".to_string(),
        v_codec: "libsvtav1".to_string(),
        v_params: v_params.to_string(),
        a_codec: "libopus".to_string(),
        a_params: a_params.to_string(),
    }
}

#[test]
fn command_splits_parameters_as_a_shell_would() {
    let args = args_for_urls("http://s/in", "http://s/out", &task("-crf 30 -preset '4 slow'", "-b:a \"96k\"")).unwrap();
    assert_eq!(
        args,
        strings(&["-i", "http://s/in", "-c:v", "libsvtav1", "-crf", "30", "-preset", "4 slow", "-c:a", "libopus", "-b:a", "96k", "-f", "matroska", "http://s/out"])
    );
}

#[test]
fn command_with_empty_parameters() {
    let args = args_for_urls("in", "out", &task("", "")).unwrap();
    assert_eq!(args, strings(&["-i", "in", "-c:v", "libsvtav1", "-c:a", "libopus", "-f", "matroska", "out"]));
}

#[test]
fn badly_quoted_parameters_are_refused() {
    assert_eq!(args_for_urls("in", "out", &task("-crf '30", "")), Err(CommandError::VideoParams));
    assert_eq!(args_for_urls("in", "out", &task("-crf 30", "\"x")), Err(CommandError::AudioParams));
    assert_eq!(args_for_urls("in", "out", &task("'a", "\"x")), Err(CommandError::VideoParams));
}

#[test]
fn worker_task_takes_missing_parameters_as_empty() {
    let w = WorkerTask::from_parameters("/p".to_string(), &JobParams::sample_params());
    assert_eq!(w, WorkerTask {
        input_path: "/p".to_string(),
        v_codec: "libsvtav1".to_string(),
        v_params: "-crf 30".to_string(),
        a_codec: "libopus".to_string(),
        a_params: String::new(),
    });
}

#[test]
fn ffmpeg_args_in_order() {
    let args = ffmpeg_args("i", "o", "v", strings(&["a", "b"]), "c", vec![]);
    assert_eq!(args, strings(&["-i", "i", "-c:v", "v", "a", "b", "-c:a", "c", "-f", "matroska", "o"]));
}

#[test]
fn transcode_args_put_offsets_before_each_input() {
    let inputs = vec![
        InputArgs { url: "u0".to_string(), start: Some("1.5".to_string()), end: Some("4".to_string()) },
        InputArgs { url: "u1".to_string(), start: None, end: None },
    ];
    let args = transcode_args(&inputs, "key", "libx264", &strings(&["-crf", "20"]));
    assert_eq!(
        args,
        strings(&[
            "-ss", "1.5", "-to", "4", "-headers", "Authorization: key", "-i", "u0",
            "-headers", "Authorization: key", "-i", "u1", "-c:v", "libx264", "-crf", "20",
        ])
    );
}

#[test]
fn runner_appends_progress_and_matroska_output() {
    let args = runner_args(strings(&["-i", "x"]));
    assert_eq!(args, strings(&["-i", "x", "-progress", "pipe:2", "-nostats", "-v", "quiet", "-f", "matroska", "-"]));
}

#[test]
fn paths_and_urls_use_hyphenated_ids() {
    let job: u128 = 0x67e5_5044_10b1_426f_9247_bb68_0e5f_e0c8;
    let task: u128 = 0x0000_0000_0000_4000_8000_0000_0000_0001;
    assert_eq!(source_path(job), "/api/jobs/67e55044-10b1-426f-9247-bb680e5fe0c8/source");
    assert_eq!(
        output_path(job, task),
        "/api/jobs/67e55044-10b1-426f-9247-bb680e5fe0c8/tasks/00000000-0000-4000-8000-000000000001/output"
    );
    assert_eq!(
        input_url("http://h/api", job, task, 12),
        "http://h/api/job/67e55044-10b1-426f-9247-bb680e5fe0c8/task/00000000-0000-4000-8000-000000000001/input/12"
    );
    assert_eq!(
        output_url("http://h/api", job, task),
        "http://h/api/job/67e55044-10b1-426f-9247-bb680e5fe0c8/task/00000000-0000-4000-8000-000000000001/output"
    );
}

#[test]
fn decimal_strings() {
    assert_eq!(decimal_string(0), "0");
    assert_eq!(decimal_string(7), "7");
    assert_eq!(decimal_string(10), "10");
    assert_eq!(decimal_string(u64::MAX), u64::MAX.to_string());
}

fn id_bytes(last: u8) -> Vec<u8> {
    let mut v = vec![0u8; 16];
    v[15] = last;
    v
}

fn client_task(input_path: &str, v_params: &str, a_params: &str) -> ClientTask {
    ClientTask {
        id: Some(WorkerTaskId { job_id: id_bytes(1), task_id: id_bytes(2) }),
        work: WorkerTask {
            input_path: input_path.to_string(),
            v_codec: "libx264".to_string(),
            v_params: v_params.to_string(),
            a_codec: "libopus".to_string(),
            a_params: a_params.to_string(),
        },
    }
}

#[test]
fn task_to_command_builds_urls_from_the_server_and_the_ids() {
    let args = task_to_command("http://host:8000", &client_task("/in", "-crf 24", "")).unwrap();
    assert_eq!(
        args,
        vec![
            "-i",
            "http://host:8000/in",
            "-c:v",
            "libx264",
            "-crf",
            "24",
            "-c:a",
            "libopus",
            "-f",
            "matroska",
            "http://host:8000/api/jobs/00000000-0000-0000-0000-000000000001/tasks/00000000-0000-0000-0000-000000000002/output",
        ]
    );
}

#[test]
fn task_to_command_refuses_an_invalid_input_path() {
    assert_eq!(task_to_command("http://host", &client_task("no slash", "", "")), Err(CommandError::InputPath));
    assert_eq!(task_to_command("http://host", &client_task("/a b", "", "")), Err(CommandError::InputPath));
}

#[test]
fn task_to_command_checks_the_path_before_the_parameters() {
    assert_eq!(task_to_command("http://host", &client_task("/in", "'x", "")), Err(CommandError::VideoParams));
    assert_eq!(task_to_command("http://host", &client_task("/in", "", "'x")), Err(CommandError::AudioParams));
    assert_eq!(task_to_command("http://host", &client_task("bad path", "'x", "")), Err(CommandError::InputPath));
}

#[test]
fn task_to_command_keeps_the_query_of_the_input_path() {
    let args = task_to_command("https://h", &client_task("/api/x?part=1", "", "")).unwrap();
    assert_eq!(args[1], "https://h/api/x?part=1");
}
