//! Command lines of the encoder (`ffmpeg`) that workers run for their tasks.

use axum::http::uri::PathAndQuery;
use vstd::prelude::*;

use crate::clients::{big_endian, uuid_from_slice};
use crate::headers::views;
use crate::jobs::JobParams;
use crate::paths::{hyphens_before, nibble, output_path, spec_hyphenated, spec_output_path};

verus! {

#[verifier::external_type_specification]
#[verifier::external_body]
pub struct ExShellWordsParseError(shell_words::ParseError);

/// The words that `shell_words::split` splits a text into, following the
/// quoting rules of a Unix shell; `None` when the text is not well quoted.
pub uninterp spec fn shell_split(s: Seq<char>) -> Option<Seq<Seq<char>>>;

/// Calls `shell_words::split`. Its result depends on the text alone.
#[verifier::external_body]
fn split_words(s: &str) -> (r: Result<Vec<String>, shell_words::ParseError>)
    ensures
        match r {
            Ok(v) => shell_split(s@) == Some(views(v@)),
            Err(_) => shell_split(s@) is None,
        },
{
    shell_words::split(s)
}

/// A task as a worker receives it: where to read the input, and the codecs
/// and their parameters, each parameter list written as shell words.
#[derive(Clone, Debug, PartialEq, Eq)]
pub struct WorkerTask {
    pub input_path: String,
    pub v_codec: String,
    pub v_params: String,
    pub a_codec: String,
    pub a_params: String,
}

/// The text of an optional parameter; empty when it is missing.
fn text_or_empty(s: &Option<String>) -> (r: String)
    ensures
        r@ == match s {
            Some(v) => v@,
            None => Seq::<char>::empty(),
        },
{
    match s {
        Some(v) => v.clone(),
        None => String::new(),
    }
}

/// The text of an optional parameter; empty when it is missing.
pub open spec fn text_of(s: Option<String>) -> Seq<char> {
    match s {
        Some(v) => v@,
        None => Seq::<char>::empty(),
    }
}

/// `w` carries the parameters `params`, missing ones as empty texts.
pub open spec fn is_worker_task_of(w: WorkerTask, params: JobParams) -> bool {
    &&& w.v_codec@ == text_of(params.video_encoder)
    &&& w.v_params@ == text_of(params.video_args)
    &&& w.a_codec@ == text_of(params.audio_encoder)
    &&& w.a_params@ == text_of(params.audio_args)
}

impl WorkerTask {
    /// The task a worker receives for a task with input `input_path` and
    /// the parameters of its job; missing parameters are empty.
    pub fn from_parameters(input_path: String, params: &JobParams) -> (r: WorkerTask)
        ensures
            r.input_path == input_path,
            is_worker_task_of(r, *params),
    {
        WorkerTask {
            input_path,
            v_codec: text_or_empty(&params.video_encoder),
            v_params: text_or_empty(&params.video_args),
            a_codec: text_or_empty(&params.audio_encoder),
            a_params: text_or_empty(&params.audio_args),
        }
    }
}

/// Why no command line could be built for a task.
#[derive(Clone, Copy, Debug, PartialEq, Eq, Structural)]
pub enum CommandError {
    /// The video parameters are not well quoted.
    VideoParams,
    /// The audio parameters are not well quoted.
    AudioParams,
    /// The input path of the task is not a valid path.
    InputPath,
}

/// Arguments of the encoder that reads `input`, encodes video with
/// `v_codec` and `v_args` and audio with `a_codec` and `a_args`, and writes
/// Matroska to `output`.
pub open spec fn spec_ffmpeg_args(
    input: Seq<char>,
    output: Seq<char>,
    v_codec: Seq<char>,
    v_args: Seq<Seq<char>>,
    a_codec: Seq<char>,
    a_args: Seq<Seq<char>>,
) -> Seq<Seq<char>> {
    seq!["-i"@, input, "-c:v"@, v_codec] + v_args + seq!["-c:a"@, a_codec] + a_args + seq![
        "-f"@,
        "matroska"@,
        output,
    ]
}

fn push_str(v: &mut Vec<String>, s: &str)
    ensures
        views(final(v)@) == views(old(v)@).push(s@),
{
    let ghost prev = v@;
    v.push(String::from_str(s));
    proof {
        assert(views(v@) =~= views(prev).push(s@));
    }
}

fn push_all(v: &mut Vec<String>, more: Vec<String>)
    ensures
        views(final(v)@) == views(old(v)@) + views(more@),
{
    let ghost prev = v@;
    let mut more = more;
    let ghost m = more@;
    v.append(&mut more);
    proof {
        assert(views(v@) =~= views(prev) + views(m));
    }
}

/// The arguments of the encoder for the given words of the parameters.
pub fn ffmpeg_args(
    input: &str,
    output: &str,
    v_codec: &str,
    v_args: Vec<String>,
    a_codec: &str,
    a_args: Vec<String>,
) -> (r: Vec<String>)
    ensures
        views(r@) == spec_ffmpeg_args(
            input@,
            output@,
            v_codec@,
            views(v_args@),
            a_codec@,
            views(a_args@),
        ),
{
    let mut r: Vec<String> = Vec::new();
    push_str(&mut r, "-i");
    push_str(&mut r, input);
    push_str(&mut r, "-c:v");
    push_str(&mut r, v_codec);
    push_all(&mut r, v_args);
    push_str(&mut r, "-c:a");
    push_str(&mut r, a_codec);
    push_all(&mut r, a_args);
    push_str(&mut r, "-f");
    push_str(&mut r, "matroska");
    push_str(&mut r, output);
    proof {
        assert(views(r@) =~= spec_ffmpeg_args(
            input@,
            output@,
            v_codec@,
            views(v_args@),
            a_codec@,
            views(a_args@),
        ));
    }
    r
}

/// The arguments of the encoder that runs a task, reading from `input_url`
/// and uploading to `output_url`. Fails when a parameter list is not well
/// quoted; the video parameters are split first.
pub fn args_for_urls(input_url: &str, output_url: &str, task: &WorkerTask) -> (r: Result<
    Vec<String>,
    CommandError,
>)
    ensures
        match r {
            Ok(args) => shell_split(task.v_params@) matches Some(v) && shell_split(task.a_params@) matches Some(a)
                && views(args@) == spec_ffmpeg_args(
                input_url@,
                output_url@,
                task.v_codec@,
                v,
                task.a_codec@,
                a,
            ),
            Err(CommandError::VideoParams) => shell_split(task.v_params@) is None,
            Err(CommandError::AudioParams) => shell_split(task.v_params@) is Some && shell_split(
                task.a_params@,
            ) is None,
            Err(CommandError::InputPath) => false,
        },
{
    let v_args = match split_words(task.v_params.as_str()) {
        Ok(v) => v,
        Err(_) => {
            return Err(CommandError::VideoParams);
        },
    };
    let a_args = match split_words(task.a_params.as_str()) {
        Ok(a) => a,
        Err(_) => {
            return Err(CommandError::AudioParams);
        },
    };
    Ok(
        ffmpeg_args(
            input_url,
            output_url,
            task.v_codec.as_str(),
            v_args,
            task.a_codec.as_str(),
            a_args,
        ),
    )
}

/// The identifiers of a task as a worker receives them: the 16 big-endian
/// bytes of the job's UUID and of the task's.
#[derive(Clone, Debug, PartialEq, Eq)]
pub struct WorkerTaskId {
    pub job_id: Vec<u8>,
    pub task_id: Vec<u8>,
}

/// A task as the server hands it to a worker: its identifiers, if any, and
/// what to run.
#[derive(Clone, Debug, PartialEq, Eq)]
pub struct ClientTask {
    pub id: Option<WorkerTaskId>,
    pub work: WorkerTask,
}

/// The text that `http::uri::PathAndQuery` keeps of a path and query when it
/// accepts it, as its `Display` writes it; `None` when it refuses the text.
pub uninterp spec fn spec_path_and_query(s: Seq<char>) -> Option<Seq<char>>;

/// A path made only of ASCII letters, digits, `-`, `.`, `_` and `/`,
/// starting with `/` and shorter than 65535 characters.
pub open spec fn is_plain_path(s: Seq<char>) -> bool {
    &&& 0 < s.len() < 65535
    &&& s[0] == '/'
    &&& forall|i: int| 0 <= i < s.len() ==> is_plain_path_char(#[trigger] s[i])
}

/// An ASCII letter or digit, `-`, `.`, `_` or `/`.
pub open spec fn is_plain_path_char(c: char) -> bool {
    ('a' <= c <= 'z') || ('A' <= c <= 'Z') || ('0' <= c <= '9') || c == '-' || c == '.' || c == '_'
        || c == '/'
}

/// Calls `PathAndQuery::from_str` and writes the result back with
/// `to_string`. The result depends on the text alone; a plain path (only
/// characters that need no escaping in a path, starting with `/`) is
/// accepted and written back unchanged.
#[verifier::external_body]
fn path_and_query(s: &str) -> (r: Option<String>)
    ensures
        match r {
            Some(p) => spec_path_and_query(s@) == Some(p@),
            None => spec_path_and_query(s@) is None,
        },
        is_plain_path(s@) ==> r is Some && r.unwrap()@ == s@,
{
    match s.parse::<PathAndQuery>() {
        Ok(p) => Some(p.to_string()),
        Err(_) => None,
    }
}

/// The text of `a` followed by `b`.
fn join(a: &str, b: &str) -> (r: String)
    ensures
        r@ == a@ + b@,
{
    let mut r = String::from_str(a);
    r.append(b);
    r
}

/// The output path of a task is a plain path.
proof fn lemma_output_path_is_plain(job_id: u128, task_id: u128)
    ensures
        is_plain_path(spec_output_path(job_id, task_id)),
{
    lemma_hyphenated_is_plain(job_id);
    lemma_hyphenated_is_plain(task_id);
    let p = spec_output_path(job_id, task_id);
    let a = "/api/jobs/"@;
    let j = spec_hyphenated(job_id);
    let b = "/tasks/"@;
    let t = spec_hyphenated(task_id);
    let c = "/output"@;
    reveal_strlit("/api/jobs/");
    reveal_strlit("/tasks/");
    reveal_strlit("/output");
    assert(p == a + j + b + t + c);
    assert(p.len() == 96);
    assert forall|i: int| 0 <= i < p.len() implies is_plain_path_char(#[trigger] p[i]) by {
        if i < 10 {
            assert(p[i] == a[i]);
        } else if i < 46 {
            assert(p[i] == j[i - 10]);
        } else if i < 53 {
            assert(p[i] == b[i - 46]);
        } else if i < 89 {
            assert(p[i] == t[i - 53]);
        } else {
            assert(p[i] == c[i - 89]);
        }
    }
}

/// The hyphenated form of a UUID is made of hyphens, digits and lowercase
/// letters.
proof fn lemma_hyphenated_is_plain(id: u128)
    ensures
        spec_hyphenated(id).len() == 36,
        forall|i: int| 0 <= i < 36 ==> is_plain_path_char(#[trigger] spec_hyphenated(id)[i]),
{
    assert forall|i: int| 0 <= i < 36 implies is_plain_path_char(#[trigger] spec_hyphenated(id)[i]) by {
        if !(i == 8 || i == 13 || i == 18 || i == 23) {
            let sh = ((31 - (i - hyphens_before(i))) * 4) as u128;
            let x = id >> sh;
            assert(x & 0xfu128 <= 0xfu128) by (bit_vector);
            assert(nibble(id, i - hyphens_before(i)) <= 15);
        }
    }
}

/// The arguments of the encoder that runs a task received from the server
/// at `origin` (its scheme and authority, such as `http://host:8000`): it
/// reads the task's input path and uploads to the task's output path, both
/// on that server. Fails when the input path is not a valid path, or a
/// parameter list is not well quoted, checked in that order.
pub fn task_to_command(origin: &str, task: &ClientTask) -> (r: Result<Vec<String>, CommandError>)
    requires
        task.id matches Some(id) && id.job_id@.len() == 16 && id.task_id@.len() == 16,
    ensures
        ({
            let id = task.id.unwrap();
            let output = origin@ + spec_output_path(
                big_endian(id.job_id@) as u128,
                big_endian(id.task_id@) as u128,
            );
            let w = task.work;
            match r {
                Ok(args) => spec_path_and_query(w.input_path@) matches Some(path) && shell_split(
                    w.v_params@,
                ) matches Some(v) && shell_split(w.a_params@) matches Some(a) && views(args@)
                    == spec_ffmpeg_args(origin@ + path, output, w.v_codec@, v, w.a_codec@, a),
                Err(CommandError::InputPath) => spec_path_and_query(w.input_path@) is None,
                Err(CommandError::VideoParams) => spec_path_and_query(w.input_path@) is Some
                    && shell_split(w.v_params@) is None,
                Err(CommandError::AudioParams) => spec_path_and_query(w.input_path@) is Some
                    && shell_split(w.v_params@) is Some && shell_split(w.a_params@) is None,
            }
        }),
        is_plain_path(task.work.input_path@) ==> (r matches Ok(_) ==> spec_path_and_query(
            task.work.input_path@,
        ) == Some(task.work.input_path@)),
{
    let id = task.id.as_ref().unwrap();
    let job_id = uuid_from_slice(id.job_id.as_slice()).unwrap();
    let task_id = uuid_from_slice(id.task_id.as_slice()).unwrap();
    let out_path = output_path(job_id, task_id);
    proof {
        lemma_output_path_is_plain(job_id, task_id);
    }
    let out_path = path_and_query(out_path.as_str()).unwrap();
    let output = join(origin, out_path.as_str());
    let in_path = match path_and_query(task.work.input_path.as_str()) {
        Some(p) => p,
        None => {
            return Err(CommandError::InputPath);
        },
    };
    let input = join(origin, in_path.as_str());
    args_for_urls(input.as_str(), output.as_str(), &task.work)
}

/// An input of a transcoding task as the encoder reads it: the URL, and
/// where to start and stop reading, as texts of seconds.
#[derive(Clone, Debug, PartialEq, Eq)]
pub struct InputArgs {
    pub url: String,
    pub start: Option<String>,
    pub end: Option<String>,
}

/// The arguments that read one input: the start and end offsets when given,
/// then the authorization header and the URL.
pub open spec fn spec_input_args(
    url: Seq<char>,
    start: Option<Seq<char>>,
    end: Option<Seq<char>>,
    creds: Seq<char>,
) -> Seq<Seq<char>> {
    (match start {
        Some(s) => seq!["-ss"@, s],
        None => Seq::empty(),
    }) + (match end {
        Some(e) => seq!["-to"@, e],
        None => Seq::empty(),
    }) + seq!["-headers"@, "Authorization: "@ + creds, "-i"@, url]
}

/// The view of an optional string.
pub open spec fn opt_chars(s: Option<String>) -> Option<Seq<char>> {
    match s {
        Some(v) => Some(v@),
        None => None,
    }
}

/// The arguments that read every input, in order.
pub open spec fn spec_inputs_args(inputs: Seq<InputArgs>, creds: Seq<char>) -> Seq<Seq<char>>
    decreases inputs.len(),
{
    if inputs.len() == 0 {
        Seq::empty()
    } else {
        spec_inputs_args(inputs.drop_last(), creds) + spec_input_args(
            inputs.last().url@,
            opt_chars(inputs.last().start),
            opt_chars(inputs.last().end),
            creds,
        )
    }
}

/// The encoder arguments of a transcoding task: every input, then the video
/// codec and the video parameters.
pub fn transcode_args(inputs: &Vec<InputArgs>, creds: &str, codec: &str, params: &Vec<String>) -> (r:
    Vec<String>)
    ensures
        views(r@) == spec_inputs_args(inputs@, creds@) + seq!["-c:v"@, codec@] + views(params@),
{
    let mut r: Vec<String> = Vec::new();
    let mut i: usize = 0;
    let mut auth = String::from_str("Authorization: ");
    auth.append(creds);
    while i < inputs.len()
        invariant
            i <= inputs@.len(),
            auth@ == "Authorization: "@ + creds@,
            views(r@) == spec_inputs_args(inputs@.take(i as int), creds@),
        decreases inputs@.len() - i,
    {
        let input = &inputs[i];
        let ghost before = views(r@);
        match &input.start {
            Some(s) => {
                push_str(&mut r, "-ss");
                push_str(&mut r, s.as_str());
            },
            None => {},
        }
        match &input.end {
            Some(e) => {
                push_str(&mut r, "-to");
                push_str(&mut r, e.as_str());
            },
            None => {},
        }
        push_str(&mut r, "-headers");
        push_str(&mut r, auth.as_str());
        push_str(&mut r, "-i");
        push_str(&mut r, input.url.as_str());
        proof {
            assert(inputs@.take(i + 1).drop_last() =~= inputs@.take(i as int));
            assert(inputs@.take(i + 1).last() == *input);
            assert(views(r@) =~= before + spec_input_args(
                input.url@,
                opt_chars(input.start),
                opt_chars(input.end),
                creds@,
            ));
        }
        i = i + 1;
    }
    proof {
        assert(inputs@.take(inputs@.len() as int) == inputs@);
    }
    push_str(&mut r, "-c:v");
    push_str(&mut r, codec);
    let ghost before = views(r@);
    push_all(&mut r, crate::task::copy_strings(params));
    proof {
        assert(views(r@) =~= spec_inputs_args(inputs@, creds@) + seq!["-c:v"@, codec@] + views(
            params@,
        ));
    }
    r
}

/// Arguments that the runner adds to every command: progress reports on the
/// error stream, no other output there, and Matroska on the standard output.
pub open spec fn spec_runner_args() -> Seq<Seq<char>> {
    seq!["-progress"@, "pipe:2"@, "-nostats"@, "-v"@, "quiet"@, "-f"@, "matroska"@, "-"@]
}

/// The full argument list the runner passes to the encoder for a task's
/// arguments.
pub fn runner_args(args: Vec<String>) -> (r: Vec<String>)
    ensures
        views(r@) == views(args@) + spec_runner_args(),
{
    let mut r = args;
    push_str(&mut r, "-progress");
    push_str(&mut r, "pipe:2");
    push_str(&mut r, "-nostats");
    push_str(&mut r, "-v");
    push_str(&mut r, "quiet");
    push_str(&mut r, "-f");
    push_str(&mut r, "matroska");
    push_str(&mut r, "-");
    proof {
        assert(views(r@) =~= views(args@) + spec_runner_args());
    }
    r
}

/// The task handed to a worker carries every encoder parameter of its job:
/// each one given is passed on as it is, and each one missing becomes an
/// empty text.
pub proof fn law_worker_task_carries_job_parameters(w: WorkerTask, params: JobParams)
    requires
        is_worker_task_of(w, params),
    ensures
        params.video_encoder matches Some(c) ==> w.v_codec@ == c@,
        params.video_args matches Some(a) ==> w.v_params@ == a@,
        params.audio_encoder matches Some(c) ==> w.a_codec@ == c@,
        params.audio_args matches Some(a) ==> w.a_params@ == a@,
        params.video_encoder is None ==> w.v_codec@.len() == 0,
        params.video_args is None ==> w.v_params@.len() == 0,
        params.audio_encoder is None ==> w.a_codec@.len() == 0,
        params.audio_args is None ==> w.a_params@.len() == 0,
{
}

} // verus!
