//! The server's HTTP API: what each request does to the tokens, jobs and
//! stored files of the server, and the status code that answers it.
//!
//! Requests other than `/login` carry a token handed out by `/login` in their
//! `Authorization` header; see [`AppStateLocal::authorize`].

use vstd::prelude::*;

use crate::auth::{AuthModel, LocalAuthenticator};
use crate::clients::{parse_uuid, spec_parse_uuid};
use crate::ids::is_random_uuid;
use crate::headers::{ascii_chars, byte_views, header_text, is_visible_ascii_seq, views};
use crate::job_db::{
    first_with_run_id, has_available, allocated_in, lemma_first_with_run_id, lemma_first_with_run_id_props,
    with_fulfilled, with_status, DbError, JobModel,
};
use crate::manager::{allocated_index, input_deps, task_output, JobManager, ManagerError, ManagerModel};
use crate::models;
use crate::models::{instance_to_model, is_task_model, spec_task_source_from_request, status_from_model, task_source_from_request};
use crate::paths::{decimal_string, spec_decimal, spec_hyphenated, uuid_to_string};
use crate::storage::MemStorage;
use crate::task::{
    Input, InstanceView, JobOptions, JobSource, Options, Recipe, RecipeView, TaskSource,
    TaskSourceView, TaskState,
};

verus! {

pub const CREATED: u16 = 201;
pub const ACCEPTED: u16 = 202;
pub const NO_CONTENT: u16 = 204;
pub const BAD_REQUEST: u16 = 400;
pub const FORBIDDEN: u16 = 403;
pub const NOT_FOUND: u16 = 404;
pub const UNPROCESSABLE_ENTITY: u16 = 422;
pub const INTERNAL_SERVER_ERROR: u16 = 500;
pub const SERVICE_UNAVAILABLE: u16 = 503;

/// An error answer: its status code, and the text of its body if it has one.
#[derive(Clone, Copy, Debug, PartialEq, Eq)]
pub struct ErrorReply {
    pub status: u16,
    pub text: Option<&'static str>,
}

/// `e` answers with `status` and the body `text`.
pub open spec fn replies(e: ErrorReply, status: u16, text: Seq<char>) -> bool {
    &&& e.status == status
    &&& e.text matches Some(t)
    &&& e.text.unwrap()@ == text
}

/// The hyphenated text of a UUID, as the API writes identifiers.
pub fn hyphenated(id: u128) -> (r: String)
    ensures
        r@ == spec_hyphenated(id),
{
    uuid_to_string(id)
}

/// Reads an identifier from the text of a request path, as the API writes
/// identifiers: the hyphenated form of a UUID reads as that UUID.
pub fn parse_id(text: &str) -> (r: Option<u128>)
    ensures
        r == spec_parse_uuid(text@),
        forall|id: u128| text@ == #[trigger] spec_hyphenated(id) ==> r == Some(id),
{
    parse_uuid(text)
}

/// Model of the server: the credential that `/login` accepts, the tokens,
/// the jobs and the stored files.
pub struct AppModel {
    pub credential: Seq<char>,
    pub tokens: AuthModel,
    pub jobs: ManagerModel,
    pub files: Map<u128, Seq<u8>>,
}

/// The state of the server.
pub struct AppStateLocal {
    credential: String,
    auth_handler: LocalAuthenticator,
    manager: JobManager,
    storage: MemStorage,
}

impl View for AppStateLocal {
    type V = AppModel;

    closed spec fn view(&self) -> AppModel {
        AppModel {
            credential: self.credential@,
            tokens: self.auth_handler@,
            jobs: self.manager@,
            files: self.storage@,
        }
    }
}

/// The counter of tokens after one more token: it wraps around.
pub open spec fn next_counter(c: usize) -> usize {
    if c == usize::MAX {
        0
    } else {
        (c + 1) as usize
    }
}

impl AppStateLocal {
    /// The state is well formed.
    pub closed spec fn well_formed(&self) -> bool {
        self.manager.well_formed()
    }

    /// A server that accepts the credential `cred`, without tokens, jobs or
    /// files.
    pub fn with_cred(cred: &str) -> (r: AppStateLocal)
        ensures
            r.well_formed(),
            r@ == (AppModel {
                credential: cred@,
                tokens: AuthModel { counter: 0, perms: Map::empty() },
                jobs: Map::empty(),
                files: Map::empty(),
            }),
    {
        AppStateLocal {
            credential: String::from_str(cred),
            auth_handler: LocalAuthenticator::new(),
            manager: JobManager::new(),
            storage: MemStorage::new(),
        }
    }

    /// The job manager.
    pub fn manager(&self) -> (r: &JobManager)
        ensures
            r@ == self@.jobs,
            self.well_formed() ==> r.well_formed(),
    {
        &self.manager
    }

    /// The tokens.
    pub fn auth_handler(&self) -> (r: &LocalAuthenticator)
        ensures
            r@ == self@.tokens,
    {
        &self.auth_handler
    }

    /// The stored files.
    pub fn storage(&self) -> (r: &MemStorage)
        ensures
            r@ == self@.files,
    {
        &self.storage
    }

    /// `cred` is the credential the server accepts.
    pub fn check_credential(&self, cred: &str) -> (r: bool)
        ensures
            r == (cred@ == self@.credential),
    {
        let given = String::from_str(cred);
        self.credential == given
    }

    /// `/login`: exchanges the credential of the `credentials` header for a
    /// new token. Without a readable header the request is bad; with another
    /// credential it is forbidden.
    pub fn login(&mut self, credentials: Option<&[u8]>) -> (r: Result<String, u16>)
        requires
            old(self).well_formed(),
        ensures
            final(self).well_formed(),
            match credentials {
                Some(c) if is_visible_ascii_seq(c@) && ascii_chars(c@) == old(self)@.credential => {
                    &&& r matches Ok(t)
                    &&& r.unwrap()@ == spec_decimal(old(self)@.tokens.counter as nat)
                    &&& final(self)@ == (AppModel {
                        tokens: AuthModel {
                            counter: next_counter(old(self)@.tokens.counter),
                            perms: old(self)@.tokens.perms.insert(r.unwrap()@, Set::empty()),
                        },
                        ..old(self)@
                    })
                },
                Some(c) if is_visible_ascii_seq(c@) => r == Err::<String, u16>(FORBIDDEN)
                    && final(self)@ == old(self)@,
                _ => r == Err::<String, u16>(BAD_REQUEST) && final(self)@ == old(self)@,
            },
    {
        let provided = match credentials {
            None => {
                return Err(BAD_REQUEST);
            },
            Some(c) => match header_text(c) {
                Ok(t) => t,
                Err(_) => {
                    return Err(BAD_REQUEST);
                },
            },
        };
        if self.check_credential(provided.as_str()) {
            let token = self.auth_handler.new_token();
            Ok(token)
        } else {
            Err(FORBIDDEN)
        }
    }

    /// Checks the token of a request, from its `Authorization` header:
    /// without a readable header the request is forbidden as missing its
    /// authorization, with a token that is not valid as badly authorized.
    pub fn authorize(&self, authorization: Option<&[u8]>) -> (r: Result<String, ErrorReply>)
        ensures
            match authorization {
                Some(h) if is_visible_ascii_seq(h@) => if self@.tokens.perms.contains_key(
                    ascii_chars(h@),
                ) {
                    r is Ok && r.unwrap()@ == ascii_chars(h@)
                } else {
                    r is Err && replies(r->Err_0, FORBIDDEN, "Bad authorization"@)
                },
                _ => r is Err && replies(r->Err_0, FORBIDDEN, "Missing authorization"@),
            },
    {
        let header = match authorization {
            None => {
                return Err(ErrorReply { status: FORBIDDEN, text: Some("Missing authorization") });
            },
            Some(h) => match header_text(h) {
                Ok(t) => t,
                Err(_) => {
                    return Err(
                        ErrorReply { status: FORBIDDEN, text: Some("Missing authorization") },
                    );
                },
            },
        };
        let valid = match self.auth_handler.is_valid(header.as_str()) {
            Ok(v) => v,
            Err(_) => false,
        };
        if valid {
            Ok(header)
        } else {
            Err(ErrorReply { status: FORBIDDEN, text: Some("Bad authorization") })
        }
    }
}

/// The headers of a job request give a readable `video_codec` and readable
/// `video_param` values.
pub open spec fn job_headers_valid(video_codec: Option<&[u8]>, video_params: Seq<Vec<u8>>) -> bool {
    &&& video_codec matches Some(c)
    &&& is_visible_ascii_seq(video_codec.unwrap()@)
    &&& forall|i: int| 0 <= i < video_params.len() ==> is_visible_ascii_seq(#[trigger] video_params[i]@)
}

/// The options of a job request: the video codec of the `video_codec`
/// header, and each `video_param` header as one parameter. A missing or
/// unreadable header makes the request bad.
pub fn job_post_options(video_codec: Option<&[u8]>, video_params: &[Vec<u8>]) -> (r: Result<JobOptions, u16>)
    ensures
        match r {
            Ok(o) => {
                &&& job_headers_valid(video_codec, video_params@)
                &&& o.video.codec matches Some(c)
                &&& o.video.codec.unwrap()@ == ascii_chars(video_codec.unwrap()@)
                &&& views(o.video.params@) == byte_views(video_params@).map_values(
                    |b: Seq<u8>| ascii_chars(b),
                )
                &&& o.audio is None
            },
            Err(e) => e == BAD_REQUEST && !job_headers_valid(video_codec, video_params@),
        },
{
    let codec = match video_codec {
        None => {
            return Err(BAD_REQUEST);
        },
        Some(c) => match header_text(c) {
            Ok(t) => t,
            Err(_) => {
                return Err(BAD_REQUEST);
            },
        },
    };
    let mut params: Vec<String> = Vec::new();
    let mut i: usize = 0;
    while i < video_params.len()
        invariant
            i <= video_params@.len(),
            forall|k: int| 0 <= k < i ==> is_visible_ascii_seq(#[trigger] video_params@[k]@),
            views(params@) == byte_views(video_params@.take(i as int)).map_values(
                |b: Seq<u8>| ascii_chars(b),
            ),
        decreases video_params@.len() - i,
    {
        let p = match header_text(video_params[i].as_slice()) {
            Ok(t) => t,
            Err(_) => {
                return Err(BAD_REQUEST);
            },
        };
        let ghost before = params@;
        params.push(p);
        proof {
            assert(video_params@.take(i + 1) =~= video_params@.take(i as int).push(video_params@[i as int]));
            assert(views(params@) =~= views(before).push(p@));
            assert(byte_views(video_params@.take(i + 1)).map_values(|b: Seq<u8>| ascii_chars(b))
                =~= byte_views(video_params@.take(i as int)).map_values(|b: Seq<u8>| ascii_chars(b)).push(
                ascii_chars(video_params@[i as int]@),
            ));
        }
        i = i + 1;
    }
    proof {
        assert(video_params@.take(video_params@.len() as int) =~= video_params@);
    }
    Ok(JobOptions { video: Options { codec: Some(codec), params }, audio: None })
}

/// The task every new job starts with: an analysis of the job's source.
pub open spec fn analysis_task_view() -> TaskSourceView {
    TaskSourceView {
        inputs: seq![Input { index: 0, start: None, end: None }],
        recipe: RecipeView::Analysis(None),
    }
}

/// `post` holds the jobs of `pre` and one more job, `job_id`, whose first and
/// only task is the analysis of its source.
pub open spec fn job_added(pre: ManagerModel, post: ManagerModel, job_id: u128) -> bool {
    &&& post.contains_key(job_id)
    &&& post.remove(job_id) == pre.remove(job_id)
    &&& post[job_id].tasks.len() == 1
    &&& post[job_id].tasks[0].task@ == analysis_task_view()
    &&& post[job_id].tasks[0].run_id is None
    &&& post[job_id].tasks[0].deps == Set::<u32>::empty()
    &&& post[job_id].tasks[0].status is None
}

impl AppStateLocal {
    /// `/job` (post): stores the request's body as the job's source and
    /// creates the job, with the options of its headers and an analysis task.
    /// Returns the job's identifier; the request is bad when a header is
    /// missing or unreadable, and then nothing changes.
    pub fn job_post(&mut self, video_codec: Option<&[u8]>, video_params: &[Vec<u8>], body: Vec<u8>) -> (r:
        Result<u128, u16>)
        requires
            old(self).well_formed(),
        ensures
            final(self).well_formed(),
            match r {
                Ok(job_id) => {
                    &&& job_headers_valid(video_codec, video_params@)
                    &&& is_random_uuid(job_id)
                    &&& final(self)@.credential == old(self)@.credential
                    &&& final(self)@.tokens == old(self)@.tokens
                    &&& job_added(old(self)@.jobs, final(self)@.jobs, job_id)
                    &&& final(self)@.files == old(self)@.files.insert(
                        final(self)@.jobs[job_id].job.input_id,
                        body@,
                    )
                    &&& final(self)@.jobs[job_id].job.options.video.codec matches Some(c)
                    &&& final(self)@.jobs[job_id].job.options.video.codec.unwrap()@ == ascii_chars(
                        video_codec.unwrap()@,
                    )
                    &&& views(final(self)@.jobs[job_id].job.options.video.params@) == byte_views(
                        video_params@,
                    ).map_values(|b: Seq<u8>| ascii_chars(b))
                    &&& final(self)@.jobs[job_id].job.options.audio is None
                },
                Err(e) => e == BAD_REQUEST && !job_headers_valid(video_codec, video_params@)
                    && final(self)@ == old(self)@,
            },
    {
        let options = match job_post_options(video_codec, video_params) {
            Ok(o) => o,
            Err(e) => {
                return Err(e);
            },
        };
        let input_id = self.storage.store_file(body);
        let job_id = match self.manager.create_job(JobSource { input_id, options }) {
            Ok(id) => id,
            Err(_) => {
                return Err(INTERNAL_SERVER_ERROR);
            },
        };
        let mut inputs: Vec<Input> = Vec::new();
        inputs.push(Input::source());
        let ghost mid = self.manager@;
        match self.manager.add_task_to_job(&job_id, TaskSource { inputs, recipe: Recipe::Analysis(None) }) {
            Ok(_) => {},
            Err(_) => {
                return Err(INTERNAL_SERVER_ERROR);
            },
        }
        proof {
            assert(input_deps(seq![Input { index: 0, start: None, end: None }]) =~= Set::<u32>::empty());
            assert(self@.jobs.remove(job_id) =~= old(self)@.jobs.remove(job_id));
        }
        Ok(job_id)
    }
}

/// The instance that task `idx` of job `j` gives when it is allocated under
/// `task_id`.
pub open spec fn instance_view_of(
    j: JobModel<JobSource, TaskSource, TaskState>,
    job_id: u128,
    task_id: u128,
    idx: int,
) -> InstanceView {
    InstanceView {
        job_id,
        task_id,
        inputs: j.tasks[idx].task@.inputs,
        recipe: j.tasks[idx].task@.recipe,
        job_options: j.job@.options,
    }
}

/// Task `task_id` of job `job_id` was allocated from `pre` to `post`, and
/// `t` is the message that hands it to the worker.
pub open spec fn handed_out(pre: ManagerModel, post: ManagerModel, job_id: u128, task_id: u128, t: models::Task) -> bool {
    &&& is_random_uuid(task_id)
    &&& pre.contains_key(job_id)
    &&& allocated_in(pre, post, job_id, task_id)
    &&& allocated_index(post, job_id, task_id) is Some
    &&& is_task_model(
        t,
        instance_view_of(post[job_id], job_id, task_id, allocated_index(post, job_id, task_id).unwrap()),
    )
}

/// `post` is `pre` with task `t` appended to job `job_id`; the task waits on
/// the tasks whose outputs it reads.
pub open spec fn task_appended(pre: ManagerModel, post: ManagerModel, job_id: u128, t: TaskSourceView) -> bool {
    &&& pre.contains_key(job_id)
    &&& post.contains_key(job_id)
    &&& post.remove(job_id) == pre.remove(job_id)
    &&& post[job_id].job == pre[job_id].job
    &&& post[job_id].tasks.drop_last() == pre[job_id].tasks
    &&& post[job_id].tasks.len() == pre[job_id].tasks.len() + 1
    &&& post[job_id].tasks.last().task@ == t
    &&& post[job_id].tasks.last().run_id is None
    &&& post[job_id].tasks.last().deps == input_deps(t.inputs)
    &&& post[job_id].tasks.last().status is None
}

/// The request to append `t` to job `job_id` cannot be met: the job does not
/// exist, or the task reads the output of a task that does not come before
/// it.
pub open spec fn append_not_found(m: ManagerModel, job_id: u128, t: TaskSourceView) -> bool {
    ||| !m.contains_key(job_id)
    ||| exists|d: u32| input_deps(t.inputs).contains(d) && d >= m[job_id].tasks.len()
}

impl AppStateLocal {
    /// `/allocate_task`: allocates an available task and hands it to the
    /// worker; the service is unavailable while no task is.
    #[verifier::rlimit(30)]
    pub fn allocate_task(&mut self) -> (r: Result<models::Task, u16>)
        requires
            old(self).well_formed(),
        ensures
            final(self).well_formed(),
            final(self)@.credential == old(self)@.credential,
            final(self)@.tokens == old(self)@.tokens,
            final(self)@.files == old(self)@.files,
            match r {
                Ok(t) => exists|job_id: u128, task_id: u128|
                    #[trigger] handed_out(old(self)@.jobs, final(self)@.jobs, job_id, task_id, t),
                Err(e) => e == SERVICE_UNAVAILABLE && !has_available(old(self)@.jobs) && final(self)@
                    == old(self)@,
            },
    {
        match self.manager.allocate_task() {
            Ok(Some(inst)) => {
                let ghost iv = inst@;
                let t = instance_to_model(inst);
                proof {
                    let idx = allocated_index(self@.jobs, iv.job_id, iv.task_id).unwrap();
                    assert(iv == instance_view_of(self@.jobs[iv.job_id], iv.job_id, iv.task_id, idx));
                    assert(handed_out(old(self)@.jobs, self@.jobs, iv.job_id, iv.task_id, t));
                }
                Ok(t)
            },
            Ok(None) => Err(SERVICE_UNAVAILABLE),
            Err(_) => Err(INTERNAL_SERVER_ERROR),
        }
    }

    /// The content of input `input_idx` of the task allocated under
    /// `task_id`: the job's source. Not found when no task of the job carries
    /// that allocation; a server error when the task has no such input or the
    /// file is missing.
    pub fn get_task_input_file(&self, job_id: u128, task_id: u128, input_idx: u32) -> (r: Result<
        &Vec<u8>,
        u16,
    >)
        requires
            self.well_formed(),
        ensures
            match allocated_index(self@.jobs, job_id, task_id) {
                None => r == Err::<&Vec<u8>, u16>(NOT_FOUND),
                Some(idx) => {
                    let file = self@.jobs[job_id].job.input_id;
                    if input_idx < self@.jobs[job_id].tasks[idx].task@.inputs.len()
                        && self@.files.contains_key(file) {
                        r is Ok && r.unwrap()@ == self@.files[file]
                    } else {
                        r == Err::<&Vec<u8>, u16>(INTERNAL_SERVER_ERROR)
                    }
                },
            },
    {
        let file = match self.manager.get_allocated_task_input(&job_id, &task_id, input_idx) {
            Ok(Some(f)) => f,
            Ok(None) => {
                return Err(NOT_FOUND);
            },
            Err(_) => {
                return Err(INTERNAL_SERVER_ERROR);
            },
        };
        match self.storage.read_file(file) {
            Ok(content) => Ok(content),
            Err(_) => Err(INTERNAL_SERVER_ERROR),
        }
    }

    /// Appends a task a worker sent to a job and returns its index. An
    /// unreadable task is a bad request; a missing job, or an input that reads
    /// a task that does not come before, is not found.
    pub fn append_task_to_job(&mut self, job_id: u128, request: models::TaskRequest) -> (r: Result<
        u32,
        u16,
    >)
        requires
            old(self).well_formed(),
        ensures
            final(self).well_formed(),
            final(self)@.credential == old(self)@.credential,
            final(self)@.tokens == old(self)@.tokens,
            final(self)@.files == old(self)@.files,
            match spec_task_source_from_request(request) {
                None => r == Err::<u32, u16>(BAD_REQUEST) && final(self)@ == old(self)@,
                Some(t) => match r {
                    Ok(idx) => idx == old(self)@.jobs[job_id].tasks.len() && task_appended(
                        old(self)@.jobs,
                        final(self)@.jobs,
                        job_id,
                        t,
                    ),
                    Err(e) => final(self)@ == old(self)@ && (if append_not_found(
                        old(self)@.jobs,
                        job_id,
                        t,
                    ) {
                        e == NOT_FOUND
                    } else {
                        e == INTERNAL_SERVER_ERROR && old(self)@.jobs[job_id].tasks.len() > u32::MAX
                    }),
                },
            },
    {
        let task = match task_source_from_request(request) {
            Ok(t) => t,
            Err(()) => {
                return Err(BAD_REQUEST);
            },
        };
        self.add_task(job_id, task)
    }

    /// Appends a task to a job.
    fn add_task(&mut self, job_id: u128, task: TaskSource) -> (r: Result<u32, u16>)
        requires
            old(self).well_formed(),
        ensures
            final(self).well_formed(),
            final(self)@.credential == old(self)@.credential,
            final(self)@.tokens == old(self)@.tokens,
            final(self)@.files == old(self)@.files,
            match r {
                Ok(idx) => idx == old(self)@.jobs[job_id].tasks.len() && task_appended(
                    old(self)@.jobs,
                    final(self)@.jobs,
                    job_id,
                    task@,
                ),
                Err(e) => final(self)@ == old(self)@ && (if append_not_found(
                    old(self)@.jobs,
                    job_id,
                    task@,
                ) {
                    e == NOT_FOUND
                } else {
                    e == INTERNAL_SERVER_ERROR && old(self)@.jobs[job_id].tasks.len() > u32::MAX
                }),
            },
    {
        let ghost tv = task@;
        match self.manager.add_task_to_job(&job_id, task) {
            Ok(idx) => {
                proof {
                    assert(self@.jobs.remove(job_id) =~= old(self)@.jobs.remove(job_id));
                    assert(self@.jobs[job_id].tasks.drop_last() =~= old(self)@.jobs[job_id].tasks);
                    assert(self@.jobs[job_id].tasks.last().task@ == tv);
                    assert(self@.jobs[job_id].tasks.last().deps == input_deps(tv.inputs));
                }
                Ok(idx)
            },
            Err(DbError::JobNotFound) => Err(NOT_FOUND),
            Err(DbError::DependencyNotFound) => {
                proof {
                    let d = choose|d: u32|
                        input_deps(tv.inputs).contains(d) && d >= old(self)@.jobs[job_id].tasks.len();
                    assert(append_not_found(old(self)@.jobs, job_id, tv));
                }
                Err(NOT_FOUND)
            },
            Err(DbError::TaskNotFound) => Err(NOT_FOUND),
            Err(DbError::TooManyTasks) => Err(INTERNAL_SERVER_ERROR),
        }
    }

    /// `/job/{job_id}/task` (post): appends the task a worker sent to the
    /// job and answers with its index as text. A task that cannot be read is
    /// unprocessable; a missing job, or an input that reads a task that does
    /// not come before, is not found.
    pub fn task_post(&mut self, job_id: u128, request: models::TaskRequest) -> (r: Result<String, u16>)
        requires
            old(self).well_formed(),
        ensures
            final(self).well_formed(),
            final(self)@.credential == old(self)@.credential,
            final(self)@.tokens == old(self)@.tokens,
            final(self)@.files == old(self)@.files,
            match spec_task_source_from_request(request) {
                None => r == Err::<String, u16>(UNPROCESSABLE_ENTITY) && final(self)@ == old(self)@,
                Some(t) => match r {
                    Ok(text) => text@ == spec_decimal(old(self)@.jobs[job_id].tasks.len()) && task_appended(
                        old(self)@.jobs,
                        final(self)@.jobs,
                        job_id,
                        t,
                    ),
                    Err(e) => final(self)@ == old(self)@ && (if append_not_found(
                        old(self)@.jobs,
                        job_id,
                        t,
                    ) {
                        e == NOT_FOUND
                    } else {
                        e == INTERNAL_SERVER_ERROR && old(self)@.jobs[job_id].tasks.len() > u32::MAX
                    }),
                },
            },
    {
        let task = match task_source_from_request(request) {
            Ok(t) => t,
            Err(()) => {
                return Err(UNPROCESSABLE_ENTITY);
            },
        };
        match self.add_task(job_id, task) {
            Ok(idx) => Ok(decimal_string(idx as u64)),
            Err(e) => Err(e),
        }
    }
}

/// The output recorded for task `task_id` of job `job_id` while it is
/// allocated.
pub open spec fn allocated_output(m: ManagerModel, job_id: u128, task_id: u128) -> Option<u128> {
    match allocated_index(m, job_id, task_id) {
        None => None,
        Some(idx) => task_output(m, job_id, idx),
    }
}

/// The output of a job: that of its last task.
pub open spec fn job_output(m: ManagerModel, job_id: u128) -> Option<u128> {
    if m[job_id].tasks.len() == 0 {
        None
    } else {
        task_output(m, job_id, m[job_id].tasks.len() - 1)
    }
}

/// The answer to a request for the output of a job: not found for a missing
/// job, unavailable while the last task has no output.
pub open spec fn job_output_reply(jobs: ManagerModel, job_id: u128) -> Result<u128, ErrorReply> {
    if !jobs.contains_key(job_id) {
        Err(ErrorReply { status: NOT_FOUND, text: Some("Job not found") })
    } else if jobs[job_id].tasks.len() > u32::MAX {
        Err(ErrorReply { status: INTERNAL_SERVER_ERROR, text: Some("Server error") })
    } else {
        match job_output(jobs, job_id) {
            Some(file) => Ok(file),
            None => Err(ErrorReply { status: SERVICE_UNAVAILABLE, text: Some("Output not available yet") }),
        }
    }
}

impl AppStateLocal {
    /// `/job/{job_id}/task/{task_id}/output` (put): stores the body as the
    /// output of the task allocated under `task_id`. Not found, and nothing
    /// stored, when no task of the job carries that allocation.
    pub fn put_task_output(&mut self, job_id: u128, task_id: u128, body: Vec<u8>) -> (r: u16)
        requires
            old(self).well_formed(),
        ensures
            final(self).well_formed(),
            final(self)@.credential == old(self)@.credential,
            final(self)@.tokens == old(self)@.tokens,
            match allocated_index(old(self)@.jobs, job_id, task_id) {
                None => r == NOT_FOUND && final(self)@ == old(self)@,
                Some(idx) => {
                    &&& r == ACCEPTED
                    &&& exists|file: u128|
                        {
                            &&& #[trigger] final(self)@.files == old(self)@.files.insert(file, body@)
                            &&& final(self)@.jobs == old(self)@.jobs.insert(
                                job_id,
                                with_status(old(self)@.jobs[job_id], idx, TaskState { output: Some(file) }),
                            )
                        }
                },
            },
    {
        match self.manager.get_task(&job_id, &task_id) {
            Ok(Some(_)) => {},
            Ok(None) => {
                return NOT_FOUND;
            },
            Err(_) => {
                return INTERNAL_SERVER_ERROR;
            },
        }
        let file = self.storage.store_file(body);
        match self.manager.set_task_output(&job_id, &task_id, file) {
            Ok(_) => {
                proof {
                    assert(self@.files == old(self)@.files.insert(file, body@));
                }
                ACCEPTED
            },
            Err(_) => INTERNAL_SERVER_ERROR,
        }
    }

    /// `/job/{job_id}/task/{task_id}/status` (post): a worker reports the
    /// status of the task allocated under `task_id`. A finished task is
    /// fulfilled, so that the tasks that wait on it can run. Not found when no
    /// task of the job carries that allocation; reporting a running task is
    /// not implemented and answers a server error.
    pub fn task_status_post(&mut self, job_id: u128, task_id: u128, status: models::TaskStatus) -> (r:
        u16)
        requires
            old(self).well_formed(),
        ensures
            final(self).well_formed(),
            final(self)@.credential == old(self)@.credential,
            final(self)@.tokens == old(self)@.tokens,
            final(self)@.files == old(self)@.files,
            if status.successfully_completed != Some(true) {
                r == INTERNAL_SERVER_ERROR && final(self)@ == old(self)@
            } else {
                match allocated_index(old(self)@.jobs, job_id, task_id) {
                    None => r == NOT_FOUND && final(self)@ == old(self)@,
                    Some(idx) => r == NO_CONTENT && final(self)@.jobs == old(self)@.jobs.insert(
                        job_id,
                        with_fulfilled(old(self)@.jobs[job_id], idx as u32),
                    ),
                }
            },
    {
        let res = self.manager.update_task_status(&job_id, &task_id, status_from_model(status));
        match res {
            Ok(Some(_)) => NO_CONTENT,
            Ok(None) => NOT_FOUND,
            Err(_) => INTERNAL_SERVER_ERROR,
        }
    }

    /// The identifiers of the jobs, each once, in no particular order.
    pub fn get_job_list(&self) -> (r: Result<Vec<u128>, u16>)
        ensures
            r matches Ok(ids) && ids@.to_set() == self@.jobs.dom() && ids@.no_duplicates(),
    {
        match self.manager.get_job_list() {
            Ok(ids) => Ok(ids),
            Err(_) => Err(INTERNAL_SERVER_ERROR),
        }
    }

    /// The stored file that holds the output of a job: the output of its
    /// last task. A missing job is not found; the output is unavailable while
    /// the last task has none.
    pub fn get_job_output(&self, job_id: u128) -> (r: Result<u128, ErrorReply>)
        requires
            self.well_formed(),
        ensures
            r == job_output_reply(self@.jobs, job_id),
    {
        match self.manager.get_job_output(&job_id) {
            Ok(Some(file)) => Ok(file),
            Ok(None) => Err(
                ErrorReply { status: SERVICE_UNAVAILABLE, text: Some("Output not available yet") },
            ),
            Err(ManagerError::Db(DbError::JobNotFound)) => Err(
                ErrorReply { status: NOT_FOUND, text: Some("Job not found") },
            ),
            Err(_) => Err(ErrorReply { status: INTERNAL_SERVER_ERROR, text: Some("Server error") }),
        }
    }

    /// The stored file that holds the output of the task allocated under
    /// `task_id`; unavailable while there is none.
    pub fn get_task_output(&self, job_id: u128, task_id: u128) -> (r: Result<u128, ErrorReply>)
        requires
            self.well_formed(),
        ensures
            match allocated_output(self@.jobs, job_id, task_id) {
                Some(file) => r == Ok::<u128, ErrorReply>(file),
                None => r is Err && replies(r->Err_0, SERVICE_UNAVAILABLE, "Output not available yet"@),
            },
    {
        match self.manager.get_allocated_task_output(&job_id, &task_id) {
            Ok(Some(file)) => Ok(file),
            Ok(None) => Err(
                ErrorReply { status: SERVICE_UNAVAILABLE, text: Some("Output not available yet") },
            ),
            Err(_) => Err(ErrorReply { status: INTERNAL_SERVER_ERROR, text: Some("Server error") }),
        }
    }

    /// `/job/{job_id}/output` (get): the content of the output of a job. A
    /// file that cannot be read answers a server error without text.
    pub fn job_output_get(&self, job_id: u128) -> (r: Result<&Vec<u8>, ErrorReply>)
        requires
            self.well_formed(),
        ensures
            match job_output_reply(self@.jobs, job_id) {
                Err(e) => r == Err::<&Vec<u8>, ErrorReply>(e),
                Ok(file) => if self@.files.contains_key(file) {
                    r is Ok && r.unwrap()@ == self@.files[file]
                } else {
                    r == Err::<&Vec<u8>, ErrorReply>(
                        ErrorReply { status: INTERNAL_SERVER_ERROR, text: None },
                    )
                },
            },
    {
        let file = match self.get_job_output(job_id) {
            Ok(f) => f,
            Err(e) => {
                return Err(e);
            },
        };
        match self.storage.read_file(file) {
            Ok(content) => Ok(content),
            Err(_) => Err(ErrorReply { status: INTERNAL_SERVER_ERROR, text: None }),
        }
    }

    /// `/job/{job_id}/task/{task_id}/output` (get): the content of the output
    /// of the task allocated under `task_id`. A file that cannot be read
    /// answers a server error with text.
    pub fn task_output_get(&self, job_id: u128, task_id: u128) -> (r: Result<&Vec<u8>, ErrorReply>)
        requires
            self.well_formed(),
        ensures
            match allocated_output(self@.jobs, job_id, task_id) {
                None => r is Err && replies(r->Err_0, SERVICE_UNAVAILABLE, "Output not available yet"@),
                Some(file) => if self@.files.contains_key(file) {
                    r is Ok && r.unwrap()@ == self@.files[file]
                } else {
                    r is Err && replies(r->Err_0, INTERNAL_SERVER_ERROR, "Invalid file"@)
                },
            },
    {
        let file = match self.get_task_output(job_id, task_id) {
            Ok(f) => f,
            Err(e) => {
                return Err(e);
            },
        };
        match self.storage.read_file(file) {
            Ok(content) => Ok(content),
            Err(_) => Err(ErrorReply { status: INTERNAL_SERVER_ERROR, text: Some("Invalid file") }),
        }
    }
}

/// A token that `/login` hands out is accepted by [`AppStateLocal::authorize`]
/// until it is deleted.
pub proof fn law_login_token_is_accepted(tokens: AuthModel, token: Seq<char>)
    ensures
        tokens.perms.insert(token, Set::<u128>::empty()).contains_key(token),
        !tokens.perms.insert(token, Set::<u128>::empty()).remove(token).contains_key(token),
{
}

/// What a worker stores as the output of its task is read back as the
/// output of that task and, when the task is the last of its job, as the
/// output of the job: storing the output changes no allocation.
pub proof fn law_output_read_after_write(
    jobs: ManagerModel,
    files: Map<u128, Seq<u8>>,
    job_id: u128,
    task_id: u128,
    file: u128,
    body: Seq<u8>,
)
    requires
        allocated_index(jobs, job_id, task_id) is Some,
    ensures
        ({
            let idx = allocated_index(jobs, job_id, task_id).unwrap();
            let post_jobs = jobs.insert(
                job_id,
                with_status(jobs[job_id], idx, TaskState { output: Some(file) }),
            );
            let post_files = files.insert(file, body);
            &&& allocated_index(post_jobs, job_id, task_id) == Some(idx)
            &&& allocated_output(post_jobs, job_id, task_id) == Some(file)
            &&& post_files.contains_key(file) && post_files[file] == body
            &&& idx == jobs[job_id].tasks.len() - 1 ==> job_output(post_jobs, job_id) == Some(file)
        }),
{
    let tasks = jobs[job_id].tasks;
    lemma_first_with_run_id_props(tasks, task_id);
    let idx = first_with_run_id(tasks, task_id).unwrap();
    let post = with_status(jobs[job_id], idx, TaskState { output: Some(file) });
    assert forall|j: int| 0 <= j < tasks.len() implies #[trigger] post.tasks[j].run_id == tasks[j].run_id by {}
    lemma_first_with_run_id(post.tasks, task_id, Some(idx));
}

/// The output of a job is the output of its last task: the answer to a
/// request for it is that file exactly when the last task has reported an
/// output, and unavailable otherwise, also while the job has no task; an
/// unknown job is not found.
pub proof fn law_job_output_is_last_tasks_output(jobs: ManagerModel, job_id: u128, file: u128)
    ensures
        !jobs.contains_key(job_id) ==> job_output_reply(jobs, job_id) == Err::<u128, ErrorReply>(
            ErrorReply { status: NOT_FOUND, text: Some("Job not found") },
        ),
        jobs.contains_key(job_id) && jobs[job_id].tasks.len() == 0 ==> job_output_reply(jobs, job_id)
            == Err::<u128, ErrorReply>(
            ErrorReply { status: SERVICE_UNAVAILABLE, text: Some("Output not available yet") },
        ),
        jobs.contains_key(job_id) && 0 < jobs[job_id].tasks.len() <= u32::MAX ==> {
            let last = jobs[job_id].tasks[jobs[job_id].tasks.len() - 1];
            &&& (job_output_reply(jobs, job_id) == Ok::<u128, ErrorReply>(file) <==> (last.status matches Some(
                s,
            ) && s.output == Some(file)))
            &&& (job_output_reply(jobs, job_id) is Err <==> (last.status is None || last.status.unwrap().output
                is None))
        },
{
}

} // verus!
