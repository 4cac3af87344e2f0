//! Text forms of identifiers and numbers, and the paths and URLs of the
//! server's resources built from them.

use vstd::prelude::*;

verus! {

/// The lowercase hexadecimal digit of a value below 16.
pub open spec fn hex_digit(n: u128) -> char {
    if n < 10 {
        (48 + n) as char
    } else {
        (87 + n) as char
    }
}

/// Nibble `j` of a UUID, counted from the most significant one.
pub open spec fn nibble(id: u128, j: int) -> u128 {
    (id >> (((31 - j) * 4) as u128)) & 0xfu128
}

/// The number of hyphens before position `i` of the hyphenated form.
pub open spec fn hyphens_before(i: int) -> int {
    if i < 8 {
        0
    } else if i < 13 {
        1
    } else if i < 18 {
        2
    } else if i < 23 {
        3
    } else {
        4
    }
}

/// The hyphenated form of a UUID: 32 lowercase hexadecimal digits, most
/// significant first, in groups of 8, 4, 4, 4 and 12 separated by hyphens.
pub open spec fn spec_hyphenated(id: u128) -> Seq<char> {
    Seq::new(
        36,
        |i: int|
            if i == 8 || i == 13 || i == 18 || i == 23 {
                '-'
            } else {
                hex_digit(nibble(id, i - hyphens_before(i)))
            },
    )
}

/// Calls `uuid::Uuid::from_u128` and formats the UUID with `to_string`,
/// which gives its lowercase hyphenated form.
#[verifier::external_body]
pub(crate) fn uuid_to_string(id: u128) -> (r: String)
    ensures
        r@ == spec_hyphenated(id),
{
    uuid::Uuid::from_u128(id).to_string()
}

/// The decimal digit of a value below 10.
pub open spec fn digit_char(d: nat) -> char {
    (48 + d) as char
}

/// The decimal form of a number, without sign or leading zeros.
pub open spec fn spec_decimal(n: nat) -> Seq<char>
    decreases n,
{
    if n < 10 {
        seq![digit_char(n)]
    } else {
        spec_decimal(n / 10).push(digit_char(n % 10))
    }
}

/// The one-character text of a decimal digit.
fn digit_string(d: u64) -> (r: String)
    requires
        d < 10,
    ensures
        r@ == seq![digit_char(d as nat)],
{
    let digits = "0123456789";
    proof {
        reveal_strlit("0123456789");
    }
    let idx = d as usize;
    let s = digits.substring_char(idx, idx + 1);
    proof {
        assert(s@ =~= seq![digit_char(d as nat)]);
    }
    String::from_str(s)
}

/// The decimal form of a number.
pub fn decimal_string(n: u64) -> (r: String)
    ensures
        r@ == spec_decimal(n as nat),
    decreases n,
{
    if n < 10 {
        digit_string(n)
    } else {
        let mut s = decimal_string(n / 10);
        let d = digit_string(n % 10);
        s.append(d.as_str());
        s
    }
}

/// Appends a string to another.
fn concat(a: String, b: &str) -> (r: String)
    ensures
        r@ == a@ + b@,
{
    let mut r = a;
    r.append(b);
    r
}

/// Path under which the server serves the source of job `job_id`.
pub open spec fn spec_source_path(job_id: u128) -> Seq<char> {
    "/api/jobs/"@ + spec_hyphenated(job_id) + "/source"@
}

/// The path under which the server serves the source of a job.
pub fn source_path(job_id: u128) -> (r: String)
    ensures
        r@ == spec_source_path(job_id),
{
    let r = String::from_str("/api/jobs/");
    let id = uuid_to_string(job_id);
    let r = concat(r, id.as_str());
    concat(r, "/source")
}

/// Path to which a worker uploads the output of a task.
pub open spec fn spec_output_path(job_id: u128, task_id: u128) -> Seq<char> {
    "/api/jobs/"@ + spec_hyphenated(job_id) + "/tasks/"@ + spec_hyphenated(task_id) + "/output"@
}

/// The path to which a worker uploads the output of a task.
pub fn output_path(job_id: u128, task_id: u128) -> (r: String)
    ensures
        r@ == spec_output_path(job_id, task_id),
{
    let r = String::from_str("/api/jobs/");
    let r = concat(r, uuid_to_string(job_id).as_str());
    let r = concat(r, "/tasks/");
    let r = concat(r, uuid_to_string(task_id).as_str());
    concat(r, "/output")
}

/// URL of input `idx` of a task, under the server's base URL.
pub open spec fn spec_input_url(base: Seq<char>, job_id: u128, task_id: u128, idx: u32) -> Seq<
    char,
> {
    base + "/job/"@ + spec_hyphenated(job_id) + "/task/"@ + spec_hyphenated(task_id) + "/input/"@
        + spec_decimal(idx as nat)
}

/// The URL of input `idx` of a task, under the server's base URL.
pub fn input_url(base: &str, job_id: u128, task_id: u128, idx: u32) -> (r: String)
    ensures
        r@ == spec_input_url(base@, job_id, task_id, idx),
{
    let r = String::from_str(base);
    let r = concat(r, "/job/");
    let r = concat(r, uuid_to_string(job_id).as_str());
    let r = concat(r, "/task/");
    let r = concat(r, uuid_to_string(task_id).as_str());
    let r = concat(r, "/input/");
    concat(r, decimal_string(idx as u64).as_str())
}

/// URL to which the output of a task is uploaded, under the server's base
/// URL.
pub open spec fn spec_output_url(base: Seq<char>, job_id: u128, task_id: u128) -> Seq<char> {
    base + "/job/"@ + spec_hyphenated(job_id) + "/task/"@ + spec_hyphenated(task_id) + "/output"@
}

/// The URL to which the output of a task is uploaded.
pub fn output_url(base: &str, job_id: u128, task_id: u128) -> (r: String)
    ensures
        r@ == spec_output_url(base@, job_id, task_id),
{
    let r = String::from_str(base);
    let r = concat(r, "/job/");
    let r = concat(r, uuid_to_string(job_id).as_str());
    let r = concat(r, "/task/");
    let r = concat(r, uuid_to_string(task_id).as_str());
    concat(r, "/output")
}

} // verus!
