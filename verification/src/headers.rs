//! Reading job options from HTTP request headers.
//!
//! A header value is the raw bytes of the header. It reads as text only when
//! every byte is visible ASCII or a tab, as `http::HeaderValue::to_str`
//! accepts; a header given several times, or holding a comma separated list,
//! gives one string per element.

use vstd::prelude::*;

use crate::jobs::JobParams;
use crate::task::{JobOptions, Options};

verus! {

/// A byte that a header value may hold to read as text: visible ASCII or a
/// tab.
pub open spec fn is_visible_ascii(b: u8) -> bool {
    (32 <= b && b < 127) || b == 9
}

/// Every byte of the value is visible ASCII or a tab.
pub open spec fn is_visible_ascii_seq(s: Seq<u8>) -> bool {
    forall|i: int| 0 <= i < s.len() ==> is_visible_ascii(#[trigger] s[i])
}

/// The characters of ASCII bytes.
pub open spec fn ascii_chars(s: Seq<u8>) -> Seq<char> {
    s.map_values(|b: u8| b as char)
}

/// The pieces of `s` between commas, empty pieces included: `n` commas give
/// `n + 1` pieces.
pub open spec fn split_commas(s: Seq<u8>) -> Seq<Seq<u8>>
    decreases s.len(),
{
    if s.len() == 0 {
        seq![Seq::<u8>::empty()]
    } else {
        let prev = split_commas(s.drop_last());
        if s.last() == 44u8 {
            prev.push(Seq::<u8>::empty())
        } else {
            prev.update(prev.len() - 1, prev.last().push(s.last()))
        }
    }
}

/// The characters of each piece.
pub open spec fn chars_of_pieces(ps: Seq<Seq<u8>>) -> Seq<Seq<char>> {
    ps.map_values(|p: Seq<u8>| ascii_chars(p))
}

/// The strings that a list of header values gives: the pieces between commas
/// of each value, in order.
pub open spec fn split_values(vs: Seq<Seq<u8>>) -> Seq<Seq<char>>
    decreases vs.len(),
{
    if vs.len() == 0 {
        Seq::empty()
    } else {
        split_values(vs.drop_last()) + chars_of_pieces(split_commas(vs.last()))
    }
}

/// The views of a list of strings.
pub open spec fn views(v: Seq<String>) -> Seq<Seq<char>> {
    v.map_values(|s: String| s@)
}

/// The views of a list of byte vectors.
pub open spec fn byte_views(v: Seq<Vec<u8>>) -> Seq<Seq<u8>> {
    v.map_values(|b: Vec<u8>| b@)
}

/// A header value does not read as text.
#[derive(Clone, Copy, Debug, PartialEq, Eq, Structural)]
pub struct ToStrError;

/// Calls `String::from_utf8` on bytes that are all ASCII, which are valid
/// UTF-8 and give one character per byte.
#[verifier::external_body]
fn string_from_ascii(b: Vec<u8>) -> (r: String)
    requires
        forall|i: int| 0 <= i < b@.len() ==> b@[i] < 128,
    ensures
        r@ == ascii_chars(b@),
{
    String::from_utf8(b).unwrap_or_default()
}

/// The value reads as text.
pub fn is_text(v: &[u8]) -> (r: bool)
    ensures
        r == is_visible_ascii_seq(v@),
{
    let mut i: usize = 0;
    while i < v.len()
        invariant
            i <= v@.len(),
            forall|j: int| 0 <= j < i ==> is_visible_ascii(#[trigger] v@[j]),
        decreases v@.len() - i,
    {
        let b = v[i];
        if !((32 <= b && b < 127) || b == 9) {
            return false;
        }
        i = i + 1;
    }
    true
}

/// The text of a header value.
pub fn header_text(v: &[u8]) -> (r: Result<String, ToStrError>)
    ensures
        match r {
            Ok(s) => is_visible_ascii_seq(v@) && s@ == ascii_chars(v@),
            Err(_) => !is_visible_ascii_seq(v@),
        },
{
    if !is_text(v) {
        return Err(ToStrError);
    }
    let mut bytes: Vec<u8> = Vec::new();
    let mut i: usize = 0;
    while i < v.len()
        invariant
            i <= v@.len(),
            bytes@ == v@.take(i as int),
        decreases v@.len() - i,
    {
        bytes.push(v[i]);
        proof {
            assert(v@.take(i + 1) == v@.take(i as int).push(v@[i as int]));
        }
        i = i + 1;
    }
    proof {
        assert(v@.take(v@.len() as int) == v@);
        assert forall|j: int| 0 <= j < bytes@.len() implies bytes@[j] < 128 by {
            assert(is_visible_ascii(v@[j]));
        }
    }
    Ok(string_from_ascii(bytes))
}

/// The pieces between commas of a header value that reads as text.
fn split_header_value(v: &[u8]) -> (r: Vec<String>)
    requires
        is_visible_ascii_seq(v@),
    ensures
        views(r@) == chars_of_pieces(split_commas(v@)),
{
    let mut pieces: Vec<String> = Vec::new();
    let mut current: Vec<u8> = Vec::new();
    let ghost mut done: Seq<Seq<u8>> = Seq::empty();
    let mut i: usize = 0;
    while i < v.len()
        invariant
            i <= v@.len(),
            is_visible_ascii_seq(v@),
            split_commas(v@.take(i as int)) == done.push(current@),
            views(pieces@) == chars_of_pieces(done),
            forall|j: int| 0 <= j < current@.len() ==> is_visible_ascii(#[trigger] current@[j]),
        decreases v@.len() - i,
    {
        let b = v[i];
        proof {
            assert(v@.take(i + 1).drop_last() == v@.take(i as int));
            assert(v@.take(i + 1).last() == b);
            assert(is_visible_ascii(v@[i as int]));
        }
        if b == 44u8 {
            proof {
                assert forall|j: int| 0 <= j < current@.len() implies current@[j] < 128 by {
                    assert(is_visible_ascii(current@[j]));
                }
            }
            let ghost piece = current@;
            let ghost prev_pieces = pieces@;
            let s = string_from_ascii(current);
            pieces.push(s);
            current = Vec::new();
            proof {
                assert(pieces@ == prev_pieces.push(s));
                assert(views(pieces@).len() == prev_pieces.len() + 1);
                assert(forall|j: int| 0 <= j < prev_pieces.len() ==> views(pieces@)[j] == views(prev_pieces)[j]);
                assert(views(pieces@)[prev_pieces.len() as int] == ascii_chars(piece));
                let old_done = done;
                done = done.push(piece);
                assert(views(prev_pieces) == chars_of_pieces(old_done));
                assert(views(prev_pieces).len() == prev_pieces.len());
                assert(prev_pieces.len() == old_done.len());
                assert forall|j: int| 0 <= j < views(pieces@).len() implies #[trigger] views(pieces@)[j]
                    == chars_of_pieces(done)[j] by {
                    if j < prev_pieces.len() {
                        assert(views(pieces@)[j] == views(prev_pieces)[j]);
                        assert(chars_of_pieces(old_done)[j] == ascii_chars(old_done[j]));
                        assert(done[j] == old_done[j]);
                    } else {
                        assert(done[j] == piece);
                    }
                }
                assert(views(pieces@) =~= chars_of_pieces(done));
                assert(split_commas(v@.take(i + 1)) =~= done.push(current@));
            }
        } else {
            let ghost before = current@;
            current.push(b);
            proof {
                assert(split_commas(v@.take(i + 1)) =~= done.push(current@));
            }
        }
        i = i + 1;
    }
    proof {
        assert(v@.take(v@.len() as int) == v@);
        assert forall|j: int| 0 <= j < current@.len() implies current@[j] < 128 by {
            assert(is_visible_ascii(current@[j]));
        }
    }
    let ghost last = current@;
    let ghost prev_pieces = pieces@;
    let s = string_from_ascii(current);
    pieces.push(s);
    proof {
        assert(pieces@ == prev_pieces.push(s));
        assert(views(pieces@).len() == prev_pieces.len() + 1);
        assert(forall|j: int| 0 <= j < prev_pieces.len() ==> views(pieces@)[j] == views(prev_pieces)[j]);
        assert(views(pieces@)[prev_pieces.len() as int] == ascii_chars(last));
        assert(views(prev_pieces) == chars_of_pieces(done));
        assert(views(prev_pieces).len() == prev_pieces.len());
        assert(prev_pieces.len() == done.len());
        assert forall|j: int| 0 <= j < views(pieces@).len() implies #[trigger] views(pieces@)[j]
            == chars_of_pieces(done.push(last))[j] by {
            if j < prev_pieces.len() {
                assert(views(pieces@)[j] == views(prev_pieces)[j]);
                assert(chars_of_pieces(done)[j] == ascii_chars(done[j]));
                assert(done.push(last)[j] == done[j]);
            } else {
                assert(done.push(last)[j] == last);
            }
        }
        assert(views(pieces@) =~= chars_of_pieces(done.push(last)));
    }
    pieces
}

/// The strings of a header given several times: the pieces between commas of
/// each value, in order. Fails when a value does not read as text.
pub fn split_multiple_headers_into_strings(values: &[Vec<u8>]) -> (r: Result<Vec<String>, ToStrError>)
    ensures
        match r {
            Ok(v) => {
                &&& forall|i: int| 0 <= i < values@.len() ==> is_visible_ascii_seq(#[trigger] values@[i]@)
                &&& views(v@) == split_values(byte_views(values@))
            },
            Err(_) => exists|i: int| 0 <= i < values@.len() && !is_visible_ascii_seq(#[trigger] values@[i]@),
        },
{
    let mut out: Vec<String> = Vec::new();
    let mut i: usize = 0;
    while i < values.len()
        invariant
            i <= values@.len(),
            forall|j: int| 0 <= j < i ==> is_visible_ascii_seq(#[trigger] values@[j]@),
            views(out@) == split_values(byte_views(values@.take(i as int))),
        decreases values@.len() - i,
    {
        let v = &values[i];
        if !is_text(v.as_slice()) {
            return Err(ToStrError);
        }
        let mut pieces = split_header_value(v.as_slice());
        let ghost prev = out@;
        out.append(&mut pieces);
        proof {
            assert(byte_views(values@.take(i + 1)).drop_last() =~= byte_views(values@.take(i as int)));
            assert(byte_views(values@.take(i + 1)).last() == v@);
            assert(views(out@) =~= views(prev) + chars_of_pieces(split_commas(v@)));
        }
        i = i + 1;
    }
    proof {
        assert(values@.take(values@.len() as int) == values@);
    }
    Ok(out)
}

/// Reads the options of a job from its headers: the video codec from the
/// first `video_codec` header, the video parameters from every `video_param`
/// header. Audio is not encoded.
pub fn parse_job_options(video_codec: Option<&[u8]>, video_params: &[Vec<u8>]) -> (r: Result<
    JobOptions,
    ToStrError,
>)
    ensures
        match r {
            Ok(opts) => {
                &&& match video_codec {
                    Some(c) => is_visible_ascii_seq(c@) && opt_view(opts.video.codec) == Some(
                        ascii_chars(c@),
                    ),
                    None => opts.video.codec is None,
                }
                &&& forall|i: int| 0 <= i < video_params@.len() ==> is_visible_ascii_seq(#[trigger] video_params@[i]@)
                &&& views(opts.video.params@) == split_values(byte_views(video_params@))
                &&& opts.audio is None
            },
            Err(_) => {
                ||| video_codec matches Some(c) && !is_visible_ascii_seq(c@)
                ||| exists|i: int| 0 <= i < video_params@.len() && !is_visible_ascii_seq(#[trigger] video_params@[i]@)
            },
        },
{
    let codec = match video_codec {
        Some(c) => match header_text(c) {
            Ok(s) => Some(s),
            Err(e) => {
                return Err(e);
            },
        },
        None => None,
    };
    let params = match split_multiple_headers_into_strings(video_params) {
        Ok(p) => p,
        Err(e) => {
            return Err(e);
        },
    };
    Ok(JobOptions { video: Options { codec, params }, audio: None })
}

/// The headers that carry the parameters of a job.
#[derive(Clone, Copy, Debug, PartialEq, Eq, Structural)]
pub enum JobHeader {
    VideoEncoder,
    VideoArgs,
    AudioEncoder,
    AudioArgs,
}

/// Why the parameters of a job could not be read from its headers.
#[derive(Clone, Copy, Debug, PartialEq, Eq, Structural)]
pub enum ParseJobError {
    /// The header does not read as text.
    InvalidValue(JobHeader),
    /// No video encoder was given.
    MissingVideoEncoder,
}

/// The text of an optional header, or the header that does not read as text.
fn optional_text(v: Option<&[u8]>, header: JobHeader) -> (r: Result<Option<String>, ParseJobError>)
    ensures
        match v {
            None => r == Ok::<Option<String>, ParseJobError>(None),
            Some(b) => match r {
                Ok(Some(s)) => is_visible_ascii_seq(b@) && s@ == ascii_chars(b@),
                Ok(None) => false,
                Err(e) => !is_visible_ascii_seq(b@) && e == ParseJobError::InvalidValue(header),
            },
        },
{
    match v {
        None => Ok(None),
        Some(b) => match header_text(b) {
            Ok(s) => Ok(Some(s)),
            Err(_) => Err(ParseJobError::InvalidValue(header)),
        },
    }
}

/// The text of an optional header value, when it reads as text.
pub open spec fn opt_text(v: Option<&[u8]>) -> Option<Seq<char>> {
    match v {
        Some(b) => Some(ascii_chars(b@)),
        None => None,
    }
}

/// The view of an optional string.
pub open spec fn opt_view(s: Option<String>) -> Option<Seq<char>> {
    match s {
        Some(v) => Some(v@),
        None => None,
    }
}

/// An optional header value that is present does not read as text.
pub open spec fn invalid(v: Option<&[u8]>) -> bool {
    v matches Some(b) && !is_visible_ascii_seq(b@)
}

/// Reads the parameters of a job from its headers. The headers are checked
/// in the order video encoder, video arguments, audio encoder, audio
/// arguments; the first that does not read as text is reported. A job needs a
/// video encoder.
pub fn parse_job(
    video_encoder: Option<&[u8]>,
    video_args: Option<&[u8]>,
    audio_encoder: Option<&[u8]>,
    audio_args: Option<&[u8]>,
) -> (r: Result<JobParams, ParseJobError>)
    ensures
        match r {
            Ok(p) => {
                &&& !invalid(video_encoder) && !invalid(video_args) && !invalid(audio_encoder)
                    && !invalid(audio_args)
                &&& video_encoder is Some
                &&& opt_view(p.video_encoder) == opt_text(video_encoder)
                &&& opt_view(p.video_args) == opt_text(video_args)
                &&& opt_view(p.audio_encoder) == opt_text(audio_encoder)
                &&& opt_view(p.audio_args) == opt_text(audio_args)
            },
            Err(ParseJobError::InvalidValue(JobHeader::VideoEncoder)) => invalid(video_encoder),
            Err(ParseJobError::InvalidValue(JobHeader::VideoArgs)) => !invalid(video_encoder)
                && invalid(video_args),
            Err(ParseJobError::InvalidValue(JobHeader::AudioEncoder)) => !invalid(video_encoder)
                && !invalid(video_args) && invalid(audio_encoder),
            Err(ParseJobError::InvalidValue(JobHeader::AudioArgs)) => !invalid(video_encoder)
                && !invalid(video_args) && !invalid(audio_encoder) && invalid(audio_args),
            Err(ParseJobError::MissingVideoEncoder) => !invalid(video_encoder) && !invalid(
                video_args,
            ) && !invalid(audio_encoder) && !invalid(audio_args) && video_encoder is None,
        },
{
    let encoder = match optional_text(video_encoder, JobHeader::VideoEncoder) {
        Ok(v) => v,
        Err(e) => {
            return Err(e);
        },
    };
    let v_args = match optional_text(video_args, JobHeader::VideoArgs) {
        Ok(v) => v,
        Err(e) => {
            return Err(e);
        },
    };
    let a_encoder = match optional_text(audio_encoder, JobHeader::AudioEncoder) {
        Ok(v) => v,
        Err(e) => {
            return Err(e);
        },
    };
    let a_args = match optional_text(audio_args, JobHeader::AudioArgs) {
        Ok(v) => v,
        Err(e) => {
            return Err(e);
        },
    };
    match encoder {
        None => Err(ParseJobError::MissingVideoEncoder),
        Some(e) => Ok(
            JobParams {
                video_encoder: Some(e),
                video_args: v_args,
                audio_encoder: a_encoder,
                audio_args: a_args,
            },
        ),
    }
}

/// The pieces joined back with commas.
pub open spec fn join_commas(ps: Seq<Seq<u8>>) -> Seq<u8>
    decreases ps.len(),
{
    if ps.len() == 0 {
        Seq::empty()
    } else if ps.len() == 1 {
        ps[0]
    } else {
        join_commas(ps.drop_last()) + seq![44u8] + ps.last()
    }
}

/// The number of commas in `s`.
pub open spec fn comma_count(s: Seq<u8>) -> nat
    decreases s.len(),
{
    if s.len() == 0 {
        0
    } else {
        comma_count(s.drop_last()) + if s.last() == 44u8 {
            1nat
        } else {
            0nat
        }
    }
}

proof fn lemma_join_extend_last(ps: Seq<Seq<u8>>, b: u8)
    requires
        ps.len() >= 1,
    ensures
        join_commas(ps.update(ps.len() - 1, ps.last().push(b))) == join_commas(ps).push(b),
{
    let qs = ps.update(ps.len() - 1, ps.last().push(b));
    if ps.len() == 1 {
    } else {
        assert(qs.drop_last() =~= ps.drop_last());
        assert(join_commas(qs) == join_commas(ps.drop_last()) + seq![44u8] + ps.last().push(b));
        assert(join_commas(ps.drop_last()) + seq![44u8] + ps.last().push(b) =~= (join_commas(
            ps.drop_last(),
        ) + seq![44u8] + ps.last()).push(b));
    }
}

/// Splitting a value at its commas loses nothing: the pieces joined back with
/// commas give the value, and there is one piece more than there are commas.
pub proof fn law_split_commas_round_trip(s: Seq<u8>)
    ensures
        join_commas(split_commas(s)) == s,
        split_commas(s).len() == comma_count(s) + 1,
    decreases s.len(),
{
    if s.len() == 0 {
        assert(join_commas(seq![Seq::<u8>::empty()]) == Seq::<u8>::empty());
    } else {
        let prev = split_commas(s.drop_last());
        law_split_commas_round_trip(s.drop_last());
        if s.last() == 44u8 {
            let ps = prev.push(Seq::<u8>::empty());
            assert(ps.drop_last() =~= prev);
            assert(join_commas(ps) == join_commas(prev) + seq![44u8] + Seq::<u8>::empty());
            assert(s.drop_last() + seq![44u8] + Seq::<u8>::empty() =~= s);
        } else {
            lemma_join_extend_last(prev, s.last());
            assert(s.drop_last().push(s.last()) =~= s);
        }
    }
}

/// A value without commas gives itself as its only piece.
pub proof fn law_value_without_comma_is_one_piece(s: Seq<u8>)
    requires
        forall|i: int| 0 <= i < s.len() ==> s[i] != 44u8,
    ensures
        split_commas(s) == seq![s],
    decreases s.len(),
{
    if s.len() > 0 {
        law_value_without_comma_is_one_piece(s.drop_last());
        assert(s.drop_last().push(s.last()) =~= s);
        assert(seq![s.drop_last()].update(0, s) =~= seq![s]);
    } else {
        assert(s =~= Seq::<u8>::empty());
    }
}

} // verus!
