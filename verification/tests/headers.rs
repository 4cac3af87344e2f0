use segmented_encoder::headers::{
    header_text, is_text, parse_job, parse_job_options, split_multiple_headers_into_strings,
    JobHeader, ParseJobError, ToStrError,
};

fn value(s: &str) -> Vec<u8> {
    s.as_bytes().to_vec()
}

#[test]
fn with_empty_iterator_return_empty_vec() {
    let res = split_multiple_headers_into_strings(&[]).unwrap();
    assert!(res.is_empty())
}

#[test]
fn with_single_simple_value_returns_the_value() {
    let src = "simple";
    let values = vec![value(src)];
    let res = split_multiple_headers_into_strings(&values).unwrap();
    assert_eq!(res.first().unwrap().as_str(), src)
}

#[test]
fn with_two_simple_values_returns_the_two_values() {
    let src = ["first", "second"];
    let values = [value(src[0]), value(src[1])];
    let res = split_multiple_headers_into_strings(values.as_ref()).unwrap();
    assert_eq!(res[0].as_str(), src[0]);
    assert_eq!(res[1].as_str(), src[1]);
}

#[test]
fn with_two_comma_separated_values_returns_the_two_values() {
    let src = ["first", "second"];
    let values = value(src.join(",").as_str());
    let res = split_multiple_headers_into_strings(&[values]).unwrap();
    assert_eq!(res[0].as_str(), src[0]);
    assert_eq!(res[1].as_str(), src[1]);
}

#[test]
fn parse_video_codec_job_options() {
    let codec = "libx264";
    let options = parse_job_options(Some(codec.as_bytes()), &[]).unwrap();
    assert_eq!(options.video.codec.unwrap().as_str(), codec)
}

#[test]
fn parse_video_args_job_options() {
    let args = ["-preset", "ultrafast"];
    let headers = vec![value(args[0]), value(args[1])];
    let params = parse_job_options(None, &headers).unwrap().video.params;
    assert_eq!(params, args.into_iter().map(String::from).collect::<Vec<_>>());
}

#[test]
fn split_keeps_empty_pieces_between_commas() {
    let res = split_multiple_headers_into_strings(&[value(",a,,b,")]).unwrap();
    assert_eq!(res, vec!["", "a", "", "b", ""]);
}

#[test]
fn split_of_an_empty_value_is_one_empty_piece() {
    let res = split_multiple_headers_into_strings(&[value("")]).unwrap();
    assert_eq!(res, vec![""]);
}

#[test]
fn split_concatenates_the_pieces_of_each_value_in_order() {
    let res = split_multiple_headers_into_strings(&[value("a,b"), value("c"), value("d,e")]).unwrap();
    assert_eq!(res, vec!["a", "b", "c", "d", "e"]);
}

#[test]
fn split_fails_on_a_value_that_is_not_text() {
    let res = split_multiple_headers_into_strings(&[value("ok"), vec![b'a', 0xC3, 0xA9]]);
    assert_eq!(res, Err(ToStrError));
}

#[test]
fn text_is_visible_ascii_or_tab() {
    assert!(is_text(b"a b\tc~"));
    assert!(is_text(b""));
    assert!(!is_text(b"line\n"));
    assert!(!is_text(&[0x7F]));
    assert!(!is_text(&[0x80]));
}

#[test]
fn header_text_gives_the_characters() {
    assert_eq!(header_text(b"-crf 30").unwrap(), "-crf 30");
    assert_eq!(header_text(&[0x01]), Err(ToStrError));
}

#[test]
fn job_options_fail_on_an_invalid_codec() {
    let res = parse_job_options(Some(&[0xFF]), &[]);
    assert!(res.is_err());
}

#[test]
fn job_options_without_headers_have_no_codec_and_no_params() {
    let options = parse_job_options(None, &[]).unwrap();
    assert_eq!(options.video.codec, None);
    assert!(options.video.params.is_empty());
    assert!(options.audio.is_none());
}

#[test]
fn parse_job_reads_the_four_headers() {
    let params = parse_job(Some(b"libsvtav1"), Some(b"-crf 30"), Some(b"libopus"), None).unwrap();
    assert_eq!(params.video_encoder.as_deref(), Some("libsvtav1"));
    assert_eq!(params.video_args.as_deref(), Some("-crf 30"));
    assert_eq!(params.audio_encoder.as_deref(), Some("libopus"));
    assert_eq!(params.audio_args, None);
}

#[test]
fn parse_job_needs_a_video_encoder() {
    let res = parse_job(None, Some(b"-crf 30"), None, None);
    assert_eq!(res, Err(ParseJobError::MissingVideoEncoder));
}

#[test]
fn parse_job_reports_the_first_invalid_header() {
    let bad: &[u8] = &[0x00];
    assert_eq!(
        parse_job(Some(bad), Some(bad), None, None),
        Err(ParseJobError::InvalidValue(JobHeader::VideoEncoder))
    );
    assert_eq!(
        parse_job(None, Some(bad), Some(bad), None),
        Err(ParseJobError::InvalidValue(JobHeader::VideoArgs))
    );
    assert_eq!(
        parse_job(Some(b"x"), None, Some(bad), Some(bad)),
        Err(ParseJobError::InvalidValue(JobHeader::AudioEncoder))
    );
    assert_eq!(
        parse_job(None, None, None, Some(bad)),
        Err(ParseJobError::InvalidValue(JobHeader::AudioArgs))
    );
}
