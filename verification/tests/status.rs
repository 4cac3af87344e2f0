use segmented_encoder::status::{
    DelayedStatusReporterStream, Progress, Stage, StatusDuration, StatusError, StatusKeeper, StatusReport, StreamPoll,
};

const MS: u128 = 1_000_000;

fn report(text: &str) -> StatusReport {
    StatusReport { phase: Stage::Working, elapsed: None, progress: None, report_string: text.to_string() }
}

#[test]
fn keeper_starts_without_report() {
    let keeper = StatusKeeper::new();
    assert_eq!(keeper.get_latest_report(), None);
    assert_eq!(keeper.latest_report_or_unavailable(), Err(StatusError::Unavailable));
}

#[test]
fn keeper_keeps_the_last_report() {
    let mut keeper = StatusKeeper::new();
    keeper.report(report("first"));
    keeper.report(report("second"));
    assert_eq!(keeper.get_latest_report(), Some(report("second")));
    assert_eq!(keeper.latest_report_or_unavailable(), Ok(report("second")));
}

#[test]
fn duration_splits_seconds_and_nanoseconds() {
    assert_eq!(StatusDuration::from_nanos(2_500_000_001), StatusDuration { seconds: 2, nanoseconds: 500_000_001 });
    assert_eq!(StatusDuration::from_nanos(0), StatusDuration { seconds: 0, nanoseconds: 0 });
}

#[test]
fn stream_sends_every_step_then_finishes() {
    let start: u128 = 1_000 * MS;
    let mut stream = DelayedStatusReporterStream::new(100, 2, start);
    assert_eq!(stream.remaining(), 4);
    assert_eq!(stream.size_hint(), (4, Some(4)));
    let mut now = start;
    let mut reports = Vec::new();
    loop {
        match stream.poll_next(now) {
            StreamPoll::Report(r) => reports.push(r),
            StreamPoll::PendingUntil(t) => {
                assert!(t > now);
                now = t;
            }
            StreamPoll::Done => break,
        }
    }
    assert_eq!(reports.len(), 4);
    for (i, r) in reports.iter().take(3).enumerate() {
        assert_eq!(r.phase, Stage::Working);
        assert_eq!(r.progress, Some(Progress { numerator: i as i32, denominator: 2 }));
        assert_eq!(r.elapsed, Some(StatusDuration { seconds: 0, nanoseconds: (i as u32) * 100_000_000 }));
        assert_eq!(r.report_string, "");
    }
    assert_eq!(reports[3].phase, Stage::Finished);
    assert_eq!(reports[3].progress, None);
    assert_eq!(reports[3].report_string, "Delayed finished");
    assert_eq!(reports[3].elapsed, Some(StatusDuration { seconds: 0, nanoseconds: 200_000_000 }));
    assert_eq!(stream.remaining(), 0);
    assert_eq!(stream.size_hint(), (0, Some(0)));
}

#[test]
fn stream_waits_for_the_delay() {
    let mut stream = DelayedStatusReporterStream::new(50, 1, 0);
    assert!(stream.is_ready(0));
    assert!(matches!(stream.poll_next(0), StreamPoll::Report(_)));
    assert!(!stream.is_ready(10 * MS));
    assert_eq!(stream.poll_next(10 * MS), StreamPoll::PendingUntil(50 * MS));
    assert!(matches!(stream.poll_next(50 * MS), StreamPoll::Report(_)));
    assert!(stream.is_ready(50 * MS), "the finished report follows at once");
}

#[test]
fn stream_with_negative_length_only_finishes() {
    let mut stream = DelayedStatusReporterStream::new(10, -1, 0);
    assert_eq!(stream.remaining(), 1);
    match stream.poll_next(0) {
        StreamPoll::Report(r) => assert_eq!(r.phase, Stage::Finished),
        other => panic!("unexpected {other:?}"),
    }
    assert_eq!(stream.poll_next(0), StreamPoll::Done);
}

#[test]
fn size_hint_counts_every_report_still_to_come() {
    let mut stream = DelayedStatusReporterStream::new(0, 3, 0);
    for left in (0..=5usize).rev() {
        assert_eq!(stream.size_hint(), (left, Some(left)));
        assert_eq!(stream.remaining(), left);
        if left > 0 {
            assert!(matches!(stream.poll_next(0), StreamPoll::Report(_)));
        }
    }
    assert_eq!(stream.poll_next(0), StreamPoll::Done);
    assert_eq!(stream.poll_next(1_000 * MS), StreamPoll::Done);
}

#[test]
fn consecutive_working_reports_are_a_delay_apart() {
    let mut stream = DelayedStatusReporterStream::new(20, 2, 0);
    let mut times = Vec::new();
    let mut now: u128 = 0;
    loop {
        match stream.poll_next(now) {
            StreamPoll::Report(_) => times.push(now),
            StreamPoll::PendingUntil(_) => {}
            StreamPoll::Done => break,
        }
        now += 7 * MS;
    }
    assert_eq!(times.len(), 4);
    assert!(times[1] - times[0] >= 20 * MS);
    assert!(times[2] - times[1] >= 20 * MS);
}

#[test]
fn unavailable_error_has_its_message() {
    assert_eq!(StatusError::Unavailable.message(), "No report available");
    let keeper = StatusKeeper::new();
    assert_eq!(keeper.latest_report_or_unavailable().map_err(|e| e.message()), Err("No report available".to_string()));
}

#[test]
fn report_stream_records_every_report() {
    let mut keeper = StatusKeeper::new();
    let items: Vec<Result<StatusReport, String>> = vec![Ok(report("a")), Ok(report("b"))];
    assert_eq!(keeper.receive_reports(items), Ok(()));
    assert_eq!(keeper.get_latest_report(), Some(report("b")));
}

#[test]
fn report_stream_stops_at_the_first_error() {
    let mut keeper = StatusKeeper::new();
    keeper.report(report("before"));
    let items: Vec<Result<StatusReport, String>> =
        vec![Ok(report("a")), Err("broken".to_string()), Ok(report("c"))];
    assert_eq!(keeper.receive_reports(items), Err("broken".to_string()));
    assert_eq!(keeper.get_latest_report(), Some(report("a")));
}

#[test]
fn report_stream_failing_at_once_keeps_the_previous_report() {
    let mut keeper = StatusKeeper::new();
    keeper.report(report("before"));
    let items: Vec<Result<StatusReport, String>> = vec![Err("broken".to_string())];
    assert_eq!(keeper.receive_reports(items), Err("broken".to_string()));
    assert_eq!(keeper.get_latest_report(), Some(report("before")));
    let empty: Vec<Result<StatusReport, String>> = Vec::new();
    assert_eq!(keeper.receive_reports(empty), Ok(()));
    assert_eq!(keeper.get_latest_report(), Some(report("before")));
}

#[test]
fn can_poll_tells_when_the_times_fit() {
    let stream = DelayedStatusReporterStream::new(100, 2, 0);
    assert!(stream.can_poll(0));
    assert!(stream.can_poll(5 * MS));
    assert!(!stream.can_poll(u128::MAX));
    let slow = DelayedStatusReporterStream::new(u64::MAX, 2, 0);
    assert!(!slow.can_poll(u128::MAX - 1_000));
}
