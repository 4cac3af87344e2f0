//! Status reports of a running task, the keeper of the latest report, and a
//! stream that generates a series of reports with a delay between them, as a
//! task would.
//!
//! Times are nanoseconds counted from an origin that the caller chooses, the
//! same for every call on one stream.

use vstd::prelude::*;

verus! {

/// Nanoseconds in a second.
pub const NANOS_PER_SEC: u128 = 1_000_000_000u128;

/// Nanoseconds in a millisecond.
pub const NANOS_PER_MILLI: u128 = 1_000_000u128;

/// Phase of a task.
#[derive(Clone, Copy, Debug, PartialEq, Eq, Structural)]
pub enum Stage {
    Working,
    Finished,
}

/// A length of time, as whole seconds and the nanoseconds past them.
#[derive(Clone, Copy, Debug, PartialEq, Eq, Structural)]
pub struct StatusDuration {
    pub seconds: u64,
    pub nanoseconds: u32,
}

/// Progress of a task: `numerator` steps done out of `denominator`.
#[derive(Clone, Copy, Debug, PartialEq, Eq, Structural)]
pub struct Progress {
    pub numerator: i32,
    pub denominator: i32,
}

/// A status report of a task.
#[derive(Clone, Debug, PartialEq, Eq)]
pub struct StatusReport {
    pub phase: Stage,
    pub elapsed: Option<StatusDuration>,
    pub progress: Option<Progress>,
    pub report_string: String,
}

impl StatusReport {
    /// A copy of the report, equal to it.
    pub fn duplicate(&self) -> (r: StatusReport)
        ensures
            r == *self,
    {
        StatusReport {
            phase: self.phase,
            elapsed: self.elapsed,
            progress: self.progress,
            report_string: self.report_string.clone(),
        }
    }
}

impl StatusDuration {
    /// The duration of `nanos` nanoseconds, split into whole seconds and the
    /// nanoseconds past them.
    pub fn from_nanos(nanos: u128) -> (r: StatusDuration)
        requires
            nanos / NANOS_PER_SEC <= u64::MAX,
        ensures
            r.seconds == nanos / NANOS_PER_SEC,
            r.nanoseconds == nanos % NANOS_PER_SEC,
    {
        StatusDuration {
            seconds: (nanos / NANOS_PER_SEC) as u64,
            nanoseconds: (nanos % NANOS_PER_SEC) as u32,
        }
    }
}

/// Why the keeper could not answer a request for the latest report.
#[derive(Clone, Copy, Debug, PartialEq, Eq, Structural)]
pub enum StatusError {
    /// No report was received yet.
    Unavailable,
}

impl StatusError {
    /// The message that goes with the error.
    pub fn message(&self) -> (r: String)
        ensures
            r@ == status_error_message(*self),
    {
        match self {
            StatusError::Unavailable => String::from_str("No report available"),
        }
    }
}

/// The message of each error of the keeper.
pub open spec fn status_error_message(e: StatusError) -> Seq<char> {
    match e {
        StatusError::Unavailable => "No report available"@,
    }
}

/// Keeps the latest status report received.
pub struct StatusKeeper {
    latest: Option<StatusReport>,
}

impl View for StatusKeeper {
    type V = Option<StatusReport>;

    closed spec fn view(&self) -> Option<StatusReport> {
        self.latest
    }
}

impl StatusKeeper {
    /// A keeper that has received no report.
    pub fn new() -> (r: StatusKeeper)
        ensures
            r@ is None,
    {
        StatusKeeper { latest: None }
    }

    /// A copy of the latest report received, if any.
    pub fn get_latest_report(&self) -> (r: Option<StatusReport>)
        ensures
            r == self@,
    {
        match &self.latest {
            Some(report) => Some(report.duplicate()),
            None => None,
        }
    }

    /// Records a received report; it replaces the previous one.
    pub fn report(&mut self, report: StatusReport)
        ensures
            final(self)@ == recorded(old(self)@, report),
    {
        self.latest = Some(report);
    }

    /// Reads a stream of reports in order, recording each one, and stops at
    /// the first error, which it hands back; the reports before the error
    /// stay recorded.
    pub fn receive_reports<E>(&mut self, items: Vec<Result<StatusReport, E>>) -> (r: Result<(), E>)
        ensures
            (final(self)@, r) == stream_outcome(old(self)@, items@),
    {
        let mut rest = items;
        let mut answer: Result<(), E> = Ok(());
        while rest.len() > 0
            invariant_except_break
                stream_outcome(self@, rest@) == stream_outcome(old(self)@, items@),
                answer == Ok::<(), E>(()),
            ensures
                (self@, answer) == stream_outcome(old(self)@, items@),
            decreases rest.len(),
        {
            let ghost before = rest@;
            let item = rest.remove(0);
            assert(rest@ =~= before.drop_first());
            match item {
                Ok(report) => {
                    self.report(report);
                },
                Err(e) => {
                    answer = Err(e);
                    break;
                },
            }
        }
        answer
    }

    /// Answers a request for the latest report: the report, or
    /// `Unavailable` when none was received.
    pub fn latest_report_or_unavailable(&self) -> (r: Result<StatusReport, StatusError>)
        ensures
            match self@ {
                Some(report) => r == Ok::<StatusReport, StatusError>(report),
                None => r == Err::<StatusReport, StatusError>(StatusError::Unavailable),
            },
    {
        match self.get_latest_report() {
            Some(report) => Ok(report),
            None => Err(StatusError::Unavailable),
        }
    }
}

/// The latest report and the answer after a keeper that held `latest` reads
/// the items of a stream of reports in order: each report is recorded, and
/// the first error ends the reading and is the answer; with no error the
/// answer is `Ok`.
pub open spec fn stream_outcome<E>(latest: Option<StatusReport>, items: Seq<Result<StatusReport, E>>) -> (
    Option<StatusReport>,
    Result<(), E>,
)
    decreases items.len(),
{
    if items.len() == 0 {
        (latest, Ok(()))
    } else {
        match items[0] {
            Ok(report) => stream_outcome(recorded(latest, report), items.drop_first()),
            Err(e) => (latest, Err(e)),
        }
    }
}

/// The latest report of a keeper that held `latest` and records `report`:
/// the report replaces what it held.
pub open spec fn recorded(latest: Option<StatusReport>, report: StatusReport) -> Option<StatusReport> {
    Some(report)
}

/// The latest report after the reports `reports` were recorded in turn on a
/// keeper that held `init`.
pub open spec fn latest_after(init: Option<StatusReport>, reports: Seq<StatusReport>) -> Option<StatusReport>
    decreases reports.len(),
{
    if reports.len() == 0 {
        init
    } else {
        recorded(latest_after(init, reports.drop_last()), reports.last())
    }
}

/// A stream of reports leaves the last of them as the latest report; an
/// empty stream changes nothing.
pub proof fn law_latest_report_is_the_last_received(init: Option<StatusReport>, reports: Seq<StatusReport>)
    ensures
        reports.len() == 0 ==> latest_after(init, reports) == init,
        reports.len() > 0 ==> latest_after(init, reports) == Some(reports[reports.len() - 1]),
{
}

/// The items of a stream in which every item is a report.
pub open spec fn all_received<E>(reports: Seq<StatusReport>) -> Seq<Result<StatusReport, E>> {
    reports.map_values(|r: StatusReport| Ok::<StatusReport, E>(r))
}

/// A stream of reports without errors is answered `Ok` and leaves its last
/// report as the latest one, or the latest report unchanged when it is
/// empty.
pub proof fn law_report_stream_keeps_the_last_report<E>(init: Option<StatusReport>, reports: Seq<StatusReport>)
    ensures
        stream_outcome(init, all_received::<E>(reports)) == (
            if reports.len() == 0 {
                init
            } else {
                Some(reports.last())
            },
            Ok::<(), E>(()),
        ),
    decreases reports.len(),
{
    if reports.len() > 0 {
        law_report_stream_keeps_the_last_report::<E>(Some(reports[0]), reports.drop_first());
        assert(all_received::<E>(reports).drop_first() =~= all_received::<E>(reports.drop_first()));
        if reports.len() > 1 {
            assert(reports.drop_first().last() == reports.last());
        }
    }
}

/// What polling the stream of reports gives.
#[derive(Debug, PartialEq, Eq)]
pub enum StreamPoll {
    /// The next report.
    Report(StatusReport),
    /// The next report is not due yet; poll again at the given time.
    PendingUntil(u128),
    /// Every report was sent.
    Done,
}

/// Generates a series of status reports with a delay between them: a
/// `Working` report for each step `0..=len`, then a `Finished` report.
pub struct DelayedStatusReporterStream {
    len: i32,
    at: i32,
    /// Delay between two reports, in milliseconds.
    delay: u64,
    ready_at: u128,
    started_at: u128,
}

/// Model of the stream.
pub struct StreamModel {
    pub len: int,
    pub at: int,
    pub delay: nat,
    pub ready_at: nat,
    pub started_at: nat,
}

/// Number of reports the stream still has to send: steps `at..=len` and the
/// final report, never less than zero.
pub open spec fn spec_remaining(len: int, at: int) -> int {
    if len - at + 2 < 0 {
        0
    } else {
        len - at + 2
    }
}

/// The report generated at step `at` of a stream of `len` steps is a
/// `Working` report with progress `at` out of `len` while `at <= len`; the one
/// after is the `Finished` report.
pub open spec fn report_is(r: StatusReport, len: int, at: int, elapsed: StatusDuration) -> bool {
    &&& r.elapsed == Some(elapsed)
    &&& if len >= at {
        &&& r.phase == Stage::Working
        &&& r.progress == Some(Progress { numerator: at as i32, denominator: len as i32 })
        &&& r.report_string@ == ""@
    } else {
        &&& r.phase == Stage::Finished
        &&& r.progress is None
        &&& r.report_string@ == "Delayed finished"@
    }
}

/// The time that passed between `start` and `now`, zero if `now` is earlier.
pub open spec fn spec_elapsed(start: u128, now: u128) -> u128 {
    if now >= start {
        (now - start) as u128
    } else {
        0
    }
}

/// What one poll of the stream gives, as the model sees it.
pub enum PollOutcome {
    /// The report of the step the stream was at.
    Report,
    /// Nothing is due before the given time.
    Pending(nat),
    /// Every report was sent.
    Done,
}

/// The outcome that a poll result stands for.
pub open spec fn outcome_of(r: StreamPoll) -> PollOutcome {
    match r {
        StreamPoll::Report(_) => PollOutcome::Report,
        StreamPoll::PendingUntil(t) => PollOutcome::Pending(t as nat),
        StreamPoll::Done => PollOutcome::Done,
    }
}

/// One poll of a stream in state `m` at time `now`: the state after it and
/// its outcome. The stream is done once no report remains; otherwise it
/// sends the report of its step when that is due, and sets the next report
/// `delay` milliseconds later unless the step was the last working one.
pub open spec fn spec_poll(m: StreamModel, now: nat) -> (StreamModel, PollOutcome) {
    if spec_remaining(m.len, m.at) == 0 || spec_remaining(m.len, m.at) > usize::MAX {
        (m, PollOutcome::Done)
    } else if now >= m.ready_at {
        (
            StreamModel {
                at: m.at + 1,
                ready_at: if m.len > m.at {
                    (now + m.delay * NANOS_PER_MILLI) as nat
                } else {
                    m.ready_at
                },
                ..m
            },
            PollOutcome::Report,
        )
    } else {
        (m, PollOutcome::Pending(m.ready_at))
    }
}

/// Polls at the times `times` in turn, from state `m`: the state after the
/// last poll and, for each report sent, its step and the time of the poll
/// that sent it.
pub open spec fn spec_run(m: StreamModel, times: Seq<nat>) -> (StreamModel, Seq<(int, nat)>)
    decreases times.len(),
{
    if times.len() == 0 {
        (m, Seq::empty())
    } else {
        let before = spec_run(m, times.drop_last());
        let step = spec_poll(before.0, times.last());
        match step.1 {
            PollOutcome::Report => (step.0, before.1.push((before.0.at, times.last()))),
            _ => (step.0, before.1),
        }
    }
}

/// The state of a stream of `len` steps, `delay` milliseconds apart, made
/// at time `start`.
pub open spec fn fresh_stream(delay: nat, len: int, start: nat) -> StreamModel {
    StreamModel { len, at: 0, delay, ready_at: start, started_at: start }
}

/// What holds after any run of polls on a fresh stream.
pub open spec fn run_invariant(delay: nat, len: int, start: nat, times: Seq<nat>) -> bool {
    let (m, sent) = spec_run(fresh_stream(delay, len, start), times);
    &&& m.len == len && m.delay == delay && m.started_at == start
    &&& 0 <= m.at <= len + 2
    &&& m.at == sent.len()
    &&& forall|i: int| 0 <= i < sent.len() ==> (#[trigger] sent[i]).0 == i
    &&& m.at >= 1 && m.at - 1 < len ==> m.ready_at == sent[m.at - 1].1 + delay * NANOS_PER_MILLI
    &&& forall|i: int|
        0 <= i && i + 1 < sent.len() && i < len ==> #[trigger] sent[i + 1].1 >= sent[i].1 + delay
            * NANOS_PER_MILLI
}

proof fn lemma_run_invariant(delay: nat, len: int, start: nat, times: Seq<nat>)
    requires
        0 <= len <= i32::MAX - 2,
    ensures
        run_invariant(delay, len, start, times),
    decreases times.len(),
{
    if times.len() > 0 {
        lemma_run_invariant(delay, len, start, times.drop_last());
        let before = spec_run(fresh_stream(delay, len, start), times.drop_last());
        let m = before.0;
        let sent = before.1;
        let t = times.last();
        let step = spec_poll(m, t);
        let after = spec_run(fresh_stream(delay, len, start), times);
        assert(after == (match step.1 {
            PollOutcome::Report => (step.0, sent.push((m.at, t))),
            _ => (step.0, sent),
        }));
        if step.1 is Report {
            let sent2 = sent.push((m.at, t));
            assert forall|i: int| 0 <= i < sent2.len() implies (#[trigger] sent2[i]).0 == i by {
                if i < sent.len() {
                    assert(sent2[i] == sent[i]);
                }
            }
            assert forall|i: int|
                0 <= i && i + 1 < sent2.len() && i < len implies #[trigger] sent2[i + 1].1
                >= sent2[i].1 + delay * NANOS_PER_MILLI by {
                if i + 1 < sent.len() {
                    assert(sent2[i + 1] == sent[i + 1]);
                    assert(sent2[i] == sent[i]);
                } else {
                    assert(sent2[i] == sent[i]);
                }
            }
        }
    }
}

/// Polling a fresh stream of `len` steps, at any times: the reports come in
/// step order `0, 1, 2, ...`, never more than `len + 2` of them; a poll that
/// finds the stream done comes only after all `len + 2` were sent, and the
/// stream stays done from then on; and the reports of two consecutive
/// working steps are at least `delay` milliseconds apart.
pub proof fn law_polling_run(delay: nat, len: int, start: nat, times: Seq<nat>)
    requires
        0 <= len <= i32::MAX - 2,
    ensures
        ({
            let (m, sent) = spec_run(fresh_stream(delay, len, start), times);
            &&& m.at == sent.len() <= len + 2
            &&& forall|i: int| 0 <= i < sent.len() ==> (#[trigger] sent[i]).0 == i
            &&& forall|i: int|
                0 <= i && i + 1 < sent.len() && i < len ==> #[trigger] sent[i + 1].1 >= sent[i].1
                    + delay * NANOS_PER_MILLI
            &&& sent.len() == len + 2 ==> forall|t: nat| #[trigger] spec_poll(m, t) == (m, PollOutcome::Done)
        }),
        times.len() > 0 ==> (spec_poll(spec_run(fresh_stream(delay, len, start), times.drop_last()).0, times.last()).1 is Done
            <==> spec_run(fresh_stream(delay, len, start), times.drop_last()).1.len() == len + 2),
{
    lemma_run_invariant(delay, len, start, times);
    if times.len() > 0 {
        lemma_run_invariant(delay, len, start, times.drop_last());
    }
}

impl View for DelayedStatusReporterStream {
    type V = StreamModel;

    closed spec fn view(&self) -> StreamModel {
        StreamModel {
            len: self.len as int,
            at: self.at as int,
            delay: self.delay as nat,
            ready_at: self.ready_at as nat,
            started_at: self.started_at as nat,
        }
    }
}

impl DelayedStatusReporterStream {
    /// A stream of `len + 1` working reports and a final one, `delay`
    /// milliseconds apart, started at `now`.
    pub fn new(delay: u64, len: i32, now: u128) -> (r: DelayedStatusReporterStream)
        ensures
            r@ == (StreamModel {
                len: len as int,
                at: 0,
                delay: delay as nat,
                ready_at: now as nat,
                started_at: now as nat,
            }),
    {
        DelayedStatusReporterStream { len, at: 0, delay, ready_at: now, started_at: now }
    }

    /// Generates the report of the current step and moves to the next one.
    /// Unless the step was the last working step or later, the next report
    /// is due `delay` milliseconds after `now`; otherwise it is due at once.
    pub fn gen_and_unready(&mut self, now: u128) -> (r: StatusReport)
        requires
            old(self)@.at < i32::MAX,
            spec_elapsed(old(self)@.started_at as u128, now) / NANOS_PER_SEC <= u64::MAX,
            now + old(self)@.delay * NANOS_PER_MILLI <= u128::MAX,
        ensures
            report_is(
                r,
                old(self)@.len,
                old(self)@.at,
                StatusDuration {
                    seconds: (spec_elapsed(old(self)@.started_at as u128, now) / NANOS_PER_SEC) as u64,
                    nanoseconds: (spec_elapsed(old(self)@.started_at as u128, now) % NANOS_PER_SEC) as u32,
                },
            ),
            final(self)@ == (StreamModel {
                at: old(self)@.at + 1,
                ready_at: if old(self)@.len > old(self)@.at {
                    (now + old(self)@.delay * NANOS_PER_MILLI) as nat
                } else {
                    old(self)@.ready_at
                },
                ..old(self)@
            }),
    {
        let at = self.at;
        self.at = self.at + 1;
        let elapsed_nanos = if now >= self.started_at {
            now - self.started_at
        } else {
            0
        };
        let elapsed = StatusDuration::from_nanos(elapsed_nanos);
        if self.len >= at {
            if self.len > at {
                self.ready_at = now + (self.delay as u128) * NANOS_PER_MILLI;
            }
            StatusReport {
                phase: Stage::Working,
                elapsed: Some(elapsed),
                progress: Some(Progress { numerator: at, denominator: self.len }),
                report_string: String::from_str(""),
            }
        } else {
            StatusReport {
                phase: Stage::Finished,
                elapsed: Some(elapsed),
                progress: None,
                report_string: String::from_str("Delayed finished"),
            }
        }
    }

    /// The next report is due at `now` or earlier.
    pub fn is_ready(&self, now: u128) -> (r: bool)
        ensures
            r == (now >= self@.ready_at),
    {
        now >= self.ready_at
    }

    /// Number of reports still to send; 0 where the number does not fit in a
    /// `usize`.
    pub fn remaining(&self) -> (r: usize)
        ensures
            r == if spec_remaining(self@.len, self@.at) <= usize::MAX {
                spec_remaining(self@.len, self@.at)
            } else {
                0
            },
    {
        let signed: i64 = (self.len as i64) - (self.at as i64) + 2;
        if signed < 0 {
            0
        } else if signed as u64 > usize::MAX as u64 {
            0
        } else {
            signed as usize
        }
    }

    /// Bounds on the number of reports the stream still yields: both are
    /// the count that `remaining` gives.
    pub fn size_hint(&self) -> (r: (usize, Option<usize>))
        ensures
            r.0 == if spec_remaining(self@.len, self@.at) <= usize::MAX {
                spec_remaining(self@.len, self@.at)
            } else {
                0
            },
            r.1 == Some(r.0),
            0 <= self@.len && 0 <= self@.at ==> r.0 == spec_remaining(self@.len, self@.at),
    {
        let remaining = self.remaining();
        (remaining, Some(remaining))
    }

    /// The stream can be polled at `now`: its step can still advance, and
    /// the elapsed time and the next due time fit their types.
    pub fn can_poll(&self, now: u128) -> (r: bool)
        ensures
            r == (self@.at < i32::MAX && spec_elapsed(self@.started_at as u128, now) / NANOS_PER_SEC
                <= u64::MAX && now + self@.delay * NANOS_PER_MILLI <= u128::MAX),
    {
        let elapsed = if now >= self.started_at {
            now - self.started_at
        } else {
            0
        };
        let delay_nanos = (self.delay as u128) * NANOS_PER_MILLI;
        self.at < i32::MAX && elapsed / NANOS_PER_SEC <= u64::MAX as u128 && now <= u128::MAX
            - delay_nanos
    }

    /// Polls the stream at time `now`: the next report if it is due, the time
    /// to poll again if it is not, or `Done` once every report was sent.
    pub fn poll_next(&mut self, now: u128) -> (r: StreamPoll)
        requires
            old(self)@.at < i32::MAX,
            spec_elapsed(old(self)@.started_at as u128, now) / NANOS_PER_SEC <= u64::MAX,
            now + old(self)@.delay * NANOS_PER_MILLI <= u128::MAX,
        ensures
            final(self)@ == spec_poll(old(self)@, now as nat).0,
            outcome_of(r) == spec_poll(old(self)@, now as nat).1,
            match r {
                StreamPoll::Done => (spec_remaining(old(self)@.len, old(self)@.at) == 0
                    || spec_remaining(old(self)@.len, old(self)@.at) > usize::MAX) && final(self)@
                    == old(self)@,
                StreamPoll::PendingUntil(t) => {
                    &&& spec_remaining(old(self)@.len, old(self)@.at) > 0
                    &&& now < old(self)@.ready_at
                    &&& t == old(self)@.ready_at
                    &&& final(self)@ == old(self)@
                },
                StreamPoll::Report(report) => {
                    &&& spec_remaining(old(self)@.len, old(self)@.at) > 0
                    &&& now >= old(self)@.ready_at
                    &&& report_is(
                        report,
                        old(self)@.len,
                        old(self)@.at,
                        StatusDuration {
                            seconds: (spec_elapsed(old(self)@.started_at as u128, now)
                                / NANOS_PER_SEC) as u64,
                            nanoseconds: (spec_elapsed(old(self)@.started_at as u128, now)
                                % NANOS_PER_SEC) as u32,
                        },
                    )
                    &&& final(self)@ == (StreamModel {
                        at: old(self)@.at + 1,
                        ready_at: if old(self)@.len > old(self)@.at {
                            (now + old(self)@.delay * NANOS_PER_MILLI) as nat
                        } else {
                            old(self)@.ready_at
                        },
                        ..old(self)@
                    })
                },
            },
    {
        if self.remaining() == 0 {
            StreamPoll::Done
        } else if self.is_ready(now) {
            StreamPoll::Report(self.gen_and_unready(now))
        } else {
            StreamPoll::PendingUntil(self.ready_at)
        }
    }
}

/// A stream of `len` steps sends `len + 2` reports: the count of reports
/// still to send drops by one with each report and reaches zero after the
/// last; the reports of steps `0..=len` are working reports and the one
/// after is the finished report.
pub proof fn law_stream_sends_all_steps_then_finishes(len: int)
    requires
        0 <= len,
    ensures
        spec_remaining(len, 0) == len + 2,
        forall|at: int| 0 <= at <= len + 2 ==> #[trigger] spec_remaining(len, at) == len + 2 - at,
        forall|at: int, r: StatusReport, e: StatusDuration|
            0 <= at <= len && #[trigger] report_is(r, len, at, e) ==> r.phase == Stage::Working,
        forall|r: StatusReport, e: StatusDuration|
            #[trigger] report_is(r, len, len + 1, e) ==> r.phase == Stage::Finished,
{
}

} // verus!
