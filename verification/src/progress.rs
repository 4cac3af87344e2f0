//! Progress reports of the encoder.
//!
//! The encoder writes its progress as lines of text; a report is complete
//! once its text holds `progress=`. The worker gathers the lines into
//! reports and shows the `out_time=` lines of each.

use vstd::prelude::*;

use crate::headers::views;

verus! {

/// `p` occurs in `s` at position `i`.
pub open spec fn occurs_at(s: Seq<char>, p: Seq<char>, i: int) -> bool {
    0 <= i && i + p.len() <= s.len() && s.subrange(i, i + p.len()) == p
}

/// `p` occurs somewhere in `s`.
pub open spec fn spec_contains(s: Seq<char>, p: Seq<char>) -> bool {
    exists|i: int| occurs_at(s, p, i)
}

/// `s` begins with `p`.
pub open spec fn spec_starts_with(s: Seq<char>, p: Seq<char>) -> bool {
    occurs_at(s, p, 0)
}

/// The characters of `p` stand in `s` from position `i` on.
fn matches_at(s: &str, n: usize, p: &str, m: usize, i: usize) -> (r: bool)
    requires
        n == s@.len(),
        m == p@.len(),
        i + m <= n,
    ensures
        r == (s@.subrange(i as int, i + m) == p@),
{
    let mut j: usize = 0;
    while j < m
        invariant
            j <= m,
            n == s@.len(),
            m == p@.len(),
            i + m <= n,
            forall|k: int| 0 <= k < j ==> s@[i + k] == p@[k],
        decreases m - j,
    {
        if s.get_char(i + j) != p.get_char(j) {
            assert(s@.subrange(i as int, i + m)[j as int] != p@[j as int]);
            return false;
        }
        j = j + 1;
    }
    assert(s@.subrange(i as int, i + m) =~= p@);
    true
}

/// `p` occurs in `s`.
pub fn contains_text(s: &str, p: &str) -> (r: bool)
    ensures
        r == spec_contains(s@, p@),
{
    let n = s.unicode_len();
    let m = p.unicode_len();
    if m == 0 {
        assert(s@.subrange(0, 0) =~= p@);
        assert(occurs_at(s@, p@, 0));
        return true;
    }
    if m > n {
        return false;
    }
    let mut i: usize = 0;
    while i <= n - m
        invariant
            n == s@.len(),
            m == p@.len(),
            1 <= m <= n,
            i <= n - m + 1,
            forall|k: int| 0 <= k < i ==> !occurs_at(s@, p@, k),
        decreases n - m + 1 - i,
    {
        if matches_at(s, n, p, m, i) {
            assert(occurs_at(s@, p@, i as int));
            return true;
        }
        i = i + 1;
    }
    false
}

/// `s` begins with `p`.
pub fn starts_with_text(s: &str, p: &str) -> (r: bool)
    ensures
        r == spec_starts_with(s@, p@),
{
    let n = s.unicode_len();
    let m = p.unicode_len();
    if m > n {
        return false;
    }
    matches_at(s, n, p, m, 0)
}

/// The pieces of `s` between line feeds, the last one included even when it
/// is empty.
pub open spec fn split_newlines(s: Seq<char>) -> Seq<Seq<char>>
    decreases s.len(),
{
    if s.len() == 0 {
        seq![Seq::empty()]
    } else {
        let ps = split_newlines(s.drop_last());
        if s.last() == '\n' {
            ps.push(Seq::empty())
        } else {
            ps.update(ps.len() - 1, ps.last().push(s.last()))
        }
    }
}

/// A line that was ended by a line feed loses the carriage return before it.
pub open spec fn strip_cr(l: Seq<char>) -> Seq<char> {
    if l.len() > 0 && l.last() == '\r' {
        l.drop_last()
    } else {
        l
    }
}

/// The lines of `s`: the text between line feeds or carriage return and line
/// feed pairs; a last line without a line feed counts only when it is not
/// empty.
pub open spec fn spec_lines(s: Seq<char>) -> Seq<Seq<char>> {
    let ps = split_newlines(s);
    let body = ps.drop_last().map_values(|l: Seq<char>| strip_cr(l));
    if ps.last().len() == 0 {
        body
    } else {
        body.push(ps.last())
    }
}

proof fn lemma_split_newlines_len(s: Seq<char>)
    ensures
        split_newlines(s).len() >= 1,
    decreases s.len(),
{
    if s.len() > 0 {
        lemma_split_newlines_len(s.drop_last());
    }
}

/// The lines of a text, as `str::lines` gives them.
pub fn text_lines(s: &str) -> (r: Vec<String>)
    ensures
        views(r@) == spec_lines(s@),
{
    let n = s.unicode_len();
    let mut lines: Vec<String> = Vec::new();
    let mut start: usize = 0;
    let mut i: usize = 0;
    proof {
        assert(s@.take(0) =~= Seq::<char>::empty());
    }
    while i < n
        invariant
            i <= n,
            n == s@.len(),
            start <= i,
            split_newlines(s@.take(i as int)).len() >= 1,
            views(lines@) == split_newlines(s@.take(i as int)).drop_last().map_values(
                |l: Seq<char>| strip_cr(l),
            ),
            split_newlines(s@.take(i as int)).last() == s@.subrange(start as int, i as int),
        decreases n - i,
    {
        let c = s.get_char(i);
        let ghost ps = split_newlines(s@.take(i as int));
        proof {
            assert(s@.take(i + 1).drop_last() =~= s@.take(i as int));
            assert(s@.take(i + 1).last() == c);
            lemma_split_newlines_len(s@.take(i + 1));
        }
        if c == '\n' {
            let end = if i > start && s.get_char(i - 1) == '\r' {
                i - 1
            } else {
                i
            };
            let line = s.substring_char(start, end).to_owned();
            let ghost before = lines@;
            lines.push(line);
            proof {
                let cur = s@.subrange(start as int, i as int);
                assert(line@ == strip_cr(cur)) by {
                    if i > start && s@[i - 1] == '\r' {
                        assert(cur.last() == '\r');
                        assert(s@.subrange(start as int, end as int) =~= cur.drop_last());
                    }
                }
                let next = split_newlines(s@.take(i + 1));
                assert(next == ps.push(Seq::empty()));
                assert(next.drop_last() =~= ps);
                assert(ps =~= ps.drop_last().push(ps.last()));
                assert(views(lines@) =~= views(before).push(line@));
                assert(ps.map_values(|l: Seq<char>| strip_cr(l)) =~= ps.drop_last().map_values(
                    |l: Seq<char>| strip_cr(l),
                ).push(strip_cr(ps.last())));
                assert(s@.subrange((i + 1) as int, (i + 1) as int) =~= Seq::<char>::empty());
            }
            start = i + 1;
        } else {
            proof {
                let next = split_newlines(s@.take(i + 1));
                assert(next == ps.update(ps.len() - 1, ps.last().push(c)));
                assert(next.drop_last() =~= ps.drop_last());
                assert(s@.subrange(start as int, i + 1) =~= s@.subrange(start as int, i as int).push(
                    c,
                ));
            }
        }
        i = i + 1;
    }
    proof {
        assert(s@.take(n as int) =~= s@);
    }
    if start < n {
        let last = s.substring_char(start, n).to_owned();
        let ghost before = lines@;
        lines.push(last);
        proof {
            assert(views(lines@) =~= views(before).push(last@));
        }
    } else {
        proof {
            assert(s@.subrange(start as int, n as int).len() == 0);
        }
    }
    lines
}

/// A line that gives the time the encoder has reached.
pub open spec fn is_out_time(l: Seq<char>) -> bool {
    spec_starts_with(l, "out_time="@)
}

/// The lines among `ls` that give the time reached, in order.
pub open spec fn out_time_of(ls: Seq<Seq<char>>) -> Seq<Seq<char>>
    decreases ls.len(),
{
    if ls.len() == 0 {
        Seq::empty()
    } else if is_out_time(ls.last()) {
        out_time_of(ls.drop_last()).push(ls.last())
    } else {
        out_time_of(ls.drop_last())
    }
}

/// The lines of a report that give the time the encoder has reached, in
/// order.
pub fn out_time_lines(report: &str) -> (r: Vec<String>)
    ensures
        views(r@) == out_time_of(spec_lines(report@)),
{
    let lines = text_lines(report);
    let mut out: Vec<String> = Vec::new();
    let mut k: usize = 0;
    while k < lines.len()
        invariant
            k <= lines@.len(),
            views(out@) == out_time_of(views(lines@).take(k as int)),
        decreases lines@.len() - k,
    {
        let line = &lines[k];
        proof {
            assert(views(lines@).take(k + 1).drop_last() =~= views(lines@).take(k as int));
            assert(views(lines@).take(k + 1).last() == line@);
        }
        if starts_with_text(line.as_str(), "out_time=") {
            let ghost before = out@;
            out.push(line.clone());
            proof {
                assert(views(out@) =~= views(before).push(line@));
            }
        }
        k = k + 1;
    }
    proof {
        assert(views(lines@).take(lines@.len() as int) =~= views(lines@));
    }
    out
}

/// A report is complete once its text holds `progress=`.
pub open spec fn is_complete_report(s: Seq<char>) -> bool {
    spec_contains(s, "progress="@)
}

/// What adding `line` to the pending text `pending` gives: the new pending
/// text, and the report that is handed out, if it is complete.
pub open spec fn spec_push_line(pending: Seq<char>, line: Seq<char>) -> (Seq<char>, Option<Seq<char>>) {
    let text = pending + line;
    if is_complete_report(text) {
        (Seq::empty(), Some(text))
    } else {
        (text, None)
    }
}

/// Gathers the lines the encoder writes into complete reports.
pub struct ProgressReader {
    pending: String,
}

impl View for ProgressReader {
    type V = Seq<char>;

    /// The text read since the last complete report.
    closed spec fn view(&self) -> Seq<char> {
        self.pending@
    }
}

impl ProgressReader {
    /// A reader that has read nothing.
    pub fn new() -> (r: ProgressReader)
        ensures
            r@ == Seq::<char>::empty(),
    {
        ProgressReader { pending: String::new() }
    }

    /// Adds a line read from the encoder. Once the text read since the last
    /// report holds `progress=`, that text is handed out as a report and the
    /// reader starts over.
    pub fn push_line(&mut self, line: &str) -> (r: Option<String>)
        ensures
            (final(self)@, match r {
                Some(s) => Some(s@),
                None => None,
            }) == spec_push_line(old(self)@, line@),
    {
        self.pending.append(line);
        if contains_text(self.pending.as_str(), "progress=") {
            let report = self.pending.clone();
            self.pending = String::new();
            Some(report)
        } else {
            None
        }
    }
}

/// The text of all of `ls`, in order.
pub open spec fn concat_all(ls: Seq<Seq<char>>) -> Seq<char>
    decreases ls.len(),
{
    if ls.len() == 0 {
        Seq::empty()
    } else {
        concat_all(ls.drop_last()) + ls.last()
    }
}

/// The reports handed out, and the pending text, after a reader that has
/// read nothing is given the lines `ls` in order.
pub open spec fn feed_lines(ls: Seq<Seq<char>>) -> (Seq<Seq<char>>, Seq<char>)
    decreases ls.len(),
{
    if ls.len() == 0 {
        (Seq::empty(), Seq::empty())
    } else {
        let (reports, pending) = feed_lines(ls.drop_last());
        let (next, out) = spec_push_line(pending, ls.last());
        match out {
            Some(rep) => (reports.push(rep), next),
            None => (reports, next),
        }
    }
}

/// Nothing the encoder writes is lost or reordered: the reports handed out,
/// followed by the pending text, are exactly the lines read; every report
/// handed out is complete, and the pending text is not.
pub proof fn law_reports_keep_every_line(ls: Seq<Seq<char>>)
    ensures
        concat_all(feed_lines(ls).0) + feed_lines(ls).1 == concat_all(ls),
        forall|i: int| 0 <= i < feed_lines(ls).0.len() ==> is_complete_report(#[trigger] feed_lines(ls).0[i]),
        ls.len() > 0 ==> !is_complete_report(feed_lines(ls).1),
    decreases ls.len(),
{
    reveal_strlit("progress=");
    if ls.len() > 0 {
        let prev = ls.drop_last();
        law_reports_keep_every_line(prev);
        let (reports, pending) = feed_lines(prev);
        let text = pending + ls.last();
        assert(concat_all(reports) + text =~= concat_all(reports) + pending + ls.last());
        if is_complete_report(text) {
            assert(reports.push(text).drop_last() =~= reports);
            assert(concat_all(reports.push(text)) + Seq::<char>::empty() =~= concat_all(reports) + text);
        }
    } else {
        assert(concat_all(feed_lines(ls).0) + feed_lines(ls).1 =~= Seq::<char>::empty());
    }
}

} // verus!
