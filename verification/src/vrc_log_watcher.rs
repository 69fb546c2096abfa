//! Watching the log grow: the lines that arrive after the scan are read in
//! order, each exactly once, and the facts they record are handed on.

use crate::log_line::{
    seek_line_outcome, check_seek_line, check_url_line, url_line_outcome, FoundSeek,
    FoundUrl, UrlFact,
};
use crate::matching::{filter_pattern, IdentityFilter};
use crate::vrc_log_reader::ScanError;
use vstd::prelude::*;

verus! {

/// A fact that a new line of the log recorded.
#[derive(Clone, Debug, PartialEq, Eq)]
pub enum VrcLogWatcherEvent {
    FoundUrl(FoundUrl),
    FoundSeek(FoundSeek),
}

/// What a `VrcLogWatcherEvent` holds.
pub ghost enum LogFact {
    Url(UrlFact),
    Seek(FoundSeek),
}

impl View for VrcLogWatcherEvent {
    type V = LogFact;

    open spec fn view(&self) -> LogFact {
        match *self {
            VrcLogWatcherEvent::FoundUrl(url) => LogFact::Url(url@),
            VrcLogWatcherEvent::FoundSeek(seek) => LogFact::Seek(seek),
        }
    }
}

/// The facts of a run of lines, in the order of the file, and the line at
/// which reading broke off, if it did.
pub ghost struct Watched {
    pub facts: Seq<LogFact>,
    pub failure: Option<ScanError>,
}

/// What the first `count` of `lines` record, where `lines_before` lines
/// stand before them in the log. A line is first asked for an announcement,
/// then for a correction. Reading breaks off at the first line that matches
/// a pattern and cannot be read; the facts gathered until then stand.
pub open spec fn watched(
    lines: Seq<Seq<char>>,
    lines_before: u64,
    filter: Option<Seq<char>>,
    count: int,
) -> Watched
    decreases count,
{
    if count <= 0 {
        Watched { facts: Seq::empty(), failure: None }
    } else {
        let earlier = watched(lines, lines_before, filter, count - 1);
        if earlier.failure is Some {
            earlier
        } else {
            let line = lines[count - 1];
            let line_number = (lines_before + count) as u64;
            match url_line_outcome(line, line_number, filter) {
                Err(error) => Watched {
                    facts: earlier.facts,
                    failure: Some(ScanError { line_number, error }),
                },
                Ok(url) => {
                    let with_url = match url {
                        Some(u) => earlier.facts.push(LogFact::Url(u)),
                        None => earlier.facts,
                    };
                    match seek_line_outcome(line, filter) {
                        Err(error) => Watched {
                            facts: with_url,
                            failure: Some(ScanError { line_number, error }),
                        },
                        Ok(Some(seek)) => Watched {
                            facts: with_url.push(LogFact::Seek(seek)),
                            failure: None,
                        },
                        Ok(None) => Watched { facts: with_url, failure: None },
                    }
                },
            }
        }
    }
}

/// The number of lines among the first `count` that were read to their end.
pub open spec fn lines_taken(
    lines: Seq<Seq<char>>,
    lines_before: u64,
    filter: Option<Seq<char>>,
    count: int,
) -> int
    decreases count,
{
    if count <= 0 {
        0
    } else if watched(lines, lines_before, filter, count).failure is Some {
        lines_taken(lines, lines_before, filter, count - 1)
    } else {
        count
    }
}

/// What a list of events holds.
pub open spec fn facts_of(events: Seq<VrcLogWatcherEvent>) -> Seq<LogFact> {
    Seq::new(events.len(), |i: int| events[i]@)
}

/// The facts found in a run of new lines.
#[derive(Clone, Debug, PartialEq, Eq)]
pub struct NewFacts {
    /// The facts, in the order of the file.
    pub events: Vec<VrcLogWatcherEvent>,
    /// The line at which reading broke off, if it did. The watcher cannot
    /// go on past such a line.
    pub failure: Option<ScanError>,
}

impl View for NewFacts {
    type V = Watched;

    open spec fn view(&self) -> Watched {
        Watched { facts: facts_of(self.events@), failure: self.failure }
    }
}

/// Follows the log from the line at which the scan left off.
#[derive(Clone, Debug)]
pub struct VrcLogWatcher {
    lines_read: u64,
    player_name_regex: Option<IdentityFilter>,
}

impl VrcLogWatcher {
    /// The number of lines of the log consumed so far, by the scan and by
    /// this watcher together.
    pub closed spec fn lines_consumed(&self) -> u64 {
        self.lines_read
    }

    /// The pattern of the identity filter, if there is a filter.
    pub closed spec fn filter(&self) -> Option<Seq<char>> {
        filter_pattern(self.player_name_regex)
    }

    /// A watcher that resumes behind line number `start_after_line`.
    pub fn new(start_after_line: u64, player_name_regex: Option<IdentityFilter>) -> (watcher: Self)
        ensures
            watcher.lines_consumed() == start_after_line,
            watcher.filter() == filter_pattern(player_name_regex),
    {
        VrcLogWatcher { lines_read: start_after_line, player_name_regex }
    }

    /// The number of lines consumed so far: as many lines of the file are
    /// to be passed over before the next new line.
    pub fn lines_read(&self) -> (n: u64)
        ensures
            n == self.lines_consumed(),
    {
        self.lines_read
    }

    /// Reads `new_lines`, the lines of the log that follow those consumed
    /// so far, and gives the facts they record. The lines read to their end
    /// count as consumed.
    pub fn watch_lines(&mut self, new_lines: &Vec<String>) -> (found: NewFacts)
        requires
            old(self).lines_consumed() + new_lines.len() <= u64::MAX,
        ensures
            found@ == watched(
                new_lines.deep_view(),
                old(self).lines_consumed(),
                old(self).filter(),
                new_lines.len() as int,
            ),
            final(self).lines_consumed() == old(self).lines_consumed() + lines_taken(
                new_lines.deep_view(),
                old(self).lines_consumed(),
                old(self).filter(),
                new_lines.len() as int,
            ),
            final(self).filter() == old(self).filter(),
            found.events@.len() == found@.facts.len(),
    {
        let ghost lines = new_lines.deep_view();
        let ghost before = self.lines_read;
        let ghost filter = filter_pattern(self.player_name_regex);
        let mut events: Vec<VrcLogWatcherEvent> = Vec::new();
        let mut i: usize = 0;
        assert(lines.len() == new_lines@.len());
        assert(facts_of(events@) =~= Seq::<LogFact>::empty());
        while i < new_lines.len()
            invariant
                i <= new_lines.len(),
                lines == new_lines.deep_view(),
                before + new_lines.len() <= u64::MAX,
                self.lines_read == before + i,
                before == old(self).lines_read,
                self.player_name_regex == old(self).player_name_regex,
                filter == filter_pattern(self.player_name_regex),
                watched(lines, before, filter, i as int).failure is None,
                facts_of(events@) == watched(lines, before, filter, i as int).facts,
                lines_taken(lines, before, filter, i as int) == i,
            decreases new_lines.len() - i,
        {
            let ghost facts = facts_of(events@);
            assert(lines[i as int] == new_lines@[i as int]@);
            let line = new_lines[i].as_str();
            let line_number: u64 = self.lines_read + 1;
            match check_url_line(line, line_number, &self.player_name_regex) {
                Err(error) => {
                    let failure = Some(ScanError { line_number, error });
                    proof {
                        lemma_failure_stays(lines, before, filter, i + 1, new_lines.len() as int);
                    }
                    return NewFacts { events, failure };
                },
                Ok(Some(url)) => {
                    events.push(VrcLogWatcherEvent::FoundUrl(url));
                    assert(facts_of(events@) =~= facts.push(LogFact::Url(url@)));
                },
                Ok(None) => {},
            }
            let ghost with_url = facts_of(events@);
            match check_seek_line(line, &self.player_name_regex) {
                Err(error) => {
                    let failure = Some(ScanError { line_number, error });
                    proof {
                        lemma_failure_stays(lines, before, filter, i + 1, new_lines.len() as int);
                    }
                    return NewFacts { events, failure };
                },
                Ok(Some(seek)) => {
                    events.push(VrcLogWatcherEvent::FoundSeek(seek));
                    assert(facts_of(events@) =~= with_url.push(LogFact::Seek(seek)));
                },
                Ok(None) => {},
            }
            self.lines_read = self.lines_read + 1;
            i = i + 1;
        }
        NewFacts { events, failure: None }
    }
}

/// Once reading has broken off, more lines change nothing: neither the
/// facts, nor the failure, nor the count of lines read to their end.
pub proof fn lemma_failure_stays(
    lines: Seq<Seq<char>>,
    lines_before: u64,
    filter: Option<Seq<char>>,
    count: int,
    more: int,
)
    requires
        0 < count <= more,
        watched(lines, lines_before, filter, count).failure is Some,
    ensures
        watched(lines, lines_before, filter, more) == watched(lines, lines_before, filter, count),
        lines_taken(lines, lines_before, filter, more) == lines_taken(
            lines,
            lines_before,
            filter,
            count,
        ),
    decreases more - count,
{
    if count < more {
        lemma_failure_stays(lines, lines_before, filter, count, more - 1);
    }
}

/// A run of no lines records no fact, reports no failure and consumes
/// nothing: a notification of a change that brought no new line leaves the
/// watcher, and with it whoever is fed by it, as it was.
pub proof fn lemma_no_new_line_changes_nothing(lines_before: u64, filter: Option<Seq<char>>)
    ensures
        watched(Seq::empty(), lines_before, filter, 0) == (Watched {
            facts: Seq::empty(),
            failure: None,
        }),
        lines_taken(Seq::empty(), lines_before, filter, 0) == 0,
{
}

/// Reading `count` lines in one run gives what reading the first `cut` of
/// them and then, resuming behind those, the rest gives: the same facts in
/// the same order, under the same line numbers, with the same end. Wherever
/// a run is cut, no line is read twice and none is left out.
pub proof fn lemma_watch_resumes(
    lines: Seq<Seq<char>>,
    lines_before: u64,
    filter: Option<Seq<char>>,
    cut: int,
    count: int,
)
    requires
        0 <= cut <= count <= lines.len(),
        lines_before + count <= u64::MAX,
        watched(lines, lines_before, filter, cut).failure is None,
    ensures
        watched(lines, lines_before, filter, count).facts == watched(
            lines,
            lines_before,
            filter,
            cut,
        ).facts + watched(lines.skip(cut), (lines_before + cut) as u64, filter, count - cut).facts,
        watched(lines, lines_before, filter, count).failure == watched(
            lines.skip(cut),
            (lines_before + cut) as u64,
            filter,
            count - cut,
        ).failure,
        lines_taken(lines, lines_before, filter, count) == cut + lines_taken(
            lines.skip(cut),
            (lines_before + cut) as u64,
            filter,
            count - cut,
        ),
    decreases count - cut,
{
    let rest = lines.skip(cut);
    let resumed = (lines_before + cut) as u64;
    let head = watched(lines, lines_before, filter, cut).facts;
    if count == cut {
        assert(head + Seq::<LogFact>::empty() =~= head);
    } else {
        lemma_watch_resumes(lines, lines_before, filter, cut, count - 1);
        let whole_earlier = watched(lines, lines_before, filter, count - 1);
        let rest_earlier = watched(rest, resumed, filter, count - cut - 1);
        assert(rest[count - cut - 1] == lines[count - 1]);
        if whole_earlier.failure is None {
            let line = lines[count - 1];
            let line_number = (lines_before + count) as u64;
            match url_line_outcome(line, line_number, filter) {
                Err(_) => {},
                Ok(url) => {
                    let tail = match url {
                        Some(u) => rest_earlier.facts.push(LogFact::Url(u)),
                        None => rest_earlier.facts,
                    };
                    let all = match url {
                        Some(u) => whole_earlier.facts.push(LogFact::Url(u)),
                        None => whole_earlier.facts,
                    };
                    assert(all =~= head + tail);
                    match seek_line_outcome(line, filter) {
                        Ok(Some(seek)) => {
                            assert(all.push(LogFact::Seek(seek)) =~= head + tail.push(
                                LogFact::Seek(seek),
                            ));
                        },
                        _ => {},
                    }
                },
            }
        }
    }
}

/// What the first `count` lines record depends on those lines alone.
pub proof fn lemma_watched_reads_its_lines_only(
    a: Seq<Seq<char>>,
    b: Seq<Seq<char>>,
    lines_before: u64,
    filter: Option<Seq<char>>,
    count: int,
)
    requires
        count <= a.len(),
        count <= b.len(),
        forall|i: int| 0 <= i < count ==> a[i] == b[i],
    ensures
        watched(a, lines_before, filter, count) == watched(b, lines_before, filter, count),
    decreases count,
{
    if count > 0 {
        lemma_watched_reads_its_lines_only(a, b, lines_before, filter, count - 1);
    }
}

/// The lines of several runs, one run behind the other.
pub open spec fn joined(runs: Seq<Seq<Seq<char>>>) -> Seq<Seq<char>>
    decreases runs.len(),
{
    if runs.len() == 0 {
        Seq::empty()
    } else {
        joined(runs.drop_last()) + runs.last()
    }
}

/// What a watcher that resumes behind `lines_before` lines finds when it is
/// handed `runs` one after the other, as one notification after the other
/// hands it the lines that the log has gained: each run is read behind all
/// the lines before it, and after a failure nothing more is read.
pub open spec fn watched_in_runs(
    runs: Seq<Seq<Seq<char>>>,
    lines_before: u64,
    filter: Option<Seq<char>>,
) -> Watched
    decreases runs.len(),
{
    if runs.len() == 0 {
        Watched { facts: Seq::empty(), failure: None }
    } else {
        let earlier = watched_in_runs(runs.drop_last(), lines_before, filter);
        if earlier.failure is Some {
            earlier
        } else {
            let run = runs.last();
            let resumed = (lines_before + joined(runs.drop_last()).len()) as u64;
            let next = watched(run, resumed, filter, run.len() as int);
            Watched { facts: earlier.facts + next.facts, failure: next.failure }
        }
    }
}

/// However the growth of the log is cut into notifications, and however
/// many of them bring nothing, the watcher finds what one pass over all the
/// new lines finds: every line once, in the order of the file, under its
/// number in the file.
pub proof fn lemma_runs_cover_each_line_once(
    runs: Seq<Seq<Seq<char>>>,
    lines_before: u64,
    filter: Option<Seq<char>>,
)
    requires
        lines_before + joined(runs).len() <= u64::MAX,
    ensures
        watched_in_runs(runs, lines_before, filter) == watched(
            joined(runs),
            lines_before,
            filter,
            joined(runs).len() as int,
        ),
    decreases runs.len(),
{
    if runs.len() > 0 {
        let head = joined(runs.drop_last());
        let run = runs.last();
        let all = joined(runs);
        let cut = head.len() as int;
        lemma_runs_cover_each_line_once(runs.drop_last(), lines_before, filter);
        lemma_watched_reads_its_lines_only(all, head, lines_before, filter, cut);
        let earlier = watched(all, lines_before, filter, cut);
        if earlier.failure is Some {
            lemma_failure_stays(all, lines_before, filter, cut, all.len() as int);
        } else {
            lemma_watch_resumes(all, lines_before, filter, cut, all.len() as int);
            assert(all.skip(cut) =~= run);
        }
    }
}

/// The handoff from the scan to the watcher. Of a log `lines` the scan has
/// consumed the first `scanned` lines; the watcher resumes behind them and is
/// handed the rest. Then the two parts make up the log, so that no line is
/// both scanned and replayed and none between them is skipped; the watcher
/// gives each of its lines the number that the line has in the file; and it
/// finds in them what one pass over the whole log finds behind the first
/// `scanned` lines.
pub proof fn lemma_handoff_covers_each_line_once(
    lines: Seq<Seq<char>>,
    scanned: int,
    filter: Option<Seq<char>>,
)
    requires
        0 <= scanned <= lines.len() <= u64::MAX,
    ensures
        lines.take(scanned) + lines.skip(scanned) == lines,
        forall|k: int|
            0 <= k < lines.len() - scanned ==> #[trigger] lines.skip(scanned)[k] == lines[scanned
                + k],
        watched(lines, 0, filter, scanned).failure is None ==> {
            &&& watched(lines, 0, filter, lines.len() as int).facts == watched(
                lines,
                0,
                filter,
                scanned,
            ).facts + watched(
                lines.skip(scanned),
                scanned as u64,
                filter,
                lines.len() - scanned,
            ).facts
            &&& lines_taken(lines, 0, filter, lines.len() as int) == scanned + lines_taken(
                lines.skip(scanned),
                scanned as u64,
                filter,
                lines.len() - scanned,
            )
        },
{
    assert(lines.take(scanned) + lines.skip(scanned) =~= lines);
    if watched(lines, 0, filter, scanned).failure is None {
        lemma_watch_resumes(lines, 0, filter, scanned, lines.len() as int);
    }
}

} // verus!
