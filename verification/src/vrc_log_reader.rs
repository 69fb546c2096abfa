//! The one-time scan of the log as it stands: it finds the URL announced
//! last and the offset corrected last at or after that announcement.

use crate::local_time::LocalTime;
use crate::log_line::{
    seek_line_outcome, check_seek_line, check_url_line, url_line_outcome, FoundSeek,
    FoundUrl, LineError, UrlFact,
};
use crate::matching::{duplicate_filter, filter_pattern, IdentityFilter};
use crate::views::{option_view, outcome_view, result_view};
use vstd::prelude::*;

verus! {

/// A line that matched a pattern and could not be read.
#[derive(Clone, Copy, Debug, PartialEq, Eq, Structural)]
pub struct ScanError {
    /// The number of the line; the first line has number one.
    pub line_number: u64,
    pub error: LineError,
}

/// What line `i` of `lines` announces; the first line has index zero and
/// number one.
pub open spec fn url_at(lines: Seq<Seq<char>>, filter: Option<Seq<char>>, i: int) -> Result<
    Option<UrlFact>,
    LineError,
> {
    url_line_outcome(lines[i], (i + 1) as u64, filter)
}

/// What line `i` of `lines` corrects.
pub open spec fn seek_at(lines: Seq<Seq<char>>, filter: Option<Seq<char>>, i: int) -> Result<
    Option<FoundSeek>,
    LineError,
> {
    seek_line_outcome(lines[i], filter)
}

/// The last announcement of `lines`, as the scan reports it: the error of
/// the first announcement that cannot be read; else the announcement behind
/// which no line announces anything; else nothing.
pub open spec fn is_last_url(
    lines: Seq<Seq<char>>,
    filter: Option<Seq<char>>,
    found: Result<Option<UrlFact>, ScanError>,
) -> bool {
    match found {
        Err(e) => {
            let k = e.line_number - 1;
            &&& 0 <= k < lines.len()
            &&& url_at(lines, filter, k) == Err::<Option<UrlFact>, LineError>(e.error)
            &&& forall|j: int| 0 <= j < k ==> #[trigger] url_at(lines, filter, j) is Ok
        },
        Ok(None) => forall|j: int|
            0 <= j < lines.len() ==> #[trigger] url_at(lines, filter, j) == Ok::<
                Option<UrlFact>,
                LineError,
            >(None),
        Ok(Some(url)) => {
            let i = url.found_url_on_line - 1;
            &&& 0 <= i < lines.len()
            &&& url_at(lines, filter, i) == Ok::<Option<UrlFact>, LineError>(Some(url))
            &&& forall|j: int| 0 <= j < lines.len() ==> #[trigger] url_at(lines, filter, j) is Ok
            &&& forall|j: int|
                i < j < lines.len() ==> #[trigger] url_at(lines, filter, j) == Ok::<
                    Option<UrlFact>,
                    LineError,
                >(None)
        },
    }
}

/// The index of the first line that a search for corrections reads, when it
/// is to pass over the lines before line number `not_before_this_line`.
pub open spec fn first_index_read(not_before_this_line: u64) -> int {
    if not_before_this_line == 0 {
        0
    } else {
        not_before_this_line - 1
    }
}

/// Whether line `i` is the last of `lines` to correct an offset, and
/// corrects it to `seek`.
pub open spec fn is_last_seek_line(
    lines: Seq<Seq<char>>,
    filter: Option<Seq<char>>,
    i: int,
    seek: FoundSeek,
) -> bool {
    &&& 0 <= i < lines.len()
    &&& seek_at(lines, filter, i) == Ok::<Option<FoundSeek>, LineError>(Some(seek))
    &&& forall|j: int|
        i < j < lines.len() ==> #[trigger] seek_at(lines, filter, j) == Ok::<
            Option<FoundSeek>,
            LineError,
        >(None)
}

/// The last correction of `lines` at or after line number
/// `not_before_this_line`, as the scan reports it: the error of the first
/// such correction that cannot be read; else the correction behind which no
/// line corrects anything; else nothing. Lines before that number are not
/// read at all.
pub open spec fn is_last_seek(
    lines: Seq<Seq<char>>,
    filter: Option<Seq<char>>,
    not_before_this_line: u64,
    found: Result<Option<FoundSeek>, ScanError>,
) -> bool {
    let first = first_index_read(not_before_this_line);
    match found {
        Err(e) => {
            let k = e.line_number - 1;
            &&& first <= k < lines.len()
            &&& seek_at(lines, filter, k) == Err::<Option<FoundSeek>, LineError>(e.error)
            &&& forall|j: int| first <= j < k ==> #[trigger] seek_at(lines, filter, j) is Ok
        },
        Ok(None) => forall|j: int|
            first <= j < lines.len() ==> #[trigger] seek_at(lines, filter, j) == Ok::<
                Option<FoundSeek>,
                LineError,
            >(None),
        Ok(Some(seek)) => {
            &&& forall|j: int| first <= j < lines.len() ==> #[trigger] seek_at(lines, filter, j) is Ok
            &&& exists|i: int| first <= i && #[trigger] is_last_seek_line(lines, filter, i, seek)
        },
    }
}

/// What the scan of a log found, each with the number of lines read.
#[derive(Clone, Debug, PartialEq, Eq)]
pub enum UrlAndSeekResult {
    /// No line announces a URL.
    Nothing(u64),
    /// The URL announced last; no line at or after it corrects an offset.
    Url(FoundUrl, u64),
    /// The URL announced last, and the offset corrected last at or after it.
    UrlAndSeek(FoundUrl, FoundSeek, u64),
}

/// What a `UrlAndSeekResult` holds.
pub ghost enum ScanFinding {
    Nothing(u64),
    Url(UrlFact, u64),
    UrlAndSeek(UrlFact, FoundSeek, u64),
}

impl View for UrlAndSeekResult {
    type V = ScanFinding;

    open spec fn view(&self) -> ScanFinding {
        match *self {
            UrlAndSeekResult::Nothing(n) => ScanFinding::Nothing(n),
            UrlAndSeekResult::Url(url, n) => ScanFinding::Url(url@, n),
            UrlAndSeekResult::UrlAndSeek(url, seek, n) => ScanFinding::UrlAndSeek(url@, seek, n),
        }
    }
}

/// What the scan of `lines` reports. Every line counts as read. The scan
/// fails on the first announcement that cannot be read, wherever it stands,
/// and on the first correction that cannot be read at or after the last
/// announcement; corrections before the last announcement belong to an
/// earlier video and are passed over.
pub open spec fn is_scan_result(
    lines: Seq<Seq<char>>,
    filter: Option<Seq<char>>,
    result: Result<ScanFinding, ScanError>,
) -> bool {
    match result {
        Ok(ScanFinding::Nothing(n)) => {
            &&& n == lines.len()
            &&& is_last_url(lines, filter, Ok(None))
        },
        Ok(ScanFinding::Url(url, n)) => {
            &&& n == lines.len()
            &&& is_last_url(lines, filter, Ok(Some(url)))
            &&& is_last_seek(lines, filter, url.found_url_on_line, Ok(None))
        },
        Ok(ScanFinding::UrlAndSeek(url, seek, n)) => {
            &&& n == lines.len()
            &&& is_last_url(lines, filter, Ok(Some(url)))
            &&& is_last_seek(lines, filter, url.found_url_on_line, Ok(Some(seek)))
        },
        Err(e) => {
            ||| is_last_url(lines, filter, Err(e))
            ||| exists|url: UrlFact|
                {
                    &&& #[trigger] is_last_url(lines, filter, Ok(Some(url)))
                    &&& is_last_seek(lines, filter, url.found_url_on_line, Err(e))
                }
        },
    }
}

/// The scan of one log. It remembers how many lines it has read, which is
/// the line behind which watching resumes.
#[derive(Clone, Debug)]
pub struct VrcLogReader {
    lines_read_initially: Option<u64>,
    player_name_regex: Option<IdentityFilter>,
}

impl VrcLogReader {
    /// The number of lines that the scan has read, once it has read the
    /// log to its end.
    pub closed spec fn lines_counted(&self) -> Option<u64> {
        self.lines_read_initially
    }

    /// The pattern of the identity filter, if there is a filter.
    pub closed spec fn filter(&self) -> Option<Seq<char>> {
        filter_pattern(self.player_name_regex)
    }

    /// A reader that has read nothing yet.
    pub fn new(player_name_regex: Option<IdentityFilter>) -> (reader: Self)
        ensures
            reader.lines_counted() is None,
            reader.filter() == filter_pattern(player_name_regex),
    {
        VrcLogReader { lines_read_initially: None, player_name_regex }
    }

    /// The number of lines that the scan has read, once it has read the
    /// log to its end.
    pub fn lines_read_initially(&self) -> (lines_read: Option<u64>)
        ensures
            lines_read == self.lines_counted(),
    {
        self.lines_read_initially
    }

    /// Finds the URL that `lines` announce last, and counts the lines: every
    /// line counts, whatever it holds. A scan that fails counts nothing.
    pub fn find_last_url(&mut self, lines: &Vec<String>) -> (found: Result<Option<FoundUrl>, ScanError>)
        ensures
            is_last_url(lines.deep_view(), old(self).filter(), outcome_view(found)),
            final(self).filter() == old(self).filter(),
            found is Ok ==> final(self).lines_counted() == Some(lines.len() as u64),
            found is Err ==> final(self).lines_counted() == old(self).lines_counted(),
    {
        let ghost all = lines.deep_view();
        let ghost filter = filter_pattern(self.player_name_regex);
        let mut last_url: Option<FoundUrl> = None;
        let mut i: usize = 0;
        while i < lines.len()
            invariant
                i <= lines.len(),
                all == lines.deep_view(),
                *self == *old(self),
                filter == filter_pattern(self.player_name_regex),
                is_last_url(all.take(i as int), filter, Ok(option_view(last_url))),
            decreases lines.len() - i,
        {
            let ghost before = all.take(i as int);
            let ghost after = all.take(i + 1);
            assert(all[i as int] == lines@[i as int]@);
            assert forall|j: int| 0 <= j < i implies url_at(after, filter, j) == url_at(before, filter, j) by {
                assert(after[j] == before[j]);
            }
            assert(url_at(after, filter, i as int) == url_at(all, filter, i as int));
            let line_number: u64 = (i + 1) as u64;
            match check_url_line(lines[i].as_str(), line_number, &self.player_name_regex) {
                Err(error) => {
                    let failure = ScanError { line_number, error };
                    assert forall|j: int| 0 <= j < i implies #[trigger] url_at(all, filter, j) is Ok by {
                        assert(all[j] == before[j]);
                        assert(url_at(before, filter, j) is Ok);
                    }
                    return Err(failure);
                },
                Ok(Some(url)) => {
                    last_url = Some(url);
                },
                Ok(None) => {},
            }
            i = i + 1;
        }
        assert(all.take(i as int) == all);
        self.lines_read_initially = Some(lines.len() as u64);
        Ok(last_url)
    }

    /// Finds the offset that `lines` correct last, reading only the lines from
    /// line number `not_before_this_line` on.
    pub fn find_last_seek(&self, lines: &Vec<String>, not_before_this_line: u64) -> (found: Result<
        Option<FoundSeek>,
        ScanError,
    >)
        ensures
            is_last_seek(lines.deep_view(), self.filter(), not_before_this_line, found),
    {
        let ghost all = lines.deep_view();
        let ghost filter = filter_pattern(self.player_name_regex);
        let ghost first = first_index_read(not_before_this_line);
        let mut last_seek: Option<FoundSeek> = None;
        let ghost mut last_index: int = 0;
        if not_before_this_line > lines.len() as u64 {
            return Ok(None);
        }
        let mut i: usize = if not_before_this_line == 0 {
            0
        } else {
            (not_before_this_line - 1) as usize
        };
        while i < lines.len()
            invariant
                first <= i <= lines.len(),
                first == first_index_read(not_before_this_line),
                all == lines.deep_view(),
                filter == filter_pattern(self.player_name_regex),
                forall|j: int| first <= j < i ==> #[trigger] seek_at(all, filter, j) is Ok,
                match last_seek {
                    None => forall|j: int|
                        first <= j < i ==> #[trigger] seek_at(all, filter, j) == Ok::<
                            Option<FoundSeek>,
                            LineError,
                        >(None),
                    Some(seek) => {
                        &&& first <= last_index < i
                        &&& seek_at(all, filter, last_index) == Ok::<Option<FoundSeek>, LineError>(
                            Some(seek),
                        )
                        &&& forall|j: int|
                            last_index < j < i ==> #[trigger] seek_at(all, filter, j) == Ok::<
                                Option<FoundSeek>,
                                LineError,
                            >(None)
                    },
                },
            decreases lines.len() - i,
        {
            assert(all[i as int] == lines@[i as int]@);
            match check_seek_line(lines[i].as_str(), &self.player_name_regex) {
                Err(error) => {
                    return Err(ScanError { line_number: (i + 1) as u64, error });
                },
                Ok(Some(seek)) => {
                    last_seek = Some(seek);
                    proof {
                        last_index = i as int;
                    }
                },
                Ok(None) => {},
            }
            i = i + 1;
        }
        proof {
            if let Some(seek) = last_seek {
                assert(is_last_seek_line(all, filter, last_index, seek));
            }
        }
        Ok(last_seek)
    }

    /// Scans `lines`, the whole log as it stands, for the URL announced last and
    /// the offset corrected last at or after that announcement.
    pub fn get_latest_url_and_seek(&mut self, lines: &Vec<String>) -> (result: Result<
        UrlAndSeekResult,
        ScanError,
    >)
        ensures
            is_scan_result(lines.deep_view(), old(self).filter(), result_view(result)),
            final(self).filter() == old(self).filter(),
            result is Ok ==> final(self).lines_counted() == Some(lines.len() as u64),
    {
        assert(lines.deep_view().len() == lines@.len());
        match self.find_last_url(lines) {
            Err(e) => Err(e),
            Ok(found) => {
                let lines_read: u64 = lines.len() as u64;
                match found {
                    None => Ok(UrlAndSeekResult::Nothing(lines_read)),
                    Some(found_url) => {
                        match self.find_last_seek(lines, found_url.found_url_on_line) {
                            Err(e) => {
                                assert(is_last_url(
                                    lines.deep_view(),
                                    old(self).filter(),
                                    Ok(Some(found_url@)),
                                ));
                                Err(e)
                            },
                            Ok(None) => Ok(UrlAndSeekResult::Url(found_url, lines_read)),
                            Ok(Some(found_seek)) => Ok(
                                UrlAndSeekResult::UrlAndSeek(found_url, found_seek, lines_read),
                            ),
                        }
                    },
                }
            },
        }
    }
}

/// Where playback stands according to the log: the video to load and the
/// pair from which its position follows.
#[derive(Clone, Debug, PartialEq, Eq)]
pub struct InitialState {
    pub timestamp: LocalTime,
    pub additional_offset: u64,
    pub url: String,
}

/// What an `InitialState` holds.
pub ghost struct InitialFact {
    pub timestamp: LocalTime,
    pub additional_offset: u64,
    pub url: Seq<char>,
}

impl View for InitialState {
    type V = InitialFact;

    open spec fn view(&self) -> InitialFact {
        InitialFact {
            timestamp: self.timestamp,
            additional_offset: self.additional_offset,
            url: self.url@,
        }
    }
}

/// The state to begin with, if the log gave one, and the number of lines
/// that the scan consumed: the line after which live watching resumes.
#[derive(Clone, Debug, PartialEq, Eq)]
pub struct InitialStateResult {
    pub initial_state: Option<InitialState>,
    pub lines_read_initially: u64,
}

/// The state that a finding of the scan begins with. A video of which no
/// correction is known began at its announcement and at position zero; a
/// correction replaces both. With no announcement there is no state.
pub open spec fn initial_state_of(finding: ScanFinding) -> Option<InitialFact> {
    match finding {
        ScanFinding::Nothing(_) => None,
        ScanFinding::Url(url, _) => Some(
            InitialFact { timestamp: url.timestamp, additional_offset: 0, url: url.url },
        ),
        ScanFinding::UrlAndSeek(url, seek, _) => Some(
            InitialFact {
                timestamp: seek.timestamp,
                additional_offset: seek.seek_offset,
                url: url.url,
            },
        ),
    }
}

/// The number of lines that a finding of the scan counts as read.
pub open spec fn lines_read_of(finding: ScanFinding) -> u64 {
    match finding {
        ScanFinding::Nothing(n) => n,
        ScanFinding::Url(_, n) => n,
        ScanFinding::UrlAndSeek(_, _, n) => n,
    }
}

/// Turns what the scan found into the state to begin with and the point at
/// which to resume.
pub fn initial_state_from(url_and_seek: UrlAndSeekResult) -> (result: InitialStateResult)
    ensures
        option_view(result.initial_state) == initial_state_of(url_and_seek@),
        result.lines_read_initially == lines_read_of(url_and_seek@),
{
    match url_and_seek {
        UrlAndSeekResult::Nothing(lines_read_initially) => InitialStateResult {
            initial_state: None,
            lines_read_initially,
        },
        UrlAndSeekResult::Url(found_url, lines_read_initially) => InitialStateResult {
            initial_state: Some(
                InitialState {
                    timestamp: found_url.timestamp,
                    additional_offset: 0,
                    url: found_url.url,
                },
            ),
            lines_read_initially,
        },
        UrlAndSeekResult::UrlAndSeek(
            found_url,
            found_seek,
            lines_read_initially,
        ) => InitialStateResult {
            initial_state: Some(
                InitialState {
                    timestamp: found_seek.timestamp,
                    additional_offset: found_seek.seek_offset,
                    url: found_url.url,
                },
            ),
            lines_read_initially,
        },
    }
}

/// Whether `result` is what the log `lines` begins with.
pub open spec fn is_initial_state(
    lines: Seq<Seq<char>>,
    filter: Option<Seq<char>>,
    result: Result<InitialStateResult, ScanError>,
) -> bool {
    match result {
        Err(e) => is_scan_result(lines, filter, Err(e)),
        Ok(begin) => exists|finding: ScanFinding|
            {
                &&& #[trigger] is_scan_result(lines, filter, Ok(finding))
                &&& option_view(begin.initial_state) == initial_state_of(finding)
                &&& begin.lines_read_initially == lines_read_of(finding)
            },
    }
}

/// Reads from `lines`, the whole log as it stands, the state to begin with.
pub fn read_initial_state_from_log(
    lines: &Vec<String>,
    player_name_regex: &Option<IdentityFilter>,
) -> (result: Result<InitialStateResult, ScanError>)
    ensures
        is_initial_state(lines.deep_view(), filter_pattern(*player_name_regex), result),
        result matches Ok(begin) ==> begin.lines_read_initially == lines.len(),
{
    let mut reader = VrcLogReader::new(duplicate_filter(player_name_regex));
    match reader.get_latest_url_and_seek(lines) {
        Err(e) => Err(e),
        Ok(url_and_seek) => {
            assert(is_scan_result(
                lines.deep_view(),
                filter_pattern(*player_name_regex),
                Ok(url_and_seek@),
            ));
            assert(lines.deep_view().len() == lines@.len());
            Ok(initial_state_from(url_and_seek))
        },
    }
}

/// The index of the line from which on corrections bear on a finding:
/// that of the last announcement, or the end of the log if there is none.
pub open spec fn first_line_that_counts(finding: ScanFinding, lines_in_log: int) -> int {
    match finding {
        ScanFinding::Nothing(_) => lines_in_log,
        ScanFinding::Url(url, _) => url.found_url_on_line - 1,
        ScanFinding::UrlAndSeek(url, _, _) => url.found_url_on_line - 1,
    }
}

/// Corrections before the last announcement belong to an earlier video and
/// have no say: a log that announces the same on every line, and corrects
/// the same from the last announcement on, has the same finding, whatever
/// it corrects before.
pub proof fn lemma_earlier_corrections_have_no_say(
    lines: Seq<Seq<char>>,
    other: Seq<Seq<char>>,
    filter: Option<Seq<char>>,
    finding: ScanFinding,
)
    requires
        is_scan_result(lines, filter, Ok(finding)),
        other.len() == lines.len(),
        forall|j: int|
            0 <= j < lines.len() ==> #[trigger] url_at(other, filter, j) == url_at(
                lines,
                filter,
                j,
            ),
        forall|j: int|
            first_line_that_counts(finding, lines.len() as int) <= j < lines.len()
                ==> #[trigger] seek_at(other, filter, j) == seek_at(lines, filter, j),
    ensures
        is_scan_result(other, filter, Ok(finding)),
{
    assert forall|j: int| 0 <= j < lines.len() implies url_at(lines, filter, j) == #[trigger] url_at(
        other,
        filter,
        j,
    ) by {}
    match finding {
        ScanFinding::Nothing(_) => {},
        ScanFinding::Url(url, _) => {
            let first = first_index_read(url.found_url_on_line);
            assert(first == url.found_url_on_line - 1);
            assert(url_at(other, filter, first) == url_at(lines, filter, first));
            assert forall|j: int| first <= j < lines.len() implies seek_at(lines, filter, j)
                == #[trigger] seek_at(other, filter, j) by {}
        },
        ScanFinding::UrlAndSeek(url, seek, _) => {
            let first = first_index_read(url.found_url_on_line);
            assert(first == url.found_url_on_line - 1);
            assert(url_at(other, filter, first) == url_at(lines, filter, first));
            assert forall|j: int| first <= j < lines.len() implies seek_at(lines, filter, j)
                == #[trigger] seek_at(other, filter, j) by {}
            let i = choose|i: int| first <= i && #[trigger] is_last_seek_line(lines, filter, i, seek);
            assert(seek_at(other, filter, i) == seek_at(lines, filter, i));
            assert(is_last_seek_line(other, filter, i, seek));
        },
    }
}

/// A log has one last announcement: two reports of it that both meet
/// `is_last_url` are the same.
pub proof fn lemma_last_url_is_unique(
    lines: Seq<Seq<char>>,
    filter: Option<Seq<char>>,
    a: Result<Option<UrlFact>, ScanError>,
    b: Result<Option<UrlFact>, ScanError>,
)
    requires
        is_last_url(lines, filter, a),
        is_last_url(lines, filter, b),
    ensures
        a == b,
{
    match (a, b) {
        (Err(e1), Err(e2)) => {
            let k1 = e1.line_number - 1;
            let k2 = e2.line_number - 1;
            assert(url_at(lines, filter, k1) is Err);
            assert(url_at(lines, filter, k2) is Err);
            assert(k1 == k2);
        },
        (Err(e), Ok(found)) => {
            assert(url_at(lines, filter, e.line_number - 1) is Err);
        },
        (Ok(found), Err(e)) => {
            assert(url_at(lines, filter, e.line_number - 1) is Err);
        },
        (Ok(Some(u1)), Ok(Some(u2))) => {
            let i1 = u1.found_url_on_line - 1;
            let i2 = u2.found_url_on_line - 1;
            assert(url_at(lines, filter, i1) == Ok::<Option<UrlFact>, LineError>(Some(u1)));
            assert(url_at(lines, filter, i2) == Ok::<Option<UrlFact>, LineError>(Some(u2)));
            assert(i1 == i2);
        },
        (Ok(Some(u)), Ok(None)) => {
            assert(url_at(lines, filter, u.found_url_on_line - 1) is Ok);
        },
        (Ok(None), Ok(Some(u))) => {
            assert(url_at(lines, filter, u.found_url_on_line - 1) is Ok);
        },
        (Ok(None), Ok(None)) => {},
    }
}

/// A log has one last correction at or after a given line: two reports of
/// it that both meet `is_last_seek` are the same.
pub proof fn lemma_last_seek_is_unique(
    lines: Seq<Seq<char>>,
    filter: Option<Seq<char>>,
    not_before_this_line: u64,
    a: Result<Option<FoundSeek>, ScanError>,
    b: Result<Option<FoundSeek>, ScanError>,
)
    requires
        is_last_seek(lines, filter, not_before_this_line, a),
        is_last_seek(lines, filter, not_before_this_line, b),
    ensures
        a == b,
{
    let first = first_index_read(not_before_this_line);
    match (a, b) {
        (Err(e1), Err(e2)) => {
            let k1 = e1.line_number - 1;
            let k2 = e2.line_number - 1;
            assert(seek_at(lines, filter, k1) is Err);
            assert(seek_at(lines, filter, k2) is Err);
            assert(k1 == k2);
        },
        (Err(e), Ok(found)) => {
            assert(seek_at(lines, filter, e.line_number - 1) is Err);
            if let Some(seek) = found {
            }
        },
        (Ok(found), Err(e)) => {
            assert(seek_at(lines, filter, e.line_number - 1) is Err);
            if let Some(seek) = found {
            }
        },
        (Ok(Some(s1)), Ok(Some(s2))) => {
            let i1 = choose|i: int| first <= i && #[trigger] is_last_seek_line(lines, filter, i, s1);
            let i2 = choose|i: int| first <= i && #[trigger] is_last_seek_line(lines, filter, i, s2);
            assert(seek_at(lines, filter, i1) == Ok::<Option<FoundSeek>, LineError>(Some(s1)));
            assert(seek_at(lines, filter, i2) == Ok::<Option<FoundSeek>, LineError>(Some(s2)));
            assert(i1 == i2);
        },
        (Ok(Some(s)), Ok(None)) => {
            let i = choose|i: int| first <= i && #[trigger] is_last_seek_line(lines, filter, i, s);
            assert(seek_at(lines, filter, i) is Ok);
        },
        (Ok(None), Ok(Some(s))) => {
            let i = choose|i: int| first <= i && #[trigger] is_last_seek_line(lines, filter, i, s);
            assert(seek_at(lines, filter, i) is Ok);
        },
        (Ok(None), Ok(None)) => {},
    }
}

/// The scan of a log has one result: `is_scan_result` holds of no two.
pub proof fn lemma_scan_result_is_unique(
    lines: Seq<Seq<char>>,
    filter: Option<Seq<char>>,
    a: Result<ScanFinding, ScanError>,
    b: Result<ScanFinding, ScanError>,
)
    requires
        is_scan_result(lines, filter, a),
        is_scan_result(lines, filter, b),
    ensures
        a == b,
{
    let url_a = last_url_of(lines, filter, a);
    let url_b = last_url_of(lines, filter, b);
    lemma_last_url_is_unique(lines, filter, url_a, url_b);
    if let Ok(Some(url)) = url_a {
        let seek_a = last_seek_of(a);
        let seek_b = last_seek_of(b);
        lemma_last_seek_is_unique(lines, filter, url.found_url_on_line, seek_a, seek_b);
    }
}

/// The last announcement that a result of the scan rests on.
pub open spec fn last_url_of(
    lines: Seq<Seq<char>>,
    filter: Option<Seq<char>>,
    result: Result<ScanFinding, ScanError>,
) -> Result<Option<UrlFact>, ScanError> {
    match result {
        Ok(ScanFinding::Nothing(_)) => Ok(None),
        Ok(ScanFinding::Url(url, _)) => Ok(Some(url)),
        Ok(ScanFinding::UrlAndSeek(url, _, _)) => Ok(Some(url)),
        Err(e) => if is_last_url(lines, filter, Err(e)) {
            Err(e)
        } else {
            Ok(
                Some(
                    choose|url: UrlFact|
                        {
                            &&& #[trigger] is_last_url(lines, filter, Ok(Some(url)))
                            &&& is_last_seek(lines, filter, url.found_url_on_line, Err(e))
                        },
                ),
            )
        },
    }
}

/// The last correction that a result of the scan rests on, where it rests
/// on an announcement.
pub open spec fn last_seek_of(result: Result<ScanFinding, ScanError>) -> Result<
    Option<FoundSeek>,
    ScanError,
> {
    match result {
        Ok(ScanFinding::Nothing(_)) => Ok(None),
        Ok(ScanFinding::Url(_, _)) => Ok(None),
        Ok(ScanFinding::UrlAndSeek(_, seek, _)) => Ok(Some(seek)),
        Err(e) => Err(e),
    }
}

} // verus!
