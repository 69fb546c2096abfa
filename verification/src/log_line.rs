//! The two kinds of fact that a line of the log may record: a player
//! announcing the URL it now plays, and a player correcting its drift to a
//! new offset.

use crate::local_time::{check_timestamp, timestamp_reading, LocalTime};
use crate::matching::{
    captures, filter_pattern, identity_accepted, passes_filter, regex_captures, IdentityFilter,
};
use crate::seek_offset::{parse_seek_offset, seek_offset_of};
use crate::views::{option_view, outcome_view};
use vstd::pervasive::unreached;
use vstd::prelude::*;

verus! {

/// The pattern of a line on which a player announces what it now plays.
/// Its groups are the timestamp, the player's name and the URL.
pub const URL_REGEX: &'static str =
    r"^(?P<timestamp>[0-9.: ]+) Log +- +\[(?:AT INFO[ \t]+TVManager|ATA \| TVManagerV2) \((?P<player_name>.*)\)\] \[.*\] (?:\([^()]*\) )?Now Playing: (?P<url>https?://\S+)";

/// The pattern of a line on which a player corrects its position, either by
/// enforcing sync or by jumping to a timestamp. Its groups are the timestamp,
/// the player's name and the new offset in seconds.
pub const SEEK_REGEX: &'static str =
    r"^(?P<timestamp>[0-9.: ]+) Log +- +\[(?:AT (?:INFO|DEBUG)[ \t]+TVManager|ATA \| TVManagerV2) \((?P<player_name>.*)\)\] (?:(?:Sync enforcement(?: requested)?|Paused drift threshold exceeded). Updating to|Jumping \[.*\] to timestamp:) (?P<new_offset>[0-9.]+)$";

/// The three texts that either pattern captures from a line. `value` is the
/// URL of an announcement, or the offset of a correction.
#[derive(Clone, Debug, PartialEq, Eq)]
pub struct LineCaptures {
    pub timestamp: String,
    pub player_name: String,
    pub value: String,
}

/// What a `LineCaptures` holds.
pub ghost struct LineFields {
    pub timestamp: Seq<char>,
    pub player_name: Seq<char>,
    pub value: Seq<char>,
}

impl View for LineCaptures {
    type V = LineFields;

    open spec fn view(&self) -> LineFields {
        LineFields {
            timestamp: self.timestamp@,
            player_name: self.player_name@,
            value: self.value@,
        }
    }
}

/// The fields that a list of matched groups gives: there must be the whole
/// match and three groups behind it, each of which took part.
pub open spec fn captured_fields(groups: Option<Seq<Option<Seq<char>>>>) -> Option<LineFields> {
    match groups {
        Some(g) => if g.len() == 4 && g[1] is Some && g[2] is Some && g[3] is Some {
            Some(
                LineFields {
                    timestamp: g[1]->Some_0,
                    player_name: g[2]->Some_0,
                    value: g[3]->Some_0,
                },
            )
        } else {
            None
        },
        None => None,
    }
}

/// Picks the three fields out of a list of matched groups.
pub fn fields_from_groups(groups: Option<Vec<Option<String>>>) -> (fields: Option<LineCaptures>)
    ensures
        option_view(fields) == captured_fields(groups.deep_view()),
{
    match groups {
        None => None,
        Some(list) => {
            let mut list = list;
            let ghost g = list.deep_view();
            assert(g.len() == list@.len());
            if list.len() != 4 {
                return None;
            }
            assert(g[1] == list@[1].deep_view());
            assert(g[2] == list@[2].deep_view());
            assert(g[3] == list@[3].deep_view());
            let value = list.pop();
            let player_name = list.pop();
            let timestamp = list.pop();
            match (timestamp, player_name, value) {
                (Some(Some(timestamp)), Some(Some(player_name)), Some(Some(value))) => Some(
                    LineCaptures { timestamp, player_name, value },
                ),
                _ => None,
            }
        },
    }
}

/// The fields of `line` if it announces a URL.
pub open spec fn url_line_fields(line: Seq<char>) -> Option<LineFields> {
    captured_fields(regex_captures(URL_REGEX@, line))
}

/// The fields of `line` if it corrects an offset.
pub open spec fn seek_line_fields(line: Seq<char>) -> Option<LineFields> {
    captured_fields(regex_captures(SEEK_REGEX@, line))
}

/// Matches `line` against the pattern of a URL announcement.
pub fn capture_url_line(line: &str) -> (fields: Option<LineCaptures>)
    ensures
        option_view(fields) == url_line_fields(line@),
{
    fields_from_groups(captures(URL_REGEX, line))
}

/// Matches `line` against the pattern of an offset correction.
pub fn capture_seek_line(line: &str) -> (fields: Option<LineCaptures>)
    ensures
        option_view(fields) == seek_line_fields(line@),
{
    fields_from_groups(captures(SEEK_REGEX, line))
}

/// A player announced at `timestamp` that it now plays `url`.
#[derive(Clone, Debug, PartialEq, Eq)]
pub struct FoundUrl {
    pub timestamp: LocalTime,
    pub url: String,
    /// The number of the line that made the announcement; the first line
    /// of a log has number one.
    pub found_url_on_line: u64,
}

/// What a `FoundUrl` holds.
pub ghost struct UrlFact {
    pub timestamp: LocalTime,
    pub url: Seq<char>,
    pub found_url_on_line: u64,
}

impl View for FoundUrl {
    type V = UrlFact;

    open spec fn view(&self) -> UrlFact {
        UrlFact {
            timestamp: self.timestamp,
            url: self.url@,
            found_url_on_line: self.found_url_on_line,
        }
    }
}

/// A player corrected its position at `timestamp` to `seek_offset`
/// microseconds.
#[derive(Clone, Copy, Debug, PartialEq, Eq, Structural)]
pub struct FoundSeek {
    pub timestamp: LocalTime,
    pub seek_offset: u64,
}

/// Why a line that matched a pattern gave no fact.
#[derive(Clone, Copy, Debug, PartialEq, Eq, Structural)]
pub enum LineError {
    /// The timestamp is not written in the format of the log.
    BadTimestamp,
    /// The offset is no number, or too large to hold.
    BadSeekOffset,
}

/// The fact that an announcement with these fields gives. `accepted` says
/// whether the player passed the identity filter, `reading` what the
/// timestamp reads as. A player that the filter turns away gives nothing,
/// whatever else the line holds.
pub open spec fn url_fact(
    fields: LineFields,
    accepted: bool,
    reading: Option<LocalTime>,
    line_number: u64,
) -> Result<Option<UrlFact>, LineError> {
    if !accepted {
        Ok(None)
    } else {
        match reading {
            None => Err(LineError::BadTimestamp),
            Some(timestamp) => Ok(
                Some(UrlFact { timestamp, url: fields.value, found_url_on_line: line_number }),
            ),
        }
    }
}

/// The fact that a correction with these fields gives, with `accepted` and
/// `reading` as for an announcement.
pub open spec fn seek_fact(fields: LineFields, accepted: bool, reading: Option<LocalTime>) -> Result<
    Option<FoundSeek>,
    LineError,
> {
    if !accepted {
        Ok(None)
    } else {
        match reading {
            None => Err(LineError::BadTimestamp),
            Some(timestamp) => match seek_offset_of(fields.value) {
                None => Err(LineError::BadSeekOffset),
                Some(seek_offset) => Ok(Some(FoundSeek { timestamp, seek_offset })),
            },
        }
    }
}

/// Builds the fact of an announcement from its captured fields, the
/// filter's verdict on the player and the reading of the timestamp.
pub fn url_from_fields(
    fields: LineCaptures,
    accepted: bool,
    reading: Option<LocalTime>,
    line_number: u64,
) -> (found: Result<Option<FoundUrl>, LineError>)
    ensures
        outcome_view(found) == url_fact(fields@, accepted, reading, line_number),
{
    if !accepted {
        return Ok(None);
    }
    match reading {
        None => Err(LineError::BadTimestamp),
        Some(timestamp) => Ok(
            Some(FoundUrl { timestamp, url: fields.value, found_url_on_line: line_number }),
        ),
    }
}

/// Builds the fact of a correction from its captured fields, the filter's
/// verdict on the player and the reading of the timestamp.
pub fn seek_from_fields(fields: &LineCaptures, accepted: bool, reading: Option<LocalTime>) -> (found:
    Result<Option<FoundSeek>, LineError>)
    ensures
        found == seek_fact(fields@, accepted, reading),
{
    if !accepted {
        return Ok(None);
    }
    match reading {
        None => Err(LineError::BadTimestamp),
        Some(timestamp) => match parse_seek_offset(fields.value.as_str()) {
            None => Err(LineError::BadSeekOffset),
            Some(seek_offset) => Ok(Some(FoundSeek { timestamp, seek_offset })),
        },
    }
}

/// What `line`, the line number `line_number` of its log, announces under
/// the optional filter `filter`.
pub open spec fn url_line_outcome(line: Seq<char>, line_number: u64, filter: Option<Seq<char>>) -> Result<
    Option<UrlFact>,
    LineError,
> {
    match url_line_fields(line) {
        None => Ok(None),
        Some(fields) => url_fact(
            fields,
            identity_accepted(filter, fields.player_name),
            timestamp_reading(fields.timestamp),
            line_number,
        ),
    }
}

/// What `line` corrects under the optional filter `filter`.
pub open spec fn seek_line_outcome(line: Seq<char>, filter: Option<Seq<char>>) -> Result<
    Option<FoundSeek>,
    LineError,
> {
    match seek_line_fields(line) {
        None => Ok(None),
        Some(fields) => seek_fact(
            fields,
            identity_accepted(filter, fields.player_name),
            timestamp_reading(fields.timestamp),
        ),
    }
}

/// Recognises a URL announcement in `line`. A line of another shape, or of
/// a player that the filter turns away, gives nothing. The line must not be
/// an announcement whose timestamp cannot be read; a line of which that is
/// not known goes to `check_url_line`.
pub fn try_match_url_line(line: &str, line_number: u64, player_name_regex: &Option<IdentityFilter>) -> (found:
    Option<FoundUrl>)
    requires
        url_line_outcome(line@, line_number, filter_pattern(*player_name_regex)) is Ok,
    ensures
        Ok::<Option<UrlFact>, LineError>(option_view(found)) == url_line_outcome(
            line@,
            line_number,
            filter_pattern(*player_name_regex),
        ),
{
    match capture_url_line(line) {
        None => None,
        Some(fields) => {
            let accepted = passes_filter(player_name_regex, fields.player_name.as_str());
            let reading = check_timestamp(fields.timestamp.as_str());
            match url_from_fields(fields, accepted, reading, line_number) {
                Ok(found) => found,
                Err(_) => unreached(),
            }
        },
    }
}

/// Recognises an offset correction in `line`, in either phrasing. A line of
/// another shape, or of a player that the filter turns away, gives nothing.
/// The line must not be a correction whose timestamp or offset cannot be
/// read; a line of which that is not known goes to `check_seek_line`.
pub fn try_match_seek_line(line: &str, player_name_regex: &Option<IdentityFilter>) -> (found: Option<
    FoundSeek,
>)
    requires
        seek_line_outcome(line@, filter_pattern(*player_name_regex)) is Ok,
    ensures
        Ok::<Option<FoundSeek>, LineError>(found) == seek_line_outcome(
            line@,
            filter_pattern(*player_name_regex),
        ),
{
    match capture_seek_line(line) {
        None => None,
        Some(fields) => {
            let accepted = passes_filter(player_name_regex, fields.player_name.as_str());
            let reading = check_timestamp(fields.timestamp.as_str());
            match seek_from_fields(&fields, accepted, reading) {
                Ok(found) => found,
                Err(_) => unreached(),
            }
        },
    }
}

/// Recognises a URL announcement in any line: it tests whether the line can
/// be read and only then has it read. An announcement whose timestamp cannot
/// be read is an error.
pub fn check_url_line(line: &str, line_number: u64, player_name_regex: &Option<IdentityFilter>) -> (found:
    Result<Option<FoundUrl>, LineError>)
    ensures
        outcome_view(found) == url_line_outcome(
            line@,
            line_number,
            filter_pattern(*player_name_regex),
        ),
{
    match capture_url_line(line) {
        None => Ok(None),
        Some(fields) => {
            let accepted = passes_filter(player_name_regex, fields.player_name.as_str());
            let reading = check_timestamp(fields.timestamp.as_str());
            match url_from_fields(fields, accepted, reading, line_number) {
                Err(error) => Err(error),
                Ok(_) => Ok(try_match_url_line(line, line_number, player_name_regex)),
            }
        },
    }
}

/// Recognises an offset correction in any line: it tests whether the line
/// can be read and only then has it read. A correction whose timestamp or
/// offset cannot be read is an error.
pub fn check_seek_line(line: &str, player_name_regex: &Option<IdentityFilter>) -> (found: Result<
    Option<FoundSeek>,
    LineError,
>)
    ensures
        found == seek_line_outcome(line@, filter_pattern(*player_name_regex)),
{
    match capture_seek_line(line) {
        None => Ok(None),
        Some(fields) => {
            let accepted = passes_filter(player_name_regex, fields.player_name.as_str());
            let reading = check_timestamp(fields.timestamp.as_str());
            match seek_from_fields(&fields, accepted, reading) {
                Err(error) => Err(error),
                Ok(_) => Ok(try_match_seek_line(line, player_name_regex)),
            }
        },
    }
}

/// What a line announces follows from its shape alone. A line that has not
/// the shape of an announcement, or whose player the filter turns away,
/// gives nothing. Any other gives the timestamp, the URL and the line number
/// exactly as the line holds them, or fails on a timestamp that cannot be
/// read.
pub proof fn lemma_url_line_is_extracted_exactly(
    line: Seq<char>,
    line_number: u64,
    filter: Option<Seq<char>>,
)
    ensures
        url_line_fields(line) is None ==> url_line_outcome(line, line_number, filter) == Ok::<
            Option<UrlFact>,
            LineError,
        >(None),
        url_line_fields(line) matches Some(fields) ==> {
            let accepted = identity_accepted(filter, fields.player_name);
            let reading = timestamp_reading(fields.timestamp);
            &&& !accepted ==> url_line_outcome(line, line_number, filter) == Ok::<
                Option<UrlFact>,
                LineError,
            >(None)
            &&& accepted && reading is None ==> url_line_outcome(line, line_number, filter)
                == Err::<Option<UrlFact>, LineError>(LineError::BadTimestamp)
            &&& accepted && reading is Some ==> url_line_outcome(line, line_number, filter)
                == Ok::<Option<UrlFact>, LineError>(
                Some(
                    UrlFact {
                        timestamp: reading->Some_0,
                        url: fields.value,
                        found_url_on_line: line_number,
                    },
                ),
            )
        },
{
}

/// The phrasing of a correction is immaterial: two lines that name the same
/// timestamp, player and offset correct the same, whether they enforce sync
/// or jump to a timestamp.
pub proof fn lemma_seek_phrasings_agree(a: Seq<char>, b: Seq<char>, filter: Option<Seq<char>>)
    requires
        seek_line_fields(a) == seek_line_fields(b),
    ensures
        seek_line_outcome(a, filter) == seek_line_outcome(b, filter),
{
}

/// What a line corrects follows from its shape alone. A line that has not
/// the shape of a correction, or whose player the filter turns away, gives
/// nothing. Any other gives the timestamp and the offset exactly as the line
/// holds them, or fails on the one of them that cannot be read.
pub proof fn lemma_seek_line_is_extracted_exactly(line: Seq<char>, filter: Option<Seq<char>>)
    ensures
        seek_line_fields(line) is None ==> seek_line_outcome(line, filter) == Ok::<
            Option<FoundSeek>,
            LineError,
        >(None),
        seek_line_fields(line) matches Some(fields) ==> {
            let accepted = identity_accepted(filter, fields.player_name);
            let reading = timestamp_reading(fields.timestamp);
            let offset = seek_offset_of(fields.value);
            &&& !accepted ==> seek_line_outcome(line, filter) == Ok::<
                Option<FoundSeek>,
                LineError,
            >(None)
            &&& accepted && reading is None ==> seek_line_outcome(line, filter) == Err::<
                Option<FoundSeek>,
                LineError,
            >(LineError::BadTimestamp)
            &&& accepted && reading is Some && offset is None ==> seek_line_outcome(line, filter)
                == Err::<Option<FoundSeek>, LineError>(LineError::BadSeekOffset)
            &&& accepted && reading is Some && offset is Some ==> seek_line_outcome(line, filter)
                == Ok::<Option<FoundSeek>, LineError>(
                Some(FoundSeek { timestamp: reading->Some_0, seek_offset: offset->Some_0 }),
            )
        },
{
}

} // verus!
