//! The link to the player: the commands sent to it, the notifications that
//! come back, and the decisions of the loops that carry them.

use crate::text::{same_text, trim_end, trimmed_end};
use vstd::prelude::*;

verus! {

/// A notification of the player that bears on synchronisation.
#[derive(Clone, Copy, Debug, PartialEq, Eq, Structural)]
pub enum MpvIpcResponse {
    /// A file finished loading.
    FileLoaded,
    /// A playback position was applied and playback restarted.
    PlaybackRestart,
}

/// A command for the player.
#[derive(Clone, Debug, PartialEq, Eq)]
pub enum MpvIpcRequest {
    /// Load the video at this URL.
    LoadUrl(String),
    /// Seek to this absolute position, in microseconds.
    Seek(i128),
}

/// What an `MpvIpcRequest` holds.
pub ghost enum PlayerRequest {
    LoadUrl(Seq<char>),
    Seek(int),
}

impl View for MpvIpcRequest {
    type V = PlayerRequest;

    open spec fn view(&self) -> PlayerRequest {
        match *self {
            MpvIpcRequest::LoadUrl(url) => PlayerRequest::LoadUrl(url@),
            MpvIpcRequest::Seek(micros) => PlayerRequest::Seek(micros as int),
        }
    }
}

/// The character that writes the digit `d`.
pub open spec fn digit_char(d: int) -> char {
    if d == 0 {
        '0'
    } else if d == 1 {
        '1'
    } else if d == 2 {
        '2'
    } else if d == 3 {
        '3'
    } else if d == 4 {
        '4'
    } else if d == 5 {
        '5'
    } else if d == 6 {
        '6'
    } else if d == 7 {
        '7'
    } else if d == 8 {
        '8'
    } else {
        '9'
    }
}

/// The decimal digits of `n`, without leading zeros.
pub open spec fn decimal_text(n: nat) -> Seq<char>
    decreases n,
{
    if n < 10 {
        seq![digit_char(n as int)]
    } else {
        decimal_text(n / 10).push(digit_char((n % 10) as int))
    }
}

/// The last `places` decimal digits of `n`, with leading zeros.
pub open spec fn padded_decimal_text(n: nat, places: nat) -> Seq<char>
    decreases places,
{
    if places == 0 {
        Seq::empty()
    } else {
        padded_decimal_text(n / 10, (places - 1) as nat).push(digit_char((n % 10) as int))
    }
}

/// The fraction `n`, of `places` places, without the zeros at its end; no
/// text at all for a fraction of zero.
pub open spec fn fraction_text(n: nat, places: nat) -> Seq<char>
    decreases places,
{
    if places == 0 || n == 0 {
        Seq::empty()
    } else if n % 10 == 0 {
        fraction_text(n / 10, (places - 1) as nat)
    } else {
        padded_decimal_text(n, places)
    }
}

/// A number of microseconds written as seconds in the shortest way: whole
/// seconds carry no point, and a fraction carries no zeros at its end.
/// `43000000` reads `43`, `43500000` reads `43.5`, `1` reads `0.000001` and
/// `-2500000` reads `-2.5`.
pub open spec fn seconds_text(micros: int) -> Seq<char> {
    let magnitude = if micros < 0 {
        (-micros) as nat
    } else {
        micros as nat
    };
    let sign = if micros < 0 {
        seq!['-']
    } else {
        Seq::<char>::empty()
    };
    let point = if magnitude % 1_000_000 == 0 {
        Seq::<char>::empty()
    } else {
        seq!['.']
    };
    sign + decimal_text(magnitude / 1_000_000) + point + fraction_text(magnitude % 1_000_000, 6)
}

/// The line that carries `request` to the player.
pub open spec fn encoded(request: PlayerRequest) -> Seq<char> {
    match request {
        PlayerRequest::LoadUrl(url) => "{ \"command\": [\"loadfile\", \""@ + url + "\"] }\n"@,
        PlayerRequest::Seek(micros) => "{ \"command\": [\"seek\", "@ + seconds_text(micros)
            + ", \"absolute\"] }\n"@,
    }
}

/// The text of one decimal digit.
fn digit_text(d: u8) -> (text: &'static str)
    requires
        d < 10,
    ensures
        text@ == seq![digit_char(d as int)],
{
    proof {
        reveal_strlit("0");
        reveal_strlit("1");
        reveal_strlit("2");
        reveal_strlit("3");
        reveal_strlit("4");
        reveal_strlit("5");
        reveal_strlit("6");
        reveal_strlit("7");
        reveal_strlit("8");
        reveal_strlit("9");
    }
    let text = if d == 0 {
        "0"
    } else if d == 1 {
        "1"
    } else if d == 2 {
        "2"
    } else if d == 3 {
        "3"
    } else if d == 4 {
        "4"
    } else if d == 5 {
        "5"
    } else if d == 6 {
        "6"
    } else if d == 7 {
        "7"
    } else if d == 8 {
        "8"
    } else {
        "9"
    };
    assert(text@ =~= seq![digit_char(d as int)]);
    text
}

/// Appends the decimal digits of `n` to `out`.
fn append_decimal(out: &mut String, n: u128)
    ensures
        final(out)@ == old(out)@ + decimal_text(n as nat),
    decreases n,
{
    if n >= 10 {
        append_decimal(out, n / 10);
    }
    out.append(digit_text((n % 10) as u8));
    assert(final(out)@ =~= old(out)@ + decimal_text(n as nat));
}

/// Appends the last `places` decimal digits of `n` to `out`.
fn append_padded_decimal(out: &mut String, n: u128, places: u8)
    ensures
        final(out)@ == old(out)@ + padded_decimal_text(n as nat, places as nat),
    decreases places,
{
    if places > 0 {
        append_padded_decimal(out, n / 10, places - 1);
        out.append(digit_text((n % 10) as u8));
    }
    assert(final(out)@ =~= old(out)@ + padded_decimal_text(n as nat, places as nat));
}

/// Appends the fraction `n`, of `places` places, to `out`, without the zeros
/// at its end.
fn append_fraction(out: &mut String, n: u128, places: u8)
    ensures
        final(out)@ == old(out)@ + fraction_text(n as nat, places as nat),
{
    let mut rest: u128 = n;
    let mut left: u8 = places;
    while left > 0 && rest != 0 && rest % 10 == 0
        invariant
            fraction_text(n as nat, places as nat) == fraction_text(rest as nat, left as nat),
            left <= places,
        decreases left,
    {
        rest = rest / 10;
        left = left - 1;
    }
    if left > 0 && rest != 0 {
        append_padded_decimal(out, rest, left);
    } else {
        assert(final(out)@ =~= old(out)@ + fraction_text(n as nat, places as nat));
    }
}

/// Appends `micros`, written as seconds, to `out`.
fn append_seconds(out: &mut String, micros: i128)
    ensures
        final(out)@ == old(out)@ + seconds_text(micros as int),
{
    let magnitude: u128 = if micros < 0 {
        out.append("-");
        (-(micros + 1)) as u128 + 1
    } else {
        micros as u128
    };
    append_decimal(out, magnitude / 1_000_000);
    let fraction: u128 = magnitude % 1_000_000;
    if fraction != 0 {
        out.append(".");
    }
    append_fraction(out, fraction, 6);
    proof {
        reveal_strlit("-");
        reveal_strlit(".");
        assert("-"@ =~= seq!['-']);
        assert("."@ =~= seq!['.']);
        assert(final(out)@ =~= old(out)@ + seconds_text(micros as int));
    }
}

impl MpvIpcRequest {
    /// Writes the command as the line that the player's command socket
    /// takes.
    pub fn encode(&self) -> (line: String)
        ensures
            line@ == encoded(self@),
    {
        match self {
            MpvIpcRequest::LoadUrl(url) => {
                let mut line = "{ \"command\": [\"loadfile\", \"".to_owned();
                line.append(url.as_str());
                line.append("\"] }\n");
                line
            },
            MpvIpcRequest::Seek(micros) => {
                let mut line = "{ \"command\": [\"seek\", ".to_owned();
                append_seconds(&mut line, *micros);
                line.append(", \"absolute\"] }\n");
                line
            },
        }
    }
}

/// The notification with which the player reports that a file has loaded.
pub const FILE_LOADED_EVENT: &'static str = "{\"event\":\"file-loaded\"}";

/// The notification with which the player reports that playback restarted.
pub const PLAYBACK_RESTART_EVENT: &'static str = "{\"event\":\"playback-restart\"}";

/// What a line from the player notifies of, white space at its end aside.
/// Lines of any other content mean nothing here.
pub open spec fn notification_of(line: Seq<char>) -> Option<MpvIpcResponse> {
    if trimmed_end(line) == PLAYBACK_RESTART_EVENT@ {
        Some(MpvIpcResponse::PlaybackRestart)
    } else if trimmed_end(line) == FILE_LOADED_EVENT@ {
        Some(MpvIpcResponse::FileLoaded)
    } else {
        None
    }
}

/// Reads a line from the player.
pub fn parse_notification(line: &str) -> (notification: Option<MpvIpcResponse>)
    ensures
        notification == notification_of(line@),
{
    let trimmed_line = trim_end(line);
    if same_text(trimmed_line, PLAYBACK_RESTART_EVENT) {
        Some(MpvIpcResponse::PlaybackRestart)
    } else if same_text(trimmed_line, FILE_LOADED_EVENT) {
        Some(MpvIpcResponse::FileLoaded)
    } else {
        None
    }
}

/// What the loop that reads from the player does with one read.
#[derive(Clone, Copy, Debug, PartialEq, Eq, Structural)]
pub enum ReadStep {
    /// The player closed the connection: the whole program ends.
    PlayerExited,
    /// The line is a notification to pass on.
    Forward(MpvIpcResponse),
    /// The line means nothing here.
    Ignore,
}

/// What a read of `bytes_read` bytes that gave `line` calls for. A read of
/// nothing means that the player has closed the connection.
pub open spec fn read_step(bytes_read: usize, line: Seq<char>) -> ReadStep {
    if bytes_read == 0 {
        ReadStep::PlayerExited
    } else {
        match notification_of(line) {
            Some(notification) => ReadStep::Forward(notification),
            None => ReadStep::Ignore,
        }
    }
}

/// Decides what to do with one read from the player.
pub fn on_line_read(bytes_read: usize, line: &str) -> (step: ReadStep)
    ensures
        step == read_step(bytes_read, line@),
{
    if bytes_read == 0 {
        return ReadStep::PlayerExited;
    }
    match parse_notification(line) {
        Some(notification) => ReadStep::Forward(notification),
        None => ReadStep::Ignore,
    }
}

/// The error number with which the system reports a write to a connection
/// that the other side has closed.
pub const BROKEN_PIPE: i32 = 32;

/// Whether a failed write, with the error number that the system gave for
/// it, means that the player has exited. Any other failure is passed over.
pub fn write_failure_is_exit(raw_os_error: Option<i32>) -> (exited: bool)
    ensures
        exited == (raw_os_error == Some(BROKEN_PIPE)),
{
    match raw_os_error {
        Some(code) => code == BROKEN_PIPE,
        None => false,
    }
}

/// The status with which the program ends once the player has closed the
/// connection and its process has ended with `player_code`, if it ended
/// with a code at all. A closed connection is a failure, so the status is
/// never zero: it is the player's own where that is not zero, and one
/// otherwise.
pub fn exit_code_after_player_closed(player_code: Option<i32>) -> (code: i32)
    ensures
        code != 0,
        code == (match player_code {
            Some(own) => if own != 0 {
                own
            } else {
                1
            },
            None => 1,
        }),
{
    match player_code {
        Some(own) => if own != 0 {
            own
        } else {
            1
        },
        None => 1,
    }
}

/// The number of failed attempts to connect after which no further one is
/// made.
pub const MAX_FAILED_CONNECTS: u32 = 41;

/// The pause between two attempts to connect, in milliseconds.
pub const CONNECT_RETRY_MILLIS: u64 = 50;

/// What to do about the connection to the player.
#[derive(Clone, Copy, Debug, PartialEq, Eq, Structural)]
pub enum ConnectStep {
    /// Try to connect.
    Attempt,
    /// The budget is spent: give up, which ends the program.
    GiveUp,
}

/// Decides, after `failed_attempts` failures, whether to try once more.
pub fn next_connect_step(failed_attempts: u32) -> (step: ConnectStep)
    ensures
        step == (if failed_attempts < MAX_FAILED_CONNECTS {
            ConnectStep::Attempt
        } else {
            ConnectStep::GiveUp
        }),
{
    if failed_attempts < MAX_FAILED_CONNECTS {
        ConnectStep::Attempt
    } else {
        ConnectStep::GiveUp
    }
}

/// Counts one more failed attempt and gives the pause to keep before the
/// next, in milliseconds.
pub fn after_failed_connect(failed_attempts: u32) -> (next: (u32, u64))
    requires
        failed_attempts < MAX_FAILED_CONNECTS,
    ensures
        next.0 == failed_attempts + 1,
        next.1 == CONNECT_RETRY_MILLIS,
{
    (failed_attempts + 1, CONNECT_RETRY_MILLIS)
}

} // verus!
