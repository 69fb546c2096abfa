//! The dispatcher: the one place that decides what the player is told. It
//! takes the facts of the log and the notifications of the player in the
//! order in which they arrive.

use crate::local_time::{local_to_instant, LocalTime};
use crate::mpv_commander::{MpvIpcRequest, MpvIpcResponse, PlayerRequest};
use crate::timing::{calculate_seek_from_timing_state, seek_target, Instant, TimingState};
use crate::views::option_view;
use crate::vrc_log_reader::{InitialFact, InitialState, InitialStateResult};
use crate::log_line::FoundSeek;
use crate::vrc_log_watcher::{LogFact, VrcLogWatcherEvent};
use vstd::prelude::*;

verus! {

/// What the dispatcher is handed.
#[derive(Clone, Debug, PartialEq, Eq)]
pub enum CentralCommand {
    MpvIpcEvent(MpvIpcResponse),
    VrcLogWatcherEvent(VrcLogWatcherEvent),
}

/// What a `CentralCommand` holds.
pub ghost enum Event {
    Player(MpvIpcResponse),
    Log(LogFact),
}

impl View for CentralCommand {
    type V = Event;

    open spec fn view(&self) -> Event {
        match *self {
            CentralCommand::MpvIpcEvent(notification) => Event::Player(notification),
            CentralCommand::VrcLogWatcherEvent(fact) => Event::Log(fact@),
        }
    }
}

/// What the dispatcher holds between two events.
#[derive(Clone, Copy, Debug, PartialEq, Eq, Structural)]
pub enum SyncState {
    /// Nothing is known yet: no video was announced.
    Empty,
    /// A load was sent and the player has not confirmed it. Seeks wait; the
    /// anchor is kept current for the seek that follows the confirmation.
    Loading(TimingState),
    /// The player is ready. The anchor is that of the last fact.
    Synced(TimingState),
}

impl SyncState {
    /// Whether a load is under way.
    pub open spec fn pending_load(self) -> bool {
        self is Loading
    }

    /// The anchor, if a fact has set one.
    pub open spec fn anchor(self) -> Option<TimingState> {
        match self {
            SyncState::Empty => None,
            SyncState::Loading(anchor) => Some(anchor),
            SyncState::Synced(anchor) => Some(anchor),
        }
    }
}

/// The wall-clock reading of an event, if it is a fact of the log.
pub open spec fn event_reading(event: Event) -> Option<LocalTime> {
    match event {
        Event::Log(LogFact::Url(url)) => Some(url.timestamp),
        Event::Log(LogFact::Seek(seek)) => Some(seek.timestamp),
        Event::Player(_) => None,
    }
}

/// An anchor with its target seen from `now`: the state to go on with and
/// the seek to send.
pub open spec fn seek_now(anchor: TimingState, now: Instant) -> (SyncState, Option<PlayerRequest>) {
    (SyncState::Synced(anchor), Some(PlayerRequest::Seek(seek_target(anchor, now))))
}

/// The state that follows `state` on `event`, and the command to send, if
/// any. `observed_at` is the instant of the event's wall-clock reading and
/// means nothing for a notification of the player; `now` is the moment of
/// the decision; `confirmation` is the notification that is taken to confirm
/// a load.
///
/// - An announced URL is loaded; the video starts at the announcement, at
///   position zero.
/// - A corrected offset becomes the anchor. While a load is under way the
///   seek waits; otherwise it is sent at once, for the position that the
///   correction gives for `now`.
/// - The confirmation ends a load and sends the seek that the anchor gives
///   for `now`; with no load under way it changes nothing.
/// - The other notification changes nothing.
pub open spec fn react(
    state: SyncState,
    confirmation: MpvIpcResponse,
    event: Event,
    observed_at: Instant,
    now: Instant,
) -> (SyncState, Option<PlayerRequest>) {
    match event {
        Event::Log(LogFact::Url(url)) => (
            SyncState::Loading(TimingState { timestamp: observed_at, additional_offset: 0 }),
            Some(PlayerRequest::LoadUrl(url.url)),
        ),
        Event::Log(LogFact::Seek(seek)) => {
            let anchor = TimingState {
                timestamp: observed_at,
                additional_offset: seek.seek_offset,
            };
            if state.pending_load() {
                (SyncState::Loading(anchor), None)
            } else {
                seek_now(anchor, now)
            }
        },
        Event::Player(notification) => match state {
            SyncState::Loading(anchor) => if notification == confirmation {
                seek_now(anchor, now)
            } else {
                (state, None)
            },
            _ => (state, None),
        },
    }
}

/// The state and the command with which the dispatcher takes up what the
/// scan of the log found: the video is loaded as if it had just been
/// announced, with the anchor that the scan gave.
pub open spec fn begin(initial: InitialFact, observed_at: Instant) -> (SyncState, PlayerRequest) {
    (
        SyncState::Loading(
            TimingState { timestamp: observed_at, additional_offset: initial.additional_offset },
        ),
        PlayerRequest::LoadUrl(initial.url),
    )
}

/// A wall-clock reading to which the local time zone gives no instant.
#[derive(Clone, Copy, Debug, PartialEq, Eq, Structural)]
pub struct UnmappedTime {
    pub reading: LocalTime,
}

/// The dispatcher. It alone holds the state of synchronisation.
#[derive(Debug)]
pub struct Central {
    state: SyncState,
    confirmation: MpvIpcResponse,
}

impl Central {
    /// The state that the dispatcher holds.
    pub closed spec fn state(&self) -> SyncState {
        self.state
    }

    /// The notification that the dispatcher takes to confirm a load.
    pub closed spec fn confirmation(&self) -> MpvIpcResponse {
        self.confirmation
    }

    /// A dispatcher that knows nothing yet and takes the report that a file
    /// has loaded as the confirmation of a load.
    pub fn new() -> (central: Self)
        ensures
            central.state() == SyncState::Empty,
            central.confirmation() == MpvIpcResponse::FileLoaded,
    {
        Central { state: SyncState::Empty, confirmation: MpvIpcResponse::FileLoaded }
    }

    /// A dispatcher that knows nothing yet and takes `confirmation` as the
    /// confirmation of a load.
    pub fn confirmed_by(confirmation: MpvIpcResponse) -> (central: Self)
        ensures
            central.state() == SyncState::Empty,
            central.confirmation() == confirmation,
    {
        Central { state: SyncState::Empty, confirmation }
    }

    /// Whether a load has been sent that the player has not yet confirmed.
    pub fn pending_load(&self) -> (pending: bool)
        ensures
            pending == self.state().pending_load(),
    {
        match self.state {
            SyncState::Loading(_) => true,
            _ => false,
        }
    }

    /// The anchor, if a fact has set one.
    pub fn anchor(&self) -> (anchor: Option<TimingState>)
        ensures
            anchor == self.state().anchor(),
    {
        match self.state {
            SyncState::Empty => None,
            SyncState::Loading(anchor) => Some(anchor),
            SyncState::Synced(anchor) => Some(anchor),
        }
    }

    /// Takes up what the scan of the log found, at the instant `observed_at`
    /// of its wall-clock reading, and gives the load to send.
    pub fn begin_at(&mut self, initial: &InitialState, observed_at: Instant) -> (request:
        MpvIpcRequest)
        ensures
            (final(self).state(), request@) == begin(initial@, observed_at),
            final(self).confirmation() == old(self).confirmation(),
    {
        self.state = SyncState::Loading(
            TimingState { timestamp: observed_at, additional_offset: initial.additional_offset },
        );
        MpvIpcRequest::LoadUrl(initial.url.clone())
    }

    /// Handles one event at the moment `now` and gives the command to send,
    /// if any. `observed_at` is the instant of the event's wall-clock
    /// reading; for a notification of the player it means nothing.
    pub fn react_at(&mut self, command: &CentralCommand, observed_at: Instant, now: Instant) -> (request:
        Option<MpvIpcRequest>)
        ensures
            (final(self).state(), option_view(request)) == react(
                old(self).state(),
                old(self).confirmation(),
                command@,
                observed_at,
                now,
            ),
            final(self).confirmation() == old(self).confirmation(),
    {
        match command {
            CentralCommand::VrcLogWatcherEvent(VrcLogWatcherEvent::FoundUrl(found_url)) => {
                self.state = SyncState::Loading(
                    TimingState { timestamp: observed_at, additional_offset: 0 },
                );
                Some(MpvIpcRequest::LoadUrl(found_url.url.clone()))
            },
            CentralCommand::VrcLogWatcherEvent(VrcLogWatcherEvent::FoundSeek(found_seek)) => {
                let anchor = TimingState {
                    timestamp: observed_at,
                    additional_offset: found_seek.seek_offset,
                };
                match self.state {
                    SyncState::Loading(_) => {
                        self.state = SyncState::Loading(anchor);
                        None
                    },
                    _ => {
                        self.state = SyncState::Synced(anchor);
                        Some(MpvIpcRequest::Seek(calculate_seek_from_timing_state(&anchor, now)))
                    },
                }
            },
            CentralCommand::MpvIpcEvent(notification) => {
                match self.state {
                    SyncState::Loading(anchor) => {
                        if same_notification(*notification, self.confirmation) {
                            self.state = SyncState::Synced(anchor);
                            Some(
                                MpvIpcRequest::Seek(
                                    calculate_seek_from_timing_state(&anchor, now),
                                ),
                            )
                        } else {
                            None
                        }
                    },
                    _ => None,
                }
            },
        }
    }

    /// Takes up what the scan of the log found and gives the load to send.
    /// The instant of the wall-clock reading is asked of the local time
    /// zone; where it has none, nothing changes.
    pub fn do_initial(&mut self, initial: &InitialState) -> (request: Result<
        MpvIpcRequest,
        UnmappedTime,
    >)
        ensures
            final(self).confirmation() == old(self).confirmation(),
            match request {
                Ok(load) => exists|observed_at: Instant|
                    (final(self).state(), load@) == #[trigger] begin(initial@, observed_at),
                Err(unmapped) => {
                    &&& final(self).state() == old(self).state()
                    &&& unmapped.reading == initial.timestamp
                },
            },
    {
        match local_to_instant(&initial.timestamp) {
            None => Err(UnmappedTime { reading: initial.timestamp }),
            Some(observed_at) => Ok(self.begin_at(initial, observed_at)),
        }
    }

    /// Begins with what the scan of the log gave: the load to send, if the
    /// scan gave a state, together with the number of lines that the scan
    /// consumed, behind which watching resumes. With no state nothing is
    /// sent and nothing changes.
    pub fn start(&mut self, scanned: &InitialStateResult) -> (begun: Result<
        (Option<MpvIpcRequest>, u64),
        UnmappedTime,
    >)
        ensures
            final(self).confirmation() == old(self).confirmation(),
            scanned.initial_state is None ==> begun == Ok::<
                (Option<MpvIpcRequest>, u64),
                UnmappedTime,
            >((None, scanned.lines_read_initially)) && final(self).state() == old(self).state(),
            scanned.initial_state matches Some(initial) ==> match begun {
                Ok((Some(load), resume_after)) => {
                    &&& resume_after == scanned.lines_read_initially
                    &&& exists|observed_at: Instant|
                        (final(self).state(), load@) == #[trigger] begin(initial@, observed_at)
                },
                Ok((None, _)) => false,
                Err(unmapped) => {
                    &&& final(self).state() == old(self).state()
                    &&& unmapped.reading == initial.timestamp
                },
            },
    {
        match &scanned.initial_state {
            None => Ok((None, scanned.lines_read_initially)),
            Some(initial) => match self.do_initial(initial) {
                Ok(load) => Ok((Some(load), scanned.lines_read_initially)),
                Err(unmapped) => Err(unmapped),
            },
        }
    }

    /// Handles one event at the moment `now`, which the caller reads from
    /// the clock immediately before the call, and gives the command to send,
    /// if any. The instant of a fact's wall-clock reading is asked of the
    /// local time zone; a fact to whose reading the time zone gives no
    /// instant changes nothing. A notification of the player asks nothing of
    /// the time zone and is always handled.
    pub fn dispatch(&mut self, command: &CentralCommand, now: Instant) -> (request: Result<
        Option<MpvIpcRequest>,
        UnmappedTime,
    >)
        ensures
            final(self).confirmation() == old(self).confirmation(),
            match request {
                Ok(sent) => exists|observed_at: Instant|
                    (final(self).state(), option_view(sent)) == #[trigger] react(
                        old(self).state(),
                        old(self).confirmation(),
                        command@,
                        observed_at,
                        now,
                    ),
                Err(unmapped) => {
                    &&& final(self).state() == old(self).state()
                    &&& event_reading(command@) == Some(unmapped.reading)
                },
            },
            command is MpvIpcEvent ==> {
                &&& request is Ok
                &&& (final(self).state(), option_view(request->Ok_0)) == react(
                    old(self).state(),
                    old(self).confirmation(),
                    command@,
                    now,
                    now,
                )
            },
    {
        let observed_at = match reading_of(command) {
            None => now,
            Some(reading) => match local_to_instant(&reading) {
                None => {
                    return Err(UnmappedTime { reading });
                },
                Some(at) => at,
            },
        };
        Ok(self.react_at(command, observed_at, now))
    }
}

/// Whether two notifications are the same.
pub fn same_notification(a: MpvIpcResponse, b: MpvIpcResponse) -> (same: bool)
    ensures
        same == (a == b),
{
    match (a, b) {
        (MpvIpcResponse::FileLoaded, MpvIpcResponse::FileLoaded) => true,
        (MpvIpcResponse::PlaybackRestart, MpvIpcResponse::PlaybackRestart) => true,
        _ => false,
    }
}

/// The wall-clock reading of an event, if it is a fact of the log.
pub fn reading_of(command: &CentralCommand) -> (reading: Option<LocalTime>)
    ensures
        reading == event_reading(command@),
{
    match command {
        CentralCommand::VrcLogWatcherEvent(VrcLogWatcherEvent::FoundUrl(url)) => Some(
            url.timestamp,
        ),
        CentralCommand::VrcLogWatcherEvent(VrcLogWatcherEvent::FoundSeek(seek)) => Some(
            seek.timestamp,
        ),
        CentralCommand::MpvIpcEvent(_) => None,
    }
}

/// No seek is sent before the player can honour it: while a load is under
/// way, nothing but its confirmation makes the dispatcher send a seek, and
/// the load stays under way.
pub proof fn lemma_no_seek_during_load(
    state: SyncState,
    confirmation: MpvIpcResponse,
    event: Event,
    observed_at: Instant,
    now: Instant,
)
    requires
        state.pending_load(),
        event != Event::Player(confirmation),
    ensures
        !(react(state, confirmation, event, observed_at, now).1 matches Some(
            PlayerRequest::Seek(_),
        )),
        react(state, confirmation, event, observed_at, now).0.pending_load(),
{
}

/// No seek is lost: a correction that arrives while a load is under way
/// becomes the anchor, and the confirmation of the load sends the seek that
/// this anchor gives for the moment of the confirmation.
pub proof fn lemma_deferred_seek_follows_confirmation(
    state: SyncState,
    confirmation: MpvIpcResponse,
    seek: FoundSeek,
    observed_at: Instant,
    arrival: Instant,
    now: Instant,
)
    requires
        state.pending_load(),
    ensures
        ({
            let anchor = TimingState {
                timestamp: observed_at,
                additional_offset: seek.seek_offset,
            };
            let waiting = react(
                state,
                confirmation,
                Event::Log(LogFact::Seek(seek)),
                observed_at,
                arrival,
            );
            &&& waiting == (SyncState::Loading(anchor), None::<PlayerRequest>)
            &&& react(waiting.0, confirmation, Event::Player(confirmation), now, now) == (
                SyncState::Synced(anchor),
                Some(PlayerRequest::Seek(seek_target(anchor, now))),
            )
        }),
{
}

} // verus!
