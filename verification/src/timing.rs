//! Instants, anchors and the time-compensated seek target.

use vstd::prelude::*;

verus! {

/// A point in time, in milliseconds since the Unix epoch.
#[derive(Clone, Copy, Debug, PartialEq, Eq, Structural)]
pub struct Instant {
    pub unix_millis: i64,
}

/// The pair that defines the linear playback model: at `timestamp` the
/// authoritative position was `additional_offset` microseconds.
#[derive(Clone, Copy, Debug, PartialEq, Eq, Structural)]
pub struct TimingState {
    pub timestamp: Instant,
    pub additional_offset: u64,
}

/// The playback position, in microseconds, that the model of `state` gives
/// for the moment `now`: the anchor's offset plus the time gone by since the
/// anchor's timestamp.
pub open spec fn seek_target(state: TimingState, now: Instant) -> int {
    state.additional_offset + (now.unix_millis - state.timestamp.unix_millis) * 1000
}

/// Computes the position to seek to at the moment `now`, in microseconds.
pub fn calculate_seek_from_timing_state(state: &TimingState, now: Instant) -> (target: i128)
    ensures
        target == seek_target(*state, now),
{
    let elapsed_millis: i128 = now.unix_millis as i128 - state.timestamp.unix_millis as i128;
    state.additional_offset as i128 + elapsed_millis * 1000
}

/// For a fixed anchor, a later evaluation yields a strictly larger target,
/// larger by exactly the time that passed between the two evaluations.
pub proof fn lemma_seek_target_follows_the_clock(state: TimingState, now1: Instant, now2: Instant)
    requires
        now2.unix_millis > now1.unix_millis,
    ensures
        seek_target(state, now2) > seek_target(state, now1),
        seek_target(state, now2) - seek_target(state, now1) == (now2.unix_millis
            - now1.unix_millis) * 1000,
{
}

} // verus!
