//! What is remembered of one TCP flow, and how a packet changes it.

use crate::identity::Timestamp;
use vstd::prelude::*;

verus! {

/// The control flags of a TCP segment that the flow table follows.
#[derive(Clone, Copy, Debug, PartialEq, Eq, Structural)]
pub struct TcpFlags {
    pub ack: bool,
    pub syn: bool,
    pub fin: bool,
}

/// The accumulated state of a flow. A flag is set once a packet of the flow
/// carried it and is never cleared afterwards.
#[derive(Clone, Copy, Debug, PartialEq, Eq, Structural)]
pub struct FlowState {
    pub ack_seen: bool,
    pub syn_seen: bool,
    pub fin_seen: bool,
    /// When the first packet of the flow was seen.
    pub start_time: Timestamp,
    /// When the latest packet of the flow was seen.
    pub last_seen_time: Timestamp,
}

/// How long a flow may stay open after its SYN before it counts as stalled:
/// three seconds, in nanoseconds.
pub const STALL_WINDOW_NANOS: u64 = 3_000_000_000;

impl FlowState {
    /// The latest packet was not seen before the first one.
    pub open spec fn well_timed(self) -> bool {
        self.last_seen_time.nanos >= self.start_time.nanos
    }

    /// The state of a flow after a packet with `flags` seen at `now`, where
    /// `prev` is what was known of the flow before, if anything.
    pub open spec fn after(prev: Option<FlowState>, flags: TcpFlags, now: Timestamp) -> FlowState {
        match prev {
            Some(known) => FlowState {
                ack_seen: known.ack_seen || flags.ack,
                syn_seen: known.syn_seen || flags.syn,
                fin_seen: known.fin_seen || flags.fin,
                start_time: known.start_time,
                last_seen_time: if known.last_seen_time.nanos >= now.nanos {
                    known.last_seen_time
                } else {
                    now
                },
            },
            None => FlowState {
                ack_seen: flags.ack,
                syn_seen: flags.syn,
                fin_seen: flags.fin,
                start_time: now,
                last_seen_time: now,
            },
        }
    }

    /// A SYN was seen, no FIN, and the flow began more than three seconds
    /// before `now`.
    pub open spec fn is_stalled(self, now: Timestamp) -> bool {
        self.syn_seen && !self.fin_seen && now.nanos - self.start_time.nanos > STALL_WINDOW_NANOS
    }

    /// Accounts for a packet with `flags` seen at `now`.
    pub fn update(prev: Option<FlowState>, flags: TcpFlags, now: Timestamp) -> (next: FlowState)
        ensures
            next == FlowState::after(prev, flags, now),
            prev matches Some(known) && known.well_timed() ==> next.well_timed(),
            prev is None ==> next.well_timed(),
    {
        match prev {
            Some(known) => FlowState {
                ack_seen: known.ack_seen || flags.ack,
                syn_seen: known.syn_seen || flags.syn,
                fin_seen: known.fin_seen || flags.fin,
                start_time: known.start_time,
                last_seen_time: known.last_seen_time.latest(now),
            },
            None => FlowState {
                ack_seen: flags.ack,
                syn_seen: flags.syn,
                fin_seen: flags.fin,
                start_time: now,
                last_seen_time: now,
            },
        }
    }

    /// Whether the flow counts as a stalled SYN at `now`.
    pub fn stalled(&self, now: Timestamp) -> (stalled: bool)
        ensures
            stalled == self.is_stalled(now),
    {
        self.syn_seen && !self.fin_seen && now.nanos > self.start_time.nanos && now.nanos
            - self.start_time.nanos > STALL_WINDOW_NANOS
    }
}

} // verus!
