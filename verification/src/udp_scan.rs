//! ICMP messages, counted per sender, receiver and message type.
//!
//! A burst of destination-unreachable messages from one host to another is
//! what a UDP or host scan leaves behind. Other message types are counted and
//! never reported.

use crate::alert::Alert;
use crate::identity::IcmpKey;
use crate::registry::{lookup, Registry};
use vstd::prelude::*;

verus! {

/// What is remembered of a sender, receiver and message type: how many
/// messages were seen, and whether an alert went out for them.
#[derive(Clone, Copy, Debug, PartialEq, Eq, Structural)]
pub struct IcmpEntry {
    pub count: u64,
    pub notified: bool,
}

/// The ICMP message type "destination unreachable".
pub const DESTINATION_UNREACHABLE: u8 = 3;

/// The count above which destination-unreachable messages are reported.
pub const ICMP_ALERT_THRESHOLD: u64 = 10;

/// The number of messages counted under an entry, none where there is no
/// entry yet.
pub open spec fn messages_seen(prev: Option<IcmpEntry>) -> u64 {
    match prev {
        Some(known) => known.count,
        None => 0,
    }
}

/// The count after one more message, where there is room for it.
pub open spec fn one_more(count: u64) -> u64 {
    (count + 1) as u64
}

/// Whether an alert went out under an entry.
pub open spec fn already_notified(prev: Option<IcmpEntry>) -> bool {
    match prev {
        Some(known) => known.notified,
        None => false,
    }
}

/// One more message of `message_type` raises an alert: it brings the count
/// over the threshold, the type is destination unreachable, and no alert
/// went out before.
pub open spec fn fires(prev: Option<IcmpEntry>, message_type: u8) -> bool {
    &&& messages_seen(prev) + 1 > ICMP_ALERT_THRESHOLD
    &&& message_type == DESTINATION_UNREACHABLE
    &&& !already_notified(prev)
}

/// The entry after one more message of `message_type`.
pub open spec fn counted(prev: Option<IcmpEntry>, message_type: u8) -> IcmpEntry {
    IcmpEntry {
        count: one_more(messages_seen(prev)),
        notified: already_notified(prev) || fires(prev, message_type),
    }
}

/// There is room to count one more message under `key`.
pub open spec fn has_room(stats: Map<IcmpKey, IcmpEntry>, key: IcmpKey) -> bool {
    messages_seen(lookup(stats, key)) < u64::MAX
}

/// Whether one more message can be counted under `key`.
pub fn room_for(stats: &Registry<IcmpKey, IcmpEntry>, key: &IcmpKey) -> (room: bool)
    ensures
        room == has_room(stats@, *key),
{
    match stats.get(key) {
        Some(known) => known.count < u64::MAX,
        None => true,
    }
}

/// Counts one more message under `key` and says whether that raises an
/// alert. The alert of a key goes out once: the entry is latched with it.
pub fn record(stats: &mut Registry<IcmpKey, IcmpEntry>, key: IcmpKey) -> (alert: Option<Alert>)
    requires
        has_room(old(stats)@, key),
    ensures
        final(stats)@ == old(stats)@.insert(
            key,
            counted(lookup(old(stats)@, key), key.message_type),
        ),
        alert == if fires(lookup(old(stats)@, key), key.message_type) {
            Some(Alert::UdpScan { key })
        } else {
            None
        },
{
    let (seen, notified) = match stats.get(&key) {
        Some(known) => (known.count, known.notified),
        None => (0, false),
    };
    let count: u64 = seen + 1;
    if count > ICMP_ALERT_THRESHOLD && key.message_type == DESTINATION_UNREACHABLE && !notified {
        stats.insert(key, IcmpEntry { count, notified: true });
        Some(Alert::UdpScan { key })
    } else {
        stats.insert(key, IcmpEntry { count, notified });
        None
    }
}

} // verus!
