//! Stalled SYNs, counted per pair of hosts.
//!
//! A flow is stalled when its SYN was seen, no FIN closed it, and it began
//! more than three seconds ago. The count of a host pair is the number of
//! stalled flows between the two hosts, whatever their ports.

use crate::alert::{enumerates, lemma_push_contains, Alert};
use crate::flow::FlowState;
use crate::identity::{FlowIdentity, HostPair, Timestamp};
use crate::registry::{lemma_lists_drop_last, lists, Registry};
use vstd::prelude::*;

verus! {

/// The flows between the hosts of `pair` that are stalled at `now`.
pub open spec fn stalled_flows(
    flows: Map<FlowIdentity, FlowState>,
    now: Timestamp,
    pair: HostPair,
) -> Set<FlowIdentity> {
    Set::new(
        |flow: FlowIdentity|
            flows.contains_key(flow) && flow.pair() == pair && flows[flow].is_stalled(now),
    )
}

/// For every host pair with a stalled flow at `now`, how many it has.
pub open spec fn stalled_counts(flows: Map<FlowIdentity, FlowState>, now: Timestamp) -> Map<
    HostPair,
    u64,
> {
    Map::new(
        |pair: HostPair| stalled_flows(flows, now, pair).len() > 0,
        |pair: HostPair| stalled_flows(flows, now, pair).len() as u64,
    )
}

/// How many of `entries` are flows between the hosts of `pair` that are
/// stalled at `now`.
pub open spec fn stalled_tally(
    entries: Seq<(FlowIdentity, FlowState)>,
    now: Timestamp,
    pair: HostPair,
) -> nat
    decreases entries.len(),
{
    if entries.len() == 0 {
        0
    } else {
        let last = entries.last();
        stalled_tally(entries.drop_last(), now, pair) + if last.0.pair() == pair
            && last.1.is_stalled(now) {
            1nat
        } else {
            0nat
        }
    }
}

/// A tally is no more than the number of entries.
proof fn lemma_tally_is_bounded(
    entries: Seq<(FlowIdentity, FlowState)>,
    now: Timestamp,
    pair: HostPair,
)
    ensures
        stalled_tally(entries, now, pair) <= entries.len(),
    decreases entries.len(),
{
    if entries.len() > 0 {
        lemma_tally_is_bounded(entries.drop_last(), now, pair);
    }
}

/// What one more entry adds to a tally.
proof fn lemma_tally_step(
    entries: Seq<(FlowIdentity, FlowState)>,
    upto: int,
    now: Timestamp,
    pair: HostPair,
)
    requires
        0 <= upto < entries.len(),
    ensures
        stalled_tally(entries.take(upto + 1), now, pair) == stalled_tally(
            entries.take(upto),
            now,
            pair,
        ) + if entries[upto].0.pair() == pair && entries[upto].1.is_stalled(now) {
            1nat
        } else {
            0nat
        },
{
    assert(entries.take(upto + 1).drop_last() =~= entries.take(upto));
}

/// The tally over a listing of the flow table is the number of stalled flows
/// between the two hosts.
pub proof fn lemma_tally_counts_stalled_flows(
    entries: Seq<(FlowIdentity, FlowState)>,
    flows: Map<FlowIdentity, FlowState>,
    now: Timestamp,
    pair: HostPair,
)
    requires
        lists(entries, flows),
    ensures
        stalled_flows(flows, now, pair).finite(),
        stalled_flows(flows, now, pair).len() == stalled_tally(entries, now, pair),
    decreases entries.len(),
{
    if entries.len() == 0 {
        assert(stalled_flows(flows, now, pair) =~= Set::<FlowIdentity>::empty());
    } else {
        let last = entries.last();
        let fewer = flows.remove(last.0);
        lemma_lists_drop_last(entries, flows);
        lemma_tally_counts_stalled_flows(entries.drop_last(), fewer, now, pair);
        assert(flows.contains_key(entries[entries.len() - 1].0));
        assert(flows[last.0] == last.1);
        if last.0.pair() == pair && last.1.is_stalled(now) {
            assert(stalled_flows(flows, now, pair) =~= stalled_flows(fewer, now, pair).insert(
                last.0,
            ));
        } else {
            assert(stalled_flows(flows, now, pair) =~= stalled_flows(fewer, now, pair));
        }
    }
}

/// Counts, for every pair of hosts, the flows between them that are stalled
/// at `now`. A pair without a stalled flow is left out; the pairs come in no
/// particular order.
pub fn detect_syn_ack_scanning(
    tcp_streams: &Registry<FlowIdentity, FlowState>,
    now: Timestamp,
) -> (counts: Vec<(HostPair, u64)>)
    ensures
        lists(counts@, stalled_counts(tcp_streams@, now)),
        forall|i: int|
            0 <= i < counts@.len() ==> (#[trigger] counts@[i]).1 == stalled_flows(
                tcp_streams@,
                now,
                counts@[i].0,
            ).len(),
        forall|pair: HostPair|
            (#[trigger] stalled_flows(tcp_streams@, now, pair)).finite() && stalled_flows(
                tcp_streams@,
                now,
                pair,
            ).len() <= usize::MAX,
{
    let entries = tcp_streams.entries();
    let mut syn_statistics: Registry<HostPair, u64> = Registry::new();
    let mut i: usize = 0;
    while i < entries.len()
        invariant
            i <= entries.len(),
            forall|pair: HostPair| #[trigger]
                syn_statistics@.contains_key(pair) <==> stalled_tally(
                    entries@.take(i as int),
                    now,
                    pair,
                ) > 0,
            forall|pair: HostPair| #[trigger]
                syn_statistics@.contains_key(pair) ==> syn_statistics@[pair] == stalled_tally(
                    entries@.take(i as int),
                    now,
                    pair,
                ),
        decreases entries.len() - i,
    {
        let (flow, state) = entries[i];
        let ghost before = syn_statistics@;
        if state.stalled(now) {
            let pair = flow.host_pair();
            proof {
                lemma_tally_is_bounded(entries@.take(i as int), now, pair);
            }
            match syn_statistics.get(&pair) {
                Some(tcp_count) => {
                    syn_statistics.insert(pair, tcp_count + 1);
                },
                None => {
                    syn_statistics.insert(pair, 1);
                },
            }
        }
        proof {
            assert forall|pair: HostPair|
                (#[trigger] syn_statistics@.contains_key(pair) <==> stalled_tally(
                    entries@.take(i + 1),
                    now,
                    pair,
                ) > 0) && (syn_statistics@.contains_key(pair) ==> syn_statistics@[pair]
                    == stalled_tally(entries@.take(i + 1), now, pair)) by {
                lemma_tally_step(entries@, i as int, now, pair);
                assert(before.contains_key(pair) <==> stalled_tally(
                    entries@.take(i as int),
                    now,
                    pair,
                ) > 0);
            }
        }
        i += 1;
    }
    proof {
        assert(entries@.take(entries@.len() as int) =~= entries@);
        assert forall|pair: HostPair|
            (#[trigger] syn_statistics@.contains_key(pair) <==> stalled_counts(
                tcp_streams@,
                now,
            ).contains_key(pair)) && (syn_statistics@.contains_key(pair) ==> syn_statistics@[pair]
                == stalled_counts(tcp_streams@, now)[pair]) by {
            lemma_tally_counts_stalled_flows(entries@, tcp_streams@, now, pair);
        }
        assert(syn_statistics@ =~= stalled_counts(tcp_streams@, now));
        assert forall|pair: HostPair|
            (#[trigger] stalled_flows(tcp_streams@, now, pair)).finite() && stalled_flows(
                tcp_streams@,
                now,
                pair,
            ).len() <= usize::MAX by {
            lemma_tally_counts_stalled_flows(entries@, tcp_streams@, now, pair);
            lemma_tally_is_bounded(entries@, now, pair);
        }
    }
    let counts = syn_statistics.entries();
    proof {
        assert forall|i: int| 0 <= i < counts@.len() implies (#[trigger] counts@[i]).1
            == stalled_flows(tcp_streams@, now, counts@[i].0).len() by {
            let pair = counts@[i].0;
            assert(syn_statistics@.contains_key(pair));
            assert(stalled_flows(tcp_streams@, now, pair).len() <= usize::MAX);
        }
    }
    counts
}

/// What is remembered of a host pair: the number of stalled flows last
/// counted between the two hosts, and whether an alert went out for them.
#[derive(Clone, Copy, Debug, PartialEq, Eq, Structural)]
pub struct ScanEntry {
    pub count: u64,
    pub notified: bool,
}

/// The count above which a host pair is reported.
pub const SYN_ALERT_THRESHOLD: u64 = 100;

impl ScanEntry {
    /// The count is over the threshold and no alert went out yet.
    pub open spec fn is_due(self) -> bool {
        self.count > SYN_ALERT_THRESHOLD && !self.notified
    }

    /// The entry once its alert, if one is due, went out.
    pub open spec fn latched(self) -> ScanEntry {
        ScanEntry { count: self.count, notified: self.notified || self.is_due() }
    }
}

/// The table after fresh counts were taken over, one after the other: a
/// fresh count replaces the stored one and leaves the latch as it was; a
/// pair that was not stored yet starts without an alert.
pub open spec fn merged_in_turn(
    stats: Map<HostPair, ScanEntry>,
    counts: Seq<(HostPair, u64)>,
) -> Map<HostPair, ScanEntry>
    decreases counts.len(),
{
    if counts.len() == 0 {
        stats
    } else {
        let earlier = merged_in_turn(stats, counts.drop_last());
        let (pair, count) = counts.last();
        earlier.insert(
            pair,
            ScanEntry { count, notified: earlier.contains_key(pair) && earlier[pair].notified },
        )
    }
}

/// The table after the fresh counts of `counts` were taken over.
pub open spec fn merged(stats: Map<HostPair, ScanEntry>, counts: Map<HostPair, u64>) -> Map<
    HostPair,
    ScanEntry,
> {
    Map::new(
        |pair: HostPair| stats.contains_key(pair) || counts.contains_key(pair),
        |pair: HostPair|
            if counts.contains_key(pair) {
                ScanEntry {
                    count: counts[pair],
                    notified: stats.contains_key(pair) && stats[pair].notified,
                }
            } else {
                stats[pair]
            },
    )
}

/// Taking over a listing of counts in turn gives the table merged with the
/// counts listed.
pub proof fn lemma_merged_in_turn_is_merged(
    stats: Map<HostPair, ScanEntry>,
    listing: Seq<(HostPair, u64)>,
    counts: Map<HostPair, u64>,
)
    requires
        lists(listing, counts),
    ensures
        merged_in_turn(stats, listing) == merged(stats, counts),
    decreases listing.len(),
{
    if listing.len() == 0 {
        assert(merged(stats, counts) =~= stats);
    } else {
        let (pair, count) = listing.last();
        let fewer = counts.remove(pair);
        lemma_lists_drop_last(listing, counts);
        lemma_merged_in_turn_is_merged(stats, listing.drop_last(), fewer);
        assert(counts.contains_key(listing[listing.len() - 1].0));
        assert(counts[pair] == count);
        assert(merged(stats, fewer).insert(
            pair,
            ScanEntry {
                count,
                notified: merged(stats, fewer).contains_key(pair) && merged(
                    stats,
                    fewer,
                )[pair].notified,
            },
        ) =~= merged(stats, counts));
    }
}

/// The table once every alert that is due went out.
pub open spec fn latched(stats: Map<HostPair, ScanEntry>) -> Map<HostPair, ScanEntry> {
    Map::new(|pair: HostPair| stats.contains_key(pair), |pair: HostPair| stats[pair].latched())
}

/// The alerts that are due on the table.
pub open spec fn due_alerts(stats: Map<HostPair, ScanEntry>) -> Set<Alert> {
    Set::new(
        |alert: Alert|
            alert matches Alert::SynScan { pair, count } && stats.contains_key(pair)
                && stats[pair].is_due() && count == stats[pair].count,
    )
}

/// Takes fresh counts over into the table, one after the other.
pub fn merge_counts(stats: &mut Registry<HostPair, ScanEntry>, counts: &Vec<(HostPair, u64)>)
    ensures
        final(stats)@ == merged_in_turn(old(stats)@, counts@),
{
    let mut i: usize = 0;
    while i < counts.len()
        invariant
            i <= counts.len(),
            stats@ == merged_in_turn(old(stats)@, counts@.take(i as int)),
        decreases counts.len() - i,
    {
        let (pair, count) = counts[i];
        let notified = match stats.get(&pair) {
            Some(known) => known.notified,
            None => false,
        };
        stats.insert(pair, ScanEntry { count, notified });
        proof {
            assert(counts@.take(i + 1).drop_last() =~= counts@.take(i as int));
        }
        i += 1;
    }
    proof {
        assert(counts@.take(counts@.len() as int) =~= counts@);
    }
}

/// Reports every host pair whose count is over the threshold and that was
/// not reported before, and latches it. The alerts come in no particular
/// order.
pub fn sweep(stats: &mut Registry<HostPair, ScanEntry>) -> (alerts: Vec<Alert>)
    ensures
        final(stats)@ == latched(old(stats)@),
        enumerates(alerts@, due_alerts(old(stats)@)),
{
    let ghost before = stats@;
    let entries = stats.entries();
    let mut alerts: Vec<Alert> = Vec::new();
    let mut i: usize = 0;
    while i < entries.len()
        invariant
            i <= entries.len(),
            lists(entries@, before),
            stats@.dom() =~= before.dom(),
            forall|j: int|
                0 <= j < i ==> stats@[(#[trigger] entries@[j]).0] == entries@[j].1.latched(),
            forall|j: int|
                i <= j < entries.len() ==> stats@[(#[trigger] entries@[j]).0] == entries@[j].1,
            alerts@.no_duplicates(),
            forall|alert: Alert|
                alerts@.contains(alert) <==> exists|j: int|
                    0 <= j < i && (#[trigger] entries@[j]).1.is_due() && alert == (Alert::SynScan {
                        pair: entries@[j].0,
                        count: entries@[j].1.count,
                    }),
        decreases entries.len() - i,
    {
        let (pair, entry) = entries[i];
        let ghost raised = alerts@;
        let ghost table = stats@;
        if entry.count > SYN_ALERT_THRESHOLD && !entry.notified {
            stats.insert(pair, ScanEntry { count: entry.count, notified: true });
            let alert = Alert::SynScan { pair, count: entry.count };
            proof {
                lemma_push_contains(raised, alert);
                if raised.contains(alert) {
                    let j = choose|j: int|
                        0 <= j < i && (#[trigger] entries@[j]).1.is_due() && alert == (
                        Alert::SynScan { pair: entries@[j].0, count: entries@[j].1.count });
                    assert(entries@[j].0 == entries@[i as int].0);
                }
            }
            alerts.push(alert);
        }
        proof {
            assert forall|j: int| 0 <= j < i + 1 implies stats@[(#[trigger] entries@[j]).0]
                == entries@[j].1.latched() by {
                if j < i {
                    assert(entries@[j].0 != entries@[i as int].0);
                }
            }
            assert forall|j: int| i + 1 <= j < entries.len() implies stats@[(
            #[trigger] entries@[j]).0] == entries@[j].1 by {
                assert(entries@[i as int].0 != entries@[j].0);
            }
            assert(before.contains_key(entries@[i as int].0));
            assert forall|alert: Alert|
                alerts@.contains(alert) <==> exists|j: int|
                    0 <= j < i + 1 && (#[trigger] entries@[j]).1.is_due() && alert == (
                    Alert::SynScan { pair: entries@[j].0, count: entries@[j].1.count }) by {
                if alerts@.contains(alert) {
                    if raised.contains(alert) {
                        let j = choose|j: int|
                            0 <= j < i && (#[trigger] entries@[j]).1.is_due() && alert == (
                            Alert::SynScan { pair: entries@[j].0, count: entries@[j].1.count });
                        assert(0 <= j < i + 1 && entries@[j].1.is_due());
                    } else {
                        assert(entries@[i as int].1.is_due());
                    }
                }
                if exists|j: int|
                    0 <= j < i + 1 && (#[trigger] entries@[j]).1.is_due() && alert == (
                    Alert::SynScan { pair: entries@[j].0, count: entries@[j].1.count }) {
                    let j = choose|j: int|
                        0 <= j < i + 1 && (#[trigger] entries@[j]).1.is_due() && alert == (
                        Alert::SynScan { pair: entries@[j].0, count: entries@[j].1.count });
                    if j < i {
                        assert(raised.contains(alert));
                    }
                }
            }
        }
        i += 1;
    }
    proof {
        assert forall|pair: HostPair| #[trigger] before.contains_key(pair) implies stats@[pair]
            == before[pair].latched() by {
            let j = choose|j: int| 0 <= j < entries@.len() && (#[trigger] entries@[j]).0 == pair;
            assert(stats@[entries@[j].0] == entries@[j].1.latched());
        }
        assert(stats@ =~= latched(before));
        assert forall|alert: Alert| alerts@.contains(alert) <==> due_alerts(before).contains(
            alert,
        ) by {
            if alerts@.contains(alert) {
                let j = choose|j: int|
                    0 <= j < i && (#[trigger] entries@[j]).1.is_due() && alert == (Alert::SynScan {
                        pair: entries@[j].0,
                        count: entries@[j].1.count,
                    });
                assert(before.contains_key(entries@[j].0));
            }
            if due_alerts(before).contains(alert) {
                let pair = alert->SynScan_pair;
                let j = choose|j: int|
                    0 <= j < entries@.len() && (#[trigger] entries@[j]).0 == pair;
                assert(entries@[j].1 == before[pair]);
                assert(entries@[j].1.is_due());
            }
        }
    }
    alerts
}

} // verus!
