//! What holds of every step of the engine, whatever it has seen before.

use crate::alert::Alert;
use crate::decode::{icmp_projection, tcp_projection, FrameLayersView, NetLayer};
use crate::engine::{icmp_event, tcp_event, Tables, TcpEvent};
use crate::flow::FlowState;
use crate::identity::{FlowIdentity, HostPair, IcmpKey, Timestamp};
use crate::syn_scan::{stalled_counts, stalled_flows, SYN_ALERT_THRESHOLD};
use crate::registry::lookup;
use crate::udp_scan::{has_room, messages_seen, DESTINATION_UNREACHABLE, ICMP_ALERT_THRESHOLD};
use vstd::prelude::*;

verus! {

/// An engine that has seen nothing is settled.
pub proof fn law_empty_is_settled()
    ensures
        Tables::empty().settled(),
{
}

/// A step takes settled tables to settled tables.
pub proof fn law_step_keeps_settled(
    tables: Tables,
    tcp: Option<TcpEvent>,
    icmp: Option<IcmpKey>,
    now: Timestamp,
)
    requires
        tables.settled(),
        tables.admits(icmp),
    ensures
        tables.step(tcp, icmp, now).settled(),
{
    let fed = tables.with_tcp(tcp, now);
    let counted = fed.with_icmp(icmp);
    let after = tables.step(tcp, icmp, now);
    assert(after.flows == fed.flows);
    assert forall|flow: FlowIdentity| #[trigger]
        after.flows.contains_key(flow) implies after.flows[flow].well_timed() by {
        if tables.flows.contains_key(flow) {
            assert(tables.flows[flow].well_timed());
        }
    }
    assert forall|key: IcmpKey| #[trigger]
        after.icmp.contains_key(key) implies after.icmp[key].count >= 1 && (
    after.icmp[key].notified <==> key.message_type == DESTINATION_UNREACHABLE
        && after.icmp[key].count > ICMP_ALERT_THRESHOLD) by {
        if tables.icmp.contains_key(key) {
            assert(tables.icmp[key].count >= 1);
        }
    }
    assert forall|flow: FlowIdentity| #[trigger]
        after.ftp.contains_key(flow) implies (after.ftp[flow].anon_user_seen
        || after.ftp[flow].anon_pass_seen) && (after.ftp[flow].notified
        <==> after.ftp[flow].anon_user_seen && after.ftp[flow].anon_pass_seen) by {
        assert(fed.ftp.contains_key(flow));
        if tables.ftp.contains_key(flow) {
            assert(tables.ftp[flow].anon_user_seen || tables.ftp[flow].anon_pass_seen);
        }
    }
    assert forall|pair: HostPair| #[trigger]
        after.syn.contains_key(pair) && after.syn[pair].count
            > SYN_ALERT_THRESHOLD implies after.syn[pair].notified by {
        assert(counted.recounted(now).contains_key(pair));
    }
}

/// Flags are sticky: a step clears no flag of a flow that is followed, keeps
/// its start time, and never moves its last-seen time back.
pub proof fn law_flags_are_sticky(
    tables: Tables,
    tcp: Option<TcpEvent>,
    icmp: Option<IcmpKey>,
    now: Timestamp,
    flow: FlowIdentity,
)
    requires
        tables.flows.contains_key(flow),
    ensures
        ({
            let before = tables.flows[flow];
            let after = tables.step(tcp, icmp, now).flows;
            &&& after.contains_key(flow)
            &&& before.ack_seen ==> after[flow].ack_seen
            &&& before.syn_seen ==> after[flow].syn_seen
            &&& before.fin_seen ==> after[flow].fin_seen
            &&& after[flow].start_time == before.start_time
            &&& after[flow].last_seen_time.nanos >= before.last_seen_time.nanos
        }),
{
}

/// A flag is set exactly when a segment of the flow carried it: after a step
/// with a segment of a flow, each flag of the flow is what it was before, or
/// what the segment carries.
pub proof fn law_flags_accumulate(
    tables: Tables,
    event: TcpEvent,
    icmp: Option<IcmpKey>,
    now: Timestamp,
)
    ensures
        ({
            let before = lookup(tables.flows, event.flow);
            let after = tables.step(Some(event), icmp, now).flows;
            &&& after.contains_key(event.flow)
            &&& after[event.flow] == FlowState::after(before, event.flags, now)
            &&& after[event.flow].syn_seen == (event.flags.syn || (before matches Some(known)
                && known.syn_seen))
            &&& after[event.flow].fin_seen == (event.flags.fin || (before matches Some(known)
                && known.fin_seen))
            &&& after[event.flow].ack_seen == (event.flags.ack || (before matches Some(known)
                && known.ack_seen))
        }),
{
}

/// A SYN stays seen: after a segment with SYN and then any other segment of
/// the same flow, the flow still shows the SYN; and if neither segment
/// carries a FIN, the flow shows a FIN only if it showed one before.
pub proof fn law_syn_stays_seen(
    tables: Tables,
    first: TcpEvent,
    second: TcpEvent,
    first_icmp: Option<IcmpKey>,
    second_icmp: Option<IcmpKey>,
    first_time: Timestamp,
    second_time: Timestamp,
)
    requires
        first.flow == second.flow,
        first.flags.syn,
    ensures
        ({
            let flow = first.flow;
            let after = tables.step(Some(first), first_icmp, first_time).step(
                Some(second),
                second_icmp,
                second_time,
            ).flows;
            &&& after.contains_key(flow)
            &&& after[flow].syn_seen
            &&& !first.flags.fin && !second.flags.fin ==> (after[flow].fin_seen <==> (lookup(
                tables.flows,
                flow,
            ) matches Some(known) && known.fin_seen))
        }),
{
}

/// The eleventh destination-unreachable message from one host to another
/// raises the alert for them, and no other message does: not an earlier
/// one, not a later one, and none of another type.
pub proof fn law_eleventh_unreachable_alerts(
    tables: Tables,
    tcp: Option<TcpEvent>,
    key: IcmpKey,
    now: Timestamp,
)
    requires
        tables.settled(),
        has_room(tables.icmp, key),
    ensures
        tables.raised(tcp, Some(key), now).contains(Alert::UdpScan { key }) <==> key.message_type
            == DESTINATION_UNREACHABLE && messages_seen(lookup(tables.icmp, key)) == 10,
        forall|other: IcmpKey| #[trigger]
            tables.raised(tcp, Some(key), now).contains(Alert::UdpScan { key: other }) ==> other
                == key,
        messages_seen(lookup(tables.step(tcp, Some(key), now).icmp, key)) == messages_seen(
            lookup(tables.icmp, key),
        ) + 1,
{
    if tables.icmp.contains_key(key) {
        assert(tables.icmp[key].count >= 1);
    }
}

/// A frame without an ICMP message raises no ICMP alert and leaves the ICMP
/// table alone.
pub proof fn law_no_icmp_no_alert(
    tables: Tables,
    tcp: Option<TcpEvent>,
    now: Timestamp,
    key: IcmpKey,
)
    ensures
        !tables.raised(tcp, None, now).contains(Alert::UdpScan { key }),
        tables.step(tcp, None, now).icmp == tables.icmp,
{
}

/// An anonymous login is reported once: a step raises the alert of a flow
/// exactly when its segment belongs to the flow and completes the pair of
/// credentials seen on it.
pub proof fn law_ftp_login_alerts_once(
    tables: Tables,
    tcp: Option<TcpEvent>,
    icmp: Option<IcmpKey>,
    now: Timestamp,
    flow: FlowIdentity,
)
    requires
        tables.settled(),
    ensures
        ({
            let known = lookup(tables.ftp, flow);
            let user_before = known matches Some(login) && login.anon_user_seen;
            let pass_before = known matches Some(login) && login.anon_pass_seen;
            tables.raised(tcp, icmp, now).contains(Alert::FtpAnonymousLogin { flow }) <==> (
            tcp matches Some(event) && event.flow == flow && (user_before || event.anon_user) && (
            pass_before || event.anon_pass) && !(user_before && pass_before))
        }),
        lookup(tables.ftp, flow) matches Some(login) && login.anon_user_seen
            && login.anon_pass_seen ==> !tables.raised(tcp, icmp, now).contains(
            Alert::FtpAnonymousLogin { flow },
        ),
{
    if tables.ftp.contains_key(flow) {
        assert(tables.ftp[flow].anon_user_seen || tables.ftp[flow].anon_pass_seen);
    }
}

/// After a step, the count stored for a host pair with stalled flows is the
/// number of those flows.
pub proof fn law_count_is_number_of_stalled_flows(
    tables: Tables,
    tcp: Option<TcpEvent>,
    icmp: Option<IcmpKey>,
    now: Timestamp,
    pair: HostPair,
)
    requires
        stalled_flows(tables.with_tcp(tcp, now).flows, now, pair).len() <= u64::MAX,
    ensures
        ({
            let after = tables.step(tcp, icmp, now);
            let stalled = stalled_flows(after.flows, now, pair).len();
            stalled > 0 ==> after.syn.contains_key(pair) && after.syn[pair].count == stalled
        }),
{
    let fed = tables.with_tcp(tcp, now).with_icmp(icmp);
    assert(stalled_counts(fed.flows, now).contains_key(pair) <==> stalled_flows(
        fed.flows,
        now,
        pair,
    ).len() > 0);
}

/// Where no two stalled flows between two hosts go to the same destination
/// port, the number of stalled flows between them is the number of
/// destination ports that a stalled flow between them goes to.
pub proof fn law_stalled_flows_are_destination_ports(
    flows: Map<FlowIdentity, FlowState>,
    now: Timestamp,
    pair: HostPair,
)
    requires
        flows.dom().finite(),
        forall|a: FlowIdentity, b: FlowIdentity|
            stalled_flows(flows, now, pair).contains(a) && stalled_flows(flows, now, pair).contains(
                b,
            ) && a.dst_port == b.dst_port ==> a == b,
    ensures
        stalled_flows(flows, now, pair).finite(),
        stalled_flows(flows, now, pair).len() == stalled_flows(flows, now, pair).map(
            |flow: FlowIdentity| flow.dst_port,
        ).len(),
{
    let stalled = stalled_flows(flows, now, pair);
    let to_port = |flow: FlowIdentity| flow.dst_port;
    assert(stalled.subset_of(flows.dom()));
    vstd::set_lib::lemma_set_subset_finite(flows.dom(), stalled);
    assert(vstd::relations::injective_on(to_port, stalled));
    vstd::set_lib::lemma_map_size(stalled, stalled.map(to_port), to_port);
}

/// The threshold: a step raises the alert of a host pair exactly when more
/// than a hundred flows between the two hosts are stalled and the pair was
/// not reported before; the alert carries the number of stalled flows.
pub proof fn law_syn_alert_over_threshold(
    tables: Tables,
    tcp: Option<TcpEvent>,
    icmp: Option<IcmpKey>,
    now: Timestamp,
    pair: HostPair,
    count: u64,
)
    requires
        tables.settled(),
        stalled_flows(tables.with_tcp(tcp, now).flows, now, pair).len() <= u64::MAX,
    ensures
        ({
            let stalled = stalled_flows(tables.with_tcp(tcp, now).flows, now, pair).len();
            let reported = lookup(tables.syn, pair) matches Some(entry) && entry.notified;
            tables.raised(tcp, icmp, now).contains(Alert::SynScan { pair, count }) <==> count
                == stalled && stalled > SYN_ALERT_THRESHOLD && !reported
        }),
{
    let fed = tables.with_tcp(tcp, now);
    assert(stalled_counts(fed.flows, now).contains_key(pair) <==> stalled_flows(
        fed.flows,
        now,
        pair,
    ).len() > 0);
}

/// The latch of a host pair holds: once a pair is reported, no later step
/// reports it again, and it stays latched.
pub proof fn law_reported_pair_stays_silent(
    tables: Tables,
    tcp: Option<TcpEvent>,
    icmp: Option<IcmpKey>,
    now: Timestamp,
    pair: HostPair,
    count: u64,
)
    requires
        tables.syn.contains_key(pair),
        tables.syn[pair].notified,
    ensures
        !tables.raised(tcp, icmp, now).contains(Alert::SynScan { pair, count }),
        tables.step(tcp, icmp, now).syn.contains_key(pair),
        tables.step(tcp, icmp, now).syn[pair].notified,
{
}

/// A pair that a step reports is latched by that step.
pub proof fn law_alert_latches_pair(
    tables: Tables,
    tcp: Option<TcpEvent>,
    icmp: Option<IcmpKey>,
    now: Timestamp,
    pair: HostPair,
    count: u64,
)
    requires
        tables.raised(tcp, icmp, now).contains(Alert::SynScan { pair, count }),
    ensures
        tables.step(tcp, icmp, now).syn.contains_key(pair),
        tables.step(tcp, icmp, now).syn[pair].notified,
        tables.step(tcp, icmp, now).syn[pair].count == count,
{
}

/// A frame that cannot be sliced, or that carries no IPv4 header, decodes to
/// neither a TCP segment nor an ICMP message.
pub proof fn law_undecodable_frame_yields_nothing(layers: Option<FrameLayersView>)
    requires
        layers matches Some(sliced) ==> sliced.net is Other,
    ensures
        tcp_event(tcp_projection(layers)) is None,
        icmp_event(icmp_projection(layers)) is None,
{
}

/// A frame that decodes to nothing creates no entry and changes none in the
/// flow, ICMP and login tables, and raises no ICMP or login alert. The step
/// still recounts the stalled SYNs at `now`: that alone can change the SYN
/// table and raise an alert.
pub proof fn law_undecoded_frame_leaves_tables(tables: Tables, now: Timestamp, alert: Alert)
    requires
        tables.settled(),
    ensures
        tables.step(None, None, now).flows == tables.flows,
        tables.step(None, None, now).icmp == tables.icmp,
        tables.step(None, None, now).ftp == tables.ftp,
        tables.step(None, None, now).syn == crate::syn_scan::latched(tables.recounted(now)),
        tables.raised(None, None, now).contains(alert) ==> alert is SynScan,
{
    assert(crate::ftp::latched(tables.ftp) =~= tables.ftp);
}

/// A frame that decodes to nothing changes no table at all and raises no
/// alert, where the SYN table already holds the counts of the stalled SYNs
/// at `now`.
pub proof fn law_undecoded_frame_changes_nothing(tables: Tables, now: Timestamp)
    requires
        tables.settled(),
        forall|pair: HostPair| #[trigger]
            stalled_counts(tables.flows, now).contains_key(pair) ==> tables.syn.contains_key(pair)
                && tables.syn[pair].count == stalled_counts(tables.flows, now)[pair],
    ensures
        tables.step(None, None, now) == tables,
        tables.raised(None, None, now) == Set::<Alert>::empty(),
{
    assert(crate::ftp::latched(tables.ftp) =~= tables.ftp);
    assert(tables.recounted(now) =~= tables.syn);
    assert(crate::syn_scan::latched(tables.syn) =~= tables.syn);
    assert(tables.raised(None, None, now) =~= Set::<Alert>::empty());
}

} // verus!
