//! The detection engine: the four tracking tables and the step that one
//! captured frame takes them through.
//!
//! A step accounts for the frame's TCP segment, if it has one, counts its
//! ICMP message, if it has one, reports the anonymous FTP logins that became
//! complete, recounts the stalled SYNs of every host pair and reports the
//! pairs that went over the threshold.

use crate::alert::{enumerates, lemma_concat_contains, Alert};
use crate::decode::{
    ethernet_layers, icmp_projection, parse_icmp_packet, parse_tcp_packet, tcp_projection,
};
use crate::flow::{FlowState, TcpFlags};
use crate::ftp::{note_credentials, noted, FtpLogin};
use crate::identity::{FlowIdentity, HostPair, IcmpKey, Timestamp};
use crate::laws::law_step_keeps_settled;
use crate::registry::{lookup, Registry};
use crate::signature::{anon_pass_signature, anon_user_signature, occurs, parse_ftp_packet};
use crate::syn_scan::{
    detect_syn_ack_scanning, lemma_merged_in_turn_is_merged, merge_counts, merged, stalled_counts,
    stalled_flows, ScanEntry, SYN_ALERT_THRESHOLD,
};
use crate::udp_scan::{
    counted, fires, has_room, record, room_for, IcmpEntry, DESTINATION_UNREACHABLE,
    ICMP_ALERT_THRESHOLD,
};
use vstd::prelude::*;

verus! {

/// What a TCP segment tells the engine: its flow, its flags, and which of
/// the two anonymous FTP credentials its payload holds.
#[derive(Clone, Copy, Debug, PartialEq, Eq, Structural)]
pub struct TcpEvent {
    pub flow: FlowIdentity,
    pub flags: TcpFlags,
    pub anon_user: bool,
    pub anon_pass: bool,
}

impl TcpEvent {
    /// The event of a segment of `flow` with `flags` and `payload`.
    pub open spec fn of_segment(flow: FlowIdentity, flags: TcpFlags, payload: Seq<u8>) -> TcpEvent {
        TcpEvent {
            flow,
            flags,
            anon_user: occurs(payload, anon_user_signature()),
            anon_pass: occurs(payload, anon_pass_signature()),
        }
    }

    /// Reads a segment: searches its payload for the two signatures.
    pub fn from_segment(flow: FlowIdentity, flags: TcpFlags, payload: Vec<u8>) -> (event: TcpEvent)
        ensures
            event == TcpEvent::of_segment(flow, flags, payload@),
    {
        match parse_ftp_packet(payload) {
            Some((anon_user, anon_pass)) => TcpEvent { flow, flags, anon_user, anon_pass },
            None => TcpEvent { flow, flags, anon_user: false, anon_pass: false },
        }
    }
}

/// The TCP event of a decoded frame, if the frame is a TCP segment.
pub open spec fn tcp_event(segment: Option<(FlowIdentity, TcpFlags, Seq<u8>)>) -> Option<TcpEvent> {
    match segment {
        Some((flow, flags, payload)) => Some(TcpEvent::of_segment(flow, flags, payload)),
        None => None,
    }
}

/// The key of a decoded frame, if the frame is an ICMP message.
pub open spec fn icmp_event(message: Option<(IcmpKey, Seq<u8>)>) -> Option<IcmpKey> {
    match message {
        Some((key, _)) => Some(key),
        None => None,
    }
}

/// The four tracking tables as mathematical maps.
pub struct Tables {
    /// The state of every TCP flow seen.
    pub flows: Map<FlowIdentity, FlowState>,
    /// The ICMP messages counted per sender, receiver and type.
    pub icmp: Map<IcmpKey, IcmpEntry>,
    /// The stalled SYNs last counted per host pair.
    pub syn: Map<HostPair, ScanEntry>,
    /// The anonymous credentials seen per flow.
    pub ftp: Map<FlowIdentity, FtpLogin>,
}

/// The alert that one more ICMP message raises, if it raises one.
pub open spec fn icmp_alerts(stats: Map<IcmpKey, IcmpEntry>, icmp: Option<IcmpKey>) -> Set<Alert> {
    Set::new(
        |alert: Alert|
            icmp matches Some(key) && fires(lookup(stats, key), key.message_type) && alert == (
            Alert::UdpScan { key }),
    )
}

impl Tables {
    /// No table holds anything.
    pub open spec fn empty() -> Tables {
        Tables { flows: Map::empty(), icmp: Map::empty(), syn: Map::empty(), ftp: Map::empty() }
    }

    /// The tables after the TCP segment of a frame was accounted for.
    pub open spec fn with_tcp(self, tcp: Option<TcpEvent>, now: Timestamp) -> Tables {
        match tcp {
            Some(event) => Tables {
                flows: self.flows.insert(
                    event.flow,
                    FlowState::after(lookup(self.flows, event.flow), event.flags, now),
                ),
                icmp: self.icmp,
                syn: self.syn,
                ftp: noted(self.ftp, event.flow, event.anon_user, event.anon_pass),
            },
            None => self,
        }
    }

    /// The tables after the ICMP message of a frame was counted.
    pub open spec fn with_icmp(self, icmp: Option<IcmpKey>) -> Tables {
        match icmp {
            Some(key) => Tables {
                flows: self.flows,
                icmp: self.icmp.insert(key, counted(lookup(self.icmp, key), key.message_type)),
                syn: self.syn,
                ftp: self.ftp,
            },
            None => self,
        }
    }

    /// The SYN table with the stalled SYNs recounted at `now`, before any
    /// alert goes out.
    pub open spec fn recounted(self, now: Timestamp) -> Map<HostPair, ScanEntry> {
        merged(self.syn, stalled_counts(self.flows, now))
    }

    /// The tables after the sweep that ends a step: complete logins are
    /// latched, the stalled SYNs recounted, and the pairs over the threshold
    /// latched.
    pub open spec fn swept(self, now: Timestamp) -> Tables {
        Tables {
            flows: self.flows,
            icmp: self.icmp,
            syn: crate::syn_scan::latched(self.recounted(now)),
            ftp: crate::ftp::latched(self.ftp),
        }
    }

    /// The tables after one step.
    pub open spec fn step(
        self,
        tcp: Option<TcpEvent>,
        icmp: Option<IcmpKey>,
        now: Timestamp,
    ) -> Tables {
        self.with_tcp(tcp, now).with_icmp(icmp).swept(now)
    }

    /// The alerts that one step raises.
    pub open spec fn raised(
        self,
        tcp: Option<TcpEvent>,
        icmp: Option<IcmpKey>,
        now: Timestamp,
    ) -> Set<Alert> {
        let fed = self.with_tcp(tcp, now);
        icmp_alerts(self.icmp, icmp) + crate::ftp::due_alerts(fed.ftp)
            + crate::syn_scan::due_alerts(fed.recounted(now))
    }

    /// There is room to count the ICMP message of a frame.
    pub open spec fn admits(self, icmp: Option<IcmpKey>) -> bool {
        icmp matches Some(key) ==> has_room(self.icmp, key)
    }

    /// What holds of the tables between steps: a flow was not last seen
    /// before it began; an ICMP entry has counted a message and is latched
    /// exactly when more than ten destination-unreachable messages were
    /// counted; a login entry has seen a credential and is latched exactly
    /// when it has seen both; a host pair over the threshold is latched.
    pub open spec fn settled(self) -> bool {
        &&& self.flows.dom().finite()
        &&& forall|flow: FlowIdentity| #[trigger]
            self.flows.contains_key(flow) ==> self.flows[flow].well_timed()
        &&& forall|key: IcmpKey| #[trigger]
            self.icmp.contains_key(key) ==> self.icmp[key].count >= 1 && (self.icmp[key].notified
                <==> key.message_type == DESTINATION_UNREACHABLE && self.icmp[key].count
                > ICMP_ALERT_THRESHOLD)
        &&& forall|flow: FlowIdentity| #[trigger]
            self.ftp.contains_key(flow) ==> (self.ftp[flow].anon_user_seen
                || self.ftp[flow].anon_pass_seen) && (self.ftp[flow].notified
                <==> self.ftp[flow].anon_user_seen && self.ftp[flow].anon_pass_seen)
        &&& forall|pair: HostPair| #[trigger]
            self.syn.contains_key(pair) ==> (self.syn[pair].count > SYN_ALERT_THRESHOLD
                ==> self.syn[pair].notified)
    }
}

/// The detection engine. It owns the four tables.
pub struct Engine {
    tcp_streams: Registry<FlowIdentity, FlowState>,
    icmp_statistics: Registry<IcmpKey, IcmpEntry>,
    syn_statistics: Registry<HostPair, ScanEntry>,
    ftp_logins: Registry<FlowIdentity, FtpLogin>,
}

impl Engine {
    /// The tables of the engine.
    pub closed spec fn view(&self) -> Tables {
        Tables {
            flows: self.tcp_streams@,
            icmp: self.icmp_statistics@,
            syn: self.syn_statistics@,
            ftp: self.ftp_logins@,
        }
    }

    /// An engine that has seen nothing.
    pub fn new() -> (engine: Engine)
        ensures
            engine@ == Tables::empty(),
            engine@.settled(),
    {
        Engine {
            tcp_streams: Registry::new(),
            icmp_statistics: Registry::new(),
            syn_statistics: Registry::new(),
            ftp_logins: Registry::new(),
        }
    }

    /// Whether there is room to count the ICMP message of a frame.
    pub fn has_room_for(&self, icmp: &Option<IcmpKey>) -> (room: bool)
        ensures
            room == self@.admits(*icmp),
    {
        match icmp {
            Some(key) => room_for(&self.icmp_statistics, key),
            None => true,
        }
    }

    /// Takes one step: accounts for what a frame was decoded to, at the time
    /// `now`, and answers with the alerts raised, in no particular order.
    pub fn observe(
        &mut self,
        tcp: Option<TcpEvent>,
        icmp: Option<IcmpKey>,
        now: Timestamp,
    ) -> (alerts: Vec<Alert>)
        requires
            old(self)@.admits(icmp),
        ensures
            final(self)@ == old(self)@.step(tcp, icmp, now),
            enumerates(alerts@, old(self)@.raised(tcp, icmp, now)),
            old(self)@.settled() ==> final(self)@.settled(),
            forall|pair: HostPair|
                (#[trigger] stalled_flows(final(self)@.flows, now, pair)).len() <= usize::MAX,
    {
        let ghost before = self@;
        proof {
            if before.settled() {
                law_step_keeps_settled(before, tcp, icmp, now);
            }
        }
        let mut alerts: Vec<Alert> = Vec::new();
        if let Some(event) = tcp {
            let prev = self.tcp_streams.get(&event.flow);
            self.tcp_streams.insert(event.flow, FlowState::update(prev, event.flags, now));
            note_credentials(&mut self.ftp_logins, event.flow, event.anon_user, event.anon_pass);
        }
        assert(self@ == before.with_tcp(tcp, now));
        if let Some(key) = icmp {
            if let Some(alert) = record(&mut self.icmp_statistics, key) {
                alerts.push(alert);
            }
        }
        assert(self@ == before.with_tcp(tcp, now).with_icmp(icmp));
        let ghost first = alerts@;
        proof {
            assert(first.no_duplicates());
            assert forall|alert: Alert| first.contains(alert) <==> icmp_alerts(
                before.icmp,
                icmp,
            ).contains(alert) by {
                if first.contains(alert) {
                    assert(first[0] == alert);
                }
                if icmp_alerts(before.icmp, icmp).contains(alert) {
                    assert(first[0] == alert);
                }
            }
        }
        let ghost fed = self@;
        let mut ftp_alerts = crate::ftp::sweep(&mut self.ftp_logins);
        let ghost second = ftp_alerts@;
        alerts.append(&mut ftp_alerts);
        let counts = detect_syn_ack_scanning(&self.tcp_streams, now);
        merge_counts(&mut self.syn_statistics, &counts);
        proof {
            lemma_merged_in_turn_is_merged(fed.syn, counts@, stalled_counts(fed.flows, now));
        }
        let mut syn_alerts = crate::syn_scan::sweep(&mut self.syn_statistics);
        let ghost third = syn_alerts@;
        alerts.append(&mut syn_alerts);
        proof {
            lemma_concat_contains(first, second);
            lemma_concat_contains(first + second, third);
            assert(alerts@ == first + second + third);
            assert(before.raised(tcp, icmp, now) =~= icmp_alerts(before.icmp, icmp)
                + crate::ftp::due_alerts(fed.ftp) + crate::syn_scan::due_alerts(
                fed.recounted(now),
            ));
        }
        alerts
    }

    /// Decodes a captured frame and takes one step with it, at the time
    /// `now`. Answers with the alerts raised, in no particular order; or
    /// with `None`, and leaves the tables alone, where the frame is an ICMP
    /// message whose count has no room for one more.
    pub fn process_frame(&mut self, frame: &[u8], now: Timestamp) -> (outcome: Option<Vec<Alert>>)
        ensures
            ({
                let tcp = tcp_event(tcp_projection(ethernet_layers(frame@)));
                let icmp = icmp_event(icmp_projection(ethernet_layers(frame@)));
                match outcome {
                    Some(alerts) => {
                        &&& old(self)@.admits(icmp)
                        &&& final(self)@ == old(self)@.step(tcp, icmp, now)
                        &&& enumerates(alerts@, old(self)@.raised(tcp, icmp, now))
                    },
                    None => !old(self)@.admits(icmp) && final(self)@ == old(self)@,
                }
            }),
            old(self)@.settled() ==> final(self)@.settled(),
    {
        let tcp = match parse_tcp_packet(frame) {
            Some((flow, flags, payload)) => Some(TcpEvent::from_segment(flow, flags, payload)),
            None => None,
        };
        let icmp = match parse_icmp_packet(frame) {
            Some((key, _)) => Some(key),
            None => None,
        };
        if self.has_room_for(&icmp) {
            Some(self.observe(tcp, icmp, now))
        } else {
            None
        }
    }

    /// What is known of `flow`, if anything.
    pub fn flow(&self, flow: &FlowIdentity) -> (state: Option<FlowState>)
        ensures
            state == lookup(self@.flows, *flow),
    {
        self.tcp_streams.get(flow)
    }

    /// The ICMP messages counted under `key`, if any.
    pub fn icmp_entry(&self, key: &IcmpKey) -> (entry: Option<IcmpEntry>)
        ensures
            entry == lookup(self@.icmp, *key),
    {
        self.icmp_statistics.get(key)
    }

    /// The stalled SYNs last counted for `pair`, if any were.
    pub fn syn_entry(&self, pair: &HostPair) -> (entry: Option<ScanEntry>)
        ensures
            entry == lookup(self@.syn, *pair),
    {
        self.syn_statistics.get(pair)
    }

    /// The anonymous credentials seen on `flow`, if any were.
    pub fn ftp_login(&self, flow: &FlowIdentity) -> (login: Option<FtpLogin>)
        ensures
            login == lookup(self@.ftp, *flow),
    {
        self.ftp_logins.get(flow)
    }

    /// The number of flows followed.
    pub fn flow_count(&self) -> (count: usize)
        ensures
            self@.flows.dom().finite(),
            count == self@.flows.dom().len(),
    {
        self.tcp_streams.len()
    }
}

} // verus!
