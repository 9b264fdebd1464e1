use netwatch::alert::Alert;
use netwatch::flow::{FlowState, TcpFlags};
use netwatch::ftp::{note_credentials, FtpLogin};
use netwatch::identity::{FlowIdentity, HostPair, IcmpKey, Ipv4Address, TableKey, Timestamp};
use netwatch::registry::Registry;
use netwatch::syn_scan::{detect_syn_ack_scanning, merge_counts, ScanEntry};
use netwatch::udp_scan::{record, room_for, IcmpEntry};

const SECOND: u64 = 1_000_000_000;

fn at(nanos: u64) -> Timestamp {
    Timestamp { nanos }
}

fn flow(src_last: u8, src_port: u16, dst_last: u8, dst_port: u16) -> FlowIdentity {
    FlowIdentity {
        src: Ipv4Address::new(10, 0, 0, src_last),
        src_port,
        dst: Ipv4Address::new(10, 0, 1, dst_last),
        dst_port,
    }
}

fn open_since(start: u64) -> FlowState {
    FlowState {
        ack_seen: false,
        syn_seen: true,
        fin_seen: false,
        start_time: at(start),
        last_seen_time: at(start),
    }
}

fn sorted(mut counts: Vec<(HostPair, u64)>) -> Vec<(HostPair, u64)> {
    counts.sort_by_key(|(pair, _)| pair.encode());
    counts
}

#[test]
fn address_octets_round_trip() {
    let address = Ipv4Address::from_octets([192, 168, 0, 1]);
    assert_eq!(address, Ipv4Address::new(192, 168, 0, 1));
    assert_eq!(address.octets(), [192, 168, 0, 1]);
    assert_eq!(address.bits(), 0xC0A8_0001);
    assert_eq!(Ipv4Address::new(255, 255, 255, 255).bits(), u32::MAX);
    assert_eq!(Ipv4Address::new(0, 0, 0, 0).bits(), 0);
}

#[test]
fn codes_tell_keys_apart() {
    let a = flow(5, 1000, 1, 80);
    assert_eq!(a.encode(), a.encode());
    assert_ne!(a.encode(), flow(5, 1000, 1, 81).encode());
    assert_ne!(a.encode(), flow(5, 1001, 1, 80).encode());
    assert_ne!(a.encode(), flow(6, 1000, 1, 80).encode());
    assert_ne!(a.encode(), flow(5, 1000, 2, 80).encode());
    let reverse = FlowIdentity { src: a.dst, src_port: a.dst_port, dst: a.src, dst_port: a.src_port };
    assert_ne!(a.encode(), reverse.encode());
    assert_eq!(
        flow(5, 1000, 1, 80).encode(),
        (0x0A00_0005u128 << 64) | (1000u128 << 48) | (0x0A00_0101u128 << 16) | 80u128
    );
    let pair = a.host_pair();
    assert_eq!(pair, HostPair { src: a.src, dst: a.dst });
    assert_eq!(pair.encode(), (0x0A00_0005u128 << 32) | 0x0A00_0101u128);
    let key = IcmpKey { src: a.src, dst: a.dst, message_type: 3 };
    assert_eq!(key.encode(), (0x0A00_0005u128 << 40) | (0x0A00_0101u128 << 8) | 3u128);
}

#[test]
fn later_of_two_times() {
    assert_eq!(at(5).latest(at(9)), at(9));
    assert_eq!(at(9).latest(at(5)), at(9));
    assert_eq!(at(7).latest(at(7)), at(7));
}

#[test]
fn registry_files_and_replaces() {
    let mut table: Registry<FlowIdentity, u64> = Registry::new();
    assert_eq!(table.len(), 0);
    assert_eq!(table.get(&flow(5, 1, 1, 2)), None);
    table.insert(flow(5, 1, 1, 2), 10);
    table.insert(flow(5, 1, 1, 3), 20);
    assert_eq!(table.len(), 2);
    assert_eq!(table.get(&flow(5, 1, 1, 2)), Some(10));
    assert_eq!(table.get(&flow(5, 1, 1, 3)), Some(20));
    assert_eq!(table.get(&flow(5, 1, 1, 4)), None);
    table.insert(flow(5, 1, 1, 2), 11);
    assert_eq!(table.len(), 2);
    assert_eq!(table.get(&flow(5, 1, 1, 2)), Some(11));
}

#[test]
fn registry_lists_every_key_once() {
    let mut table: Registry<HostPair, u64> = Registry::new();
    assert!(table.entries().is_empty());
    let a = HostPair { src: Ipv4Address::new(1, 1, 1, 1), dst: Ipv4Address::new(2, 2, 2, 2) };
    let b = HostPair { src: Ipv4Address::new(2, 2, 2, 2), dst: Ipv4Address::new(1, 1, 1, 1) };
    table.insert(a, 1);
    table.insert(b, 2);
    table.insert(a, 3);
    assert_eq!(sorted(table.entries()), sorted(vec![(a, 3), (b, 2)]));
}

#[test]
fn first_packet_starts_a_flow() {
    let state = FlowState::update(None, TcpFlags { ack: false, syn: true, fin: false }, at(42));
    assert_eq!(
        state,
        FlowState {
            ack_seen: false,
            syn_seen: true,
            fin_seen: false,
            start_time: at(42),
            last_seen_time: at(42),
        }
    );
}

#[test]
fn later_packet_adds_flags_and_keeps_the_start() {
    let first = FlowState::update(None, TcpFlags { ack: false, syn: true, fin: false }, at(42));
    let second =
        FlowState::update(Some(first), TcpFlags { ack: true, syn: false, fin: false }, at(50));
    assert_eq!(
        second,
        FlowState {
            ack_seen: true,
            syn_seen: true,
            fin_seen: false,
            start_time: at(42),
            last_seen_time: at(50),
        }
    );
    let third =
        FlowState::update(Some(second), TcpFlags { ack: false, syn: false, fin: true }, at(60));
    assert!(third.ack_seen && third.syn_seen && third.fin_seen);
    assert_eq!(third.start_time, at(42));
    assert_eq!(third.last_seen_time, at(60));
}

#[test]
fn last_seen_never_moves_back() {
    let first = FlowState::update(None, TcpFlags { ack: false, syn: true, fin: false }, at(100));
    let second =
        FlowState::update(Some(first), TcpFlags { ack: false, syn: false, fin: false }, at(30));
    assert_eq!(second.start_time, at(100));
    assert_eq!(second.last_seen_time, at(100));
    assert!(second.syn_seen);
}

#[test]
fn stall_window_is_three_seconds() {
    let state = open_since(10 * SECOND);
    assert!(!state.stalled(at(10 * SECOND)));
    assert!(!state.stalled(at(12 * SECOND)));
    assert!(!state.stalled(at(13 * SECOND)));
    assert!(state.stalled(at(13 * SECOND + 1)));
    assert!(state.stalled(at(u64::MAX)));
}

#[test]
fn flow_that_began_after_now_is_not_stalled() {
    let state = open_since(10 * SECOND);
    assert!(!state.stalled(at(0)));
    assert!(!state.stalled(at(10 * SECOND - 1)));
}

#[test]
fn stalled_needs_syn_and_no_fin() {
    let closed = FlowState { fin_seen: true, ..open_since(0) };
    assert!(!closed.stalled(at(10 * SECOND)));
    let no_syn = FlowState { syn_seen: false, ack_seen: true, ..open_since(0) };
    assert!(!no_syn.stalled(at(10 * SECOND)));
    let acked = FlowState { ack_seen: true, ..open_since(0) };
    assert!(acked.stalled(at(10 * SECOND)));
}

#[test]
fn stalled_flows_are_counted_per_host_pair() {
    let mut flows: Registry<FlowIdentity, FlowState> = Registry::new();
    for port in 1..=5u16 {
        flows.insert(flow(5, 40000, 1, port), open_since(0));
    }
    for port in 1..=3u16 {
        flows.insert(flow(6, 40000, 1, port), open_since(0));
    }
    flows.insert(flow(5, 40000, 2, 80), open_since(0));
    let counts = detect_syn_ack_scanning(&flows, at(4 * SECOND));
    assert_eq!(
        sorted(counts),
        sorted(vec![
            (flow(5, 0, 1, 0).host_pair(), 5),
            (flow(6, 0, 1, 0).host_pair(), 3),
            (flow(5, 0, 2, 0).host_pair(), 1),
        ])
    );
}

#[test]
fn count_of_a_pair_is_its_number_of_open_flows() {
    for n in [1u16, 2, 17, 64] {
        let mut flows: Registry<FlowIdentity, FlowState> = Registry::new();
        for port in 0..n {
            flows.insert(flow(5, 40000, 1, 1000 + port), open_since(SECOND));
        }
        let counts = detect_syn_ack_scanning(&flows, at(5 * SECOND));
        assert_eq!(counts, vec![(flow(5, 0, 1, 0).host_pair(), n as u64)]);
    }
}

#[test]
fn flows_to_one_port_from_two_source_ports_count_twice() {
    let mut flows: Registry<FlowIdentity, FlowState> = Registry::new();
    flows.insert(flow(5, 40000, 1, 80), open_since(0));
    flows.insert(flow(5, 40001, 1, 80), open_since(0));
    let counts = detect_syn_ack_scanning(&flows, at(4 * SECOND));
    assert_eq!(counts, vec![(flow(5, 0, 1, 0).host_pair(), 2)]);
}

#[test]
fn young_and_closed_flows_are_left_out() {
    let mut flows: Registry<FlowIdentity, FlowState> = Registry::new();
    flows.insert(flow(5, 40000, 1, 1), open_since(0));
    flows.insert(flow(5, 40000, 1, 2), open_since(2 * SECOND));
    flows.insert(flow(5, 40000, 1, 3), FlowState { fin_seen: true, ..open_since(0) });
    flows.insert(flow(5, 40000, 1, 4), FlowState { syn_seen: false, ..open_since(0) });
    flows.insert(flow(7, 40000, 1, 5), open_since(3 * SECOND));
    let counts = detect_syn_ack_scanning(&flows, at(4 * SECOND));
    assert_eq!(counts, vec![(flow(5, 0, 1, 0).host_pair(), 1)]);
}

#[test]
fn no_flow_no_count() {
    let flows: Registry<FlowIdentity, FlowState> = Registry::new();
    assert!(detect_syn_ack_scanning(&flows, at(4 * SECOND)).is_empty());
    let mut flows: Registry<FlowIdentity, FlowState> = Registry::new();
    flows.insert(flow(5, 40000, 1, 1), open_since(SECOND));
    assert!(detect_syn_ack_scanning(&flows, at(2 * SECOND)).is_empty());
}

#[test]
fn fresh_count_replaces_the_stored_one_and_keeps_the_latch() {
    let a = flow(5, 0, 1, 0).host_pair();
    let b = flow(6, 0, 1, 0).host_pair();
    let c = flow(7, 0, 1, 0).host_pair();
    let mut stats: Registry<HostPair, ScanEntry> = Registry::new();
    stats.insert(a, ScanEntry { count: 150, notified: true });
    stats.insert(b, ScanEntry { count: 7, notified: false });
    merge_counts(&mut stats, &vec![(a, 3), (c, 9)]);
    assert_eq!(stats.get(&a), Some(ScanEntry { count: 3, notified: true }));
    assert_eq!(stats.get(&b), Some(ScanEntry { count: 7, notified: false }));
    assert_eq!(stats.get(&c), Some(ScanEntry { count: 9, notified: false }));
    assert_eq!(stats.len(), 3);
}

#[test]
fn sweep_reports_pairs_over_the_threshold_once() {
    let a = flow(5, 0, 1, 0).host_pair();
    let b = flow(6, 0, 1, 0).host_pair();
    let c = flow(7, 0, 1, 0).host_pair();
    let mut stats: Registry<HostPair, ScanEntry> = Registry::new();
    stats.insert(a, ScanEntry { count: 100, notified: false });
    stats.insert(b, ScanEntry { count: 101, notified: false });
    stats.insert(c, ScanEntry { count: 500, notified: true });
    let alerts = netwatch::syn_scan::sweep(&mut stats);
    assert_eq!(alerts, vec![Alert::SynScan { pair: b, count: 101 }]);
    assert_eq!(stats.get(&a), Some(ScanEntry { count: 100, notified: false }));
    assert_eq!(stats.get(&b), Some(ScanEntry { count: 101, notified: true }));
    assert_eq!(stats.get(&c), Some(ScanEntry { count: 500, notified: true }));
    assert!(netwatch::syn_scan::sweep(&mut stats).is_empty());
}

#[test]
fn icmp_count_goes_up_by_one() {
    let key = IcmpKey {
        src: Ipv4Address::new(10, 0, 0, 5),
        dst: Ipv4Address::new(10, 0, 0, 1),
        message_type: 8,
    };
    let mut stats: Registry<IcmpKey, IcmpEntry> = Registry::new();
    assert_eq!(record(&mut stats, key), None);
    assert_eq!(stats.get(&key), Some(IcmpEntry { count: 1, notified: false }));
    assert_eq!(record(&mut stats, key), None);
    assert_eq!(stats.get(&key), Some(IcmpEntry { count: 2, notified: false }));
}

#[test]
fn icmp_alert_needs_more_than_ten_unreachables() {
    let key = IcmpKey {
        src: Ipv4Address::new(10, 0, 0, 5),
        dst: Ipv4Address::new(10, 0, 0, 1),
        message_type: 3,
    };
    let mut stats: Registry<IcmpKey, IcmpEntry> = Registry::new();
    stats.insert(key, IcmpEntry { count: 9, notified: false });
    assert_eq!(record(&mut stats, key), None);
    assert_eq!(stats.get(&key), Some(IcmpEntry { count: 10, notified: false }));
    assert_eq!(record(&mut stats, key), Some(Alert::UdpScan { key }));
    assert_eq!(stats.get(&key), Some(IcmpEntry { count: 11, notified: true }));
    assert_eq!(record(&mut stats, key), None);
    assert_eq!(stats.get(&key), Some(IcmpEntry { count: 12, notified: true }));
}

#[test]
fn icmp_counter_has_room_below_its_limit() {
    let key = IcmpKey {
        src: Ipv4Address::new(10, 0, 0, 5),
        dst: Ipv4Address::new(10, 0, 0, 1),
        message_type: 3,
    };
    let mut stats: Registry<IcmpKey, IcmpEntry> = Registry::new();
    assert!(room_for(&stats, &key));
    stats.insert(key, IcmpEntry { count: u64::MAX - 1, notified: true });
    assert!(room_for(&stats, &key));
    assert_eq!(record(&mut stats, key), None);
    assert_eq!(stats.get(&key), Some(IcmpEntry { count: u64::MAX, notified: true }));
    assert!(!room_for(&stats, &key));
    let other = IcmpKey { message_type: 4, ..key };
    assert!(room_for(&stats, &other));
}

#[test]
fn login_entry_appears_with_the_first_credential() {
    let mut logins: Registry<FlowIdentity, FtpLogin> = Registry::new();
    let f = flow(5, 40000, 1, 21);
    note_credentials(&mut logins, f, false, false);
    assert_eq!(logins.get(&f), None);
    assert_eq!(logins.len(), 0);
    note_credentials(&mut logins, f, false, true);
    assert_eq!(
        logins.get(&f),
        Some(FtpLogin { anon_user_seen: false, anon_pass_seen: true, notified: false })
    );
    note_credentials(&mut logins, f, false, false);
    assert_eq!(
        logins.get(&f),
        Some(FtpLogin { anon_user_seen: false, anon_pass_seen: true, notified: false })
    );
    note_credentials(&mut logins, f, true, false);
    assert_eq!(
        logins.get(&f),
        Some(FtpLogin { anon_user_seen: true, anon_pass_seen: true, notified: false })
    );
}

#[test]
fn login_sweep_reports_complete_logins_once() {
    let mut logins: Registry<FlowIdentity, FtpLogin> = Registry::new();
    let complete = flow(5, 40000, 1, 21);
    let half = flow(6, 40000, 1, 21);
    let reported = flow(7, 40000, 1, 21);
    logins.insert(complete, FtpLogin { anon_user_seen: true, anon_pass_seen: true, notified: false });
    logins.insert(half, FtpLogin { anon_user_seen: true, anon_pass_seen: false, notified: false });
    logins.insert(reported, FtpLogin { anon_user_seen: true, anon_pass_seen: true, notified: true });
    let alerts = netwatch::ftp::sweep(&mut logins);
    assert_eq!(alerts, vec![Alert::FtpAnonymousLogin { flow: complete }]);
    assert_eq!(
        logins.get(&complete),
        Some(FtpLogin { anon_user_seen: true, anon_pass_seen: true, notified: true })
    );
    assert_eq!(
        logins.get(&half),
        Some(FtpLogin { anon_user_seen: true, anon_pass_seen: false, notified: false })
    );
    assert!(netwatch::ftp::sweep(&mut logins).is_empty());
}
