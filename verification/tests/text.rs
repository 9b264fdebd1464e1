use netwatch::alert::Alert;
use netwatch::identity::{FlowIdentity, HostPair, IcmpKey, Ipv4Address};
use netwatch::text::{append_address, append_decimal};

#[test]
fn decimal_of_small_and_large_numbers() {
    let mut text = String::new();
    append_decimal(&mut text, 0);
    assert_eq!(text, "0");
    let mut text = String::new();
    append_decimal(&mut text, 9);
    assert_eq!(text, "9");
    let mut text = String::new();
    append_decimal(&mut text, 10);
    assert_eq!(text, "10");
    let mut text = String::new();
    append_decimal(&mut text, 101);
    assert_eq!(text, "101");
    let mut text = String::new();
    append_decimal(&mut text, 65535);
    assert_eq!(text, "65535");
    let mut text = String::new();
    append_decimal(&mut text, u64::MAX);
    assert_eq!(text, "18446744073709551615");
}

#[test]
fn decimal_is_appended_to_what_is_there() {
    let mut text = String::from("count: ");
    append_decimal(&mut text, 1200);
    assert_eq!(text, "count: 1200");
}

#[test]
fn address_in_dotted_decimal() {
    let mut text = String::new();
    append_address(&mut text, &Ipv4Address::new(10, 0, 0, 5));
    assert_eq!(text, "10.0.0.5");
    let mut text = String::from("from ");
    append_address(&mut text, &Ipv4Address::new(255, 255, 255, 255));
    assert_eq!(text, "from 255.255.255.255");
    let mut text = String::new();
    append_address(&mut text, &Ipv4Address::new(0, 0, 0, 0));
    assert_eq!(text, "0.0.0.0");
}

#[test]
fn udp_scan_alert_line() {
    let alert = Alert::UdpScan {
        key: IcmpKey {
            src: Ipv4Address::new(10, 0, 0, 5),
            dst: Ipv4Address::new(10, 0, 0, 1),
            message_type: 3,
        },
    };
    assert_eq!(alert.message(), "Possible UDP scan detected: (10.0.0.5, 10.0.0.1, 3)");
}

#[test]
fn ftp_login_alert_line() {
    let alert = Alert::FtpAnonymousLogin {
        flow: FlowIdentity {
            src: Ipv4Address::new(192, 168, 1, 77),
            src_port: 50123,
            dst: Ipv4Address::new(192, 168, 1, 2),
            dst_port: 21,
        },
    };
    assert_eq!(alert.message(), "Ftp anonymous login: (192.168.1.77, 50123, 192.168.1.2, 21)");
}

#[test]
fn syn_scan_alert_line() {
    let alert = Alert::SynScan {
        pair: HostPair { src: Ipv4Address::new(10, 0, 0, 5), dst: Ipv4Address::new(10, 0, 0, 1) },
        count: 101,
    };
    assert_eq!(
        alert.message(),
        "Potentional SYN scan or SYN dos: (10.0.0.5, 10.0.0.1) packets: 101"
    );
}
