use nscan::addr::{Ipv4, MacAddr};
use nscan::discovery::{
    scan_hosts, Action, CandidateSource, Discovery, DiscoveryConfig, DiscoveryError, Event, Stage,
};
use nscan::frame::{ArpFrame, ArpPacket};
use nscan::iface::NetworkInterface;
use nscan::report::VendorInfo;

fn own_mac() -> MacAddr {
    MacAddr::new(0x02, 0x00, 0x00, 0x00, 0x00, 0x0a)
}

fn interface() -> NetworkInterface {
    NetworkInterface {
        index: 2,
        name: "eth0".to_string(),
        hardware_address: own_mac(),
        ipv4: vec![Ipv4::new(192, 168, 1, 10)],
    }
}

fn config(deadline_ms: Option<u64>) -> DiscoveryConfig {
    DiscoveryConfig {
        interface_name: None,
        source: CandidateSource::InterfaceBlock { prefix: 24 },
        probe_timeout_ms: 1000,
        arp_attempts: 2,
        arp_timeout_ms: 500,
        deadline_ms,
    }
}

fn environment() -> Event {
    Event::Environment {
        privileged: true,
        interfaces: vec![interface()],
        default_route_addr: Some(Ipv4::new(192, 168, 1, 10)),
    }
}

fn reply_from(mac: MacAddr, ip: Ipv4) -> Vec<u8> {
    let frame = ArpFrame {
        destination: own_mac(),
        source: mac,
        ethertype: 0x0806,
        arp: ArpPacket {
            hardware_type: 1,
            protocol_type: 0x0800,
            hw_addr_len: 6,
            proto_addr_len: 4,
            operation: 2,
            sender_hw_addr: mac,
            sender_proto_addr: ip,
            target_hw_addr: own_mac(),
            target_proto_addr: Ipv4::new(192, 168, 1, 10),
        },
    };
    let mut bytes = frame.encode();
    bytes.resize(60, 0);
    bytes
}

fn is_send(action: &Action) -> bool {
    matches!(action, Action::SendFrame(_))
}

fn is_receive(action: &Action, timeout: u64) -> bool {
    matches!(action, Action::ReceiveFrame { timeout_ms } if *timeout_ms == timeout)
}

#[test]
fn scenario_three_live_hosts_one_silent() {
    let gateway_mac = MacAddr::new(0xaa, 0xbb, 0xcc, 0x00, 0x00, 0x01);
    let mut run = Discovery::new(config(None));
    assert_eq!(run.stage(), Stage::SelectingInterface);
    assert!(matches!(run.action(), Action::SelectInterface { name: None }));

    let action = run.step(environment(), 0);
    assert!(matches!(action, Action::Enumerate));
    assert_eq!(run.stage(), Stage::EnumeratingCandidates);

    let action = run.step(Event::Continue, 1);
    assert_eq!(run.stage(), Stage::ProbingLiveness);
    match action {
        Action::Probe { candidates, timeout_ms } => {
            assert_eq!(timeout_ms, 1000);
            assert_eq!(candidates.len(), 254);
            assert_eq!(candidates[0], Ipv4::new(192, 168, 1, 1));
            assert_eq!(candidates[253], Ipv4::new(192, 168, 1, 254));
            assert!(!candidates.contains(&Ipv4::new(192, 168, 1, 0)));
            assert!(!candidates.contains(&Ipv4::new(192, 168, 1, 255)));
        }
        other => panic!("expected a probe, got {:?}", other),
    }

    let up = vec![Ipv4::new(192, 168, 1, 50), Ipv4::new(192, 168, 1, 1), Ipv4::new(192, 168, 1, 10)];
    let action = run.step(Event::ProbeFinished { up }, 10);
    assert_eq!(run.stage(), Stage::ResolvingHardwareAddresses);
    assert_eq!(
        run.live_hosts(),
        vec![Ipv4::new(192, 168, 1, 1), Ipv4::new(192, 168, 1, 10), Ipv4::new(192, 168, 1, 50)]
    );
    match action {
        Action::SendFrame(bytes) => {
            let asked = ArpFrame::decode(&bytes).unwrap();
            assert_eq!(asked.arp.target_proto_addr, Ipv4::new(192, 168, 1, 1));
            assert_eq!(asked.arp.sender_hw_addr, own_mac());
        }
        other => panic!("expected a frame to send, got {:?}", other),
    }

    let action = run.step(Event::FrameSent, 11);
    assert!(is_receive(&action, 500));
    let action =
        run.step(Event::FrameReceived(reply_from(gateway_mac, Ipv4::new(192, 168, 1, 1))), 12);
    // The interface's own address is bound without a frame: the next frame
    // asks for the third host.
    match action {
        Action::SendFrame(bytes) => {
            let asked = ArpFrame::decode(&bytes).unwrap();
            assert_eq!(asked.arp.target_proto_addr, Ipv4::new(192, 168, 1, 50));
        }
        other => panic!("expected a frame to send, got {:?}", other),
    }
    assert_eq!(run.report().len(), 2);

    let action = run.step(Event::FrameSent, 13);
    assert!(is_receive(&action, 500));
    let action = run.step(Event::ReceiveTimedOut, 513);
    assert!(is_receive(&action, 500));
    let action = run.step(Event::ReceiveTimedOut, 1013);
    assert_eq!(run.stage(), Stage::LookingUpVendors);
    assert!(matches!(action, Action::LookupVendor { mac } if mac == gateway_mac));

    let vendor = VendorInfo {
        short_name: "Acme".to_string(),
        detailed_name: Some("Acme Networks Inc.".to_string()),
    };
    let action = run.step(Event::Vendor(Some(vendor)), 1014);
    assert!(matches!(action, Action::LookupVendor { mac } if mac == own_mac()));
    let action = run.step(Event::Vendor(None), 1015);
    assert!(matches!(action, Action::Finished));
    assert!(run.is_done());
    assert_eq!(run.failure(), None);

    let report = run.report();
    assert_eq!(report.len(), 3);
    let first = report.get(0);
    assert_eq!(first.ip_address, Ipv4::new(192, 168, 1, 1));
    assert_eq!(first.mac_address, gateway_mac);
    assert!(first.resolved);
    assert_eq!(first.vendor_name, Some("Acme Networks Inc.".to_string()));
    let second = report.get(1);
    assert_eq!(second.ip_address, Ipv4::new(192, 168, 1, 10));
    assert_eq!(second.mac_address, own_mac());
    assert!(second.resolved);
    assert_eq!(second.vendor_name, None);
    let third = report.get(2);
    assert_eq!(third.ip_address, Ipv4::new(192, 168, 1, 50));
    assert_eq!(third.mac_address, MacAddr::zero());
    assert!(!third.resolved);
    assert_eq!(third.vendor_name, None);

    let lines = report.render(run.own_address());
    assert_eq!(
        lines,
        vec![
            "192.168.1.1 aa:bb:cc:00:00:01 Acme Networks Inc.".to_string(),
            "192.168.1.10 02:00:00:00:00:0a Own device".to_string(),
            "192.168.1.50 00:00:00:00:00:00 Unknown".to_string(),
        ]
    );
    assert_eq!(report.summary(), "3 host online".to_string());
}

#[test]
fn scenario_deadline_expires_before_the_last_host() {
    let gateway_mac = MacAddr::new(0xaa, 0xbb, 0xcc, 0x00, 0x00, 0x01);
    let mut run = Discovery::new(config(Some(100)));
    run.step(environment(), 0);
    run.step(Event::Continue, 1);
    let up = vec![Ipv4::new(192, 168, 1, 1), Ipv4::new(192, 168, 1, 10), Ipv4::new(192, 168, 1, 50)];
    let action = run.step(Event::ProbeFinished { up }, 10);
    assert!(is_send(&action));
    let action = run.step(Event::FrameSent, 11);
    assert!(is_receive(&action, 500));
    // The answer for the first host arrives after the deadline: it counts,
    // the own address is bound without asking, and the third host is not
    // asked for any more.
    let action =
        run.step(Event::FrameReceived(reply_from(gateway_mac, Ipv4::new(192, 168, 1, 1))), 150);
    assert!(matches!(action, Action::Finished));
    assert!(run.is_done());
    let report = run.report();
    assert_eq!(report.len(), 3);
    assert!(report.get(0).resolved);
    assert_eq!(report.get(0).mac_address, gateway_mac);
    assert!(report.get(1).resolved);
    assert_eq!(report.get(1).mac_address, own_mac());
    assert_eq!(report.get(2).ip_address, Ipv4::new(192, 168, 1, 50));
    assert!(!report.get(2).resolved);
    assert_eq!(report.get(2).mac_address, MacAddr::zero());
    assert_eq!(report.get(0).vendor_name, None);
}

#[test]
fn echo_of_the_own_request_is_passed_over() {
    let other = MacAddr::new(0xde, 0xad, 0xbe, 0xef, 0x00, 0x02);
    let mut run = scan_hosts(&interface(), vec![Ipv4::new(192, 168, 1, 7)]);
    assert_eq!(run.stage(), Stage::ProbingLiveness);
    let action = run.step(Event::ProbeFinished { up: vec![Ipv4::new(192, 168, 1, 7)] }, 0);
    let request = match action {
        Action::SendFrame(bytes) => bytes,
        other => panic!("expected a frame to send, got {:?}", other),
    };
    run.step(Event::FrameSent, 0);
    // The channel hands the request back first, then the answer.
    let action = run.step(Event::FrameReceived(request), 1);
    assert!(is_receive(&action, 1000));
    let action = run.step(Event::FrameReceived(reply_from(other, Ipv4::new(192, 168, 1, 7))), 2);
    assert!(matches!(action, Action::LookupVendor { mac } if mac == other));
}

#[test]
fn short_frame_counts_as_a_missed_read() {
    let mut run = scan_hosts(&interface(), vec![Ipv4::new(192, 168, 1, 7)]);
    run.step(Event::ProbeFinished { up: vec![Ipv4::new(192, 168, 1, 7)] }, 0);
    run.step(Event::FrameSent, 0);
    let action = run.step(Event::FrameReceived(vec![0u8; 41]), 1);
    assert!(is_receive(&action, 1000));
    let action = run.step(Event::FrameReceived(vec![]), 2);
    assert!(matches!(action, Action::Finished));
    let report = run.report();
    assert_eq!(report.len(), 1);
    assert!(!report.get(0).resolved);
}

#[test]
fn hosts_that_are_no_candidates_never_reach_the_report() {
    let mut run = scan_hosts(&interface(), vec![Ipv4::new(10, 0, 0, 2), Ipv4::new(10, 0, 0, 1)]);
    let up = vec![Ipv4::new(10, 0, 0, 9), Ipv4::new(10, 0, 0, 2), Ipv4::new(10, 0, 0, 2)];
    run.step(Event::ProbeFinished { up }, 0);
    assert_eq!(run.live_hosts(), vec![Ipv4::new(10, 0, 0, 2)]);
}

#[test]
fn fatal_errors_end_the_run() {
    let mut run = Discovery::new(config(None));
    let action = run.step(
        Event::Environment { privileged: false, interfaces: vec![interface()], default_route_addr: None },
        0,
    );
    assert!(matches!(action, Action::Aborted(DiscoveryError::InsufficientPrivilege)));

    let mut run = Discovery::new(config(None));
    let action = run.step(
        Event::Environment { privileged: true, interfaces: vec![interface()], default_route_addr: None },
        0,
    );
    assert!(matches!(action, Action::Aborted(DiscoveryError::NoDefaultInterface)));
    assert_eq!(run.failure(), Some(DiscoveryError::NoDefaultInterface));

    let mut named = config(None);
    named.interface_name = Some("wlan0".to_string());
    let mut run = Discovery::new(named);
    let action = run.step(environment(), 0);
    assert!(matches!(action, Action::Aborted(DiscoveryError::InterfaceNotFound)));

    let mut named = config(None);
    named.interface_name = Some("lo".to_string());
    let mut run = Discovery::new(named);
    let bare = NetworkInterface {
        index: 1,
        name: "lo".to_string(),
        hardware_address: MacAddr::zero(),
        ipv4: vec![],
    };
    let action = run.step(
        Event::Environment { privileged: true, interfaces: vec![bare], default_route_addr: None },
        0,
    );
    assert!(matches!(action, Action::Aborted(DiscoveryError::NoIPv4Address)));

    let mut run = Discovery::new(config(None));
    run.step(environment(), 0);
    run.step(Event::Continue, 0);
    let action = run.step(Event::ProbeEngineUnavailable, 0);
    assert!(matches!(action, Action::Aborted(DiscoveryError::ProbeEngineUnavailable)));
    assert_eq!(run.report().len(), 0);
}

#[test]
fn event_that_answers_nothing_changes_nothing() {
    let mut run = Discovery::new(config(None));
    let action = run.step(Event::FrameSent, 0);
    assert!(matches!(action, Action::SelectInterface { name: None }));
    assert_eq!(run.stage(), Stage::SelectingInterface);
}
