use nscan::addr::{Ipv4, MacAddr};
use nscan::arp::{ArpAction, ArpBinding, ArpEvent, ArpPhase, ArpResolver, DEFAULT_ARP_ATTEMPTS};
use nscan::frame::{encode_arp_request, ArpFrame, ArpPacket};
use nscan::iface::NetworkInterface;

fn own_mac() -> MacAddr {
    MacAddr::new(0x02, 0, 0, 0, 0, 0x0a)
}

fn interface() -> NetworkInterface {
    NetworkInterface {
        index: 1,
        name: "en0".to_string(),
        hardware_address: own_mac(),
        ipv4: vec![Ipv4::new(192, 168, 1, 10), Ipv4::new(10, 0, 0, 1)],
    }
}

fn frame_from(sender: MacAddr) -> Vec<u8> {
    ArpFrame {
        destination: own_mac(),
        source: sender,
        ethertype: 0x0806,
        arp: ArpPacket {
            hardware_type: 1,
            protocol_type: 0x0800,
            hw_addr_len: 6,
            proto_addr_len: 4,
            operation: 2,
            sender_hw_addr: sender,
            sender_proto_addr: Ipv4::new(192, 168, 1, 1),
            target_hw_addr: own_mac(),
            target_proto_addr: Ipv4::new(192, 168, 1, 10),
        },
    }
    .encode()
}

#[test]
fn own_address_is_answered_without_a_frame() {
    let mut r = ArpResolver::start(&interface(), Ipv4::new(192, 168, 1, 10), DEFAULT_ARP_ATTEMPTS, 500);
    assert!(r.is_finished());
    let expected = ArpBinding { ip_address: Ipv4::new(192, 168, 1, 10), mac_address: own_mac(), resolved: true };
    assert_eq!(r.outcome(), Some(expected));
    assert!(matches!(r.action(), ArpAction::Done(b) if b == expected));
    // Whatever it is told afterwards, it asks for nothing.
    assert!(matches!(r.on_event(&ArpEvent::Sent), ArpAction::Done(b) if b == expected));
    assert!(matches!(r.on_event(&ArpEvent::TimedOut), ArpAction::Done(b) if b == expected));
    assert_eq!(r.reads_done, 0);
}

#[test]
fn second_address_of_the_interface_is_asked_for() {
    let r = ArpResolver::start(&interface(), Ipv4::new(10, 0, 0, 1), 2, 500);
    assert!(!r.is_finished());
    assert_eq!(r.outcome(), None);
}

#[test]
fn silent_host_is_unresolved_after_exactly_the_attempts() {
    for attempts in [1u32, 2, 5] {
        let target = Ipv4::new(192, 168, 1, 50);
        let mut r = ArpResolver::start(&interface(), target, attempts, 300);
        match r.action() {
            ArpAction::Send(bytes) => {
                assert_eq!(bytes, encode_arp_request(own_mac(), Ipv4::new(192, 168, 1, 10), target));
            }
            other => panic!("expected a frame to send, got {:?}", other),
        }
        let mut action = r.on_event(&ArpEvent::Sent);
        let mut waited: u64 = 0;
        for _ in 0..attempts {
            match action {
                ArpAction::Receive { timeout_ms } => {
                    assert_eq!(timeout_ms, 300);
                    waited += timeout_ms;
                }
                other => panic!("expected a read, got {:?}", other),
            }
            action = r.on_event(&ArpEvent::TimedOut);
        }
        let expected = ArpBinding { ip_address: target, mac_address: MacAddr::zero(), resolved: false };
        assert!(matches!(action, ArpAction::Done(b) if b == expected));
        assert_eq!(waited, attempts as u64 * 300);
        assert_eq!(r.reads_done, attempts);
        assert_eq!(r.phase, ArpPhase::Finished);
    }
}

#[test]
fn no_attempts_means_no_read() {
    let mut r = ArpResolver::start(&interface(), Ipv4::new(192, 168, 1, 50), 0, 300);
    assert!(matches!(r.action(), ArpAction::Send(_)));
    let action = r.on_event(&ArpEvent::Sent);
    assert!(matches!(action, ArpAction::Done(b) if !b.resolved && b.mac_address == MacAddr::zero()));
}

#[test]
fn failed_send_gives_up() {
    let mut r = ArpResolver::start(&interface(), Ipv4::new(192, 168, 1, 50), 2, 300);
    let action = r.on_event(&ArpEvent::SendFailed);
    assert!(matches!(action, ArpAction::Done(b) if !b.resolved));
}

#[test]
fn first_frame_from_another_station_is_the_answer() {
    let first = MacAddr::new(0xaa, 0xbb, 0xcc, 0, 0, 1);
    let second = MacAddr::new(0xaa, 0xbb, 0xcc, 0, 0, 2);
    let target = Ipv4::new(192, 168, 1, 1);
    let mut r = ArpResolver::start(&interface(), target, 3, 300);
    r.on_event(&ArpEvent::Sent);
    let action = r.on_event(&ArpEvent::Frame(frame_from(own_mac())));
    assert!(matches!(action, ArpAction::Receive { timeout_ms: 300 }));
    let action = r.on_event(&ArpEvent::Frame(frame_from(first)));
    let expected = ArpBinding { ip_address: target, mac_address: first, resolved: true };
    assert!(matches!(action, ArpAction::Done(b) if b == expected));
    let action = r.on_event(&ArpEvent::Frame(frame_from(second)));
    assert!(matches!(action, ArpAction::Done(b) if b == expected));
    assert_eq!(r.reads_done, 2);
}

#[test]
fn bindings() {
    let ip = Ipv4::new(1, 2, 3, 4);
    assert_eq!(ArpBinding::unresolved(ip), ArpBinding { ip_address: ip, mac_address: MacAddr::zero(), resolved: false });
    assert_eq!(
        ArpBinding::resolved(ip, MacAddr::broadcast()),
        ArpBinding { ip_address: ip, mac_address: MacAddr::new(255, 255, 255, 255, 255, 255), resolved: true }
    );
}

fn frame_with(ethertype: u16, operation: u16, sender: MacAddr) -> Vec<u8> {
    ArpFrame {
        destination: own_mac(),
        source: sender,
        ethertype,
        arp: ArpPacket {
            hardware_type: 1,
            protocol_type: 0x0800,
            hw_addr_len: 6,
            proto_addr_len: 4,
            operation,
            sender_hw_addr: sender,
            sender_proto_addr: Ipv4::new(192, 168, 1, 1),
            target_hw_addr: own_mac(),
            target_proto_addr: Ipv4::new(192, 168, 1, 10),
        },
    }
    .encode()
}

#[test]
fn request_of_another_station_uses_up_a_read() {
    let other = MacAddr::new(0xaa, 0xbb, 0xcc, 0, 0, 1);
    let mut r = ArpResolver::start(&interface(), Ipv4::new(192, 168, 1, 1), 2, 500);
    r.on_event(&ArpEvent::Sent);
    let a = r.on_event(&ArpEvent::Frame(frame_with(0x0806, 1, other)));
    assert!(matches!(a, ArpAction::Receive { timeout_ms: 500 }));
    assert_eq!(r.reads_done, 1);
    let a = r.on_event(&ArpEvent::Frame(frame_with(0x0806, 2, other)));
    let expected = ArpBinding { ip_address: Ipv4::new(192, 168, 1, 1), mac_address: other, resolved: true };
    assert!(matches!(a, ArpAction::Done(b) if b == expected));
}

#[test]
fn frame_of_another_protocol_uses_up_a_read() {
    let other = MacAddr::new(0xaa, 0xbb, 0xcc, 0, 0, 1);
    let mut r = ArpResolver::start(&interface(), Ipv4::new(192, 168, 1, 1), 2, 500);
    r.on_event(&ArpEvent::Sent);
    r.on_event(&ArpEvent::Frame(frame_with(0x0800, 2, other)));
    assert_eq!(r.reads_done, 1);
    let a = r.on_event(&ArpEvent::Frame(frame_with(0x86dd, 2, other)));
    let expected = ArpBinding::unresolved(Ipv4::new(192, 168, 1, 1));
    assert!(matches!(a, ArpAction::Done(b) if b == expected));
    assert_eq!(r.reads_done, 2);
}

#[test]
fn reply_is_told_from_other_frames() {
    let decoded = ArpFrame::decode(&frame_from(own_mac())).unwrap();
    assert!(decoded.is_reply());
    let request = ArpFrame::request(own_mac(), Ipv4::new(192, 168, 1, 10), Ipv4::new(192, 168, 1, 1));
    assert!(!request.is_reply());
}
