use nscan::addr::{Ipv4, MacAddr};
use nscan::frame::{encode_arp_request, ArpFrame};
use pnet::packet::arp::{ArpHardwareTypes, ArpOperations, ArpPacket, MutableArpPacket};
use pnet::packet::ethernet::{EtherTypes, EthernetPacket, MutableEthernetPacket};
use pnet::packet::{MutablePacket, Packet};

#[test]
fn request_frame_has_the_wire_layout() {
    let mac = MacAddr::new(0xaa, 0xbb, 0xcc, 0x00, 0x00, 0x0a);
    let bytes = encode_arp_request(mac, Ipv4::new(192, 168, 1, 10), Ipv4::new(192, 168, 1, 50));
    let expected: Vec<u8> = vec![
        0xff, 0xff, 0xff, 0xff, 0xff, 0xff, 0xaa, 0xbb, 0xcc, 0x00, 0x00, 0x0a, 0x08, 0x06, 0x00,
        0x01, 0x08, 0x00, 0x06, 0x04, 0x00, 0x01, 0xaa, 0xbb, 0xcc, 0x00, 0x00, 0x0a, 192, 168, 1,
        10, 0, 0, 0, 0, 0, 0, 192, 168, 1, 50,
    ];
    assert_eq!(bytes, expected);
}

#[test]
fn decode_gives_back_what_was_encoded() {
    let mac = MacAddr::new(1, 2, 3, 4, 5, 6);
    let frame = ArpFrame::request(mac, Ipv4::new(10, 0, 0, 1), Ipv4::new(10, 0, 0, 2));
    let bytes = frame.encode();
    assert_eq!(ArpFrame::decode(&bytes), Some(frame));
    assert_eq!(ArpFrame::decode(&bytes[..41]), None);
}

#[test]
fn round_trip_keeps_every_field() {
    let frame = ArpFrame {
        destination: MacAddr::new(0x10, 0x20, 0x30, 0x40, 0x50, 0x60),
        source: MacAddr::new(0xff, 0, 0xff, 0, 0xff, 0),
        ethertype: 0xabcd,
        arp: nscan::frame::ArpPacket {
            hardware_type: 0xfffe,
            protocol_type: 0x0102,
            hw_addr_len: 0xf0,
            proto_addr_len: 0x0f,
            operation: 0x8001,
            sender_hw_addr: MacAddr::new(1, 2, 3, 4, 5, 6),
            sender_proto_addr: Ipv4::from_bits(0xffff_ffff),
            target_hw_addr: MacAddr::new(6, 5, 4, 3, 2, 1),
            target_proto_addr: Ipv4::from_bits(0x8000_0001),
        },
    };
    let mut bytes = frame.encode();
    assert_eq!(bytes.len(), 42);
    assert_eq!(ArpFrame::decode(&bytes), Some(frame));
    bytes.extend_from_slice(&[7u8; 18]);
    assert_eq!(ArpFrame::decode(&bytes), Some(frame));
}

#[test]
fn request_agrees_with_pnet() {
    let source_mac = pnet::datalink::MacAddr::new(0xaa, 0xbb, 0xcc, 0x01, 0x02, 0x03);
    let source_ip: u32 = 0xc0a8_010a;
    let target_ip: u32 = 0xc0a8_0132;

    let mut ethernet_buffer = [0u8; 42];
    let mut ethernet_packet = MutableEthernetPacket::new(&mut ethernet_buffer).unwrap();
    ethernet_packet.set_destination(pnet::datalink::MacAddr::broadcast());
    ethernet_packet.set_source(source_mac);
    ethernet_packet.set_ethertype(EtherTypes::Arp);
    let mut arp_buffer = [0u8; 28];
    let mut arp_packet = MutableArpPacket::new(&mut arp_buffer).unwrap();
    arp_packet.set_hardware_type(ArpHardwareTypes::Ethernet);
    arp_packet.set_protocol_type(EtherTypes::Ipv4);
    arp_packet.set_hw_addr_len(6);
    arp_packet.set_proto_addr_len(4);
    arp_packet.set_operation(ArpOperations::Request);
    arp_packet.set_sender_hw_addr(source_mac);
    arp_packet.set_sender_proto_addr(source_ip.into());
    arp_packet.set_target_hw_addr(pnet::datalink::MacAddr::zero());
    arp_packet.set_target_proto_addr(target_ip.into());
    ethernet_packet.set_payload(arp_packet.packet_mut());
    let by_pnet: Vec<u8> = ethernet_packet.packet().to_vec();

    let ours = encode_arp_request(
        MacAddr::new(0xaa, 0xbb, 0xcc, 0x01, 0x02, 0x03),
        Ipv4::from_bits(source_ip),
        Ipv4::from_bits(target_ip),
    );
    assert_eq!(ours, by_pnet);

    let decoded = ArpFrame::decode(&by_pnet).unwrap();
    let ethernet = EthernetPacket::new(&by_pnet).unwrap();
    let arp = ArpPacket::new(&by_pnet[14..]).unwrap();
    assert_eq!(decoded.ethertype, ethernet.get_ethertype().0);
    assert_eq!(decoded.arp.operation, arp.get_operation().0);
    assert_eq!(decoded.arp.sender_proto_addr.bits, u32::from(arp.get_sender_proto_addr()));
    assert_eq!(decoded.arp.target_proto_addr.bits, u32::from(arp.get_target_proto_addr()));
    assert_eq!(decoded.arp.sender_hw_addr.to_text(), arp.get_sender_hw_addr().to_string());
    assert_eq!(decoded.arp.target_hw_addr.to_text(), arp.get_target_hw_addr().to_string());
}
