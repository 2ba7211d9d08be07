//! ARP over Ethernet as bytes: the 14-byte Ethernet header followed by the
//! 28-byte ARP packet for IPv4 over Ethernet, all multi-byte numbers with the
//! most significant byte first.

use crate::addr::{Ipv4, MacAddr};
use vstd::prelude::*;
use vstd::slice::slice_index_get;

verus! {

/// EtherType of ARP.
pub const ETHERTYPE_ARP: u16 = 0x0806;

/// EtherType of IPv4, which ARP names as the protocol it resolves for.
pub const ETHERTYPE_IPV4: u16 = 0x0800;

/// ARP hardware type of Ethernet.
pub const HARDWARE_ETHERNET: u16 = 1;

/// ARP operation: request.
pub const OPERATION_REQUEST: u16 = 1;

/// ARP operation: reply.
pub const OPERATION_REPLY: u16 = 2;

/// Length of a hardware address in bytes.
pub const HW_ADDR_LEN: u8 = 6;

/// Length of an IPv4 address in bytes.
pub const PROTO_ADDR_LEN: u8 = 4;

/// Length of the Ethernet header in bytes.
pub const ETHERNET_HEADER_LEN: usize = 14;

/// Length of an ARP packet for IPv4 over Ethernet in bytes.
pub const ARP_PACKET_LEN: usize = 28;

/// Length of an Ethernet frame that carries one ARP packet and no padding.
pub const ARP_FRAME_LEN: usize = 42;

/// The fields of an ARP packet for IPv4 over Ethernet.
#[derive(Clone, Copy, Debug, PartialEq, Eq, Structural)]
pub struct ArpPacket {
    pub hardware_type: u16,
    pub protocol_type: u16,
    pub hw_addr_len: u8,
    pub proto_addr_len: u8,
    pub operation: u16,
    pub sender_hw_addr: MacAddr,
    pub sender_proto_addr: Ipv4,
    pub target_hw_addr: MacAddr,
    pub target_proto_addr: Ipv4,
}

/// An Ethernet frame whose payload is an ARP packet.
#[derive(Clone, Copy, Debug, PartialEq, Eq, Structural)]
pub struct ArpFrame {
    pub destination: MacAddr,
    pub source: MacAddr,
    pub ethertype: u16,
    pub arp: ArpPacket,
}

/// The two bytes of a 16-bit number, most significant first.
pub open spec fn be16_bytes(v: u16) -> Seq<u8> {
    seq![(v / 0x100) as u8, (v % 0x100) as u8]
}

/// The four octets of an address, first one first.
pub open spec fn ipv4_bytes(a: Ipv4) -> Seq<u8> {
    seq![a.octet(0) as u8, a.octet(1) as u8, a.octet(2) as u8, a.octet(3) as u8]
}

/// The 28 bytes of an ARP packet.
pub open spec fn arp_bytes(p: ArpPacket) -> Seq<u8> {
    be16_bytes(p.hardware_type) + be16_bytes(p.protocol_type) + seq![
        p.hw_addr_len,
        p.proto_addr_len,
    ] + be16_bytes(p.operation) + p.sender_hw_addr.bytes() + ipv4_bytes(p.sender_proto_addr)
        + p.target_hw_addr.bytes() + ipv4_bytes(p.target_proto_addr)
}

/// The 42 bytes of a frame: destination, source, EtherType, ARP packet.
pub open spec fn frame_bytes(f: ArpFrame) -> Seq<u8> {
    f.destination.bytes() + f.source.bytes() + be16_bytes(f.ethertype) + arp_bytes(f.arp)
}

/// The 16-bit number written at `b[at..at + 2]`.
pub open spec fn be16_at(b: Seq<u8>, at: int) -> u16 {
    (b[at] as int * 0x100 + b[at + 1] as int) as u16
}

/// The hardware address written at `b[at..at + 6]`.
pub open spec fn mac_at(b: Seq<u8>, at: int) -> MacAddr {
    MacAddr(b[at], b[at + 1], b[at + 2], b[at + 3], b[at + 4], b[at + 5])
}

/// The IPv4 address written at `b[at..at + 4]`.
pub open spec fn ipv4_at(b: Seq<u8>, at: int) -> Ipv4 {
    Ipv4 { bits: Ipv4::value_of(b[at], b[at + 1], b[at + 2], b[at + 3]) as u32 }
}

/// The ARP packet written at `b[at..at + 28]`.
pub open spec fn arp_at(b: Seq<u8>, at: int) -> ArpPacket {
    ArpPacket {
        hardware_type: be16_at(b, at),
        protocol_type: be16_at(b, at + 2),
        hw_addr_len: b[at + 4],
        proto_addr_len: b[at + 5],
        operation: be16_at(b, at + 6),
        sender_hw_addr: mac_at(b, at + 8),
        sender_proto_addr: ipv4_at(b, at + 14),
        target_hw_addr: mac_at(b, at + 18),
        target_proto_addr: ipv4_at(b, at + 24),
    }
}

/// What a received frame says when it is read as ARP over Ethernet: nothing
/// where it is shorter than 42 bytes, else the fields at their fixed places.
/// Bytes after the 42nd are padding and are not looked at. No field is held
/// against an expected value.
pub open spec fn frame_of_bytes(b: Seq<u8>) -> Option<ArpFrame> {
    if b.len() < 42 {
        None
    } else {
        Some(
            ArpFrame {
                destination: mac_at(b, 0),
                source: mac_at(b, 6),
                ethertype: be16_at(b, 12),
                arp: arp_at(b, 14),
            },
        )
    }
}

/// The frame that asks the whole segment who has `target_ip`, sent by the
/// station with the given hardware and IPv4 address.
pub open spec fn request_frame(source_mac: MacAddr, source_ip: Ipv4, target_ip: Ipv4)
    -> ArpFrame {
    ArpFrame {
        destination: MacAddr::spec_broadcast(),
        source: source_mac,
        ethertype: ETHERTYPE_ARP,
        arp: ArpPacket {
            hardware_type: HARDWARE_ETHERNET,
            protocol_type: ETHERTYPE_IPV4,
            hw_addr_len: HW_ADDR_LEN,
            proto_addr_len: PROTO_ADDR_LEN,
            operation: OPERATION_REQUEST,
            sender_hw_addr: source_mac,
            sender_proto_addr: source_ip,
            target_hw_addr: MacAddr::spec_zero(),
            target_proto_addr: target_ip,
        },
    }
}

/// The byte at each place of an encoded frame.
pub proof fn lemma_frame_layout(f: ArpFrame)
    ensures
        frame_bytes(f).len() == 42,
        mac_at(frame_bytes(f), 0) == f.destination,
        mac_at(frame_bytes(f), 6) == f.source,
        frame_bytes(f).subrange(12, 14) == be16_bytes(f.ethertype),
        frame_bytes(f).subrange(14, 16) == be16_bytes(f.arp.hardware_type),
        frame_bytes(f).subrange(16, 18) == be16_bytes(f.arp.protocol_type),
        frame_bytes(f)[18] == f.arp.hw_addr_len,
        frame_bytes(f)[19] == f.arp.proto_addr_len,
        frame_bytes(f).subrange(20, 22) == be16_bytes(f.arp.operation),
        mac_at(frame_bytes(f), 22) == f.arp.sender_hw_addr,
        frame_bytes(f).subrange(28, 32) == ipv4_bytes(f.arp.sender_proto_addr),
        mac_at(frame_bytes(f), 32) == f.arp.target_hw_addr,
        frame_bytes(f).subrange(38, 42) == ipv4_bytes(f.arp.target_proto_addr),
{
    let b = frame_bytes(f);
    let p = f.arp;
    let a = arp_bytes(p);
    assert(a.len() == 28);
    assert(b.len() == 42);
    assert(forall|i: int| 0 <= i < 28 ==> b[14 + i] == a[i]);
    assert(b.subrange(12, 14) =~= be16_bytes(f.ethertype));
    assert(b.subrange(14, 16) =~= be16_bytes(p.hardware_type));
    assert(b.subrange(16, 18) =~= be16_bytes(p.protocol_type));
    assert(b.subrange(20, 22) =~= be16_bytes(p.operation));
    assert(b.subrange(28, 32) =~= ipv4_bytes(p.sender_proto_addr));
    assert(b.subrange(38, 42) =~= ipv4_bytes(p.target_proto_addr));
}

/// A 16-bit number is read back from its two bytes.
pub proof fn lemma_be16_round_trip(b: Seq<u8>, at: int, v: u16)
    requires
        0 <= at,
        at + 2 <= b.len(),
        b.subrange(at, at + 2) == be16_bytes(v),
    ensures
        be16_at(b, at) == v,
{
    assert(b[at] == b.subrange(at, at + 2)[0]);
    assert(b[at + 1] == b.subrange(at, at + 2)[1]);
}

/// An address is read back from its four octets.
pub proof fn lemma_ipv4_round_trip(b: Seq<u8>, at: int, a: Ipv4)
    requires
        0 <= at,
        at + 4 <= b.len(),
        b.subrange(at, at + 4) == ipv4_bytes(a),
    ensures
        ipv4_at(b, at) == a,
{
    let s = b.subrange(at, at + 4);
    assert(b[at] == s[0]);
    assert(b[at + 1] == s[1]);
    assert(b[at + 2] == s[2]);
    assert(b[at + 3] == s[3]);
    let v: int = a.bits as int;
    assert(v == (v / 0x100_0000) * 0x100_0000 + ((v / 0x1_0000) % 0x100) * 0x1_0000 + ((v / 0x100)
        % 0x100) * 0x100 + v % 0x100);
}

/// Decoding the bytes of a frame gives the frame back, whatever padding
/// follows them.
pub proof fn lemma_decode_encode(f: ArpFrame, padding: Seq<u8>)
    ensures
        frame_of_bytes(frame_bytes(f) + padding) == Some(f),
        frame_of_bytes(frame_bytes(f)) == Some(f),
{
    let b = frame_bytes(f);
    let padded = b + padding;
    lemma_frame_layout(f);
    assert(padded.len() >= 42);
    assert(forall|i: int| 0 <= i < 42 ==> padded[i] == b[i]);
    assert(padded.subrange(12, 14) =~= b.subrange(12, 14));
    assert(padded.subrange(14, 16) =~= b.subrange(14, 16));
    assert(padded.subrange(16, 18) =~= b.subrange(16, 18));
    assert(padded.subrange(20, 22) =~= b.subrange(20, 22));
    assert(padded.subrange(28, 32) =~= b.subrange(28, 32));
    assert(padded.subrange(38, 42) =~= b.subrange(38, 42));
    lemma_be16_round_trip(padded, 12, f.ethertype);
    lemma_be16_round_trip(padded, 14, f.arp.hardware_type);
    lemma_be16_round_trip(padded, 16, f.arp.protocol_type);
    lemma_be16_round_trip(padded, 20, f.arp.operation);
    lemma_ipv4_round_trip(padded, 28, f.arp.sender_proto_addr);
    lemma_ipv4_round_trip(padded, 38, f.arp.target_proto_addr);
    assert(mac_at(padded, 0) == mac_at(b, 0));
    assert(mac_at(padded, 6) == mac_at(b, 6));
    assert(mac_at(padded, 22) == mac_at(b, 22));
    assert(mac_at(padded, 32) == mac_at(b, 32));
    assert(frame_of_bytes(padded) == Some(f));
    assert(b + Seq::<u8>::empty() =~= b);
    lemma_be16_round_trip(b, 12, f.ethertype);
    lemma_be16_round_trip(b, 14, f.arp.hardware_type);
    lemma_be16_round_trip(b, 16, f.arp.protocol_type);
    lemma_be16_round_trip(b, 20, f.arp.operation);
    lemma_ipv4_round_trip(b, 28, f.arp.sender_proto_addr);
    lemma_ipv4_round_trip(b, 38, f.arp.target_proto_addr);
}

/// A crafted request, once encoded and decoded, still names the same sender
/// and the same target.
pub proof fn lemma_request_round_trip(source_mac: MacAddr, source_ip: Ipv4, target_ip: Ipv4)
    ensures
        frame_of_bytes(frame_bytes(request_frame(source_mac, source_ip, target_ip))) == Some(
            request_frame(source_mac, source_ip, target_ip),
        ),
        frame_of_bytes(
            frame_bytes(request_frame(source_mac, source_ip, target_ip)),
        ).unwrap().arp.sender_hw_addr == source_mac,
        frame_of_bytes(
            frame_bytes(request_frame(source_mac, source_ip, target_ip)),
        ).unwrap().arp.sender_proto_addr == source_ip,
        frame_of_bytes(
            frame_bytes(request_frame(source_mac, source_ip, target_ip)),
        ).unwrap().arp.target_hw_addr == MacAddr::spec_zero(),
        frame_of_bytes(
            frame_bytes(request_frame(source_mac, source_ip, target_ip)),
        ).unwrap().arp.target_proto_addr == target_ip,
{
    lemma_decode_encode(request_frame(source_mac, source_ip, target_ip), Seq::empty());
}

fn push_be16(out: &mut Vec<u8>, v: u16)
    ensures
        final(out)@ == old(out)@ + be16_bytes(v),
{
    out.push((v / 0x100) as u8);
    out.push((v % 0x100) as u8);
    assert(out@ =~= old(out)@ + be16_bytes(v));
}

fn push_mac(out: &mut Vec<u8>, m: MacAddr)
    ensures
        final(out)@ == old(out)@ + m.bytes(),
{
    out.push(m.0);
    out.push(m.1);
    out.push(m.2);
    out.push(m.3);
    out.push(m.4);
    out.push(m.5);
    assert(out@ =~= old(out)@ + m.bytes());
}

fn push_ipv4(out: &mut Vec<u8>, a: Ipv4)
    ensures
        final(out)@ == old(out)@ + ipv4_bytes(a),
{
    let o = a.octets();
    out.push(o[0]);
    out.push(o[1]);
    out.push(o[2]);
    out.push(o[3]);
    assert(out@ =~= old(out)@ + ipv4_bytes(a));
}

fn read_be16(b: &[u8], at: usize) -> (v: u16)
    requires
        at + 2 <= b@.len(),
    ensures
        v == be16_at(b@, at as int),
{
    let n: usize = b.len();
    let hi: u16 = *slice_index_get(b, at) as u16;
    let lo: u16 = *slice_index_get(b, at + 1) as u16;
    hi * 0x100 + lo
}

fn read_mac(b: &[u8], at: usize) -> (m: MacAddr)
    requires
        at + 6 <= b@.len(),
    ensures
        m == mac_at(b@, at as int),
{
    let n: usize = b.len();
    MacAddr(
        *slice_index_get(b, at),
        *slice_index_get(b, at + 1),
        *slice_index_get(b, at + 2),
        *slice_index_get(b, at + 3),
        *slice_index_get(b, at + 4),
        *slice_index_get(b, at + 5),
    )
}

fn read_ipv4(b: &[u8], at: usize) -> (a: Ipv4)
    requires
        at + 4 <= b@.len(),
    ensures
        a == ipv4_at(b@, at as int),
{
    let n: usize = b.len();
    Ipv4::new(
        *slice_index_get(b, at),
        *slice_index_get(b, at + 1),
        *slice_index_get(b, at + 2),
        *slice_index_get(b, at + 3),
    )
}

impl ArpFrame {
    /// Whether the frame is an ARP reply for IPv4 over Ethernet: EtherType
    /// ARP, hardware type Ethernet, protocol type IPv4, addresses of 6 and 4
    /// bytes, operation reply.
    pub open spec fn spec_is_reply(&self) -> bool {
        &&& self.ethertype == ETHERTYPE_ARP
        &&& self.arp.hardware_type == HARDWARE_ETHERNET
        &&& self.arp.protocol_type == ETHERTYPE_IPV4
        &&& self.arp.hw_addr_len == HW_ADDR_LEN
        &&& self.arp.proto_addr_len == PROTO_ADDR_LEN
        &&& self.arp.operation == OPERATION_REPLY
    }

    /// Whether the frame is an ARP reply for IPv4 over Ethernet.
    #[verifier::when_used_as_spec(spec_is_reply)]
    pub fn is_reply(&self) -> (r: bool)
        ensures
            r == self.spec_is_reply(),
    {
        self.ethertype == ETHERTYPE_ARP && self.arp.hardware_type == HARDWARE_ETHERNET
            && self.arp.protocol_type == ETHERTYPE_IPV4 && self.arp.hw_addr_len == HW_ADDR_LEN
            && self.arp.proto_addr_len == PROTO_ADDR_LEN && self.arp.operation
            == OPERATION_REPLY
    }

    /// The broadcast request for the hardware address of `target_ip`:
    /// destination broadcast, source and sender the asking station, target
    /// hardware address zero.
    pub fn request(source_mac: MacAddr, source_ip: Ipv4, target_ip: Ipv4) -> (f: ArpFrame)
        ensures
            f == request_frame(source_mac, source_ip, target_ip),
    {
        ArpFrame {
            destination: MacAddr::broadcast(),
            source: source_mac,
            ethertype: ETHERTYPE_ARP,
            arp: ArpPacket {
                hardware_type: HARDWARE_ETHERNET,
                protocol_type: ETHERTYPE_IPV4,
                hw_addr_len: HW_ADDR_LEN,
                proto_addr_len: PROTO_ADDR_LEN,
                operation: OPERATION_REQUEST,
                sender_hw_addr: source_mac,
                sender_proto_addr: source_ip,
                target_hw_addr: MacAddr::zero(),
                target_proto_addr: target_ip,
            },
        }
    }

    /// The 42 bytes that go on the wire for this frame.
    pub fn encode(&self) -> (bytes: Vec<u8>)
        ensures
            bytes@ == frame_bytes(*self),
            bytes@.len() == 42,
            frame_of_bytes(bytes@) == Some(*self),
    {
        let mut out: Vec<u8> = Vec::new();
        push_mac(&mut out, self.destination);
        push_mac(&mut out, self.source);
        push_be16(&mut out, self.ethertype);
        push_be16(&mut out, self.arp.hardware_type);
        push_be16(&mut out, self.arp.protocol_type);
        out.push(self.arp.hw_addr_len);
        out.push(self.arp.proto_addr_len);
        push_be16(&mut out, self.arp.operation);
        push_mac(&mut out, self.arp.sender_hw_addr);
        push_ipv4(&mut out, self.arp.sender_proto_addr);
        push_mac(&mut out, self.arp.target_hw_addr);
        push_ipv4(&mut out, self.arp.target_proto_addr);
        proof {
            assert(out@ =~= frame_bytes(*self));
            lemma_frame_layout(*self);
            lemma_decode_encode(*self, Seq::empty());
        }
        out
    }

    /// Reads a received frame as ARP over Ethernet. A frame shorter than 42
    /// bytes holds no ARP packet; bytes after the 42nd are left unread.
    pub fn decode(bytes: &[u8]) -> (r: Option<ArpFrame>)
        ensures
            r == frame_of_bytes(bytes@),
            r.is_some() == (bytes@.len() >= 42),
    {
        if bytes.len() < ARP_FRAME_LEN {
            return None;
        }
        let arp = ArpPacket {
            hardware_type: read_be16(bytes, 14),
            protocol_type: read_be16(bytes, 16),
            hw_addr_len: *slice_index_get(bytes, 18),
            proto_addr_len: *slice_index_get(bytes, 19),
            operation: read_be16(bytes, 20),
            sender_hw_addr: read_mac(bytes, 22),
            sender_proto_addr: read_ipv4(bytes, 28),
            target_hw_addr: read_mac(bytes, 32),
            target_proto_addr: read_ipv4(bytes, 38),
        };
        Some(
            ArpFrame {
                destination: read_mac(bytes, 0),
                source: read_mac(bytes, 6),
                ethertype: read_be16(bytes, 12),
                arp,
            },
        )
    }
}

/// The bytes of the broadcast ARP request for `target_ip`.
pub fn encode_arp_request(source_mac: MacAddr, source_ip: Ipv4, target_ip: Ipv4) -> (bytes: Vec<
    u8,
>)
    ensures
        bytes@ == frame_bytes(request_frame(source_mac, source_ip, target_ip)),
        bytes@.len() == 42,
{
    ArpFrame::request(source_mac, source_ip, target_ip).encode()
}

} // verus!
