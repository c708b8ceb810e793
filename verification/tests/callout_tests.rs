use wfprust::callouts::common::{NetBufferList, PacketAction};
use wfprust::callouts::ipv4out::{
    inspect_ipv4_packet, outbound_ippacket_classify_v4, ClassifyOutcome, FixedValues,
};
use wfprust::callouts::transportv4out::{inspect_transport_packet, outbound_transport_classify_v4};
use wfprust::packet::{NetBuffer, Packet};

fn buffer(bytes: &[u8]) -> NetBuffer {
    NetBuffer { data_length: bytes.len() as u32, data: Some(bytes.to_vec()) }
}

fn ipv4_packet(protocol: u8) -> Vec<u8> {
    let mut p = vec![0u8; 20];
    p[0] = 0x45;
    p[9] = protocol;
    p
}

fn tcp_segment(data_offset_byte: u8, payload: &[u8]) -> Vec<u8> {
    let mut p = vec![0u8; 20];
    p[12] = data_offset_byte;
    p.extend_from_slice(payload);
    p
}

fn single(bytes: &[u8]) -> NetBufferList {
    NetBufferList { buffers: vec![buffer(bytes)], has_next: false }
}

fn values(v: &[u8]) -> FixedValues {
    FixedValues { incoming_value: Some(v.to_vec()) }
}

#[test]
fn ipv4_short_packet_is_allowed() {
    let p = Packet::new(&buffer(&[0x45; 19])).unwrap();
    assert_eq!(inspect_ipv4_packet(&p), PacketAction::Allow);
}

#[test]
fn ipv4_tcp_and_udp_are_allowed() {
    let p = Packet::new(&buffer(&ipv4_packet(6))).unwrap();
    assert_eq!(inspect_ipv4_packet(&p), PacketAction::Allow);
    let p = Packet::new(&buffer(&ipv4_packet(17))).unwrap();
    assert_eq!(inspect_ipv4_packet(&p), PacketAction::Allow);
}

#[test]
fn ipv4_other_protocol_is_logged() {
    let p = Packet::new(&buffer(&ipv4_packet(47))).unwrap();
    assert_eq!(inspect_ipv4_packet(&p), PacketAction::Log(47));
}

#[test]
fn ipv4_callout_logs_icmp() {
    let v = values(&[0]);
    let l = single(&ipv4_packet(1));
    assert_eq!(outbound_ippacket_classify_v4(Some(&v), Some(&l), true), ClassifyOutcome::LogIcmp);
}

#[test]
fn ipv4_callout_logs_other_protocol() {
    let v = values(&[0]);
    let l = single(&ipv4_packet(2));
    assert_eq!(outbound_ippacket_classify_v4(Some(&v), Some(&l), false), ClassifyOutcome::LogProtocol(2));
}

#[test]
fn ipv4_callout_leaves_tcp_unchanged() {
    let v = values(&[0]);
    let l = single(&ipv4_packet(6));
    assert_eq!(outbound_ippacket_classify_v4(Some(&v), Some(&l), true), ClassifyOutcome::Unchanged);
}

#[test]
fn ipv4_callout_needs_its_inputs() {
    let v = values(&[0]);
    let l = single(&ipv4_packet(1));
    assert_eq!(outbound_ippacket_classify_v4(None, Some(&l), true), ClassifyOutcome::Unchanged);
    let none = FixedValues { incoming_value: None };
    assert_eq!(outbound_ippacket_classify_v4(Some(&none), Some(&l), true), ClassifyOutcome::Unchanged);
    assert_eq!(outbound_ippacket_classify_v4(Some(&v), None, true), ClassifyOutcome::Unchanged);
}

const MAPS: &[u8] = b"GET /maps HTTP/1.1";

#[test]
fn transport_maps_request_is_blocked() {
    let p = Packet::new(&buffer(&tcp_segment(0x50, MAPS))).unwrap();
    assert_eq!(inspect_transport_packet(&p), PacketAction::Block);
}

#[test]
fn transport_other_request_is_allowed() {
    let p = Packet::new(&buffer(&tcp_segment(0x50, b"GET /mapz HTTP/1.1"))).unwrap();
    assert_eq!(inspect_transport_packet(&p), PacketAction::Allow);
}

#[test]
fn transport_longer_header_is_allowed() {
    let p = Packet::new(&buffer(&tcp_segment(0x60, MAPS))).unwrap();
    assert_eq!(inspect_transport_packet(&p), PacketAction::Allow);
    // the low bits of the offset byte are ignored
    let p = Packet::new(&buffer(&tcp_segment(0x5f, MAPS))).unwrap();
    assert_eq!(inspect_transport_packet(&p), PacketAction::Block);
}

#[test]
fn transport_short_segment_is_allowed() {
    let p = Packet::new(&buffer(&tcp_segment(0x50, b"GET /maps HTTP"))).unwrap();
    assert_eq!(p.get_size(), 34);
    assert_eq!(inspect_transport_packet(&p), PacketAction::Allow);
}

#[test]
fn transport_callout_blocks_maps_over_tcp() {
    let v = values(&[6]);
    let l = single(&tcp_segment(0x50, MAPS));
    assert_eq!(outbound_transport_classify_v4(Some(&v), Some(&l), true), ClassifyOutcome::Block);
    assert_eq!(outbound_transport_classify_v4(Some(&v), Some(&l), false), ClassifyOutcome::Unchanged);
}

#[test]
fn transport_callout_ignores_other_protocols() {
    let v = values(&[17]);
    let l = single(&tcp_segment(0x50, MAPS));
    assert_eq!(outbound_transport_classify_v4(Some(&v), Some(&l), true), ClassifyOutcome::Unchanged);
}

#[test]
fn transport_callout_needs_its_inputs() {
    let v = values(&[6]);
    let l = single(&tcp_segment(0x50, MAPS));
    assert_eq!(outbound_transport_classify_v4(None, Some(&l), true), ClassifyOutcome::Unchanged);
    let none = FixedValues { incoming_value: None };
    assert_eq!(outbound_transport_classify_v4(Some(&none), Some(&l), true), ClassifyOutcome::Unchanged);
    assert_eq!(outbound_transport_classify_v4(Some(&v), None, true), ClassifyOutcome::Unchanged);
}

#[test]
fn transport_block_in_any_segment_blocks() {
    let v = values(&[6]);
    let l = NetBufferList {
        buffers: vec![buffer(&tcp_segment(0x50, b"hello there world!")), buffer(&tcp_segment(0x50, MAPS))],
        has_next: false,
    };
    assert_eq!(outbound_transport_classify_v4(Some(&v), Some(&l), true), ClassifyOutcome::Block);
}

#[test]
fn ipv4_callout_never_blocks() {
    let v = values(&[0]);
    for protocol in 0..=255u8 {
        let l = single(&ipv4_packet(protocol));
        let outcome = outbound_ippacket_classify_v4(Some(&v), Some(&l), true);
        assert_ne!(outcome, ClassifyOutcome::Block);
        if protocol == 6 || protocol == 17 {
            assert_eq!(outcome, ClassifyOutcome::Unchanged);
        }
    }
}

#[test]
fn transport_verdict_reads_only_length_offset_nibble_and_request_line() {
    let v = values(&[6]);
    let mut a = tcp_segment(0x50, MAPS);
    let mut b = tcp_segment(0x53, MAPS);
    a[0] = 0x11;
    b[19] = 0x22;
    a[34] = b'X';
    let la = single(&a);
    let lb = single(&b);
    let ra = outbound_transport_classify_v4(Some(&v), Some(&la), true);
    let rb = outbound_transport_classify_v4(Some(&v), Some(&lb), true);
    assert_eq!(ra, rb);
    assert_eq!(ra, ClassifyOutcome::Block);
}
