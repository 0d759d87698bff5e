use rtpeeker::packet::{Endpoint, TransportProtocol};
use rtpeeker::pcap::{PcapFormat, PcapRecord};
use rtpeeker::router::Frame;

fn udp_frame(payload: &[u8]) -> Vec<u8> {
    let mut f = vec![0u8; 12];
    f.extend_from_slice(&[0x08, 0x00]);
    let total = (20 + 8 + payload.len()) as u16;
    f.extend_from_slice(&[0x45, 0x00]);
    f.extend_from_slice(&total.to_be_bytes());
    f.extend_from_slice(&[0, 0, 0, 0, 64, 17, 0, 0]);
    f.extend_from_slice(&[10, 0, 0, 1]);
    f.extend_from_slice(&[10, 0, 0, 2]);
    f.extend_from_slice(&5004u16.to_be_bytes());
    f.extend_from_slice(&6006u16.to_be_bytes());
    f.extend_from_slice(&((8 + payload.len()) as u16).to_be_bytes());
    f.extend_from_slice(&[0, 0]);
    f.extend_from_slice(payload);
    f
}

#[test]
fn ethernet_ipv4_udp_frame() {
    let mut bytes = udp_frame(&[1, 2, 3]);
    bytes.extend_from_slice(&[0, 0]); // Ethernet trailer past the IP total length
    let f = Frame::from_ethernet(42, &bytes).unwrap();
    assert_eq!(f.timestamp, 42);
    assert_eq!(f.transport_protocol, TransportProtocol::Udp);
    assert_eq!(f.source_addr, Endpoint { address: 0xffff_0a00_0001, port: 5004 });
    assert_eq!(f.destination_addr, Endpoint { address: 0xffff_0a00_0002, port: 6006 });
    assert_eq!(f.payload, vec![1, 2, 3]);
}

#[test]
fn non_ip_or_truncated_frame_is_refused() {
    let mut arp = udp_frame(&[1]);
    arp[12] = 0x08;
    arp[13] = 0x06;
    assert!(Frame::from_ethernet(0, &arp).is_none());
    let udp = udp_frame(&[1]);
    assert!(Frame::from_ethernet(0, &udp[..40]).is_none());
    let mut icmp = udp_frame(&[1]);
    icmp[23] = 1;
    assert!(Frame::from_ethernet(0, &icmp).is_none());
}

#[test]
fn pcap_header_and_records() {
    let mut file = vec![0xd4, 0xc3, 0xb2, 0xa1, 2, 0, 4, 0];
    file.extend_from_slice(&[0; 8]);
    file.extend_from_slice(&65535u32.to_le_bytes());
    file.extend_from_slice(&1u32.to_le_bytes());
    let f = PcapFormat::parse(&file).unwrap();
    assert_eq!(f, PcapFormat { little_endian: true, nanoseconds: false, link_type: 1 });

    file.extend_from_slice(&3u32.to_le_bytes());
    file.extend_from_slice(&250u32.to_le_bytes());
    file.extend_from_slice(&2u32.to_le_bytes());
    file.extend_from_slice(&2u32.to_le_bytes());
    file.extend_from_slice(&[9, 9]);
    let r = f.record_at(&file, 24).unwrap();
    assert_eq!(r, PcapRecord { timestamp: 3_000_250, start: 40, end: 42 });
    assert!(f.record_at(&file, 42).is_none());
    assert!(f.record_at(&file[..41], 24).is_none());
    assert!(PcapFormat::parse(&[0u8; 24]).is_none());
}
