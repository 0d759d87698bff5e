use rtpeeker::flow::{RtpStreamKey, StreamAliases};
use rtpeeker::pat::{ProgramAssociationItem, ProgramAssociationTable};
use rtpeeker::pmt::ElementaryStreamInfo;
use rtpeeker::packet::{Endpoint, SessionPacket, SessionProtocol, TransportProtocol};
use rtpeeker::router::{Delivery, Frame, Request, Server};
use rtpeeker::rtcp::RtcpPacket;
use rtpeeker::source::Source;

fn endpoint(n: u128, port: u16) -> Endpoint {
    Endpoint { address: n, port }
}

/// Twelve bytes that read as an RTP header (payload type 96, sequence number 2) and
/// also as one RTCP packet of three words.
fn ambiguous_payload(ssrc: u32) -> Vec<u8> {
    let mut v = vec![0x80, 0x60, 0x00, 0x02, 0, 0, 0, 1];
    v.extend_from_slice(&ssrc.to_be_bytes());
    v
}

fn frame(ts: u64, payload: Vec<u8>) -> Frame {
    Frame {
        timestamp: ts,
        transport_protocol: TransportProtocol::Udp,
        source_addr: endpoint(1, 5000),
        destination_addr: endpoint(2, 6000),
        payload,
    }
}

fn file_source() -> Source {
    Source::File("a.pcap".to_string())
}

fn server() -> Server {
    Server::new(vec![file_source(), Source::Interface("eth0".to_string())])
}

#[test]
fn source_text_round_trip() {
    let s = file_source();
    let text = s.to_display_string();
    assert_eq!(text, "\u{1F4C1} a.pcap");
    assert_eq!(Source::from_string(text), Some(s));
    let i = Source::Interface("eth0".to_string());
    assert_eq!(Source::from_string(i.to_display_string()), Some(i));
    assert_eq!(Source::from_string("\u{1F310} lo".to_string()), Some(Source::Interface("lo".to_string())));
    assert_eq!(Source::from_string("file a.pcap".to_string()), None);
    assert_eq!(Source::from_string("\u{1F4C1} a b".to_string()), None);
    assert_eq!(Source::from_string("\u{1F4C1}".to_string()), None);
    assert_eq!(Source::from_string("\u{1F4C1} ".to_string()), Some(Source::File(String::new())));
}

#[test]
fn change_source_before_fetch_all_sends_history() {
    let mut srv = server();
    for i in 0..3 {
        let d = srv.capture(0, frame(i, ambiguous_payload(7)));
        assert!(d.is_empty());
    }
    assert_eq!(srv.connect(10), vec![Delivery::Sources { observer: 10 }]);
    let d = srv.handle(10, Request::ChangeSource(file_source()));
    assert_eq!(
        d,
        vec![
            Delivery::Packet { observer: 10, source: 0, packet_id: 0 },
            Delivery::Packet { observer: 10, source: 0, packet_id: 1 },
            Delivery::Packet { observer: 10, source: 0, packet_id: 2 },
        ]
    );
    assert_eq!(srv.handle(10, Request::FetchAll), d);
    assert_eq!(srv.packet(0, 2).id, 2);
    assert_eq!(srv.packet(0, 2).timestamp, 2);
}

#[test]
fn requests_before_selecting_a_source_are_ignored() {
    let mut srv = server();
    srv.capture(0, frame(0, ambiguous_payload(7)));
    srv.connect(1);
    assert!(srv.handle(1, Request::FetchAll).is_empty());
    assert!(srv.handle(1, Request::Reparse(0, SessionProtocol::Rtcp)).is_empty());
    assert_eq!(srv.packet(0, 0).session_protocol, SessionProtocol::Rtp);
    // unknown source and unknown observer
    assert!(srv.handle(1, Request::ChangeSource(Source::File("b.pcap".to_string()))).is_empty());
    assert!(srv.handle(99, Request::ChangeSource(file_source())).is_empty());
    assert_eq!(srv.connect(1), vec![]);
}

#[test]
fn reparse_replaces_one_entry_in_place() {
    let mut srv = server();
    for i in 0..10 {
        srv.capture(0, frame(i, ambiguous_payload(7)));
    }
    srv.connect(1);
    srv.connect(2);
    srv.connect(3);
    srv.handle(1, Request::ChangeSource(file_source()));
    srv.handle(2, Request::ChangeSource(file_source()));
    srv.handle(3, Request::ChangeSource(Source::Interface("eth0".to_string())));
    assert_eq!(srv.packet(0, 7).session_protocol, SessionProtocol::Rtp);

    let d = srv.handle(1, Request::Reparse(7, SessionProtocol::Rtcp));
    assert_eq!(
        d,
        vec![
            Delivery::Packet { observer: 1, source: 0, packet_id: 7 },
            Delivery::Packet { observer: 2, source: 0, packet_id: 7 },
        ]
    );
    let p = srv.packet(0, 7);
    assert_eq!(p.id, 7);
    assert_eq!(p.session_protocol, SessionProtocol::Rtcp);
    assert_eq!(p.contents, SessionPacket::Rtcp(vec![RtcpPacket::Other { packet_type: 0x60 }]));
    for i in 0..10 {
        if i != 7 {
            assert_eq!(srv.packet(0, i).session_protocol, SessionProtocol::Rtp);
            assert_eq!(srv.packet(0, i).id, i);
        }
    }
    let once = srv.packet(0, 7).clone();
    srv.handle(2, Request::Reparse(7, SessionProtocol::Rtcp));
    assert_eq!(*srv.packet(0, 7), once);
    assert_eq!(srv.history_len(0), 10);
    // a packet id past the end is ignored
    assert!(srv.handle(1, Request::Reparse(10, SessionProtocol::Rtp)).is_empty());
}

#[test]
fn capture_fans_out_to_followers_only() {
    let mut srv = server();
    srv.connect(1);
    srv.connect(2);
    srv.handle(2, Request::ChangeSource(file_source()));
    let d = srv.capture(0, frame(0, ambiguous_payload(7)));
    assert_eq!(d, vec![Delivery::Packet { observer: 2, source: 0, packet_id: 0 }]);
    assert!(srv.capture(1, frame(0, vec![1, 2, 3])).is_empty());
    srv.disconnect(2);
    assert!(srv.capture(0, frame(1, ambiguous_payload(7))).is_empty());
    assert_eq!(srv.observers().len(), 1);
}

#[test]
fn same_stream_key_keeps_its_alias() {
    let mut srv = server();
    srv.capture(0, frame(0, ambiguous_payload(7)));
    srv.capture(0, frame(1, ambiguous_payload(8)));
    srv.capture(0, frame(2, ambiguous_payload(7)));
    let key = |ssrc| RtpStreamKey {
        source: endpoint(1, 5000),
        destination: endpoint(2, 6000),
        protocol: TransportProtocol::Udp,
        ssrc,
    };
    assert_eq!(srv.alias(0, key(7)), Some(0));
    assert_eq!(srv.alias(0, key(8)), Some(1));
    assert_eq!(srv.alias(0, key(9)), None);

    let mut aliases = StreamAliases::new();
    assert_eq!(aliases.attribute(key(5)), 0);
    assert_eq!(aliases.attribute(key(6)), 1);
    assert_eq!(aliases.attribute(key(5)), 0);
    assert_eq!(aliases.len(), 2);
}

#[test]
fn parse_sdp_attaches_and_broadcasts() {
    let mut srv = server();
    srv.connect(1);
    srv.connect(2);
    srv.handle(1, Request::ChangeSource(file_source()));
    srv.handle(2, Request::ChangeSource(file_source()));
    let key = RtpStreamKey {
        source: endpoint(1, 5000),
        destination: endpoint(2, 6000),
        protocol: TransportProtocol::Udp,
        ssrc: 7,
    };
    let d = srv.handle(1, Request::ParseSdp(key, "v=0\ns=talk\n".to_string()));
    assert_eq!(
        d,
        vec![
            Delivery::Sdp { observer: 1, source: 0, index: 0 },
            Delivery::Sdp { observer: 2, source: 0, index: 0 },
        ]
    );
    let (k, sdp) = srv.sdp(0, 0);
    assert_eq!(*k, key);
    assert_eq!(sdp.fields[1].value, b"talk".to_vec());
    assert!(srv.handle(1, Request::ParseSdp(key, "garbage".to_string())).is_empty());
}

#[test]
fn sources_listed_in_order() {
    let srv = server();
    assert_eq!(srv.source_count(), 2);
    assert_eq!(srv.sources(), vec![file_source(), Source::Interface("eth0".to_string())]);
    assert_eq!(*srv.source(1), Source::Interface("eth0".to_string()));
}

#[test]
fn pat_on_pid_zero_updates_the_program_association() {
    let mut ts = vec![0x47, 0x40, 0x00, 0x10, 0x00];
    ts.extend_from_slice(&[
        0x00, 0xb0, 0x0d, 0x00, 0x03, 0xdf, 0x00, 0x00, 0x00, 0x23, 0xed, 0xad, 0x5a, 0xe9, 0x7d, 0xda,
    ]);
    ts.resize(188, 0xff);
    let mut other = vec![0x47, 0x41, 0x00, 0x11];
    other.resize(188, 0x00);
    let mut datagram = other.clone();
    datagram.extend_from_slice(&ts);

    let mut srv = server();
    assert!(srv.program_association(0).is_none());
    srv.capture(0, frame(0, datagram));
    assert_eq!(srv.packet(0, 0).session_protocol, SessionProtocol::Mpegts);
    assert_eq!(
        srv.program_association(0),
        Some(&ProgramAssociationTable {
            transport_stream_id: 3,
            programs: vec![ProgramAssociationItem {
                program_number: 0x23,
                network_pid: None,
                program_map_pid: Some(0x0dad),
            }],
            crc_32: 0x5ae97dda,
        })
    );

    // a corrupted copy leaves the table as it was
    let mut bad = ts.clone();
    bad[10] ^= 0x01;
    srv.capture(0, frame(1, bad));
    assert_eq!(srv.program_association(0).unwrap().transport_stream_id, 3);
    assert!(srv.program_association(1).is_none());
}

fn ts_with_section(pid: u16, section: &[u8]) -> Vec<u8> {
    let mut ts = vec![0x47, 0x40 | (pid >> 8) as u8, pid as u8, 0x10, 0x00];
    ts.extend_from_slice(section);
    ts.resize(188, 0xff);
    ts
}

#[test]
fn pmt_on_a_pid_named_by_the_pat_maps_its_streams() {
    let pat = [
        0x00, 0xb0, 0x0d, 0x00, 0x03, 0xdf, 0x00, 0x00, 0x00, 0x23, 0xed, 0xad, 0x5a, 0xe9, 0x7d, 0xda,
    ];
    let pmt = [
        0x02, 0xb0, 0x15, 0x00, 0x23, 0xc1, 0x00, 0x00, 0xe1, 0x01, 0xf0, 0x00, 0x1b, 0xe1, 0x01, 0xf0,
        0x03, 0x0a, 0x01, 0x02, 0x86, 0x45, 0xfe, 0x74,
    ];
    let mut srv = server();
    // before the PAT names PID 0x0dad, a map there is not read
    srv.capture(0, frame(0, ts_with_section(0x0dad, &pmt)));
    assert!(srv.program_map(0, 0x0dad).is_none());

    srv.capture(0, frame(1, ts_with_section(0, &pat)));
    srv.capture(0, frame(2, ts_with_section(0x0dad, &pmt)));
    let map = srv.program_map(0, 0x0dad).unwrap();
    assert_eq!(map.program_number, 0x23);
    assert_eq!(map.pcr_pid, 0x101);
    assert_eq!(
        map.elementary_streams_info,
        vec![ElementaryStreamInfo { stream_type: 0x1b, elementary_pid: 0x101, descriptors: vec![0x0a, 0x01, 0x02] }]
    );
    assert_eq!(map.crc_32, 0x8645fe74);
    assert_eq!(srv.program_of_pid(0, 0x101), Some(0x23));
    assert_eq!(srv.program_of_pid(0, 0x102), None);
    assert!(srv.program_map(0, 0x2000).is_none());
}
