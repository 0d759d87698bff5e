use rtpeeker::pat::{FragmentaryProgramAssociationTable, ProgramAssociationTable};
use rtpeeker::mpegts::MpegtsPacket;
use rtpeeker::packet::{decode_payload, guess_payload_protocol, SessionPacket, SessionProtocol};
use rtpeeker::pes::{PacketizedElementaryStream, PesHeader, StreamType};
use rtpeeker::rtcp::RtcpPacket;
use rtpeeker::rtp::RtpPacket;
use rtpeeker::sdp::Sdp;

fn rtp_bytes() -> Vec<u8> {
    vec![
        0x80, 0xe0, 0x12, 0x34, 0x00, 0x00, 0x10, 0x00, 0xde, 0xad, 0xbe, 0xef, 1, 2, 3, 4, 5,
    ]
}

#[test]
fn rtp_fixed_header() {
    let p = RtpPacket::build(&rtp_bytes()).unwrap();
    assert_eq!(p.version, 2);
    assert!(!p.padding);
    assert!(!p.extension);
    assert!(p.marker);
    assert_eq!(p.payload_type, 0x60);
    assert_eq!(p.sequence_number, 0x1234);
    assert_eq!(p.timestamp, 0x1000);
    assert_eq!(p.ssrc, 0xdeadbeef);
    assert!(p.csrc.is_empty());
    assert_eq!(p.payload_length, 5);
}

#[test]
fn rtp_csrc_extension_and_padding() {
    let bytes = vec![
        0xb2, 0x08, 0x00, 0x01, 0, 0, 0, 2, 0, 0, 0, 3, // V=2 P X CC=2
        0, 0, 0, 10, 0, 0, 0, 11, // two CSRCs
        0xbe, 0xde, 0x00, 0x01, 9, 9, 9, 9, // extension of one word
        7, 7, 7, 0, 0, 2, // payload, then two bytes of padding
    ];
    let p = RtpPacket::build(&bytes).unwrap();
    assert!(p.padding);
    assert!(p.extension);
    assert_eq!(p.csrc, vec![10, 11]);
    assert_eq!(p.payload_length, 4);
}

#[test]
fn rtp_truncated_or_wrong_version_is_refused() {
    assert!(RtpPacket::build(&rtp_bytes()[..11]).is_none());
    assert!(RtpPacket::build(&[]).is_none());
    let mut v1 = rtp_bytes();
    v1[0] = 0x40;
    assert!(RtpPacket::build(&v1).is_none());
    // announces 15 CSRCs that are not there
    let mut many = rtp_bytes();
    many[0] = 0x8f;
    assert!(RtpPacket::build(&many).is_none());
    // extension flag with no room for the extension header
    let mut ext = rtp_bytes()[..12].to_vec();
    ext[0] = 0x90;
    assert!(RtpPacket::build(&ext).is_none());
    // padding count larger than the payload
    let mut pad = rtp_bytes();
    pad[0] = 0xa0;
    let last = pad.len() - 1;
    pad[last] = 40;
    assert!(RtpPacket::build(&pad).is_none());
}

#[test]
fn rtcp_compound_sender_report_and_bye() {
    let bytes = vec![
        0x81, 200, 0x00, 0x02, 0x11, 0x22, 0x33, 0x44, 0, 0, 0, 0, // SR, 3 words
        0x81, 203, 0x00, 0x01, 0x11, 0x22, 0x33, 0x44, // BYE with one source
    ];
    let v = RtcpPacket::build_compound(&bytes).unwrap();
    assert_eq!(
        v,
        vec![
            RtcpPacket::SenderReport { ssrc: 0x11223344, report_count: 1 },
            RtcpPacket::Goodbye { source_count: 1 },
        ]
    );
}

#[test]
fn rtcp_bad_length_is_refused() {
    // length says 4 words but only 2 are there
    let bytes = vec![0x80, 201, 0x00, 0x03, 1, 2, 3, 4];
    assert!(RtcpPacket::build_compound(&bytes).is_none());
    // trailing bytes that do not form a sub-packet
    let bytes = vec![0x80, 201, 0x00, 0x01, 1, 2, 3, 4, 0x80];
    assert!(RtcpPacket::build_compound(&bytes).is_none());
    assert!(RtcpPacket::build_compound(&[]).is_none());
    let rr = vec![0x80, 201, 0x00, 0x01, 1, 2, 3, 4];
    assert_eq!(
        RtcpPacket::build_compound(&rr).unwrap(),
        vec![RtcpPacket::ReceiverReport { ssrc: 0x01020304, report_count: 0 }]
    );
}

fn ts_packet(pid: u16, cc: u8) -> Vec<u8> {
    let mut p = vec![0x47, 0x40 | (pid >> 8) as u8, pid as u8, 0x10 | cc];
    p.resize(188, 0xaa);
    p
}

#[test]
fn mpegts_two_packets_back_to_back() {
    let mut bytes = ts_packet(0x100, 3);
    bytes.extend(ts_packet(0x1fff, 4));
    let p = MpegtsPacket::build(&bytes).unwrap();
    assert_eq!(p.fragments.len(), 2);
    assert_eq!(p.fragments[0].header.pid, 0x100);
    assert_eq!(p.fragments[0].header.continuity_counter, 3);
    assert!(p.fragments[0].header.payload_unit_start_indicator);
    assert_eq!(p.fragments[0].payload_start, 4);
    assert_eq!(p.fragments[1].header.pid, 0x1fff);
    assert_eq!(p.fragments[1].payload_start, 192);
    assert_eq!(p.fragments[1].payload_end, 376);
}

#[test]
fn mpegts_adaptation_field_and_bad_input() {
    let mut p = ts_packet(0x20, 0);
    p[3] = 0x30;
    p[4] = 7;
    let d = MpegtsPacket::build(&p).unwrap();
    assert_eq!(d.fragments[0].payload_start, 12);
    assert_eq!(d.fragments[0].header.adaptation_field_control, 3);
    let mut bad_sync = ts_packet(0x20, 0);
    bad_sync[0] = 0x46;
    assert!(MpegtsPacket::build(&bad_sync).is_none());
    assert!(MpegtsPacket::build(&ts_packet(0x20, 0)[..187]).is_none());
    assert!(MpegtsPacket::build(&[]).is_none());
}

#[test]
fn guess_and_decode() {
    assert_eq!(guess_payload_protocol(&rtp_bytes()), SessionProtocol::Rtp);
    let rr = vec![0x80, 201, 0x00, 0x01, 1, 2, 3, 4];
    assert_eq!(guess_payload_protocol(&rr), SessionProtocol::Rtcp);
    assert_eq!(guess_payload_protocol(&ts_packet(1, 0)), SessionProtocol::Mpegts);
    assert_eq!(guess_payload_protocol(&[1, 2, 3]), SessionProtocol::Unknown);
    assert_eq!(decode_payload(SessionProtocol::Rtcp, &rtp_bytes()), SessionPacket::Unknown);
    assert!(matches!(decode_payload(SessionProtocol::Rtp, &rtp_bytes()), SessionPacket::Rtp(_)));
}

#[test]
fn pes_with_header_and_stuffing() {
    let bytes = vec![
        0x00, 0x00, 0x01, 0xe0, 0x00, 0x0a, // video stream
        0x84, 0x80, 0x02, 0x11, 0x22, // header with two bytes of header data
        0xff, 0xff, // stuffing
        0xaa, 0xbb,
    ];
    let p = PacketizedElementaryStream::build(&bytes).unwrap();
    assert_eq!(p.packet_start_code_prefix, 1);
    assert_eq!(p.stream_id, 0xe0);
    assert_eq!(p.pes_packet_length, 10);
    let h: PesHeader = p.header.unwrap();
    assert_eq!(h.size, 5);
    assert_eq!(h.pts_dts_flags, 2);
    assert!(h.data_alignment_indicator);
    assert_eq!(p.packet_data, Some(vec![0xaa, 0xbb]));
    assert_eq!(p.padding_bytes, None);
}

#[test]
fn pes_padding_and_data_only_streams() {
    let padding = vec![0x00, 0x00, 0x01, 0xbe, 0x00, 0x02, 0xff, 0xff];
    let p = PacketizedElementaryStream::build(&padding).unwrap();
    assert_eq!(p.padding_bytes, Some(vec![0xff, 0xff]));
    assert_eq!(p.packet_data, None);
    let private2 = vec![0x00, 0x00, 0x01, 0xbf, 0x00, 0x01, 0x42];
    let p = PacketizedElementaryStream::build(&private2).unwrap();
    assert_eq!(p.packet_data, Some(vec![0x42]));
    assert!(p.header.is_none());
    assert_eq!(StreamType::from(0xc5), StreamType::AudioStream);
    assert_eq!(StreamType::from(0xf8), StreamType::H2221TypeE);
}

#[test]
fn pes_refused_without_start_code() {
    assert!(PacketizedElementaryStream::build(&[0x00, 0x00, 0x02, 0xe0, 0, 0]).is_none());
    assert!(PacketizedElementaryStream::build(&[0x00, 0x00, 0x01]).is_none());
    assert!(PacketizedElementaryStream::build(&[]).is_none());
    // header marker bits wrong: no header, data after stuffing
    let bytes = vec![0x00, 0x00, 0x01, 0xe0, 0x00, 0x00, 0x40, 0x01];
    let p = PacketizedElementaryStream::build(&bytes).unwrap();
    assert!(p.header.is_none());
    assert_eq!(p.packet_data, Some(vec![0x40, 0x01]));
}

#[test]
fn sdp_fields() {
    let d = Sdp::build("v=0\r\no=- 1 1 IN IP4 10.0.0.1\r\n\r\nm=audio 5004 RTP/AVP 0\n").unwrap();
    assert_eq!(d.fields.len(), 3);
    assert_eq!(d.fields[0].kind, b'v');
    assert_eq!(d.fields[0].value, b"0".to_vec());
    assert_eq!(d.fields[2].kind, b'm');
    assert_eq!(d.fields[2].value, b"audio 5004 RTP/AVP 0".to_vec());
    assert!(Sdp::build("o=- 1 1\nv=0").is_none());
    assert!(Sdp::build("v=0\nnot a field").is_none());
    assert!(Sdp::build("").is_none());
}

#[test]
fn decoders_accept_arbitrary_bytes() {
    let mut state: u64 = 0x2545_f491_4f6c_dd1d;
    let mut next = move || {
        state = state.wrapping_mul(6364136223846793005).wrapping_add(1442695040888963407);
        (state >> 33) as u8
    };
    for round in 0..2000usize {
        let len = round % 400;
        let mut bytes: Vec<u8> = (0..len).map(|_| next()).collect();
        if round % 3 == 0 && len > 2 {
            bytes[0] = 0x80 | (bytes[0] & 0x3f);
        }
        if round % 5 == 0 && len >= 188 {
            bytes[0] = 0x47;
        }
        let _ = RtpPacket::build(&bytes);
        let _ = RtcpPacket::build_compound(&bytes);
        let _ = MpegtsPacket::build(&bytes);
        let _ = PacketizedElementaryStream::build(&bytes);
        let _ = FragmentaryProgramAssociationTable::unmarshall(&bytes, round % 2 == 0);
        let _ = ProgramAssociationTable::build(&bytes);
        let _ = Sdp::build(&String::from_utf8_lossy(&bytes));
        let p = guess_payload_protocol(&bytes);
        let _ = decode_payload(p, &bytes);
    }
}
