use vstd::prelude::*;
use crate::mpegts::{mpegts_of, MpegtsFragment, MpegtsPacket};
use crate::rtcp::{compound_of, RtcpPacket, RTCP_APPLICATION_DEFINED, RTCP_SENDER_REPORT};
use crate::rtp::{rtp_of, RtpPacket, RtpView};

verus! {

#[derive(Debug, Clone, Copy, PartialEq, Eq, Structural, Hash)]
pub enum TransportProtocol {
    Tcp,
    Udp,
}

/// How a packet's payload is read.
#[derive(Debug, Clone, Copy, PartialEq, Eq, Structural, Hash)]
pub enum SessionProtocol {
    Unknown,
    Rtp,
    Rtcp,
    Mpegts,
}

/// An IP address (IPv4 addresses mapped into the IPv6 space) and a port.
#[derive(Debug, Clone, Copy, PartialEq, Eq, Structural, Hash)]
pub struct Endpoint {
    pub address: u128,
    pub port: u16,
}

/// The decoded payload of a packet.
#[derive(Debug, Clone, PartialEq, Eq)]
pub enum SessionPacket {
    Unknown,
    Rtp(RtpPacket),
    Rtcp(Vec<RtcpPacket>),
    Mpegts(MpegtsPacket),
}

pub enum SessionView {
    Unknown,
    Rtp(RtpView),
    Rtcp(Seq<RtcpPacket>),
    Mpegts(Seq<MpegtsFragment>),
}

impl View for SessionPacket {
    type V = SessionView;

    open spec fn view(&self) -> SessionView {
        match self {
            SessionPacket::Unknown => SessionView::Unknown,
            SessionPacket::Rtp(p) => SessionView::Rtp(p@),
            SessionPacket::Rtcp(v) => SessionView::Rtcp(v@),
            SessionPacket::Mpegts(p) => SessionView::Mpegts(p.fragments@),
        }
    }
}

/// What `bytes` decode to under `protocol`; `Unknown` where they do not decode.
pub open spec fn decode_as(protocol: SessionProtocol, bytes: Seq<u8>) -> SessionView {
    match protocol {
        SessionProtocol::Rtp => match rtp_of(bytes) {
            Some(p) => SessionView::Rtp(p),
            None => SessionView::Unknown,
        },
        SessionProtocol::Rtcp => match compound_of(bytes) {
            Some(v) => SessionView::Rtcp(v),
            None => SessionView::Unknown,
        },
        SessionProtocol::Mpegts => match mpegts_of(bytes) {
            Some(v) => SessionView::Mpegts(v),
            None => SessionView::Unknown,
        },
        SessionProtocol::Unknown => SessionView::Unknown,
    }
}

/// The best guess at how `bytes` should be read: MPEG-TS when they split into transport
/// packets; RTCP when the first packet type is one of RTCP's and the compound decodes;
/// RTP when it decodes; otherwise unknown.
pub open spec fn guess_protocol(bytes: Seq<u8>) -> SessionProtocol {
    if mpegts_of(bytes) is Some {
        SessionProtocol::Mpegts
    } else if bytes.len() >= 2 && RTCP_SENDER_REPORT <= bytes[1] <= RTCP_APPLICATION_DEFINED
        && compound_of(bytes) is Some {
        SessionProtocol::Rtcp
    } else if rtp_of(bytes) is Some {
        SessionProtocol::Rtp
    } else {
        SessionProtocol::Unknown
    }
}

/// Decodes `bytes` under `protocol`; bytes that do not decode give `Unknown`.
pub fn decode_payload(protocol: SessionProtocol, bytes: &[u8]) -> (r: SessionPacket)
    ensures
        r@ == decode_as(protocol, bytes@),
{
    match protocol {
        SessionProtocol::Rtp => match RtpPacket::build(bytes) {
            Some(p) => SessionPacket::Rtp(p),
            None => SessionPacket::Unknown,
        },
        SessionProtocol::Rtcp => match RtcpPacket::build_compound(bytes) {
            Some(v) => SessionPacket::Rtcp(v),
            None => SessionPacket::Unknown,
        },
        SessionProtocol::Mpegts => match MpegtsPacket::build(bytes) {
            Some(p) => SessionPacket::Mpegts(p),
            None => SessionPacket::Unknown,
        },
        SessionProtocol::Unknown => SessionPacket::Unknown,
    }
}

/// Guesses how `bytes` should be read.
pub fn guess_payload_protocol(bytes: &[u8]) -> (r: SessionProtocol)
    ensures
        r == guess_protocol(bytes@),
{
    if MpegtsPacket::build(bytes).is_some() {
        SessionProtocol::Mpegts
    } else if bytes.len() >= 2 && RTCP_SENDER_REPORT <= bytes[1] && bytes[1] <= RTCP_APPLICATION_DEFINED
        && RtcpPacket::build_compound(bytes).is_some() {
        SessionProtocol::Rtcp
    } else if RtpPacket::build(bytes).is_some() {
        SessionProtocol::Rtp
    } else {
        SessionProtocol::Unknown
    }
}

/// One captured packet: where and when it was seen, its raw payload, and the payload
/// decoded under `session_protocol`.
#[derive(Debug, Clone, PartialEq, Eq)]
pub struct Packet {
    pub id: usize,
    pub timestamp: u64,
    pub source_addr: Endpoint,
    pub destination_addr: Endpoint,
    pub transport_protocol: TransportProtocol,
    pub payload: Vec<u8>,
    pub session_protocol: SessionProtocol,
    pub contents: SessionPacket,
}

pub struct PacketView {
    pub id: usize,
    pub timestamp: u64,
    pub source_addr: Endpoint,
    pub destination_addr: Endpoint,
    pub transport_protocol: TransportProtocol,
    pub payload: Seq<u8>,
    pub session_protocol: SessionProtocol,
    pub contents: SessionView,
}

impl View for Packet {
    type V = PacketView;

    open spec fn view(&self) -> PacketView {
        PacketView {
            id: self.id,
            timestamp: self.timestamp,
            source_addr: self.source_addr,
            destination_addr: self.destination_addr,
            transport_protocol: self.transport_protocol,
            payload: self.payload@,
            session_protocol: self.session_protocol,
            contents: self.contents@,
        }
    }
}

/// The packet with its payload decoded afresh under `protocol`; everything else kept.
pub open spec fn reparsed(p: PacketView, protocol: SessionProtocol) -> PacketView {
    PacketView { session_protocol: protocol, contents: decode_as(protocol, p.payload), ..p }
}

impl Packet {
    /// A packet whose payload is decoded under the guessed protocol.
    pub fn build(
        id: usize,
        timestamp: u64,
        source_addr: Endpoint,
        destination_addr: Endpoint,
        transport_protocol: TransportProtocol,
        payload: Vec<u8>,
    ) -> (r: Self)
        ensures
            r@ == reparsed(
                PacketView {
                    id,
                    timestamp,
                    source_addr,
                    destination_addr,
                    transport_protocol,
                    payload: payload@,
                    session_protocol: SessionProtocol::Unknown,
                    contents: SessionView::Unknown,
                },
                guess_protocol(payload@),
            ),
    {
        let protocol = guess_payload_protocol(payload.as_slice());
        let contents = decode_payload(protocol, payload.as_slice());
        Packet {
            id,
            timestamp,
            source_addr,
            destination_addr,
            transport_protocol,
            payload,
            session_protocol: protocol,
            contents,
        }
    }

    /// Decodes the payload under the guessed protocol.
    pub fn guess_payload(&mut self)
        ensures
            final(self)@ == reparsed(old(self)@, guess_protocol(old(self)@.payload)),
    {
        let protocol = guess_payload_protocol(self.payload.as_slice());
        self.parse_as(protocol);
    }

    /// Decodes the payload under `protocol`, replacing the contents; id, addresses,
    /// time and payload stay.
    pub fn parse_as(&mut self, protocol: SessionProtocol)
        ensures
            final(self)@ == reparsed(old(self)@, protocol),
    {
        let contents = decode_payload(protocol, self.payload.as_slice());
        self.contents = contents;
        self.session_protocol = protocol;
    }
}

/// Reading a payload again under one protocol gives what reading it once gave.
pub proof fn lemma_reparse_idempotent(p: PacketView, protocol: SessionProtocol)
    ensures
        reparsed(reparsed(p, protocol), protocol) == reparsed(p, protocol),
        reparsed(p, protocol).id == p.id,
        reparsed(p, protocol).payload == p.payload,
{
}

} // verus!
