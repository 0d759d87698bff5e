//! Decoding of RTP, RTCP and MPEG transport stream traffic, reassembly of the
//! transport stream's program tables, and the per-source packet history that a
//! capture server keeps and hands out to its observers.
//!
//! - `rtp`, `rtcp`, `mpegts`, `pes`: decoders from bytes to typed packets.
//! - `crc`, `psi`, `pat`, `pmt`, `pat_buffer`: PSI sections, their CRC check, and the
//!   reassembly of section groups.
//! - `association`: the program association and program map state of one source.
//! - `flow`: stream keys and their aliases.
//! - `packet`: captured packets and how their payload is read.
//! - `router`: the server state, and the decisions it takes on captures and requests.
//! - `source`, `sdp`, `link`, `pcap`: sources, session descriptions, and the framing of
//!   captured frames.

use vstd::prelude::*;

pub mod association;
pub mod bytes;
pub mod crc;
pub mod flow;
pub mod link;
pub mod mpegts;
pub mod packet;
pub mod pat;
pub mod pat_buffer;
pub mod pcap;
pub mod pes;
pub mod pmt;
pub mod psi;
pub mod router;
pub mod rtcp;
pub mod rtp;
pub mod sdp;
pub mod source;

verus! {

} // verus!
