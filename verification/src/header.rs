//! Plain values read from the headers of an inbound datagram, and the flow
//! key made of them.

use vstd::prelude::*;

verus! {

/// IP protocol number of TCP.
pub const PROTOCOL_TCP: u8 = 6;

/// Largest number of bytes that an IPv4 datagram can hold, headers included.
pub const MAX_DATAGRAM_LEN: usize = 65535;

/// What the connection logic reads from an inbound IPv4 header.
///
/// Addresses are held as the big-endian value of their four bytes, so
/// `10.0.0.1` is `0x0A00_0001`.
#[derive(Clone, Copy, Debug, PartialEq, Eq, Structural)]
pub struct Ipv4Fields {
    pub source: u32,
    pub destination: u32,
    pub protocol: u8,
    /// Length of the header in bytes, options included.
    pub header_len: usize,
}

/// What the connection logic reads from an inbound TCP header.
#[derive(Clone, Copy, Debug, PartialEq, Eq, Structural)]
pub struct TcpFields {
    pub source_port: u16,
    pub destination_port: u16,
    pub sequence_number: u32,
    pub acknowledgment_number: u32,
    pub window_size: u16,
    pub syn: bool,
    pub ack: bool,
    pub fin: bool,
    pub rst: bool,
    /// Length of the header in bytes, options included.
    pub header_len: usize,
}

impl TcpFields {
    /// Number of sequence numbers that a segment with this header and
    /// `payload_len` bytes of payload occupies: SYN and FIN count for one
    /// each.
    pub open spec fn spec_segment_len(self, payload_len: int) -> int {
        payload_len + (if self.syn { 1int } else { 0int }) + (if self.fin { 1int } else { 0int })
    }

    /// Number of sequence numbers that a segment with this header and
    /// `payload_len` bytes of payload occupies.
    pub fn segment_len(&self, payload_len: usize) -> (r: u32)
        requires
            payload_len <= MAX_DATAGRAM_LEN,
        ensures
            r == self.spec_segment_len(payload_len as int),
    {
        let mut r: u32 = payload_len as u32;
        if self.fin {
            r = r + 1;
        }
        if self.syn {
            r = r + 1;
        }
        r
    }
}

/// The flow key: both end points of a segment, as its sender wrote them.
#[derive(Clone, Copy, Debug, PartialEq, Eq, PartialOrd, Ord, Hash, Structural)]
pub struct Quad {
    pub src_addr: u32,
    pub src_port: u16,
    pub dst_addr: u32,
    pub dst_port: u16,
}

impl Quad {
    /// The flow that a segment with these two headers belongs to.
    pub open spec fn spec_of(ip: Ipv4Fields, tcp: TcpFields) -> Quad {
        Quad {
            src_addr: ip.source,
            src_port: tcp.source_port,
            dst_addr: ip.destination,
            dst_port: tcp.destination_port,
        }
    }

    /// The flow that a segment with these two headers belongs to.
    pub fn of(ip: &Ipv4Fields, tcp: &TcpFields) -> (q: Quad)
        ensures
            q == Quad::spec_of(*ip, *tcp),
    {
        Quad {
            src_addr: ip.source,
            src_port: tcp.source_port,
            dst_addr: ip.destination,
            dst_port: tcp.destination_port,
        }
    }

    /// The four fields packed into one integer of 96 bits, most significant
    /// first: source address, source port, destination address, destination
    /// port.
    pub open spec fn spec_key(self) -> int {
        ((self.src_addr * 0x1_0000 + self.src_port) * 0x1_0000_0000 + self.dst_addr) * 0x1_0000
            + self.dst_port
    }

    /// The integer under which the connection table files this flow.
    pub fn key(&self) -> (k: u128)
        ensures
            k == self.spec_key(),
    {
        let sa: u128 = self.src_addr as u128;
        let sp: u128 = self.src_port as u128;
        let da: u128 = self.dst_addr as u128;
        let dp: u128 = self.dst_port as u128;
        ((sa * 0x1_0000 + sp) * 0x1_0000_0000 + da) * 0x1_0000 + dp
    }
}

/// Two flows with the same key are the same flow.
pub proof fn lemma_key_injective(a: Quad, b: Quad)
    requires
        a.spec_key() == b.spec_key(),
    ensures
        a == b,
{
}

} // verus!
