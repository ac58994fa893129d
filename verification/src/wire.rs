//! The header codec: decoding of inbound IPv4 and TCP headers, encoding of
//! outbound ones, and the TCP checksum. The `etherparse` crate does all three;
//! this module states what the rest of the library relies on.

use crate::header::{Ipv4Fields, TcpFields};
use vstd::prelude::*;

verus! {

/// Length in bytes of an IPv4 header without options.
pub const IPV4_HEADER_LEN: usize = 20;

/// Length in bytes of a TCP header without options.
pub const TCP_HEADER_LEN: usize = 20;

/// Largest payload length that an IPv4 header without options can announce.
pub const MAX_IPV4_PAYLOAD: u16 = 65515;

/// The outbound IPv4 header that a connection keeps and stamps for every
/// datagram: no options, protocol TCP, "don't fragment" set. Addresses are the
/// big-endian value of their four bytes.
#[derive(Clone, Copy, Debug, PartialEq, Eq, Structural)]
pub struct IpTemplate {
    pub source: u32,
    pub destination: u32,
    pub time_to_live: u8,
    /// Number of bytes that follow the IPv4 header in the datagram.
    pub payload_len: u16,
}

/// The outbound TCP header that a connection keeps and stamps for every
/// segment: no options, urgent pointer zero.
#[derive(Clone, Copy, Debug, PartialEq, Eq, Structural)]
pub struct TcpTemplate {
    pub source_port: u16,
    pub destination_port: u16,
    pub sequence_number: u32,
    pub acknowledgment_number: u32,
    pub window_size: u16,
    pub syn: bool,
    pub ack: bool,
    pub fin: bool,
    pub rst: bool,
    pub checksum: u16,
}

/// What `etherparse::Ipv4HeaderSlice::from_slice` makes of `bytes`: the fields
/// of the IPv4 header at their start, or `None` where it reports an error.
pub uninterp spec fn ipv4_header_read(bytes: Seq<u8>) -> Option<Ipv4Fields>;

/// What `etherparse::TcpHeaderSlice::from_slice` makes of `bytes`: the fields
/// of the TCP header at their start, or `None` where it reports an error.
pub uninterp spec fn tcp_header_read(bytes: Seq<u8>) -> Option<TcpFields>;

/// The bytes that `etherparse::Ipv4Header::write` produces for the header that
/// `ip` describes.
pub uninterp spec fn ipv4_header_wire(ip: IpTemplate) -> Seq<u8>;

/// The bytes that `etherparse::TcpHeader::write` produces for the header that
/// `tcp` describes.
pub uninterp spec fn tcp_header_wire(tcp: TcpTemplate) -> Seq<u8>;

/// The checksum that `etherparse::TcpHeader::calc_checksum_ipv4` computes for
/// the segment made of the header `tcp` and `payload`, sent in a datagram with
/// the header `ip`.
pub uninterp spec fn tcp_checksum_ipv4(ip: IpTemplate, tcp: TcpTemplate, payload: Seq<u8>) -> u16;

/// Calls `etherparse::Ipv4HeaderSlice::from_slice` and copies out the fields
/// that the library reads.
///
/// Trusted: the result is a function of the bytes alone; on success the header
/// length is the length of the slice that `from_slice` cut from the start of
/// the bytes given.
#[verifier::external_body]
pub(crate) fn read_ipv4_header(bytes: &[u8]) -> (r: Option<Ipv4Fields>)
    ensures
        r == ipv4_header_read(bytes@),
        r matches Some(h) ==> h.header_len <= bytes@.len(),
{
    match etherparse::Ipv4HeaderSlice::from_slice(bytes) {
        Ok(h) => {
            let (s, d) = (h.source(), h.destination());
            Some(Ipv4Fields {
                source: u32::from_be_bytes([s[0], s[1], s[2], s[3]]),
                destination: u32::from_be_bytes([d[0], d[1], d[2], d[3]]),
                protocol: h.protocol(),
                header_len: h.slice().len(),
            })
        },
        Err(_) => None,
    }
}

/// Calls `etherparse::TcpHeaderSlice::from_slice` and copies out the fields
/// that the library reads.
///
/// Trusted: the result is a function of the bytes alone; on success the header
/// length is the length of the slice that `from_slice` cut from the start of
/// the bytes given.
#[verifier::external_body]
pub(crate) fn read_tcp_header(bytes: &[u8]) -> (r: Option<TcpFields>)
    ensures
        r == tcp_header_read(bytes@),
        r matches Some(h) ==> h.header_len <= bytes@.len(),
{
    match etherparse::TcpHeaderSlice::from_slice(bytes) {
        Ok(h) => Some(TcpFields {
            source_port: h.source_port(),
            destination_port: h.destination_port(),
            sequence_number: h.sequence_number(),
            acknowledgment_number: h.acknowledgment_number(),
            window_size: h.window_size(),
            syn: h.syn(), ack: h.ack(), fin: h.fin(), rst: h.rst(),
            header_len: h.slice().len(),
        }),
        Err(_) => None,
    }
}

/// Builds the `etherparse::Ipv4Header` that `ip` describes and calls its
/// `write` on an empty vector.
///
/// Trusted: `write` fails only where the payload length is out of range or
/// the writer fails, and a vector does not; what it writes is a function of
/// the header alone and, without options, 20 bytes long.
#[verifier::external_body]
pub(crate) fn ipv4_header_bytes(ip: &IpTemplate) -> (r: Option<Vec<u8>>)
    ensures
        ip.payload_len <= MAX_IPV4_PAYLOAD ==> r is Some,
        r matches Some(v) ==> v@ == ipv4_header_wire(*ip) && v@.len() == IPV4_HEADER_LEN,
{
    let h = etherparse::Ipv4Header::new(
        ip.payload_len, ip.time_to_live, etherparse::IpTrafficClass::Tcp,
        ip.source.to_be_bytes(), ip.destination.to_be_bytes(),
    );
    let mut out: Vec<u8> = Vec::new();
    match h.write(&mut out) {
        Ok(()) => Some(out),
        Err(_) => None,
    }
}

/// Builds the `etherparse::TcpHeader` that `tcp` describes and calls its
/// `write` on an empty vector.
///
/// Trusted: `write` fails only where the writer fails, and a vector does not;
/// what it writes is a function of the header alone and, without options, 20
/// bytes long.
#[verifier::external_body]
pub(crate) fn tcp_header_bytes(tcp: &TcpTemplate) -> (r: Option<Vec<u8>>)
    ensures
        r is Some,
        r matches Some(v) ==> v@ == tcp_header_wire(*tcp) && v@.len() == TCP_HEADER_LEN,
{
    let mut h = etherparse::TcpHeader::new(
        tcp.source_port, tcp.destination_port, tcp.sequence_number, tcp.window_size,
    );
    h.acknowledgment_number = tcp.acknowledgment_number;
    (h.syn, h.ack, h.fin, h.rst) = (tcp.syn, tcp.ack, tcp.fin, tcp.rst);
    h.checksum = tcp.checksum;
    let mut out: Vec<u8> = Vec::new();
    match h.write(&mut out) {
        Ok(()) => Some(out),
        Err(_) => None,
    }
}

/// Builds the two `etherparse` headers that `ip` and `tcp` describe and calls
/// `TcpHeader::calc_checksum_ipv4` on them and `payload`.
///
/// Trusted: the call fails only where header and payload together are longer
/// than 65535 bytes; its result is a function of the two headers and the
/// payload.
#[verifier::external_body]
pub(crate) fn tcp_checksum(ip: &IpTemplate, tcp: &TcpTemplate, payload: &[u8]) -> (r: Option<u16>)
    ensures
        payload@.len() <= MAX_IPV4_PAYLOAD ==> r is Some,
        r matches Some(c) ==> c == tcp_checksum_ipv4(*ip, *tcp, payload@),
{
    let i = etherparse::Ipv4Header::new(
        ip.payload_len, ip.time_to_live, etherparse::IpTrafficClass::Tcp,
        ip.source.to_be_bytes(), ip.destination.to_be_bytes(),
    );
    let mut h = etherparse::TcpHeader::new(
        tcp.source_port, tcp.destination_port, tcp.sequence_number, tcp.window_size,
    );
    h.acknowledgment_number = tcp.acknowledgment_number;
    (h.syn, h.ack, h.fin, h.rst) = (tcp.syn, tcp.ack, tcp.fin, tcp.rst);
    match h.calc_checksum_ipv4(&i, payload) {
        Ok(c) => Some(c),
        Err(_) => None,
    }
}

/// Joins an encoded IPv4 header, an encoded TCP header and a payload into one
/// datagram.
pub fn frame(ip_header: &[u8], tcp_header: &[u8], payload: &[u8]) -> (datagram: Vec<u8>)
    ensures
        datagram@ == ip_header@ + tcp_header@ + payload@,
{
    let mut datagram: Vec<u8> = Vec::new();
    datagram.extend_from_slice(ip_header);
    datagram.extend_from_slice(tcp_header);
    datagram.extend_from_slice(payload);
    datagram
}

} // verus!
