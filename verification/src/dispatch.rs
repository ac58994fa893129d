//! The connection table and the routing of inbound datagrams: split a
//! datagram into its headers and payload, find the connection of its flow or
//! open one, and hand back what is to be sent.

use crate::connection::{
    wire_view, Arrival, Connection, Disposition, Tcb, INITIAL_SEND_SEQUENCE,
};
use crate::header::{Ipv4Fields, Quad, TcpFields, MAX_DATAGRAM_LEN, PROTOCOL_TCP};
use crate::trace::{
    lemma_accept_wf, lemma_react_keeps_addresses, lemma_react_preserves_wf, lemma_transitions,
};
use crate::wire::{ipv4_header_read, read_ipv4_header, read_tcp_header, tcp_header_read};
use std::collections::HashMap;
use vstd::prelude::*;
use vstd::slice::slice_subrange;

verus! {

broadcast use vstd::std_specs::hash::group_hash_axioms;

/// Why a datagram was dropped before it reached a connection.
#[derive(Clone, Copy, Debug, PartialEq, Eq, Structural)]
pub enum DropReason {
    /// It is longer than an IPv4 datagram can be.
    Oversized,
    /// It does not start with an IPv4 header.
    BadIpv4Header,
    /// Its protocol is not TCP.
    NotTcp,
    /// No TCP header follows its IPv4 header.
    BadTcpHeader,
}

/// An inbound datagram split into its parts: the two headers, and where the
/// payload starts.
#[derive(Clone, Copy, Debug, PartialEq, Eq, Structural)]
pub struct Segment {
    pub ip: Ipv4Fields,
    pub tcp: TcpFields,
    /// Offset of the first payload byte in the datagram.
    pub payload_start: usize,
}

/// What became of an inbound datagram.
#[derive(Clone, Copy, Debug, PartialEq, Eq, Structural)]
pub enum Event {
    /// It was dropped before it reached a connection.
    Dropped(DropReason),
    /// It belongs to no connection and carries no SYN: nothing was done.
    Ignored,
    /// It opened a connection.
    Accepted,
    /// The connection of its flow handled it.
    Delivered(Disposition),
}

/// What the table hands back for one inbound datagram: the datagrams to send,
/// in order, and what became of the inbound one.
#[derive(Debug)]
pub struct Delivery {
    pub datagrams: Vec<Vec<u8>>,
    pub event: Event,
}

/// What the table does with one segment: the table afterwards, the datagrams
/// to send in order, and what became of the segment.
pub struct Routed {
    pub table: Map<Quad, Tcb>,
    pub datagrams: Seq<Seq<u8>>,
    pub event: Event,
}

/// The parts of the datagram `bytes`, or why it is dropped. The IPv4 header is
/// read first; the TCP header is read where the IPv4 header ends, whatever its
/// length; the payload is all that follows the TCP header.
pub open spec fn segment_of(bytes: Seq<u8>) -> Result<Segment, DropReason> {
    if bytes.len() > MAX_DATAGRAM_LEN {
        Err(DropReason::Oversized)
    } else {
        match ipv4_header_read(bytes) {
            None => Err(DropReason::BadIpv4Header),
            Some(ip) => if ip.protocol != PROTOCOL_TCP {
                Err(DropReason::NotTcp)
            } else {
                match tcp_header_read(bytes.subrange(ip.header_len as int, bytes.len() as int)) {
                    None => Err(DropReason::BadTcpHeader),
                    Some(tcp) => Ok(
                        Segment {
                            ip,
                            tcp,
                            payload_start: (ip.header_len + tcp.header_len) as usize,
                        },
                    ),
                }
            },
        }
    }
}

/// What a table does with the segment that has the headers `ip` and `tcp` and
/// `payload_len` bytes of payload.
///
/// - The connection of the segment's flow, if there is one, reacts to it, and
///   stays in the table only if it goes on.
/// - Else a SYN opens a connection, which enters the table, and draws a
///   SYN+ACK.
/// - Else nothing happens.
pub open spec fn route(table: Map<Quad, Tcb>, ip: Ipv4Fields, tcp: TcpFields, payload_len: usize)
    -> Routed {
    let quad = Quad::spec_of(ip, tcp);
    if table.contains_key(quad) {
        let r = table[quad].react(Arrival { header: tcp, payload_len });
        Routed {
            table: if r.disposition == Disposition::Keep {
                table.insert(quad, r.tcb)
            } else {
                table.remove(quad)
            },
            datagrams: r.datagrams,
            event: Event::Delivered(r.disposition),
        }
    } else if tcp.syn {
        let opened = Tcb::syn_received(ip, tcp, INITIAL_SEND_SEQUENCE);
        Routed {
            table: table.insert(quad, opened.after_emit(seq![])),
            datagrams: seq![opened.datagram(seq![])],
            event: Event::Accepted,
        }
    } else {
        Routed { table, datagrams: seq![], event: Event::Ignored }
    }
}

/// What a table does with the datagram `bytes`: a datagram that does not
/// split into an IPv4 header, a TCP header and a payload is dropped and
/// leaves the table as it is; any other is routed.
pub open spec fn receive(table: Map<Quad, Tcb>, bytes: Seq<u8>) -> Routed {
    match segment_of(bytes) {
        Err(reason) => Routed { table, datagrams: seq![], event: Event::Dropped(reason) },
        Ok(s) => route(table, s.ip, s.tcp, (bytes.len() - s.payload_start) as usize),
    }
}

/// Every connection of the table is well-formed, is not over, and answers the
/// flow that it is filed under.
pub open spec fn table_wf(table: Map<Quad, Tcb>) -> bool {
    forall|q: Quad| #[trigger]
        table.contains_key(q) ==> table[q].wf() && !(table[q].state is TimeWait)
            && table[q].answers(q)
}

/// Routing a segment keeps the table well-formed: a connection enters it as
/// `accept` made it, and leaves it when it is over, reset or violated.
pub proof fn lemma_route_preserves_table_wf(
    table: Map<Quad, Tcb>,
    ip: Ipv4Fields,
    tcp: TcpFields,
    payload_len: usize,
)
    requires
        table_wf(table),
    ensures
        table_wf(route(table, ip, tcp, payload_len).table),
        route(table, ip, tcp, payload_len).datagrams.len() <= 1,
        forall|q: Quad|
            q != Quad::spec_of(ip, tcp) ==> (route(table, ip, tcp, payload_len).table.contains_key(
                q,
            ) <==> table.contains_key(q)) && (table.contains_key(q) ==> route(
                table,
                ip,
                tcp,
                payload_len,
            ).table[q] == table[q]),
{
    let quad = Quad::spec_of(ip, tcp);
    let after = route(table, ip, tcp, payload_len).table;
    if table.contains_key(quad) {
        let a = Arrival { header: tcp, payload_len };
        lemma_react_preserves_wf(table[quad], a);
        lemma_transitions(table[quad], a);
        lemma_react_keeps_addresses(table[quad], a);
    } else if tcp.syn {
        lemma_accept_wf(ip, tcp, INITIAL_SEND_SEQUENCE);
    }
    assert forall|q: Quad| #[trigger] after.contains_key(q) implies after[q].wf() && !(
    after[q].state is TimeWait) && after[q].answers(q) by {
        if q != quad {
            assert(table.contains_key(q));
        }
    }
}

/// Receiving a datagram keeps the table well-formed, and a datagram that is
/// dropped leaves it as it is.
pub proof fn lemma_receive_preserves_table_wf(table: Map<Quad, Tcb>, bytes: Seq<u8>)
    requires
        table_wf(table),
    ensures
        table_wf(receive(table, bytes).table),
        receive(table, bytes).event is Dropped ==> receive(table, bytes).table == table && receive(
            table,
            bytes,
        ).datagrams.len() == 0,
{
    match segment_of(bytes) {
        Err(_) => {},
        Ok(s) => {
            lemma_route_preserves_table_wf(
                table,
                s.ip,
                s.tcp,
                (bytes.len() - s.payload_start) as usize,
            );
        },
    }
}

/// Splits an inbound datagram into its two headers and its payload.
pub fn parse_datagram(bytes: &[u8]) -> (r: Result<Segment, DropReason>)
    ensures
        r == segment_of(bytes@),
        r matches Ok(s) ==> s.payload_start <= bytes@.len(),
        r matches Ok(s) ==> s.ip.protocol == PROTOCOL_TCP,
        bytes@.len() > MAX_DATAGRAM_LEN <==> r == Err::<Segment, DropReason>(DropReason::Oversized),
{
    if bytes.len() > MAX_DATAGRAM_LEN {
        return Err(DropReason::Oversized);
    }
    let ip = match read_ipv4_header(bytes) {
        Some(ip) => ip,
        None => {
            return Err(DropReason::BadIpv4Header);
        },
    };
    if ip.protocol != PROTOCOL_TCP {
        return Err(DropReason::NotTcp);
    }
    let rest = slice_subrange(bytes, ip.header_len, bytes.len());
    let tcp = match read_tcp_header(rest) {
        Some(tcp) => tcp,
        None => {
            return Err(DropReason::BadTcpHeader);
        },
    };
    Ok(Segment { ip, tcp, payload_start: ip.header_len + tcp.header_len })
}

/// The connection table: at most one connection for each flow.
pub struct Dispatcher {
    /// The connections, each under the key of its flow.
    connections: HashMap<u128, Connection>,
}

impl View for Dispatcher {
    type V = Map<Quad, Tcb>;

    /// The flows that have a connection, each with the record of its
    /// connection.
    closed spec fn view(&self) -> Map<Quad, Tcb> {
        Map::new(
            |q: Quad| self.connections@.contains_key(q.spec_key() as u128),
            |q: Quad| self.connections@[q.spec_key() as u128]@,
        )
    }
}

impl Dispatcher {
    /// A table without connections.
    pub fn new() -> (d: Dispatcher)
        ensures
            d@ == Map::<Quad, Tcb>::empty(),
            table_wf(d@),
    {
        let d = Dispatcher { connections: HashMap::new() };
        assert(d@ =~= Map::<Quad, Tcb>::empty());
        d
    }

    /// The record of the connection of the flow `quad`, if it has one.
    pub fn get(&self, quad: &Quad) -> (r: Option<Tcb>)
        ensures
            r is Some <==> self@.contains_key(*quad),
            r matches Some(t) ==> t == self@[*quad],
    {
        let k = quad.key();
        match self.connections.get(&k) {
            Some(c) => Some(c.tcb()),
            None => None,
        }
    }

    /// Routes one segment: to the connection of its flow if there is one,
    /// else to `Connection::accept`. A connection that does not go on leaves
    /// the table.
    pub fn dispatch(&mut self, iph: &Ipv4Fields, tcph: &TcpFields, data: &[u8]) -> (out: Delivery)
        requires
            data@.len() <= MAX_DATAGRAM_LEN,
        ensures
            ({
                let r = route(old(self)@, *iph, *tcph, data@.len() as usize);
                &&& final(self)@ == r.table
                &&& wire_view(out.datagrams) == r.datagrams
                &&& out.event == r.event
            }),
            table_wf(old(self)@) ==> table_wf(final(self)@) && out.datagrams@.len() <= 1,
    {
        proof {
            if table_wf(self@) {
                lemma_route_preserves_table_wf(self@, *iph, *tcph, data@.len() as usize);
            }
        }
        let quad = Quad::of(iph, tcph);
        let k = quad.key();
        proof {
            assert forall|q: Quad| q.spec_key() == quad.spec_key() implies q == quad by {
                crate::header::lemma_key_injective(q, quad);
            }
        }
        match self.connections.remove(&k) {
            Some(mut c) => {
                let reaction = c.on_packet(iph, tcph, data);
                match reaction.disposition {
                    Disposition::Keep => {
                        self.connections.insert(k, c);
                        assert(self@ =~= old(self)@.insert(quad, c@));
                    },
                    _ => {
                        assert(self@ =~= old(self)@.remove(quad));
                    },
                }
                Delivery {
                    datagrams: reaction.datagrams,
                    event: Event::Delivered(reaction.disposition),
                }
            },
            None => match Connection::accept(iph, tcph, data) {
                Some((c, d)) => {
                    self.connections.insert(k, c);
                    assert(self@ =~= old(self)@.insert(quad, c@));
                    let mut datagrams: Vec<Vec<u8>> = Vec::new();
                    datagrams.push(d);
                    assert(wire_view(datagrams) =~= seq![d@]);
                    Delivery { datagrams, event: Event::Accepted }
                },
                None => {
                    assert(self@ =~= old(self)@);
                    let datagrams: Vec<Vec<u8>> = Vec::new();
                    assert(wire_view(datagrams) =~= seq![]);
                    Delivery { datagrams, event: Event::Ignored }
                },
            },
        }
    }

    /// Handles one inbound datagram: splits it, routes the segment, and hands
    /// back what is to be sent. A datagram that does not split is dropped and
    /// changes nothing.
    pub fn on_datagram(&mut self, bytes: &[u8]) -> (out: Delivery)
        ensures
            ({
                let r = receive(old(self)@, bytes@);
                &&& final(self)@ == r.table
                &&& wire_view(out.datagrams) == r.datagrams
                &&& out.event == r.event
            }),
            table_wf(old(self)@) ==> table_wf(final(self)@) && out.datagrams@.len() <= 1,
            out.event is Dropped ==> final(self)@ == old(self)@ && out.datagrams@.len() == 0,
    {
        match parse_datagram(bytes) {
            Err(reason) => {
                let datagrams: Vec<Vec<u8>> = Vec::new();
                assert(wire_view(datagrams) =~= seq![]);
                Delivery { datagrams, event: Event::Dropped(reason) }
            },
            Ok(s) => {
                let data = slice_subrange(bytes, s.payload_start, bytes.len());
                self.dispatch(&s.ip, &s.tcp, data)
            },
        }
    }
}

} // verus!
