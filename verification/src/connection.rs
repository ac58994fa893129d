//! The connection record (the transmission control block) and its state
//! machine: passive open, acknowledgment processing and active close.

use crate::header::{Ipv4Fields, Quad, TcpFields, MAX_DATAGRAM_LEN};
use crate::sequence::{
    acceptable_segment, between_wrapped, is_acceptable_segment, is_between_wrapped, is_valid_ack,
    seq_add, valid_ack,
};
use crate::wire::{
    frame, ipv4_header_bytes, ipv4_header_wire, tcp_checksum, tcp_checksum_ipv4, tcp_header_bytes,
    tcp_header_wire, IpTemplate, TcpTemplate, TCP_HEADER_LEN,
};
use crate::trace::{lemma_react_preserves_wf, lemma_react_recv};
use vstd::pervasive::unreached;
use vstd::prelude::*;
use vstd::slice::slice_subrange;

verus! {

/// Largest datagram that the send path emits, in bytes.
pub const MTU: usize = 1500;

/// Largest payload that fits in one emitted datagram behind the two headers.
pub const MAX_SEGMENT_PAYLOAD: usize = 1460;

/// Initial send sequence number that `Connection::accept` uses.
pub const INITIAL_SEND_SEQUENCE: u32 = 0;

/// Receive window that every connection advertises, in bytes.
pub const RECEIVE_WINDOW: u16 = 1024;

/// Time to live of every emitted datagram.
pub const TIME_TO_LIVE: u8 = 64;

/// The states of a connection that was opened by a peer and is closed by us.
#[derive(Clone, Copy, Debug, PartialEq, Eq, Structural)]
pub enum State {
    SynRcvd,
    Estab,
    /// We sent FIN to say that we want to close the connection.
    FinWait1,
    /// The peer acknowledged our FIN.
    FinWait2,
    /// The peer sent its FIN too: the connection is over.
    TimeWait,
}

impl State {
    /// Both sides have exchanged their initial sequence numbers.
    pub open spec fn synchronized(self) -> bool {
        !(self is SynRcvd)
    }

    /// Position of the state on the one path that a connection walks.
    pub open spec fn rank(self) -> int {
        match self {
            State::SynRcvd => 0,
            State::Estab => 1,
            State::FinWait1 => 2,
            State::FinWait2 => 3,
            State::TimeWait => 4,
        }
    }

    /// Tells whether both sides have exchanged their initial sequence
    /// numbers: false in `SynRcvd`, true in every other state.
    pub fn is_synchronized(&self) -> (r: bool)
        ensures
            r == self.synchronized(),
            r == !(*self == State::SynRcvd),
    {
        match *self {
            State::SynRcvd => false,
            State::Estab => true,
            State::FinWait1 => true,
            State::FinWait2 => true,
            State::TimeWait => true,
        }
    }
}

/// State of the send sequence space (RFC 793, section 3.2).
#[derive(Clone, Copy, Debug, PartialEq, Eq, Structural)]
pub struct SendSequence {
    /// Oldest sequence number that the peer has not acknowledged.
    pub una: u32,
    /// Next sequence number that we will use.
    pub nxt: u32,
    /// Send window.
    pub wnd: u16,
    /// Send urgent pointer.
    pub up: bool,
    /// Segment sequence number used for the last window update.
    pub wl1: u32,
    /// Segment acknowledgment number used for the last window update.
    pub wl2: u32,
    /// Initial send sequence number.
    pub iss: u32,
}

/// State of the receive sequence space (RFC 793, section 3.2).
#[derive(Clone, Copy, Debug, PartialEq, Eq, Structural)]
pub struct RecvSequence {
    /// Next sequence number that we expect.
    pub nxt: u32,
    /// Receive window.
    pub wnd: u16,
    /// Receive urgent pointer.
    pub up: bool,
    /// Initial receive sequence number.
    pub irs: u32,
}

/// What becomes of a connection after a segment.
#[derive(Clone, Copy, Debug, PartialEq, Eq, Structural)]
pub enum Disposition {
    /// The connection goes on.
    Keep,
    /// The connection reached `TimeWait`: it is over and leaves the table.
    Closed,
    /// A reset was emitted: the connection leaves the table.
    Reset,
    /// The peer asked for a transition that this state machine does not
    /// have: the connection leaves the table.
    Violation,
}

/// The record of one connection: a plain value, the model of `Connection`.
#[derive(Clone, Copy, Debug, PartialEq, Eq, Structural)]
pub struct Tcb {
    pub state: State,
    pub send: SendSequence,
    pub recv: RecvSequence,
    /// IPv4 header of what we send, addressed to the peer.
    pub ip: IpTemplate,
    /// TCP header of what we send, addressed to the peer.
    pub tcp: TcpTemplate,
}

/// One inbound segment as the state machine sees it: its header and the
/// length of its payload.
#[derive(Clone, Copy, Debug, PartialEq, Eq, Structural)]
pub struct Arrival {
    pub header: TcpFields,
    pub payload_len: usize,
}

/// What a connection record does with one segment: the record afterwards, the
/// datagrams to send in order, and what becomes of the connection.
pub struct Reacted {
    pub tcb: Tcb,
    pub datagrams: Seq<Seq<u8>>,
    pub disposition: Disposition,
}

/// Number of payload bytes that one emission carries out of `payload_len`
/// offered.
pub open spec fn sent_len(payload_len: int) -> int {
    if payload_len < MAX_SEGMENT_PAYLOAD {
        payload_len
    } else {
        MAX_SEGMENT_PAYLOAD as int
    }
}

impl Tcb {
    /// The record that an inbound SYN with the headers `ip` and `tcp` opens,
    /// before the SYN+ACK is emitted: both templates point back at the peer
    /// and the TCP template carries SYN and ACK.
    pub open spec fn syn_received(ip: Ipv4Fields, tcp: TcpFields, iss: u32) -> Tcb {
        Tcb {
            state: State::SynRcvd,
            send: SendSequence {
                una: iss,
                nxt: iss,
                wnd: RECEIVE_WINDOW,
                up: false,
                wl1: 0,
                wl2: 0,
                iss,
            },
            recv: RecvSequence {
                nxt: tcp.sequence_number.wrapping_add(1),
                wnd: tcp.window_size,
                up: false,
                irs: tcp.sequence_number,
            },
            ip: IpTemplate {
                source: ip.destination,
                destination: ip.source,
                time_to_live: TIME_TO_LIVE,
                payload_len: 0,
            },
            tcp: TcpTemplate {
                source_port: tcp.destination_port,
                destination_port: tcp.source_port,
                sequence_number: iss,
                acknowledgment_number: 0,
                window_size: RECEIVE_WINDOW,
                syn: true,
                ack: true,
                fin: false,
                rst: false,
                checksum: 0,
            },
        }
    }

    /// Number of sequence numbers that the next emission takes for its
    /// control flags: one for SYN and one for FIN.
    pub open spec fn flag_len(self) -> int {
        (if self.tcp.syn { 1int } else { 0int }) + (if self.tcp.fin { 1int } else { 0int })
    }

    /// The record with both templates as they go on the wire with `payload`:
    /// sequence and acknowledgment number stamped, lengths and checksum set.
    pub open spec fn stamped(self, payload: Seq<u8>) -> Tcb {
        let n = sent_len(payload.len() as int);
        let ip = IpTemplate { payload_len: (TCP_HEADER_LEN + n) as u16, ..self.ip };
        let tcp = TcpTemplate {
            sequence_number: self.send.nxt,
            acknowledgment_number: self.recv.nxt,
            ..self.tcp
        };
        Tcb {
            ip,
            tcp: TcpTemplate {
                checksum: tcp_checksum_ipv4(ip, tcp, payload.subrange(0, n)),
                ..tcp
            },
            ..self
        }
    }

    /// The datagram that the send path emits for `payload`: IPv4 header, TCP
    /// header, and as much of the payload as fits.
    pub open spec fn datagram(self, payload: Seq<u8>) -> Seq<u8> {
        let s = self.stamped(payload);
        ipv4_header_wire(s.ip) + tcp_header_wire(s.tcp) + payload.subrange(
            0,
            sent_len(payload.len() as int),
        )
    }

    /// The record after the send path emitted `payload`: `send.nxt` moved
    /// past what was sent, SYN and FIN taken off the template.
    pub open spec fn after_emit(self, payload: Seq<u8>) -> Tcb {
        let s = self.stamped(payload);
        Tcb {
            send: SendSequence {
                nxt: seq_add(self.send.nxt, sent_len(payload.len() as int) + self.flag_len()),
                ..self.send
            },
            tcp: TcpTemplate { syn: false, fin: false, ..s.tcp },
            ..s
        }
    }

    /// The record with the reset flag on its template and the template's
    /// sequence and acknowledgment number zeroed.
    pub open spec fn with_reset(self) -> Tcb {
        Tcb {
            tcp: TcpTemplate {
                rst: true,
                sequence_number: 0,
                acknowledgment_number: 0,
                ..self.tcp
            },
            ..self
        }
    }

    /// The record is one that a connection made by `accept` can hold while it
    /// is in the table: the template carries ACK and no other flag, and the
    /// state fixes how far `send.una` and `send.nxt` are from `send.iss`,
    /// since the only sequence numbers that this state machine sends are
    /// those of its SYN and of its FIN.
    pub open spec fn wf(self) -> bool {
        &&& self.tcp.ack && !self.tcp.syn && !self.tcp.fin && !self.tcp.rst
        &&& match self.state {
            State::SynRcvd | State::Estab => {
                &&& self.send.una == self.send.iss
                &&& self.send.nxt == self.send.iss.wrapping_add(1)
            },
            State::FinWait1 => {
                &&& self.send.una == self.send.iss.wrapping_add(1)
                &&& self.send.nxt == self.send.iss.wrapping_add(2)
            },
            State::FinWait2 | State::TimeWait => {
                &&& self.send.una == self.send.iss.wrapping_add(2)
                &&& self.send.nxt == self.send.iss.wrapping_add(2)
            },
        }
    }

    /// Both templates answer the flow `quad`: what the record sends goes from
    /// the flow's destination to its source.
    pub open spec fn answers(self, quad: Quad) -> bool {
        &&& self.ip.source == quad.dst_addr
        &&& self.ip.destination == quad.src_addr
        &&& self.tcp.source_port == quad.dst_port
        &&& self.tcp.destination_port == quad.src_port
    }

    /// The record passes the segment-acceptability test on `a`.
    pub open spec fn accepts(self, a: Arrival) -> bool {
        acceptable_segment(
            self.recv.nxt,
            a.header.sequence_number,
            a.header.spec_segment_len(a.payload_len as int) as u32,
            self.recv.wnd,
        )
    }

    /// The acknowledgment number `ack` names nothing that we have not sent
    /// and nothing before `send.una`: `una <= ack <= nxt` on the circle.
    pub open spec fn ack_acceptable(self, ack: u32) -> bool {
        between_wrapped(self.send.una.wrapping_sub(1), ack, self.send.nxt.wrapping_add(1))
    }

    /// The record takes the acknowledgment number of `a` for its `send.una`:
    /// the segment is acceptable and carries ACK, the state is not
    /// `TimeWait`, and the number acknowledges something new that was sent.
    pub open spec fn takes_ack(self, a: Arrival) -> bool {
        &&& self.accepts(a)
        &&& a.header.ack
        &&& self.ack_acceptable(a.header.acknowledgment_number)
        &&& !(self.state is TimeWait)
        &&& valid_ack(self.send.una, a.header.acknowledgment_number, self.send.nxt)
    }

    /// What the record does with the segment `a`.
    ///
    /// 1. A segment that fails the acceptability test changes nothing but is
    ///    answered with an empty ACK, unless it carries RST.
    /// 2. Otherwise `recv.nxt` moves to the end of the segment.
    /// 3. Without the ACK flag nothing more happens. With it, the
    ///    acknowledgment number is taken: see `on_ack`.
    pub open spec fn react(self, a: Arrival) -> Reacted {
        if !self.accepts(a) {
            if a.header.rst {
                Reacted { tcb: self, datagrams: seq![], disposition: Disposition::Keep }
            } else {
                Reacted {
                    tcb: self.after_emit(seq![]),
                    datagrams: seq![self.datagram(seq![])],
                    disposition: Disposition::Keep,
                }
            }
        } else {
            let advanced = Tcb {
                recv: RecvSequence {
                    nxt: a.header.sequence_number.wrapping_add(
                        a.header.spec_segment_len(a.payload_len as int) as u32,
                    ),
                    ..self.recv
                },
                ..self
            };
            if !a.header.ack {
                Reacted { tcb: advanced, datagrams: seq![], disposition: Disposition::Keep }
            } else {
                advanced.on_ack(a.header)
            }
        }
    }

    /// What the record does with the acknowledgment number of an accepted
    /// segment.
    ///
    /// - In `SynRcvd` an acceptable number establishes the connection; any
    ///   other is answered with a reset, which ends the connection.
    /// - In the synchronized states a number that is not acceptable is
    ///   answered with an empty ACK and the segment is dropped.
    /// - In `Estab`, `FinWait1` and `FinWait2` a number that acknowledges
    ///   nothing new ends the processing; one that does becomes `send.una`.
    /// - What follows is in `after_ack`.
    pub open spec fn on_ack(self, h: TcpFields) -> Reacted {
        let ack = h.acknowledgment_number;
        if !self.ack_acceptable(ack) {
            if self.state.synchronized() {
                Reacted {
                    tcb: self.after_emit(seq![]),
                    datagrams: seq![self.datagram(seq![])],
                    disposition: Disposition::Keep,
                }
            } else {
                Reacted {
                    tcb: self.with_reset().after_emit(seq![]),
                    datagrams: seq![self.with_reset().datagram(seq![])],
                    disposition: Disposition::Reset,
                }
            }
        } else {
            let established = if self.state is SynRcvd {
                Tcb { state: State::Estab, ..self }
            } else {
                self
            };
            if established.state is TimeWait {
                established.after_ack(h)
            } else if !valid_ack(self.send.una, ack, self.send.nxt) {
                Reacted { tcb: established, datagrams: seq![], disposition: Disposition::Keep }
            } else {
                Tcb { send: SendSequence { una: ack, ..self.send }, ..established }.after_ack(h)
            }
        }
    }

    /// What the record does once the acknowledgment number is taken.
    ///
    /// - In `Estab` it closes at once: it emits an empty segment with FIN and
    ///   goes to `FinWait1`.
    /// - In `FinWait1`, once the peer has acknowledged our SYN and our FIN
    ///   (`send.una == send.iss + 2`), it goes to `FinWait2`.
    /// - A peer's FIN in `FinWait2` is answered with an empty ACK and ends
    ///   the connection in `TimeWait`; in any other state it asks for a
    ///   transition that the state machine does not have.
    pub open spec fn after_ack(self, h: TcpFields) -> Reacted {
        let fin_sent = Tcb { tcp: TcpTemplate { fin: true, ..self.tcp }, ..self };
        let closing = if self.state is Estab {
            Tcb { state: State::FinWait1, ..fin_sent.after_emit(seq![]) }
        } else {
            self
        };
        let first = if self.state is Estab {
            seq![fin_sent.datagram(seq![])]
        } else {
            seq![]
        };
        let waiting = if closing.state is FinWait1 && closing.send.una
            == closing.send.iss.wrapping_add(2) {
            Tcb { state: State::FinWait2, ..closing }
        } else {
            closing
        };
        if !h.fin {
            Reacted { tcb: waiting, datagrams: first, disposition: Disposition::Keep }
        } else if waiting.state is FinWait2 {
            Reacted {
                tcb: Tcb { state: State::TimeWait, ..waiting.after_emit(seq![]) },
                datagrams: first.push(waiting.datagram(seq![])),
                disposition: Disposition::Closed,
            }
        } else {
            Reacted { tcb: waiting, datagrams: first, disposition: Disposition::Violation }
        }
    }
}

/// One emitted datagram and the number of payload bytes in it.
#[derive(Debug)]
pub struct Emitted {
    pub datagram: Vec<u8>,
    pub payload_len: usize,
}

/// What `Connection::on_packet` hands back: the datagrams to send, in order,
/// and what becomes of the connection.
#[derive(Debug)]
pub struct Reaction {
    pub datagrams: Vec<Vec<u8>>,
    pub disposition: Disposition,
}

/// The bytes of each of `datagrams`, in order.
pub open spec fn wire_view(datagrams: Vec<Vec<u8>>) -> Seq<Seq<u8>> {
    Seq::new(datagrams@.len(), |i: int| datagrams@[i]@)
}

/// A connection: the transmission control block of one flow. Only `accept`
/// makes one.
#[derive(Debug)]
pub struct Connection {
    tcb: Tcb,
}

impl View for Connection {
    type V = Tcb;

    closed spec fn view(&self) -> Tcb {
        self.tcb
    }
}

impl Connection {
    /// A copy of the connection's record.
    pub fn tcb(&self) -> (t: Tcb)
        ensures
            t == self@,
    {
        self.tcb
    }

    /// The state of the connection.
    pub fn state(&self) -> (s: State)
        ensures
            s == self@.state,
    {
        self.tcb.state
    }

    /// Answers an inbound segment of an unknown flow. A segment without SYN
    /// is ignored. A SYN opens a connection in `SynRcvd` with the initial
    /// send sequence number `INITIAL_SEND_SEQUENCE`; the connection comes
    /// back together with the SYN+ACK datagram to send.
    pub fn accept(iph: &Ipv4Fields, tcph: &TcpFields, data: &[u8]) -> (r: Option<
        (Connection, Vec<u8>),
    >)
        ensures
            r is Some <==> tcph.syn,
            r matches Some((c, d)) ==> {
                let opened = Tcb::syn_received(*iph, *tcph, INITIAL_SEND_SEQUENCE);
                &&& c@ == opened.after_emit(seq![])
                &&& d@ == opened.datagram(seq![])
                &&& c@.wf()
            },
    {
        Connection::accept_with_iss(iph, tcph, data, INITIAL_SEND_SEQUENCE)
    }

    /// As `accept`, with `iss` as the initial send sequence number.
    #[allow(unused_variables)]
    pub fn accept_with_iss(iph: &Ipv4Fields, tcph: &TcpFields, data: &[u8], iss: u32) -> (r:
        Option<(Connection, Vec<u8>)>)
        ensures
            r is Some <==> tcph.syn,
            r matches Some((c, d)) ==> {
                let opened = Tcb::syn_received(*iph, *tcph, iss);
                &&& c@ == opened.after_emit(seq![])
                &&& d@ == opened.datagram(seq![])
                &&& c@.state == State::SynRcvd
                &&& c@.send.una == iss
                &&& c@.send.nxt == iss.wrapping_add(1)
                &&& c@.recv.irs == tcph.sequence_number
                &&& c@.recv.nxt == tcph.sequence_number.wrapping_add(1)
                &&& c@.wf()
            },
    {
        if !tcph.syn {
            return None;
        }
        let mut c = Connection {
            tcb: Tcb {
                state: State::SynRcvd,
                send: SendSequence {
                    una: iss,
                    nxt: iss,
                    wnd: RECEIVE_WINDOW,
                    up: false,
                    wl1: 0,
                    wl2: 0,
                    iss,
                },
                recv: RecvSequence {
                    nxt: tcph.sequence_number.wrapping_add(1),
                    wnd: tcph.window_size,
                    up: false,
                    irs: tcph.sequence_number,
                },
                ip: IpTemplate {
                    source: iph.destination,
                    destination: iph.source,
                    time_to_live: TIME_TO_LIVE,
                    payload_len: 0,
                },
                tcp: TcpTemplate {
                    source_port: tcph.destination_port,
                    destination_port: tcph.source_port,
                    sequence_number: iss,
                    acknowledgment_number: 0,
                    window_size: RECEIVE_WINDOW,
                    syn: true,
                    ack: true,
                    fin: false,
                    rst: false,
                    checksum: 0,
                },
            },
        };
        let d = c.emit_empty();
        Some((c, d))
    }

    /// The send path. Stamps the templates with `send.nxt` and `recv.nxt`,
    /// frames one datagram of at most `MTU` bytes with as much of `payload`
    /// as fits, moves `send.nxt` past the payload sent, and past SYN and FIN
    /// if the template carried them, which it then no longer does.
    pub fn write(&mut self, payload: &[u8]) -> (out: Emitted)
        ensures
            final(self)@ == old(self)@.after_emit(payload@),
            out.datagram@ == old(self)@.datagram(payload@),
            out.payload_len == sent_len(payload@.len() as int),
            out.datagram@.len() == 40 + out.payload_len,
            out.datagram@.len() <= MTU,
            final(self)@.send.nxt as int == (old(self)@.send.nxt + out.payload_len + old(
                self,
            )@.flag_len()) % 0x1_0000_0000,
            payload@.len() <= MAX_SEGMENT_PAYLOAD ==> out.payload_len == payload@.len(),
            !final(self)@.tcp.syn,
            !final(self)@.tcp.fin,
            final(self)@.state == old(self)@.state,
            final(self)@.recv == old(self)@.recv,
            final(self)@.send.una == old(self)@.send.una,
    {
        let n = if payload.len() < MAX_SEGMENT_PAYLOAD {
            payload.len()
        } else {
            MAX_SEGMENT_PAYLOAD
        };
        let body = slice_subrange(payload, 0, n);
        self.tcb.tcp.sequence_number = self.tcb.send.nxt;
        self.tcb.tcp.acknowledgment_number = self.tcb.recv.nxt;
        self.tcb.ip.payload_len = (TCP_HEADER_LEN + n) as u16;
        self.tcb.tcp.checksum = match tcp_checksum(&self.tcb.ip, &self.tcb.tcp, body) {
            Some(c) => c,
            None => unreached(),
        };
        let ip_bytes = match ipv4_header_bytes(&self.tcb.ip) {
            Some(b) => b,
            None => unreached(),
        };
        let tcp_bytes = match tcp_header_bytes(&self.tcb.tcp) {
            Some(b) => b,
            None => unreached(),
        };
        let datagram = frame(ip_bytes.as_slice(), tcp_bytes.as_slice(), body);
        self.tcb.send.nxt = self.tcb.send.nxt.wrapping_add(n as u32);
        if self.tcb.tcp.syn {
            self.tcb.send.nxt = self.tcb.send.nxt.wrapping_add(1);
            self.tcb.tcp.syn = false;
        }
        if self.tcb.tcp.fin {
            self.tcb.send.nxt = self.tcb.send.nxt.wrapping_add(1);
            self.tcb.tcp.fin = false;
        }
        Emitted { datagram, payload_len: n }
    }

    /// Emits a reset: puts the reset flag on the template, zeroes its
    /// sequence and acknowledgment number, and sends an empty segment through
    /// the send path, which stamps both numbers anew.
    pub fn send_reset(&mut self) -> (datagram: Vec<u8>)
        ensures
            final(self)@ == old(self)@.with_reset().after_emit(seq![]),
            datagram@ == old(self)@.with_reset().datagram(seq![]),
            final(self)@.tcp.rst,
    {
        self.tcb.tcp.rst = true;
        self.tcb.tcp.sequence_number = 0;
        self.tcb.tcp.acknowledgment_number = 0;
        self.emit_empty()
    }

    /// Handles one inbound segment of this connection: the acceptability
    /// test, the receive pointer, the acknowledgment number, our close, and
    /// the peer's FIN, as `Tcb::react` lays them out. Hands back the
    /// datagrams to send and what becomes of the connection.
    #[allow(unused_variables)]
    pub fn on_packet(&mut self, iph: &Ipv4Fields, tcph: &TcpFields, data: &[u8]) -> (out: Reaction)
        requires
            data@.len() <= MAX_DATAGRAM_LEN,
        ensures
            ({
                let a = Arrival { header: *tcph, payload_len: data@.len() as usize };
                let r = old(self)@.react(a);
                &&& final(self)@ == r.tcb
                &&& wire_view(out.datagrams) == r.datagrams
                &&& out.disposition == r.disposition
            }),
            final(self)@.recv.nxt == if old(self)@.accepts(
                Arrival { header: *tcph, payload_len: data@.len() as usize },
            ) {
                tcph.sequence_number.wrapping_add(
                    tcph.spec_segment_len(data@.len() as int) as u32,
                )
            } else {
                old(self)@.recv.nxt
            },
            old(self)@.wf() && out.disposition != Disposition::Reset ==> final(self)@.wf(),
            old(self)@.wf() ==> out.datagrams@.len() <= 1,
    {
        proof {
            let a = Arrival { header: *tcph, payload_len: data@.len() as usize };
            lemma_react_recv(self@, a);
            if self@.wf() {
                lemma_react_preserves_wf(self@, a);
            }
        }
        let mut datagrams: Vec<Vec<u8>> = Vec::new();
        assert(wire_view(datagrams) =~= seq![]);
        let seqn = tcph.sequence_number;
        let seg_len = tcph.segment_len(data.len());
        if !is_acceptable_segment(self.tcb.recv.nxt, seqn, seg_len, self.tcb.recv.wnd) {
            if !tcph.rst {
                self.emit_into(&mut datagrams);
            }
            return Reaction { datagrams, disposition: Disposition::Keep };
        }
        self.tcb.recv.nxt = seqn.wrapping_add(seg_len);
        if !tcph.ack {
            return Reaction { datagrams, disposition: Disposition::Keep };
        }
        let ackn = tcph.acknowledgment_number;
        if !is_between_wrapped(
            self.tcb.send.una.wrapping_sub(1),
            ackn,
            self.tcb.send.nxt.wrapping_add(1),
        ) {
            if self.tcb.state.is_synchronized() {
                self.emit_into(&mut datagrams);
                return Reaction { datagrams, disposition: Disposition::Keep };
            }
            let d = self.send_reset();
            datagrams.push(d);
            assert(wire_view(datagrams) =~= seq![d@]);
            return Reaction { datagrams, disposition: Disposition::Reset };
        }
        if let State::SynRcvd = self.tcb.state {
            self.tcb.state = State::Estab;
        }
        if let State::Estab | State::FinWait1 | State::FinWait2 = self.tcb.state {
            if !is_valid_ack(self.tcb.send.una, ackn, self.tcb.send.nxt) {
                return Reaction { datagrams, disposition: Disposition::Keep };
            }
            self.tcb.send.una = ackn;
        }
        if let State::Estab = self.tcb.state {
            self.tcb.tcp.fin = true;
            self.emit_into(&mut datagrams);
            self.tcb.state = State::FinWait1;
        }
        if let State::FinWait1 = self.tcb.state {
            if self.tcb.send.una == self.tcb.send.iss.wrapping_add(2) {
                self.tcb.state = State::FinWait2;
            }
        }
        if tcph.fin {
            if let State::FinWait2 = self.tcb.state {
                self.emit_into(&mut datagrams);
                self.tcb.state = State::TimeWait;
                return Reaction { datagrams, disposition: Disposition::Closed };
            }
            return Reaction { datagrams, disposition: Disposition::Violation };
        }
        Reaction { datagrams, disposition: Disposition::Keep }
    }

    /// Emits one segment without payload and puts it behind `datagrams`.
    fn emit_into(&mut self, datagrams: &mut Vec<Vec<u8>>)
        ensures
            final(self)@ == old(self)@.after_emit(seq![]),
            wire_view(*final(datagrams)) == wire_view(*old(datagrams)).push(
                old(self)@.datagram(seq![]),
            ),
    {
        let d = self.emit_empty();
        datagrams.push(d);
        assert(wire_view(*datagrams) =~= wire_view(*old(datagrams)).push(d@));
    }

    /// Emits one segment without payload through the send path.
    fn emit_empty(&mut self) -> (datagram: Vec<u8>)
        ensures
            final(self)@ == old(self)@.after_emit(seq![]),
            datagram@ == old(self)@.datagram(seq![]),
    {
        let nothing: Vec<u8> = Vec::new();
        let out = self.write(nothing.as_slice());
        assert(nothing@ =~= seq![]);
        out.datagram
    }
}

} // verus!
