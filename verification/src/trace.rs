//! What holds of a connection record over one segment and over a whole
//! sequence of segments.

use crate::connection::{Arrival, Disposition, State, Tcb};
use crate::header::{Ipv4Fields, TcpFields, MAX_DATAGRAM_LEN};
use crate::sequence::{
    between_wrapped, lemma_consumed_segment_unacceptable, lemma_empty_segment_at_start_acceptable,
    lemma_mod_add, lemma_seq_add, valid_ack,
};
use vstd::prelude::*;

verus! {

/// No segment of `segs` has more payload than an IPv4 datagram can hold.
pub open spec fn well_sized(segs: Seq<Arrival>) -> bool {
    forall|i: int| 0 <= i < segs.len() ==> (#[trigger] segs[i]).payload_len <= MAX_DATAGRAM_LEN
}

impl Tcb {
    /// The record after it has reacted to each segment of `segs` in turn.
    pub open spec fn run(self, segs: Seq<Arrival>) -> Tcb
        decreases segs.len(),
    {
        if segs.len() == 0 {
            self
        } else {
            self.run(segs.drop_last()).react(segs.last()).tcb
        }
    }

    /// Every segment of `segs` that the record accepted when its turn came
    /// started exactly at `recv.nxt` and carried no SYN.
    pub open spec fn accepted_in_order(self, segs: Seq<Arrival>) -> bool
        decreases segs.len(),
    {
        segs.len() == 0 || {
            let before = self.run(segs.drop_last());
            let a = segs.last();
            &&& self.accepted_in_order(segs.drop_last())
            &&& before.accepts(a) ==> a.header.sequence_number == before.recv.nxt && !a.header.syn
        }
    }

    /// Number of payload bytes in the segments of `segs` that the record
    /// accepted when their turn came.
    pub open spec fn accepted_payload(self, segs: Seq<Arrival>) -> int
        decreases segs.len(),
    {
        if segs.len() == 0 {
            0
        } else {
            self.accepted_payload(segs.drop_last()) + if self.run(segs.drop_last()).accepts(
                segs.last(),
            ) {
                segs.last().payload_len as int
            } else {
                0
            }
        }
    }

    /// Number of segments of `segs` with FIN that the record accepted when
    /// their turn came.
    pub open spec fn accepted_fins(self, segs: Seq<Arrival>) -> int
        decreases segs.len(),
    {
        if segs.len() == 0 {
            0
        } else {
            self.accepted_fins(segs.drop_last()) + if self.run(segs.drop_last()).accepts(
                segs.last(),
            ) && segs.last().header.fin {
                1int
            } else {
                0
            }
        }
    }
}

/// The record that `accept` leaves behind is well-formed.
pub proof fn lemma_accept_wf(ip: Ipv4Fields, tcp: TcpFields, iss: u32)
    ensures
        Tcb::syn_received(ip, tcp, iss).after_emit(seq![]).wf(),
{
}

/// A well-formed record keeps `send.una` between the number before `send.iss`
/// and the number after `send.nxt`: what is unacknowledged was sent.
pub proof fn lemma_wf_una_within_sent(c: Tcb)
    requires
        c.wf(),
    ensures
        between_wrapped(c.send.iss.wrapping_sub(1), c.send.una, c.send.nxt.wrapping_add(1)),
{
}

/// One segment leaves a well-formed record well-formed unless it draws a
/// reset. It never changes the initial sequence numbers or the receive
/// window, never moves the state backwards, and draws at most one datagram.
pub proof fn lemma_react_preserves_wf(c: Tcb, a: Arrival)
    requires
        c.wf(),
    ensures
        c.react(a).disposition != Disposition::Reset ==> c.react(a).tcb.wf(),
        c.react(a).disposition == Disposition::Reset ==> c.state == State::SynRcvd,
        c.react(a).tcb.send.iss == c.send.iss,
        c.react(a).tcb.recv.irs == c.recv.irs,
        c.react(a).tcb.recv.wnd == c.recv.wnd,
        c.react(a).tcb.state.rank() >= c.state.rank(),
        c.react(a).datagrams.len() <= 1,
{
}

/// A segment never changes where a record sends to and from, nor the time to
/// live and the window that it sends.
pub proof fn lemma_react_keeps_addresses(c: Tcb, a: Arrival)
    ensures
        c.react(a).tcb.ip.source == c.ip.source,
        c.react(a).tcb.ip.destination == c.ip.destination,
        c.react(a).tcb.ip.time_to_live == c.ip.time_to_live,
        c.react(a).tcb.tcp.source_port == c.tcp.source_port,
        c.react(a).tcb.tcp.destination_port == c.tcp.destination_port,
        c.react(a).tcb.tcp.window_size == c.tcp.window_size,
        forall|q: crate::header::Quad| c.answers(q) ==> c.react(a).tcb.answers(q),
{
}

/// The steps that the state of a well-formed record can take on one segment.
///
/// - `SynRcvd` ends by an acknowledgment of nothing new, which leads to
///   `Estab`, or by an acknowledgment of our SYN, which starts our close and
///   leads to `FinWait1`.
/// - `Estab` ends by an acknowledgment of our SYN, which leads to `FinWait1`.
/// - `FinWait1` ends by an acknowledgment of our FIN, which leads to
///   `TimeWait` if the segment carries the peer's FIN and to `FinWait2` if it
///   does not.
/// - `FinWait2` and `TimeWait` do not end: in `FinWait2` no acknowledgment
///   number is news any more, so that no later FIN is looked at.
///
/// A connection is closed exactly when it arrives in `TimeWait`.
pub proof fn lemma_transitions(c: Tcb, a: Arrival)
    requires
        c.wf(),
    ensures
        ({
            let r = c.react(a);
            let ack_of = |n: u32| c.accepts(a) && a.header.ack && a.header.acknowledgment_number
                == c.send.iss.wrapping_add(n);
            match c.state {
                State::SynRcvd => {
                    &&& r.tcb.state == State::Estab <==> ack_of(0)
                    &&& r.tcb.state == State::FinWait1 <==> ack_of(1)
                    &&& r.tcb.state == State::SynRcvd || ack_of(0) || ack_of(1)
                },
                State::Estab => {
                    &&& r.tcb.state == State::FinWait1 <==> ack_of(1)
                    &&& r.tcb.state == State::Estab || ack_of(1)
                },
                State::FinWait1 => {
                    &&& r.tcb.state == State::FinWait2 <==> ack_of(2) && !a.header.fin
                    &&& r.tcb.state == State::TimeWait <==> ack_of(2) && a.header.fin
                    &&& r.tcb.state == State::FinWait1 || ack_of(2)
                },
                State::FinWait2 => r.tcb.state == State::FinWait2,
                State::TimeWait => r.tcb.state == State::TimeWait,
            }
        }),
        c.react(a).disposition == Disposition::Closed <==> c.react(a).tcb.state == State::TimeWait
            && c.state != State::TimeWait,
{
}

/// What becomes of a well-formed connection that is not over, by the segment
/// that comes.
///
/// - It is reset exactly when, in `SynRcvd`, an accepted segment acknowledges
///   neither nothing new nor our SYN.
/// - It is closed exactly when, in `FinWait1`, an accepted segment
///   acknowledges our FIN and carries the peer's.
/// - It is violated exactly when, before our close has started, an accepted
///   segment acknowledges our SYN and carries the peer's FIN.
/// - In every other case it goes on.
pub proof fn lemma_dispositions(c: Tcb, a: Arrival)
    requires
        c.wf(),
        !(c.state is TimeWait),
    ensures
        ({
            let r = c.react(a);
            let ack = a.header.acknowledgment_number;
            let acked = c.accepts(a) && a.header.ack;
            &&& r.disposition == Disposition::Reset <==> c.state is SynRcvd && acked && ack
                != c.send.iss && ack != c.send.iss.wrapping_add(1)
            &&& r.disposition == Disposition::Closed <==> c.state is FinWait1 && acked
                && a.header.fin && ack == c.send.iss.wrapping_add(2)
            &&& r.disposition == Disposition::Violation <==> (c.state is SynRcvd
                || c.state is Estab) && acked && a.header.fin && ack == c.send.iss.wrapping_add(1)
        }),
{
}

/// What one segment does to the sequence state of a record whose template
/// carries neither SYN nor FIN.
///
/// - `recv.nxt` moves to the end of the segment if the segment is accepted,
///   and not otherwise.
/// - `send.una` becomes the acknowledgment number if the record takes it,
///   and does not move otherwise.
/// - `send.nxt` moves by one, for our FIN, if the record takes the
///   acknowledgment number before our close has started, and does not move
///   otherwise.
/// - The template carries neither SYN nor FIN afterwards, and a state of
///   `TimeWait` stays.
pub proof fn lemma_react_effects(c: Tcb, a: Arrival)
    requires
        !c.tcp.syn,
        !c.tcp.fin,
    ensures
        ({
            let r = c.react(a).tcb;
            &&& r.recv.nxt == if c.accepts(a) {
                a.header.sequence_number.wrapping_add(
                    a.header.spec_segment_len(a.payload_len as int) as u32,
                )
            } else {
                c.recv.nxt
            }
            &&& r.send.una == if c.takes_ack(a) {
                a.header.acknowledgment_number
            } else {
                c.send.una
            }
            &&& r.send.nxt == if c.takes_ack(a) && (c.state is SynRcvd || c.state is Estab) {
                c.send.nxt.wrapping_add(1)
            } else {
                c.send.nxt
            }
            &&& r.recv.wnd == c.recv.wnd
            &&& !r.tcp.syn && !r.tcp.fin
            &&& c.state is TimeWait ==> r.state is TimeWait
        }),
{
    let h = a.header;
    if c.accepts(a) && h.ack {
        let advanced = Tcb {
            recv: crate::connection::RecvSequence {
                nxt: h.sequence_number.wrapping_add(h.spec_segment_len(a.payload_len as int) as u32),
                ..c.recv
            },
            ..c
        };
        assert(c.react(a) == advanced.on_ack(h));
        assert(advanced.send == c.send);
        assert(advanced.ack_acceptable(h.acknowledgment_number) == c.ack_acceptable(
            h.acknowledgment_number,
        ));
        if advanced.ack_acceptable(h.acknowledgment_number) && !(c.state is TimeWait) && valid_ack(
            c.send.una,
            h.acknowledgment_number,
            c.send.nxt,
        ) {
            lemma_seq_add(c.send.nxt, 1, 0);
        }
    }
}

/// A segment that was accepted changes neither `recv.nxt` nor `send.una` when
/// it comes a second time: with payload, SYN or FIN it now lies outside the
/// window; without them its acknowledgment number is no longer news.
pub proof fn lemma_duplicate_changes_nothing(c: Tcb, a: Arrival)
    requires
        c.wf(),
        a.payload_len <= MAX_DATAGRAM_LEN,
        c.accepts(a),
    ensures
        c.react(a).tcb.react(a).tcb.recv.nxt == c.react(a).tcb.recv.nxt,
        c.react(a).tcb.react(a).tcb.send.una == c.react(a).tcb.send.una,
        a.header.spec_segment_len(a.payload_len as int) > 0 ==> !c.react(a).tcb.accepts(a),
{
    let once = c.react(a).tcb;
    let len = a.header.spec_segment_len(a.payload_len as int) as u32;
    lemma_react_effects(c, a);
    lemma_react_effects(once, a);
    if len > 0 {
        lemma_consumed_segment_unacceptable(a.header.sequence_number, len, c.recv.wnd);
        assert(!once.accepts(a));
    } else {
        lemma_empty_segment_at_start_acceptable(a.header.sequence_number, c.recv.wnd);
        assert(once.accepts(a));
        if c.takes_ack(a) {
            assert(!valid_ack(once.send.una, a.header.acknowledgment_number, once.send.nxt));
        } else {
            assert(once.send == c.send);
            assert(!once.takes_ack(a));
        }
    }
}

/// What one segment does to the receive state of a record: `recv.nxt` moves
/// to the end of the segment if the segment is accepted, and not otherwise;
/// `recv.irs` and `recv.wnd` never move.
pub proof fn lemma_react_recv(c: Tcb, a: Arrival)
    ensures
        c.react(a).tcb.recv.nxt == if c.accepts(a) {
            a.header.sequence_number.wrapping_add(
                a.header.spec_segment_len(a.payload_len as int) as u32,
            )
        } else {
            c.recv.nxt
        },
        c.react(a).tcb.recv.irs == c.recv.irs,
        c.react(a).tcb.recv.wnd == c.recv.wnd,
{
}

/// After any sequence of segments of which the accepted ones came in order,
/// `recv.nxt` has moved forward from where it was by the payload bytes and
/// the FINs accepted, modulo 2^32. Neither `recv.irs` nor `recv.wnd` moves.
pub proof fn lemma_recv_nxt_accounts(c: Tcb, segs: Seq<Arrival>)
    requires
        well_sized(segs),
        c.accepted_in_order(segs),
    ensures
        c.run(segs).recv.nxt as int == (c.recv.nxt + c.accepted_payload(segs) + c.accepted_fins(
            segs,
        )) % 0x1_0000_0000,
        c.run(segs).recv.irs == c.recv.irs,
        c.run(segs).recv.wnd == c.recv.wnd,
        c.accepted_payload(segs) >= 0,
        c.accepted_fins(segs) >= 0,
    decreases segs.len(),
{
    if segs.len() > 0 {
        let earlier = segs.drop_last();
        let a = segs.last();
        let before = c.run(earlier);
        lemma_recv_nxt_accounts(c, earlier);
        lemma_react_recv(before, a);
        assert(c.run(segs).recv == before.react(a).tcb.recv);
        if before.accepts(a) {
            let len = a.header.spec_segment_len(a.payload_len as int);
            let fin = if a.header.fin { 1int } else { 0int };
            let sum = c.recv.nxt + c.accepted_payload(earlier) + c.accepted_fins(earlier);
            assert(len == a.payload_len + fin);
            assert(a.header.sequence_number == before.recv.nxt);
            lemma_seq_add(before.recv.nxt, len as u32, 0);
            lemma_mod_add(sum, len);
            assert(c.accepted_payload(segs) == c.accepted_payload(earlier) + a.payload_len);
            assert(c.accepted_fins(segs) == c.accepted_fins(earlier) + fin);
        }
    }
}

/// After any sequence of segments of which the accepted ones came in order, a
/// connection that `accept` opened on a SYN with sequence number `irs` has
/// `recv.nxt == irs + 1 + payload bytes accepted + FINs accepted`, modulo
/// 2^32.
pub proof fn lemma_recv_nxt_from_irs(ip: Ipv4Fields, tcp: TcpFields, iss: u32, segs: Seq<Arrival>)
    requires
        well_sized(segs),
        Tcb::syn_received(ip, tcp, iss).after_emit(seq![]).accepted_in_order(segs),
    ensures
        ({
            let opened = Tcb::syn_received(ip, tcp, iss).after_emit(seq![]);
            &&& opened.recv.irs == tcp.sequence_number
            &&& opened.run(segs).recv.nxt as int == (tcp.sequence_number + 1
                + opened.accepted_payload(segs) + opened.accepted_fins(segs)) % 0x1_0000_0000
        }),
{
    lemma_recv_nxt_accounts(Tcb::syn_received(ip, tcp, iss).after_emit(seq![]), segs);
}

} // verus!
