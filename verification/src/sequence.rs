//! Sequence-space arithmetic: comparisons of 32-bit sequence numbers read as
//! points on a circle of circumference 2^32.

use vstd::prelude::*;

verus! {

/// Number of steps forward on the sequence circle from `from` to `to`.
pub open spec fn seq_distance(from: u32, to: u32) -> int {
    if to >= from {
        to - from
    } else {
        to - from + 0x1_0000_0000
    }
}

/// The sequence number `n` steps forward of `a` on the circle.
pub open spec fn seq_add(a: u32, n: int) -> u32 {
    ((a + n) % 0x1_0000_0000) as u32
}

/// `x` lies strictly inside the open arc that starts at `start` and is
/// walked forward to `end`. Both end points are outside it, and the arc from
/// a point to itself is empty.
pub open spec fn between_wrapped(start: u32, x: u32, end: u32) -> bool {
    0 < seq_distance(start, x) < seq_distance(start, end)
}

/// An acknowledgment number `ack` is news: `una < ack <= nxt` on the circle.
/// Where the span from `una` to `nxt` is the whole circle but one number, no
/// acknowledgment can be told from an old one, and none is news.
pub open spec fn valid_ack(una: u32, ack: u32, nxt: u32) -> bool {
    &&& 0 < seq_distance(una, ack) <= seq_distance(una, nxt)
    &&& seq_distance(una, nxt) < u32::MAX
}

/// `seq` lies in the window of `wnd` bytes that starts at `nxt`:
/// `nxt <= seq < nxt + wnd` on the circle.
pub open spec fn in_window(nxt: u32, seq: u32, wnd: u16) -> bool {
    seq_distance(nxt, seq) < wnd
}

/// The segment-acceptability test of RFC 793, section 3.3, for a segment that
/// starts at `seq` and occupies `seg_len` sequence numbers, against a receive
/// window of `rcv_wnd` bytes that starts at `rcv_nxt`.
pub open spec fn acceptable_segment(rcv_nxt: u32, seq: u32, seg_len: u32, rcv_wnd: u16) -> bool {
    if seg_len == 0 {
        if rcv_wnd == 0 {
            seq == rcv_nxt
        } else {
            in_window(rcv_nxt, seq, rcv_wnd)
        }
    } else {
        rcv_wnd > 0 && (in_window(rcv_nxt, seq, rcv_wnd) || in_window(
            rcv_nxt,
            seq.wrapping_add((seg_len - 1) as u32),
            rcv_wnd,
        ))
    }
}

/// Tells whether `x` lies strictly between `start` and `end`, walking forward
/// from `start` with wrap-around.
pub fn is_between_wrapped(start: u32, x: u32, end: u32) -> (r: bool)
    ensures
        r == between_wrapped(start, x, end),
        start == x ==> !r,
        x == end ==> !r,
{
    if start == x {
        false
    } else if start < x {
        !(end >= start && end <= x)
    } else {
        end < start && end > x
    }
}

/// Tells whether the acknowledgment number `ack` acknowledges something new
/// that was sent: `una < ack <= nxt` with wrap-around.
pub fn is_valid_ack(una: u32, ack: u32, nxt: u32) -> (r: bool)
    ensures
        r == valid_ack(una, ack, nxt),
        r == between_wrapped(una, ack, nxt.wrapping_add(1)),
{
    if nxt.wrapping_add(1) == una {
        return false;
    }
    if nxt < una {
        ack > una || ack <= nxt
    } else {
        una < ack && ack <= nxt
    }
}

/// Tells whether `seq` lies in the receive window: `nxt <= seq < nxt + wnd`
/// with wrap-around.
pub fn is_valid_segment(nxt: u32, seq: u32, wnd: u16) -> (r: bool)
    ensures
        r == in_window(nxt, seq, wnd),
        r == between_wrapped(nxt.wrapping_sub(1), seq, nxt.wrapping_add(wnd as u32)),
{
    let max = nxt.wrapping_add(wnd as u32);
    if max < nxt {
        seq < max || seq >= nxt
    } else {
        nxt <= seq && seq < max
    }
}

/// The segment-acceptability test of RFC 793, section 3.3.
///
/// | `seg_len` | `rcv_wnd` | acceptable iff |
/// |---|---|---|
/// | 0 | 0 | `seq == rcv_nxt` |
/// | 0 | >0 | `seq` is in the window |
/// | >0 | 0 | never |
/// | >0 | >0 | the first or the last sequence number of the segment is in the window |
pub fn is_acceptable_segment(rcv_nxt: u32, seq: u32, seg_len: u32, rcv_wnd: u16) -> (r: bool)
    ensures
        r == acceptable_segment(rcv_nxt, seq, seg_len, rcv_wnd),
        seg_len == 0 && rcv_wnd > 0 ==> r == between_wrapped(
            rcv_nxt.wrapping_sub(1),
            seq,
            rcv_nxt.wrapping_add(rcv_wnd as u32),
        ),
{
    let before = rcv_nxt.wrapping_sub(1);
    let wend = rcv_nxt.wrapping_add(rcv_wnd as u32);
    if seg_len == 0 {
        if rcv_wnd == 0 {
            seq == rcv_nxt
        } else {
            is_between_wrapped(before, seq, wend)
        }
    } else if rcv_wnd == 0 {
        false
    } else {
        is_between_wrapped(before, seq, wend) || is_between_wrapped(
            before,
            seq.wrapping_add(seg_len - 1),
            wend,
        )
    }
}

/// Wrapping addition is a step forward on the circle, and steps add up.
pub proof fn lemma_seq_add(a: u32, m: u32, n: int)
    requires
        0 <= n,
    ensures
        a.wrapping_add(m) == seq_add(a, m as int),
        seq_add(seq_add(a, m as int), n) == seq_add(a, m + n),
        seq_add(a, 0) == a,
{
}

/// Reducing a sum modulo 2^32 before a further addition changes nothing.
pub proof fn lemma_mod_add(x: int, n: int)
    ensures
        ((x % 0x1_0000_0000) + n) % 0x1_0000_0000 == (x + n) % 0x1_0000_0000,
{
}

/// Neither end of the arc is inside it, and an arc that ends where it starts
/// is empty.
pub proof fn lemma_between_excludes_ends(a: u32, x: u32, b: u32)
    ensures
        !between_wrapped(a, a, b),
        !between_wrapped(a, b, b),
        !between_wrapped(a, x, a),
{
}

/// An acknowledgment is valid exactly when it lies strictly between `una`
/// and the sequence number after `nxt`.
pub proof fn lemma_valid_ack_is_between(una: u32, ack: u32, nxt: u32)
    ensures
        valid_ack(una, ack, nxt) == between_wrapped(una, ack, nxt.wrapping_add(1)),
        valid_ack(una, ack, nxt) ==> ack != una,
{
}

/// For an open window, a zero-length segment is acceptable exactly when its
/// sequence number lies strictly between the number before `rcv_nxt` and the
/// end of the window.
pub proof fn lemma_zero_length_acceptable(rcv_nxt: u32, seq: u32, wnd: u16)
    requires
        wnd > 0,
    ensures
        acceptable_segment(rcv_nxt, seq, 0, wnd) == between_wrapped(
            rcv_nxt.wrapping_sub(1),
            seq,
            rcv_nxt.wrapping_add(wnd as u32),
        ),
{
}

/// A segment that occupies sequence numbers lies outside the window that
/// starts where it ends: once taken, it is not acceptable again.
pub proof fn lemma_consumed_segment_unacceptable(seq: u32, seg_len: u32, wnd: u16)
    requires
        0 < seg_len,
        seg_len + wnd <= 0x1_0000_0000,
    ensures
        !acceptable_segment(seq.wrapping_add(seg_len), seq, seg_len, wnd),
{
}

/// A zero-length segment at the start of the window is acceptable, whatever
/// the window.
pub proof fn lemma_empty_segment_at_start_acceptable(seq: u32, wnd: u16)
    ensures
        acceptable_segment(seq, seq, 0, wnd),
{
}

/// With a closed window only the zero-length segment at `rcv_nxt` is
/// acceptable.
pub proof fn lemma_closed_window(rcv_nxt: u32, seq: u32, seg_len: u32)
    ensures
        acceptable_segment(rcv_nxt, seq, seg_len, 0) == (seg_len == 0 && seq == rcv_nxt),
{
}

} // verus!
