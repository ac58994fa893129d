use tuntcp::sequence::{is_acceptable_segment, is_between_wrapped, is_valid_ack, is_valid_segment};

/// The test written the other way round: `nxt` must not lie strictly between
/// `una` and `ack`.
fn valid_ack_by_exclusion(una: u32, ack: u32, nxt: u32) -> bool {
    if una < ack {
        if nxt > una && nxt < ack {
            return false;
        }
    } else {
        if nxt >= ack && nxt < una {
        } else {
            return false;
        }
    }
    return true;
}

#[test]
fn test_mine_og_comparison_valid_ack() {
    for _ in 1..1000000 {
        let una = rand::random::<u32>();
        let ack = rand::random::<u32>();
        let nxt = rand::random::<u32>();
        assert_eq!(is_valid_ack(ack, una, nxt), valid_ack_by_exclusion(ack, una, nxt));
        assert_eq!(
            is_valid_ack(una, ack, nxt),
            is_between_wrapped(una, ack, nxt.wrapping_add(1))
        );
    }
}

#[test]
fn test_mine_og_comparison_valid_window() {
    for _ in 1..1000000 {
        let nxt = rand::random::<u32>();
        let seq = rand::random::<u32>();
        let wnd = rand::random::<u16>();
        assert_eq!(
            is_valid_segment(nxt, seq, wnd),
            is_between_wrapped(nxt.wrapping_sub(1), seq, nxt.wrapping_add(wnd as u32))
        );
    }
}

#[test]
fn between_without_wrap() {
    assert!(is_between_wrapped(5, 7, 9));
    assert!(is_between_wrapped(0, 1, 2));
    assert!(!is_between_wrapped(5, 9, 7));
    assert!(!is_between_wrapped(5, 4, 9));
    assert!(!is_between_wrapped(5, 10, 9));
}

#[test]
fn between_with_wrap() {
    // the arc runs from 0xFFFF_FFF0 over zero to 0x10
    assert!(is_between_wrapped(0xFFFF_FFF0, 0xFFFF_FFFF, 0x10));
    assert!(is_between_wrapped(0xFFFF_FFF0, 0, 0x10));
    assert!(is_between_wrapped(0xFFFF_FFF0, 0xF, 0x10));
    assert!(!is_between_wrapped(0xFFFF_FFF0, 0x10, 0x10));
    assert!(!is_between_wrapped(0xFFFF_FFF0, 0x11, 0x10));
    assert!(!is_between_wrapped(0xFFFF_FFF0, 0xFFFF_FFEF, 0x10));
    // x is behind zero, the end is not
    assert!(is_between_wrapped(9, 3, 5));
    assert!(!is_between_wrapped(9, 5, 3));
}

#[test]
fn between_excludes_both_ends() {
    for &(a, b) in &[(0u32, 0u32), (0, 1), (1, 0), (7, 7), (u32::MAX, 0), (0, u32::MAX), (3, 0x8000_0000)] {
        assert!(!is_between_wrapped(a, a, b));
        assert!(!is_between_wrapped(a, b, b));
        // the arc from a point to itself is empty
        assert!(!is_between_wrapped(a, b, a));
    }
}

#[test]
fn between_is_a_function_of_its_arguments() {
    for &(a, x, b) in &[(1u32, 2u32, 3u32), (3, 2, 1), (u32::MAX, 0, 1), (5, 5, 5), (10, 0xFFFF_0000, 9)] {
        assert_eq!(is_between_wrapped(a, x, b), is_between_wrapped(a, x, b));
    }
}

#[test]
fn valid_ack_without_wrap() {
    // una < ack <= nxt
    assert!(!is_valid_ack(100, 100, 200));
    assert!(is_valid_ack(100, 101, 200));
    assert!(is_valid_ack(100, 200, 200));
    assert!(!is_valid_ack(100, 201, 200));
    assert!(!is_valid_ack(100, 99, 200));
    // nothing is in flight
    assert!(!is_valid_ack(100, 100, 100));
    assert!(!is_valid_ack(100, 101, 100));
}

#[test]
fn valid_ack_while_send_nxt_crosses_zero() {
    let una = 0xFFFF_FFFE;
    let nxt = 0x0000_0001;
    assert!(!is_valid_ack(una, una, nxt));
    assert!(is_valid_ack(una, 0xFFFF_FFFF, nxt));
    assert!(is_valid_ack(una, 0, nxt));
    assert!(is_valid_ack(una, 1, nxt));
    assert!(!is_valid_ack(una, 2, nxt));
    assert!(!is_valid_ack(una, 0xFFFF_FFFD, nxt));
    // send.nxt is exactly zero
    assert!(is_valid_ack(0xFFFF_FFFF, 0, 0));
    assert!(!is_valid_ack(0xFFFF_FFFF, 1, 0));
}

#[test]
fn valid_ack_agrees_with_between_on_the_whole_circle() {
    // the unacknowledged span covers every other number: nothing is valid
    for &(una, nxt) in &[(1u32, 0u32), (0, u32::MAX), (0x8000_0000, 0x7FFF_FFFF)] {
        for &ack in &[0u32, 1, 5, 0x7FFF_FFFF, 0x8000_0000, u32::MAX] {
            assert!(!is_valid_ack(una, ack, nxt));
            assert_eq!(
                is_valid_ack(una, ack, nxt),
                is_between_wrapped(una, ack, nxt.wrapping_add(1))
            );
        }
    }
}

#[test]
fn valid_ack_equals_between_on_edges() {
    let edges = [0u32, 1, 2, 0x7FFF_FFFF, 0x8000_0000, 0xFFFF_FFFE, 0xFFFF_FFFF];
    for &una in &edges {
        for &ack in &edges {
            for &nxt in &edges {
                assert_eq!(
                    is_valid_ack(una, ack, nxt),
                    is_between_wrapped(una, ack, nxt.wrapping_add(1))
                );
            }
        }
    }
}

#[test]
fn valid_segment_window_bounds() {
    // nxt <= seq < nxt + wnd
    assert!(is_valid_segment(1000, 1000, 10));
    assert!(is_valid_segment(1000, 1009, 10));
    assert!(!is_valid_segment(1000, 1010, 10));
    assert!(!is_valid_segment(1000, 999, 10));
    assert!(!is_valid_segment(1000, 1000, 0));
}

#[test]
fn valid_segment_window_over_zero() {
    let nxt = 0xFFFF_FFF0;
    assert!(is_valid_segment(nxt, nxt, 32));
    assert!(is_valid_segment(nxt, 0xFFFF_FFFF, 32));
    assert!(is_valid_segment(nxt, 0, 32));
    assert!(is_valid_segment(nxt, 0xF, 32));
    assert!(!is_valid_segment(nxt, 0x10, 32));
    assert!(!is_valid_segment(nxt, 0xFFFF_FFEF, 32));
    // the window ends exactly at zero
    assert!(is_valid_segment(nxt, 0xFFFF_FFFF, 16));
    assert!(!is_valid_segment(nxt, 0, 16));
}

#[test]
fn valid_segment_equals_between_on_edges() {
    let edges = [0u32, 1, 2, 0x7FFF_FFFF, 0x8000_0000, 0xFFFF_FFFE, 0xFFFF_FFFF];
    for &nxt in &edges {
        for &seq in &edges {
            for &wnd in &[0u16, 1, 2, 1024, u16::MAX] {
                assert_eq!(
                    is_valid_segment(nxt, seq, wnd),
                    is_between_wrapped(nxt.wrapping_sub(1), seq, nxt.wrapping_add(wnd as u32))
                );
            }
        }
    }
}

#[test]
fn acceptable_zero_length_closed_window() {
    assert!(is_acceptable_segment(2000, 2000, 0, 0));
    assert!(!is_acceptable_segment(2000, 2001, 0, 0));
    assert!(!is_acceptable_segment(2000, 1999, 0, 0));
    assert!(!is_acceptable_segment(2000, 0, 0, 0));
    assert!(is_acceptable_segment(0, 0, 0, 0));
    assert!(is_acceptable_segment(u32::MAX, u32::MAX, 0, 0));
    assert!(!is_acceptable_segment(u32::MAX, 0, 0, 0));
}

#[test]
fn acceptable_zero_length_open_window() {
    assert!(is_acceptable_segment(2000, 2000, 0, 1024));
    assert!(is_acceptable_segment(2000, 3023, 0, 1024));
    assert!(!is_acceptable_segment(2000, 3024, 0, 1024));
    assert!(!is_acceptable_segment(2000, 1999, 0, 1024));
    assert!(is_acceptable_segment(2000, 2000, 0, 1));
    assert!(!is_acceptable_segment(2000, 2001, 0, 1));
}

#[test]
fn acceptable_zero_length_equals_between() {
    let edges = [0u32, 1, 2, 1024, 0x7FFF_FFFF, 0x8000_0000, 0xFFFF_FBFF, 0xFFFF_FFFE, 0xFFFF_FFFF];
    for &nxt in &edges {
        for &seq in &edges {
            for &wnd in &[1u16, 2, 1024, u16::MAX] {
                assert_eq!(
                    is_acceptable_segment(nxt, seq, 0, wnd),
                    is_between_wrapped(nxt.wrapping_sub(1), seq, nxt.wrapping_add(wnd as u32))
                );
            }
        }
    }
}

#[test]
fn acceptable_data_closed_window_never() {
    assert!(!is_acceptable_segment(2000, 2000, 1, 0));
    assert!(!is_acceptable_segment(2000, 2000, 100, 0));
    assert!(!is_acceptable_segment(2000, 1990, 20, 0));
    assert!(!is_acceptable_segment(0, 0, u32::MAX, 0));
}

#[test]
fn acceptable_data_open_window() {
    // the first byte is in the window
    assert!(is_acceptable_segment(2000, 2000, 1, 1024));
    assert!(is_acceptable_segment(2000, 3023, 5000, 1024));
    // only the last byte is in the window
    assert!(is_acceptable_segment(2000, 1990, 11, 1024));
    assert!(!is_acceptable_segment(2000, 1990, 10, 1024));
    // neither end is in the window
    assert!(!is_acceptable_segment(2000, 5000, 1, 1024));
    assert!(!is_acceptable_segment(2000, 3024, 1, 1024));
    // both ends are outside though the segment covers the window
    assert!(!is_acceptable_segment(2000, 1990, 2000, 1024));
}

#[test]
fn acceptable_segment_that_wraps_the_window() {
    // the window is [0xFFFF_FFF0, 0x10); the segment starts inside it and
    // ends behind zero
    assert!(is_acceptable_segment(0xFFFF_FFF0, 0xFFFF_FFF8, 16, 32));
    // the segment starts before the window and ends inside it behind zero
    assert!(is_acceptable_segment(0xFFFF_FFF0, 0xFFFF_FFE8, 32, 32));
    // the segment starts inside the window and ends past its end
    assert!(is_acceptable_segment(0xFFFF_FFF0, 0x0000_000F, 100, 32));
    // the segment lies behind the window
    assert!(!is_acceptable_segment(0xFFFF_FFF0, 0x0000_0010, 16, 32));
    // the segment lies before the window
    assert!(!is_acceptable_segment(0xFFFF_FFF0, 0xFFFF_FFE0, 16, 32));
}
