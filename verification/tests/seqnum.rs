use tcp_rust::seqnum::{is_between_wrapped, wrapping_lt};

#[test]
fn wrapping_lt_plain_order() {
    assert!(wrapping_lt(1, 2));
    assert!(!wrapping_lt(2, 1));
    assert!(!wrapping_lt(7, 7));
}

#[test]
fn wrapping_lt_across_wrap() {
    assert!(wrapping_lt(u32::MAX, 0));
    assert!(wrapping_lt(u32::MAX - 10, 5));
    assert!(!wrapping_lt(5, u32::MAX - 10));
}

#[test]
fn wrapping_lt_half_space_is_unordered() {
    assert!(!wrapping_lt(0, 1 << 31));
    assert!(!wrapping_lt(1 << 31, 0));
    assert!(wrapping_lt(0, (1 << 31) - 1));
    assert!(wrapping_lt(1 << 31, u32::MAX));
}

#[test]
fn wrapping_lt_shift_invariant() {
    for k in [0u32, 1, 1000, u32::MAX - 3, 1 << 31] {
        assert_eq!(wrapping_lt(10u32.wrapping_add(k), 20u32.wrapping_add(k)), wrapping_lt(10, 20));
        assert_eq!(wrapping_lt(20u32.wrapping_add(k), 10u32.wrapping_add(k)), wrapping_lt(20, 10));
    }
}

#[test]
fn between_wrapped() {
    assert!(is_between_wrapped(1, 5, 10));
    assert!(!is_between_wrapped(1, 1, 10));
    assert!(!is_between_wrapped(1, 10, 10));
    assert!(is_between_wrapped(u32::MAX - 1, 2, 5));
    assert!(!is_between_wrapped(5, 2, 10));
}
