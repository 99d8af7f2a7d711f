//! Sequence-number comparison modulo 2^32 (RFC 793, section 3.3).

use vstd::prelude::*;

verus! {

/// The size of the sequence-number space.
pub open spec fn seq_modulus() -> int {
    0x1_0000_0000
}

/// `lhs - rhs` taken modulo 2^32, as a value in `[0, 2^32)`.
pub open spec fn seq_distance(lhs: u32, rhs: u32) -> int {
    (lhs - rhs) % seq_modulus()
}

/// `lhs` comes strictly before `rhs` in sequence space: walking forward from
/// `lhs`, `rhs` is reached in fewer than 2^31 steps.
pub open spec fn seq_lt(lhs: u32, rhs: u32) -> bool {
    seq_distance(lhs, rhs) > 0x8000_0000
}

/// `x` lies strictly between `start` and `end` in sequence space.
pub open spec fn seq_between(start: u32, x: u32, end: u32) -> bool {
    seq_lt(start, x) && seq_lt(x, end)
}

/// Adds `k` to a sequence number, wrapping around at 2^32.
pub open spec fn seq_add(a: u32, k: u32) -> u32 {
    ((a + k) % seq_modulus()) as u32
}

/// Compares two sequence numbers modulo 2^32: true when `lhseq` precedes `rhseq`.
pub fn wrapping_lt(lhseq: u32, rhseq: u32) -> (r: bool)
    ensures
        r == seq_lt(lhseq, rhseq),
{
    let d = lhseq.wrapping_sub(rhseq);
    assert(d == seq_distance(lhseq, rhseq));
    assert(1u32 << 31u32 == 0x8000_0000u32) by (bit_vector);
    d > (1u32 << 31u32)
}

/// True when `x` lies strictly between `start` and `end` modulo 2^32.
pub fn is_between_wrapped(start: u32, x: u32, end: u32) -> (r: bool)
    ensures
        r == seq_between(start, x, end),
        r == (seq_lt(start, x) && seq_lt(x, end)),
{
    wrapping_lt(start, x) && wrapping_lt(x, end)
}

/// No sequence number precedes itself.
pub proof fn lemma_seq_lt_irreflexive(a: u32)
    ensures
        !seq_lt(a, a),
{
}

/// If `a` precedes `b` then `b` does not precede `a`.
pub proof fn lemma_seq_lt_asymmetric(a: u32, b: u32)
    ensures
        seq_lt(a, b) ==> !seq_lt(b, a),
{
}

/// Shifting both numbers by the same amount (with wrap-around) keeps their order.
pub proof fn lemma_seq_lt_shift(a: u32, b: u32, k: u32)
    ensures
        seq_lt(seq_add(a, k), seq_add(b, k)) == seq_lt(a, b),
{
}

/// On numbers less than 2^31 apart without wrap-around, the comparison is the
/// ordinary `<`.
pub proof fn lemma_seq_lt_matches_lt(a: u32, b: u32)
    requires
        a < b,
        b - a < 0x8000_0000,
    ensures
        seq_lt(a, b),
        !seq_lt(b, a),
{
}

/// Numbers exactly 2^31 apart are unordered: neither precedes the other.
pub proof fn lemma_seq_lt_half_space(a: u32)
    ensures
        !seq_lt(a, seq_add(a, 0x8000_0000)),
        !seq_lt(seq_add(a, 0x8000_0000), a),
{
}


/// `lhs` precedes `rhs` exactly when `rhs` is reached from `lhs` by moving
/// forward between 1 and 2^31 - 1 steps (with wrap-around).
pub proof fn lemma_seq_lt_forward_distance(lhs: u32, rhs: u32)
    ensures
        seq_lt(lhs, rhs) <==> (0 < (rhs - lhs) % 0x1_0000_0000 < 0x8000_0000),
{
}

/// A number strictly between `start` and `end` follows `start` and precedes
/// `end`; a number that `end` precedes, or that precedes `start`, is not
/// between them, and neither is either bound.
pub proof fn lemma_between_bounds(start: u32, x: u32, end: u32)
    ensures
        seq_between(start, x, end) ==> seq_lt(start, x) && seq_lt(x, end),
        seq_lt(start, x) && seq_lt(x, end) ==> seq_between(start, x, end),
        seq_lt(end, x) ==> !seq_between(start, x, end),
        seq_lt(x, start) ==> !seq_between(start, x, end),
        !seq_between(start, start, end),
        !seq_between(start, end, end),
{
}

/// On numbers without wrap-around, less than 2^31 apart, "between" is the
/// ordinary strict betweenness of integers.
pub proof fn lemma_between_matches_integers(start: u32, x: u32, end: u32)
    requires
        start <= end,
        end - start < 0x8000_0000,
    ensures
        seq_between(start, x, end) <==> (start < x && x < end),
{
}

} // verus!
