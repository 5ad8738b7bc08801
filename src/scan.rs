//! Byte classes of the literal grammar and scans over runs of them.

use vstd::prelude::*;

verus! {

pub open spec fn is_dec_digit(b: u8) -> bool {
    0x30 <= b <= 0x39
}

pub open spec fn is_hex_digit(b: u8) -> bool {
    is_dec_digit(b) || (0x61 <= b <= 0x66) || (0x41 <= b <= 0x46)
}

/// Decimal digits and `_`.
pub open spec fn dec_or_underscore() -> spec_fn(u8) -> bool {
    |b: u8| is_dec_digit(b) || b == 0x5f
}

/// Hex digits (either case) and `_`: the bytes of an integer's main part.
pub open spec fn hex_or_underscore() -> spec_fn(u8) -> bool {
    |b: u8| is_hex_digit(b) || b == 0x5f
}

/// The value of a hex digit, or `None` for any other byte.
pub open spec fn hex_value(b: u8) -> Option<u8> {
    if is_dec_digit(b) {
        Some((b - 0x30) as u8)
    } else if 0x61 <= b <= 0x66 {
        Some((b - 0x61 + 10) as u8)
    } else if 0x41 <= b <= 0x46 {
        Some((b - 0x41 + 10) as u8)
    } else {
        None
    }
}

/// The first index at or after `i` whose byte does not satisfy `p`, or the
/// length of `b` if there is none.
pub open spec fn run_end(b: Seq<u8>, i: int, p: spec_fn(u8) -> bool) -> int
    decreases b.len() - i,
{
    if 0 <= i < b.len() && p(b[i]) {
        run_end(b, i + 1, p)
    } else {
        i
    }
}

/// `run_end` is the end of the maximal run of bytes satisfying `p`.
pub proof fn lemma_run_end(b: Seq<u8>, i: int, p: spec_fn(u8) -> bool)
    requires
        0 <= i <= b.len(),
    ensures
        i <= run_end(b, i, p) <= b.len(),
        forall|k: int| i <= k < run_end(b, i, p) ==> p(#[trigger] b[k]),
        run_end(b, i, p) == b.len() || !p(b[run_end(b, i, p)]),
    decreases b.len() - i,
{
    if i < b.len() && p(b[i]) {
        lemma_run_end(b, i + 1, p);
    }
}

/// A run of bytes satisfying `p` from `i` to a byte that does not (or to the
/// end) is what `run_end` finds.
pub proof fn lemma_run_end_at(b: Seq<u8>, i: int, j: int, p: spec_fn(u8) -> bool)
    requires
        0 <= i <= j <= b.len(),
        forall|k: int| i <= k < j ==> p(#[trigger] b[k]),
        j == b.len() || !p(b[j]),
    ensures
        run_end(b, i, p) == j,
    decreases j - i,
{
    if i < j {
        lemma_run_end_at(b, i + 1, j, p);
    }
}

/// Returns the value of a hex digit, or `None` if `digit` is none.
pub(crate) fn hex_digit_value(digit: u8) -> (r: Option<u8>)
    ensures
        r == hex_value(digit),
{
    if 0x30 <= digit && digit <= 0x39 {
        Some(digit - 0x30)
    } else if 0x61 <= digit && digit <= 0x66 {
        Some(digit - 0x61 + 10)
    } else if 0x41 <= digit && digit <= 0x46 {
        Some(digit - 0x41 + 10)
    } else {
        None
    }
}

/// Returns the index of the first byte at or after `start` that is neither a
/// decimal digit nor `_`, or the length of `b` if there is none.
pub(crate) fn end_dec_digits(b: &[u8], start: usize) -> (r: usize)
    requires
        start <= b@.len(),
    ensures
        r == run_end(b@, start as int, dec_or_underscore()),
{
    let mut i: usize = start;
    while i < b.len() && ((0x30 <= b[i] && b[i] <= 0x39) || b[i] == 0x5f)
        invariant
            start <= i <= b@.len(),
            forall|k: int| start <= k < i ==> dec_or_underscore()(#[trigger] b@[k]),
        decreases b@.len() - i,
    {
        i += 1;
    }
    proof {
        lemma_run_end_at(b@, start as int, i as int, dec_or_underscore());
    }
    i
}

/// Returns the index of the first byte at or after `start` that is neither a
/// hex digit nor `_`, or the length of `b` if there is none.
pub(crate) fn end_hex_digits(b: &[u8], start: usize) -> (r: usize)
    requires
        start <= b@.len(),
    ensures
        r == run_end(b@, start as int, hex_or_underscore()),
{
    let mut i: usize = start;
    while i < b.len() && (hex_digit_value(b[i]).is_some() || b[i] == 0x5f)
        invariant
            start <= i <= b@.len(),
            forall|k: int| start <= k < i ==> hex_or_underscore()(#[trigger] b@[k]),
        decreases b@.len() - i,
    {
        i += 1;
    }
    proof {
        lemma_run_end_at(b@, start as int, i as int, hex_or_underscore());
    }
    i
}

} // verus!
