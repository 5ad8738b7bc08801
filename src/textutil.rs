//! Slicing text at byte offsets.

use vstd::prelude::*;
use vstd::string::StringSliceAdditionalSpecFns;
use vstd::utf8::*;

verus! {

/// Whether byte offset `i` of `b` may start or end a slice: the start, the
/// end, or a byte that is not a UTF-8 continuation byte.
pub open spec fn boundary_ok(b: Seq<u8>, i: int) -> bool {
    i == 0 || i == b.len() || (0 <= i < b.len() && !is_continuation_byte(b[i]))
}

/// An ASCII byte is never a continuation byte.
pub proof fn lemma_ascii_boundary(b: Seq<u8>, i: int)
    requires
        0 <= i < b.len(),
        b[i] < 0x80,
    ensures
        boundary_ok(b, i),
{
    let x = b[i];
    assert(!is_continuation_byte(x)) by (bit_vector)
        requires
            x < 0x80,
    ;
}

/// In UTF-8, a byte that follows an ASCII byte starts a character.
pub proof fn lemma_after_ascii(b: Seq<u8>, k: int)
    requires
        valid_utf8(b),
        1 <= k < b.len(),
        b[k - 1] < 0x80,
    ensures
        !is_continuation_byte(b[k]),
    decreases b.len(),
{
    reveal_with_fuel(valid_utf8, 2);
    let n = length_of_first_scalar(b);
    let rest = pop_first_scalar(b);
    assert(1 <= n <= b.len());
    assert(rest.len() == b.len() - n);
    if k - 1 < n {
        if n >= 2 {
            assert(is_continuation_byte(b[1]));
            assert(b[0] >= 0xc0);
        }
        assert(rest[0] == b[k]);
    } else {
        assert(rest[k - n - 1] == b[k - 1]);
        assert(rest[k - n] == b[k]);
        lemma_after_ascii(rest, k - n);
    }
}

/// The bytes of ASCII text are its characters.
pub proof fn lemma_ascii_text_bytes(s: &str)
    requires
        is_ascii_chars(s@),
    ensures
        s.spec_bytes().len() == s@.len(),
        forall|i: int| 0 <= i < s@.len() ==> s.spec_bytes()[i] == s@[i] as u8,
{
    is_ascii_chars_encode_utf8(s@);
}

/// A slice of valid UTF-8 between two offsets that may start or end a slice
/// is valid UTF-8.
pub proof fn lemma_chunk_valid(b: Seq<u8>, start: int, end: int)
    requires
        valid_utf8(b),
        0 <= start <= end <= b.len(),
        boundary_ok(b, start),
        boundary_ok(b, end),
    ensures
        valid_utf8(b.subrange(start, end)),
{
    is_char_boundary_start_end_of_seq(b);
    if 0 < end < b.len() {
        is_char_boundary_iff_not_is_continuation_byte(b, end);
    }
    valid_utf8_split(b, end);
    let h = b.subrange(0, end);
    is_char_boundary_start_end_of_seq(h);
    if 0 < start < end {
        assert(h[start] == b[start]);
        is_char_boundary_iff_not_is_continuation_byte(h, start);
    }
    valid_utf8_split(h, start);
    assert(h.subrange(start, end) =~= b.subrange(start, end));
}

/// The part of `s` between byte offsets `start` and `end`.
pub(crate) fn substr<'a>(s: &'a str, start: usize, end: usize) -> (r: &'a str)
    requires
        start <= end <= s.spec_bytes().len(),
        boundary_ok(s.spec_bytes(), start as int),
        boundary_ok(s.spec_bytes(), end as int),
    ensures
        r.spec_bytes() == s.spec_bytes().subrange(start as int, end as int),
{
    let ghost b = s.spec_bytes();
    proof {
        encode_utf8_valid_utf8(s@);
        is_char_boundary_start_end_of_seq(b);
        if 0 < end < b.len() {
            is_char_boundary_iff_not_is_continuation_byte(b, end as int);
        }
    }
    let (head, _) = s.split_at(end);
    proof {
        let h = head.spec_bytes();
        assert(h == b.subrange(0, end as int));
        valid_utf8_split(b, end as int);
        is_char_boundary_start_end_of_seq(h);
        if 0 < start < end {
            assert(h[start as int] == b[start as int]);
            is_char_boundary_iff_not_is_continuation_byte(h, start as int);
        }
    }
    let (_, r) = head.split_at(start);
    proof {
        assert(r.spec_bytes() =~= b.subrange(start as int, end as int));
    }
    r
}

} // verus!
