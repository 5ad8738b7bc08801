//! Escape sequences (`\n`, `\'`, `\x7F`, `\u{1F602}`, ...) and the bodies of
//! quoted literals that hold them.

use crate::err::{err_at, err_none, err_span, perr_at, perr_none, perr_span, ErrorModel, ParseError, ParseErrorKind};
use crate::scan::{hex_digit_value, hex_value, lemma_run_end, lemma_run_end_at, run_end};
use crate::textutil::{lemma_after_ascii, lemma_ascii_boundary, lemma_chunk_valid};
use vstd::prelude::*;
use vstd::utf8::{char_is_scalar, encode_scalar, encode_utf8, is_scalar, valid_utf8, valid_utf8_concat};

verus! {

/// Relies on `char::from_u32`: `Some` exactly for Unicode scalar values,
/// holding the char with that value.
#[verifier::external_body]
fn char_from_u32(v: u32) -> (r: Option<char>)
    ensures
        r is Some <==> is_scalar(v),
        r matches Some(c) ==> c as u32 == v,
{
    std::char::from_u32(v)
}

/// A unit that escapes decode to: a byte (in byte and byte string literals) or
/// a `char` (in char and string literals).
pub trait Escapee: Sized + Copy {
    /// Whether this unit can hold any Unicode scalar (and so `\u{...}` escapes
    /// are allowed).
    spec fn takes_chars() -> bool;

    /// The numeric value of the unit.
    spec fn code(self) -> u32;

    /// The bytes that the unit adds to a decoded value.
    spec fn unit_bytes(self) -> Seq<u8>;

    fn from_byte(b: u8) -> (r: Self)
        ensures
            r.code() == b as u32,
    ;

    fn from_char(c: char) -> (r: Self)
        requires
            Self::takes_chars(),
        ensures
            r.code() == c as u32,
    ;

    /// Appends the unit's bytes to a decoded value.
    fn push_unit(self, v: &mut Vec<u8>)
        ensures
            final(v)@ == old(v)@ + self.unit_bytes(),
    ;

    /// The unit's bytes are those of its value.
    proof fn lemma_unit_bytes(self)
        ensures
            self.unit_bytes() == unit_bytes_of(self.code(), Self::takes_chars()),
    ;
}

impl Escapee for u8 {
    open spec fn takes_chars() -> bool {
        false
    }

    open spec fn code(self) -> u32 {
        self as u32
    }

    open spec fn unit_bytes(self) -> Seq<u8> {
        seq![self]
    }

    fn from_byte(b: u8) -> (r: Self) {
        b
    }

    fn from_char(c: char) -> (r: Self) {
        0
    }

    fn push_unit(self, v: &mut Vec<u8>) {
        v.push(self);
    }

    proof fn lemma_unit_bytes(self) {
    }
}

impl Escapee for char {
    open spec fn takes_chars() -> bool {
        true
    }

    open spec fn code(self) -> u32 {
        self as u32
    }

    open spec fn unit_bytes(self) -> Seq<u8> {
        encode_scalar(self as u32)
    }

    fn from_byte(b: u8) -> (r: Self) {
        match char_from_u32(b as u32) {
            Some(c) => c,
            None => {
                proof {
                    let v = b as u32;
                    assert(is_scalar(v));
                }
                ' '
            },
        }
    }

    fn from_char(c: char) -> (r: Self) {
        c
    }

    fn push_unit(self, v: &mut Vec<u8>) {
        push_utf8(v, self);
    }

    proof fn lemma_unit_bytes(self) {
    }
}

/// The value of the hex digits of a `\u{...}` escape, read from `j` to `end`
/// (the closing brace), with `count` digits of value `v` read before. `_` is
/// skipped; any other non-hex byte, or a seventh digit, is an error at its
/// position `off + j`.
pub open spec fn unicode_digits(e: Seq<u8>, off: int, j: int, end: int, count: int, v: int) -> Result<
    int,
    ErrorModel,
>
    decreases end - j,
{
    if j >= end {
        Ok(v)
    } else if e[j] == 0x5f {
        unicode_digits(e, off, j + 1, end, count, v)
    } else {
        match hex_value(e[j]) {
            None => Err(err_at(ParseErrorKind::NonHexDigitInUnicodeEscape, off + j)),
            Some(d) => if count == 6 {
                Err(err_at(ParseErrorKind::TooManyDigitInUnicodeEscape, off + j))
            } else {
                unicode_digits(e, off, j + 1, end, count + 1, 16 * v + d)
            },
        }
    }
}

/// A `\u{...}` escape at `off` whose closing brace is at `closing`: its
/// value must be a Unicode scalar; the error spans the escape up to the
/// closing brace.
pub open spec fn unicode_escape_result(digits: Result<int, ErrorModel>, off: int, closing: int) -> Result<
    (u32, int),
    ErrorModel,
> {
    match digits {
        Err(err) => Err(err),
        Ok(v) => if 0 <= v <= u32::MAX && is_scalar(v as u32) {
            Ok((v as u32, closing + 1))
        } else {
            Err(err_span(ParseErrorKind::InvalidUnicodeEscapeChar, off, off + closing))
        },
    }
}

/// Bytes other than `}`.
pub open spec fn not_closing_brace() -> spec_fn(u8) -> bool {
    |b: u8| b != 0x7d
}

/// The escape at the start of `e` (which starts with `\`), where `off` is the
/// position of `e` in the whole literal: its value and its length, or the
/// error. `unicode` allows `\u{...}`; `byte_escapes` allows `\x` values above
/// 0x7F.
pub open spec fn unescape_spec(e: Seq<u8>, off: int, unicode: bool, byte_escapes: bool) -> Result<
    (u32, int),
    ErrorModel,
> {
    if e.len() < 2 {
        Err(err_at(ParseErrorKind::UnterminatedEscape, off))
    } else if e[1] == 0x27 {
        Ok((0x27, 2))
    } else if e[1] == 0x22 {
        Ok((0x22, 2))
    } else if e[1] == 0x6e {
        Ok((0x0a, 2))
    } else if e[1] == 0x72 {
        Ok((0x0d, 2))
    } else if e[1] == 0x74 {
        Ok((0x09, 2))
    } else if e[1] == 0x5c {
        Ok((0x5c, 2))
    } else if e[1] == 0x30 {
        Ok((0, 2))
    } else if e[1] == 0x78 {
        if e.len() < 4 {
            Err(err_span(ParseErrorKind::UnterminatedEscape, off, off + e.len()))
        } else {
            match (hex_value(e[2]), hex_value(e[3])) {
                (Some(hi), Some(lo)) => {
                    let v = 16 * hi + lo;
                    if !byte_escapes && v > 0x7f {
                        Err(err_span(ParseErrorKind::NonAsciiXEscape, off, off + 4))
                    } else {
                        Ok((v as u32, 4))
                    }
                },
                _ => Err(err_span(ParseErrorKind::InvalidXEscape, off, off + 4)),
            }
        }
    } else if e[1] == 0x75 {
        if !unicode {
            Err(err_span(ParseErrorKind::UnicodeEscapeInByteLiteral, off, off + 2))
        } else if e.len() < 3 || e[2] != 0x7b {
            Err(err_span(ParseErrorKind::UnicodeEscapeWithoutBrace, off, off + 2))
        } else {
            let closing = run_end(e, 0, not_closing_brace());
            if closing == e.len() {
                Err(err_span(ParseErrorKind::UnterminatedUnicodeEscape, off, off + e.len()))
            } else if closing > 3 && e[3] == 0x5f {
                Err(err_at(ParseErrorKind::InvalidStartOfUnicodeEscape, off + 3))
            } else {
                unicode_escape_result(unicode_digits(e, off, 3, closing, 0, 0), off, closing)
            }
        }
    } else {
        Err(err_span(ParseErrorKind::UnknownEscape, off, off + 2))
    }
}

/// Decodes the escape that starts with the `\` at `start`, reading no further
/// than `end`. Returns the unescaped value as `E` and the number of input
/// bytes the escape is long.
///
/// `unicode` and `byte_escapes` specify which escapes are supported: quote
/// and ASCII escapes always, `\u{...}` only if `unicode`, and `\x` values
/// above 0x7F only if `byte_escapes`.
pub(crate) fn unescape<E: Escapee>(
    b: &[u8],
    start: usize,
    end: usize,
    unicode: bool,
    byte_escapes: bool,
) -> (r: Result<(E, usize), ParseError>)
    requires
        start < end <= b@.len(),
        b@[start as int] == 0x5c,
        unicode ==> E::takes_chars(),
    ensures
        match r {
            Ok((u, len)) => unescape_spec(
                b@.subrange(start as int, end as int),
                start as int,
                unicode,
                byte_escapes,
            ) == Ok::<(u32, int), ErrorModel>((u.code(), len as int)),
            Err(err) => unescape_spec(
                b@.subrange(start as int, end as int),
                start as int,
                unicode,
                byte_escapes,
            ) == Err::<(u32, int), ErrorModel>(err.model()),
        },
{
    let ghost e = b@.subrange(start as int, end as int);
    let n = end - start;
    if n < 2 {
        return Err(perr_at(start, ParseErrorKind::UnterminatedEscape));
    }
    let first = b[start + 1];
    assert(e[1] == first);
    if first == 0x27 {
        return Ok((E::from_byte(0x27), 2));
    } else if first == 0x22 {
        return Ok((E::from_byte(0x22), 2));
    } else if first == 0x6e {
        return Ok((E::from_byte(0x0a), 2));
    } else if first == 0x72 {
        return Ok((E::from_byte(0x0d), 2));
    } else if first == 0x74 {
        return Ok((E::from_byte(0x09), 2));
    } else if first == 0x5c {
        return Ok((E::from_byte(0x5c), 2));
    } else if first == 0x30 {
        return Ok((E::from_byte(0), 2));
    } else if first == 0x78 {
        if n < 4 {
            return Err(perr_span(start, end, ParseErrorKind::UnterminatedEscape));
        }
        assert(e[2] == b@[start + 2] && e[3] == b@[start + 3]);
        let hi = match hex_digit_value(b[start + 2]) {
            Some(d) => d,
            None => {
                return Err(perr_span(start, start + 4, ParseErrorKind::InvalidXEscape));
            },
        };
        let lo = match hex_digit_value(b[start + 3]) {
            Some(d) => d,
            None => {
                return Err(perr_span(start, start + 4, ParseErrorKind::InvalidXEscape));
            },
        };
        let value: u8 = 16 * hi + lo;
        if !byte_escapes && value > 0x7f {
            return Err(perr_span(start, start + 4, ParseErrorKind::NonAsciiXEscape));
        }
        return Ok((E::from_byte(value), 4));
    } else if first == 0x75 {
        if !unicode {
            return Err(perr_span(start, start + 2, ParseErrorKind::UnicodeEscapeInByteLiteral));
        }
        if n < 3 || b[start + 2] != 0x7b {
            proof {
                if n >= 3 {
                    assert(e[2] == b@[start + 2]);
                }
            }
            return Err(perr_span(start, start + 2, ParseErrorKind::UnicodeEscapeWithoutBrace));
        }
        assert(e[2] == b@[start + 2]);

        // Find the closing brace.
        let mut c: usize = start;
        while c < end && b[c] != 0x7d
            invariant
                start <= c <= end <= b@.len(),
                e == b@.subrange(start as int, end as int),
                forall|k: int| 0 <= k < c - start ==> not_closing_brace()(#[trigger] e[k]),
            decreases end - c,
        {
            assert(e[c - start] == b@[c as int]);
            c += 1;
        }
        proof {
            if c < end {
                assert(e[c - start] == b@[c as int]);
            }
            lemma_run_end_at(e, 0, c - start, not_closing_brace());
        }
        if c == end {
            return Err(perr_span(start, end, ParseErrorKind::UnterminatedUnicodeEscape));
        }
        let closing = c - start;
        assert(closing >= 3) by {
            assert(not_closing_brace()(e[0]));
            assert(not_closing_brace()(e[1]));
            assert(not_closing_brace()(e[2]));
        }
        if closing > 3 && b[start + 3] == 0x5f {
            assert(e[3] == b@[start + 3]);
            return Err(perr_at(start + 3, ParseErrorKind::InvalidStartOfUnicodeEscape));
        }
        proof {
            if closing > 3 {
                assert(e[3] == b@[start + 3]);
            }
        }

        // Read the digits.
        let mut v: u32 = 0;
        let mut count: usize = 0;
        let mut j: usize = 3;
        while j < closing
            invariant
                3 <= j <= closing < n,
                n == end - start,
                start < end <= b@.len(),
                e == b@.subrange(start as int, end as int),
                count <= 6,
                v < pow16(count as nat),
                unescape_spec(e, start as int, unicode, byte_escapes) == unicode_escape_result(
                    unicode_digits(e, start as int, 3, closing as int, 0, 0),
                    start as int,
                    closing as int,
                ),
                unicode_digits(e, start as int, 3, closing as int, 0, 0) == unicode_digits(
                    e,
                    start as int,
                    j as int,
                    closing as int,
                    count as int,
                    v as int,
                ),
            decreases closing - j,
        {
            let x = b[start + j];
            assert(e[j as int] == x);
            if x != 0x5f {
                let d = match hex_digit_value(x) {
                    Some(d) => d,
                    None => {
                        return Err(perr_at(start + j, ParseErrorKind::NonHexDigitInUnicodeEscape));
                    },
                };
                if count == 6 {
                    return Err(perr_at(start + j, ParseErrorKind::TooManyDigitInUnicodeEscape));
                }
                proof {
                    assert(pow16((count + 1) as nat) == 16 * pow16(count as nat));
                    lemma_pow16_small(count as nat);
                }
                v = 16 * v + d as u32;
                count += 1;
            }
            j += 1;
        }
        match char_from_u32(v) {
            Some(ch) => {
                return Ok((E::from_char(ch), closing + 1));
            },
            None => {
                return Err(
                    perr_span(start, start + closing, ParseErrorKind::InvalidUnicodeEscapeChar),
                );
            },
        }
    } else {
        return Err(perr_span(start, start + 2, ParseErrorKind::UnknownEscape));
    }
}

/// Five hex digits stay below `16^5`.
proof fn lemma_pow16_small(k: nat)
    requires
        k <= 5,
    ensures
        pow16(k) <= 1048576,
{
    reveal_with_fuel(pow16, 6);
    if k == 0 {
    } else if k == 1 {
    } else if k == 2 {
    } else if k == 3 {
    } else if k == 4 {
    } else {
    }
}

/// `16` to the power `k`.
pub open spec fn pow16(k: nat) -> int
    decreases k,
{
    if k == 0 {
        1
    } else {
        16 * pow16((k - 1) as nat)
    }
}

} // verus!

verus! {

/// The bytes skipped after a backslash-newline ("string continue").
pub open spec fn continue_ws() -> spec_fn(u8) -> bool {
    |b: u8| b == 0x20 || b == 0x09 || b == 0x0a
}

/// The bytes that an escape with value `code` adds to a decoded value: its
/// UTF-8 encoding in a string, the byte itself in a byte string.
pub open spec fn unit_bytes_of(code: u32, unicode: bool) -> Seq<u8> {
    if unicode {
        encode_scalar(code)
    } else {
        seq![code as u8]
    }
}

/// Puts `x` in front of a decoded rest, and marks it escaped if `esc`.
pub open spec fn prepend(x: Seq<u8>, esc: bool, r: Result<(Seq<u8>, bool), ErrorModel>) -> Result<
    (Seq<u8>, bool),
    ErrorModel,
> {
    match r {
        Ok((rest, e)) => Ok((x + rest, esc || e)),
        Err(err) => Err(err),
    }
}

/// Decodes the body of a quoted (byte) string `b` from position `i` to the
/// last byte (the closing quote, checked elsewhere). Returns the decoded bytes
/// and whether any escape or string continue changed them. `unicode` selects
/// string rules (`\u{...}` allowed, `\x` ASCII only) over byte string rules
/// (no `\u{...}`, any `\x`, no non-ASCII byte).
pub open spec fn escaped_body(b: Seq<u8>, i: int, unicode: bool) -> Result<(Seq<u8>, bool), ErrorModel>
    decreases b.len() - i,
{
    if i < 0 || i + 1 >= b.len() {
        Ok((seq![], false))
    } else if b[i] == 0x5c && b[i + 1] == 0x0a {
        let j = run_end(b, i + 2, continue_ws());
        if j >= b.len() {
            Err(err_none(ParseErrorKind::UnterminatedString))
        } else {
            proof {
                lemma_run_end(b, i + 2, continue_ws());
            }
            prepend(seq![], true, escaped_body(b, j, unicode))
        }
    } else if b[i] == 0x5c {
        match unescape_spec(b.subrange(i, b.len() - 1), i, unicode, !unicode) {
            Err(err) => Err(err),
            Ok((code, len)) => {
                proof {
                    lemma_unescape_len(b.subrange(i, b.len() - 1), i, unicode, !unicode);
                }
                prepend(unit_bytes_of(code, unicode), true, escaped_body(b, i + len, unicode))
            },
        }
    } else if b[i] == 0x0d && b[i + 1] != 0x0a {
        Err(err_at(ParseErrorKind::IsolatedCr, i))
    } else if b[i] == 0x22 {
        Err(err_span(ParseErrorKind::UnexpectedChar, i + 1, b.len() as int))
    } else if !unicode && b[i] >= 0x80 {
        Err(err_at(ParseErrorKind::NonAsciiInByteLiteral, i))
    } else {
        prepend(seq![b[i]], false, escaped_body(b, i + 1, unicode))
    }
}

/// A quoted (byte) string whose body starts at `p`: its body, and a closing
/// `"` as the last byte after it.
pub open spec fn escaped_literal(b: Seq<u8>, p: int, unicode: bool) -> Result<(Seq<u8>, bool), ErrorModel> {
    match escaped_body(b, p, unicode) {
        Err(err) => Err(err),
        Ok(r) => if b.len() <= p || b[b.len() - 1] != 0x22 {
            Err(err_none(ParseErrorKind::UnterminatedString))
        } else {
            Ok(r)
        },
    }
}

/// An escape is at least two bytes long, fits in its input, and ends with an
/// ASCII byte.
pub proof fn lemma_unescape_len(e: Seq<u8>, off: int, unicode: bool, byte_escapes: bool)
    requires
        e.len() > 0,
        e[0] == 0x5c,
    ensures
        unescape_spec(e, off, unicode, byte_escapes) matches Ok((code, len)) ==> 2 <= len <= e.len()
            && e[len - 1] < 0x80,
{
    if e.len() >= 3 && e[1] == 0x75 && e[2] == 0x7b {
        lemma_run_end(e, 0, not_closing_brace());
        let closing = run_end(e, 0, not_closing_brace());
        if closing < e.len() {
            assert(not_closing_brace()(e[0]));
            assert(not_closing_brace()(e[1]));
            assert(not_closing_brace()(e[2]));
            assert(closing >= 3);
        }
    }
}

/// A body without escapes decodes to itself.
pub proof fn lemma_unescaped_body(b: Seq<u8>, i: int, unicode: bool)
    requires
        0 <= i < b.len(),
    ensures
        escaped_body(b, i, unicode) matches Ok((rest, esc)) ==> (!esc ==> rest == b.subrange(
            i,
            b.len() - 1,
        )),
    decreases b.len() - i,
{
    if i + 1 >= b.len() {
        assert(b.subrange(i, b.len() - 1) =~= Seq::<u8>::empty());
    } else if b[i] == 0x5c {
    } else if b[i] == 0x0d && b[i + 1] != 0x0a {
    } else if b[i] == 0x22 {
    } else if !unicode && b[i] >= 0x80 {
    } else {
        lemma_unescaped_body(b, i + 1, unicode);
        if let Ok((rest, esc)) = escaped_body(b, i + 1, unicode) {
            if !esc {
                assert(seq![b[i]] + rest =~= b.subrange(i, b.len() - 1));
            }
        }
    }
}

/// Appends the UTF-8 encoding of `c`.
fn push_utf8(v: &mut Vec<u8>, c: char)
    ensures
        final(v)@ == old(v)@ + encode_scalar(c as u32),
{
    let x = c as u32;
    proof {
        char_is_scalar(c);
    }
    if x <= 0x7f {
        v.push((x & 0x7F) as u8);
    } else if x <= 0x7ff {
        v.push(0xC0 | ((x >> 6) & 0x1F) as u8);
        v.push(0x80 | (x & 0x3F) as u8);
    } else if x <= 0xffff {
        v.push(0xE0 | ((x >> 12) & 0x0F) as u8);
        v.push(0x80 | ((x >> 6) & 0x3F) as u8);
        v.push(0x80 | (x & 0x3F) as u8);
    } else {
        v.push(0xF0 | ((x >> 18) & 0x7) as u8);
        v.push(0x80 | ((x >> 12) & 0x3F) as u8);
        v.push(0x80 | ((x >> 6) & 0x3F) as u8);
        v.push(0x80 | (x & 0x3F) as u8);
    }
    assert(final(v)@ =~= old(v)@ + encode_scalar(c as u32));
}

/// Appends the bytes of `b` from `start` to `end`.
fn push_slice(v: &mut Vec<u8>, b: &[u8], start: usize, end: usize)
    requires
        start <= end <= b@.len(),
    ensures
        final(v)@ == old(v)@ + b@.subrange(start as int, end as int),
{
    let mut k: usize = start;
    while k < end
        invariant
            start <= k <= end <= b@.len(),
            v@ == old(v)@ + b@.subrange(start as int, k as int),
        decreases end - k,
    {
        v.push(b[k]);
        assert(b@.subrange(start as int, k + 1) =~= b@.subrange(start as int, k as int).push(b@[k as int]));
        k += 1;
    }
}

/// Decodes a quoted (byte) string whose body starts at `p`, with `E` the
/// unit that escapes decode to. Returns `None` when no escape or string
/// continue occurs (the value is then the body itself), else the decoded bytes.
#[verifier::rlimit(50)]
pub(crate) fn unescape_string<E: Escapee>(b: &[u8], p: usize, unicode: bool) -> (r: Result<
    Option<Vec<u8>>,
    ParseError,
>)
    requires
        1 <= p <= b@.len(),
        b@[p - 1] < 0x80,
        E::takes_chars() == unicode,
        valid_utf8(b@),
    ensures
        match r {
            Ok(v) => escaped_literal(b@, p as int, unicode) matches Ok((bytes, esc)) && (v is Some
                <==> esc) && (v matches Some(x) ==> x@ == bytes && (unicode ==> valid_utf8(x@))) && (!esc ==> bytes
                == b@.subrange(p as int, b@.len() - 1)),
            Err(err) => escaped_literal(b@, p as int, unicode) == Err::<(Seq<u8>, bool), ErrorModel>(
                err.model(),
            ),
        },
{
    let n = b.len();
    let mut i: usize = p;
    let mut end_last: usize = p;
    let mut value: Vec<u8> = Vec::new();
    let mut escaped = false;
    proof {
        if let Ok((rest, e)) = escaped_body(b@, p as int, unicode) {
            assert(Seq::<u8>::empty() + b@.subrange(p as int, p as int) + rest =~= rest);
        }
    }
    while i < n - 1
        invariant
            n == b@.len(),
            1 <= p <= end_last <= i <= n,
            i < n || i == p,
            b@[end_last - 1] < 0x80,
            E::takes_chars() == unicode,
            valid_utf8(b@),
            unicode ==> valid_utf8(value@),
            escaped || (value@.len() == 0 && end_last == p),
            escaped_body(b@, p as int, unicode) == prepend(
                value@ + b@.subrange(end_last as int, i as int),
                escaped,
                escaped_body(b@, i as int, unicode),
            ),
        decreases n - i,
    {
        let c = b[i];
        let ghost acc = value@ + b@.subrange(end_last as int, i as int);
        if c == 0x5c && b[i + 1] == 0x0a {
            // A string continue: skip the newline and the whitespace after it.
            proof {
                lemma_ascii_boundary(b@, i as int);
                if end_last < n {
                    lemma_after_ascii(b@, end_last as int);
                }
                lemma_chunk_valid(b@, end_last as int, i as int);
                if unicode {
                    valid_utf8_concat(value@, b@.subrange(end_last as int, i as int));
                }
            }
            push_slice(&mut value, b, end_last, i);
            let mut j: usize = i + 2;
            while j < n && (b[j] == 0x20 || b[j] == 0x09 || b[j] == 0x0a)
                invariant
                    i + 2 <= j <= n,
                    n == b@.len(),
                    forall|k: int| i + 2 <= k < j ==> continue_ws()(#[trigger] b@[k]),
                decreases n - j,
            {
                j += 1;
            }
            proof {
                lemma_run_end_at(b@, i + 2, j as int, continue_ws());
            }
            if j == n {
                return Err(perr_none(ParseErrorKind::UnterminatedString));
            }
            proof {
                if j > i + 2 {
                    assert(continue_ws()(b@[j - 1]));
                }
                assert(value@ =~= acc);
                if let Ok((rest, e)) = escaped_body(b@, j as int, unicode) {
                    assert(acc + (Seq::<u8>::empty() + rest) =~= value@ + b@.subrange(j as int, j as int) + rest);
                }
            }
            i = j;
            end_last = j;
            escaped = true;
        } else if c == 0x5c {
            let (u, len) = match unescape::<E>(b, i, n - 1, unicode, !unicode) {
                Ok(x) => x,
                Err(e) => {
                    return Err(e);
                },
            };
            proof {
                lemma_unescape_len(b@.subrange(i as int, n - 1), i as int, unicode, !unicode);
                assert(b@.subrange(i as int, n - 1)[len - 1] == b@[i + len - 1]);
                lemma_ascii_boundary(b@, i as int);
                if end_last < n {
                    lemma_after_ascii(b@, end_last as int);
                }
                lemma_chunk_valid(b@, end_last as int, i as int);
                if unicode {
                    valid_utf8_concat(value@, b@.subrange(end_last as int, i as int));
                }
                u.lemma_unit_bytes();
            }
            push_slice(&mut value, b, end_last, i);
            let ghost before = value@;
            u.push_unit(&mut value);
            proof {
                if unicode {
                    let ch = u.code() as char;
                    vstd::utf8::char_u32_cast(ch, u.code());
                    vstd::utf8::encode_utf8_valid_utf8(seq![ch]);
                    assert(seq![ch].drop_first() =~= Seq::<char>::empty());
                    assert(encode_utf8(Seq::<char>::empty()) =~= Seq::<u8>::empty());
                    assert(encode_utf8(seq![ch]) =~= encode_scalar(u.code()));
                    valid_utf8_concat(before, u.unit_bytes());
                }
                if let Ok((rest, e)) = escaped_body(b@, i + len, unicode) {
                    assert(acc + (unit_bytes_of(u.code(), unicode) + rest) =~= value@ + b@.subrange(
                        i + len,
                        i + len,
                    ) + rest);
                }
            }
            i = i + len;
            end_last = i;
            escaped = true;
        } else if c == 0x0d && b[i + 1] != 0x0a {
            return Err(perr_at(i, ParseErrorKind::IsolatedCr));
        } else if c == 0x22 {
            return Err(perr_span(i + 1, n, ParseErrorKind::UnexpectedChar));
        } else if !unicode && c >= 0x80 {
            return Err(perr_at(i, ParseErrorKind::NonAsciiInByteLiteral));
        } else {
            proof {
                if let Ok((rest, e)) = escaped_body(b@, i + 1, unicode) {
                    assert(acc + (seq![c] + rest) =~= value@ + b@.subrange(end_last as int, i + 1) + rest);
                }
            }
            i += 1;
        }
    }
    if n <= p || b[n - 1] != 0x22 {
        return Err(perr_none(ParseErrorKind::UnterminatedString));
    }
    proof {
        assert(escaped_body(b@, i as int, unicode) == Ok::<(Seq<u8>, bool), ErrorModel>((seq![], false)));
        let acc = value@ + b@.subrange(end_last as int, i as int);
        assert(acc + Seq::<u8>::empty() =~= acc);
        lemma_unescaped_body(b@, p as int, unicode);
    }
    if escaped {
        proof {
            lemma_ascii_boundary(b@, n - 1);
            if end_last < n - 1 {
                lemma_after_ascii(b@, end_last as int);
            }
            lemma_chunk_valid(b@, end_last as int, n - 1);
            if unicode {
                    valid_utf8_concat(value@, b@.subrange(end_last as int, n - 1));
                }
        }
        push_slice(&mut value, b, end_last, n - 1);
        Ok(Some(value))
    } else {
        Ok(None)
    }
}

/// `#` bytes.
pub open spec fn is_hash() -> spec_fn(u8) -> bool {
    |b: u8| b == 0x23
}

/// Whether `h` hashes follow from position `k` on.
pub open spec fn closes(b: Seq<u8>, k: int, h: int) -> bool {
    k + h <= b.len() && forall|j: int| k <= j < k + h ==> b[j] == 0x23
}

/// Scans the body of a raw (byte) string from `i` for a `"` followed by `h`
/// hashes, and returns its position. A `\r` not followed by `\n` is an error,
/// and so is a non-ASCII byte unless `unicode`.
pub open spec fn raw_scan(b: Seq<u8>, i: int, h: int, unicode: bool) -> Result<int, ErrorModel>
    decreases b.len() - i,
{
    if i < 0 || i >= b.len() {
        Err(err_none(ParseErrorKind::UnterminatedRawString))
    } else if b[i] == 0x22 && closes(b, i + 1, h) {
        Ok(i)
    } else if b[i] == 0x0d && !(i + 1 < b.len() && b[i + 1] == 0x0a) {
        Err(err_at(ParseErrorKind::IsolatedCr, i))
    } else if !unicode && b[i] >= 0x80 {
        Err(err_at(ParseErrorKind::NonAsciiInByteLiteral, i))
    } else {
        raw_scan(b, i + 1, h, unicode)
    }
}

/// A raw (byte) string whose `r` ends before `p`: a run of `h` hashes, a
/// `"`, the body, a `"` followed by `h` hashes, and nothing after. Returns
/// `h`.
pub open spec fn raw_literal(b: Seq<u8>, p: int, unicode: bool) -> Result<int, ErrorModel> {
    let end_hashes = run_end(b, p, is_hash());
    let h = end_hashes - p;
    if end_hashes >= b.len() || b[end_hashes] != 0x22 {
        Err(err_none(ParseErrorKind::InvalidLiteral))
    } else {
        match raw_scan(b, end_hashes + 1, h, unicode) {
            Err(err) => Err(err),
            Ok(c) => if c + h != b.len() - 1 {
                Err(err_span(ParseErrorKind::UnexpectedChar, c + h + 1, b.len() as int))
            } else {
                Ok(h)
            },
        }
    }
}

/// Where a raw literal with `h` hashes lies: its opening and closing quotes
/// around the body.
pub proof fn lemma_raw_literal(b: Seq<u8>, p: int, unicode: bool)
    requires
        0 <= p <= b.len(),
    ensures
        raw_literal(b, p, unicode) matches Ok(h) ==> {
            &&& h >= 0
            &&& p + h + 1 <= b.len() - 1 - h
            &&& b[p + h] == 0x22
            &&& b[b.len() - 1 - h] == 0x22
            &&& forall|j: int| p <= j < p + h ==> b[j] == 0x23
        },
{
    lemma_run_end(b, p, is_hash());
    let end_hashes = run_end(b, p, is_hash());
    if end_hashes < b.len() && b[end_hashes] == 0x22 {
        lemma_raw_scan(b, end_hashes + 1, end_hashes - p, unicode);
    }
}

/// What `raw_scan` finds lies at or after where it starts.
pub proof fn lemma_raw_scan(b: Seq<u8>, i: int, h: int, unicode: bool)
    requires
        0 <= i,
    ensures
        raw_scan(b, i, h, unicode) matches Ok(c) ==> i <= c < b.len() && b[c] == 0x22 && closes(b, c + 1, h),
    decreases b.len() - i,
{
    if 0 <= i < b.len() && !(b[i] == 0x22 && closes(b, i + 1, h)) {
        lemma_raw_scan(b, i + 1, h, unicode);
    }
}

/// Reads and checks a raw (byte) string literal whose `r` ends before `p`.
/// Returns the number of hashes.
pub(crate) fn scan_raw_string(b: &[u8], p: usize, unicode: bool) -> (r: Result<usize, ParseError>)
    requires
        p <= b@.len(),
    ensures
        match r {
            Ok(h) => raw_literal(b@, p as int, unicode) == Ok::<int, ErrorModel>(h as int),
            Err(err) => raw_literal(b@, p as int, unicode) == Err::<int, ErrorModel>(err.model()),
        },
{
    let n = b.len();
    let mut end_hashes: usize = p;
    while end_hashes < n && b[end_hashes] == 0x23
        invariant
            p <= end_hashes <= n == b@.len(),
            forall|k: int| p <= k < end_hashes ==> is_hash()(#[trigger] b@[k]),
        decreases n - end_hashes,
    {
        end_hashes += 1;
    }
    proof {
        lemma_run_end_at(b@, p as int, end_hashes as int, is_hash());
    }
    if end_hashes >= n || b[end_hashes] != 0x22 {
        return Err(perr_none(ParseErrorKind::InvalidLiteral));
    }
    let h = end_hashes - p;
    let mut i: usize = end_hashes + 1;
    while i < n
        invariant
            end_hashes < i <= n == b@.len(),
            h == end_hashes - p,
            forall|k: int| p <= k < end_hashes ==> b@[k] == 0x23,
            raw_literal(b@, p as int, unicode) == match raw_scan(b@, i as int, h as int, unicode) {
                Err(err) => Err(err),
                Ok(c) => if c + h != b@.len() - 1 {
                    Err(err_span(ParseErrorKind::UnexpectedChar, c + h + 1, b@.len() as int))
                } else {
                    Ok(h as int)
                },
            },
        decreases n - i,
    {
        let c = b[i];
        if c == 0x22 && i + 1 <= n - h {
            // Compare the hashes after the quote.
            let mut k: usize = 0;
            while k < h && b[i + 1 + k] == 0x23
                invariant
                    k <= h,
                    i + 1 + h <= n == b@.len(),
                    forall|j: int| i + 1 <= j < i + 1 + k ==> b@[j] == 0x23,
                decreases h - k,
            {
                k += 1;
            }
            if k == h {
                assert(closes(b@, i + 1, h as int));
                if i + h != n - 1 {
                    return Err(perr_span(i + h + 1, n, ParseErrorKind::UnexpectedChar));
                }
                return Ok(h);
            }
            assert(b@[i + 1 + k] != 0x23);
            assert(!closes(b@, i + 1, h as int));
        }
        if c == 0x0d && !(i + 1 < n && b[i + 1] == 0x0a) {
            return Err(perr_at(i, ParseErrorKind::IsolatedCr));
        }
        if !unicode && c >= 0x80 {
            return Err(perr_at(i, ParseErrorKind::NonAsciiInByteLiteral));
        }
        i += 1;
    }
    Err(perr_none(ParseErrorKind::UnterminatedRawString))
}

} // verus!
