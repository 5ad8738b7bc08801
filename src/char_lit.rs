//! Character and byte literals: `'g'`, `'🦊'`, `'\n'`, `b'k'`, `b'\xFF'`.

use crate::err::{err_at, err_none, err_span, perr_at, perr_none, perr_span, ErrorModel, ParseError, ParseErrorKind};
use crate::escape::{lemma_unescape_len, unescape, unescape_spec, Escapee};
use crate::textutil::{lemma_after_ascii, lemma_ascii_boundary, substr};
use crate::{bytes_of, Buffer};
use vstd::prelude::*;
use vstd::string::StringSliceAdditionalSpecFns;
use vstd::utf8::{
    decode_first_scalar, encode_scalar, encode_utf8, encode_utf8_first_scalar, encode_utf8_valid_utf8,
    length_of_first_scalar,
};

verus! {

broadcast use vstd::string::group_string_axioms;

/// The one unit between the quotes of a char (`byte == false`, body from
/// `p == 1`) or byte (`byte == true`, body from `p == 2`) literal: its value,
/// or the error. The body must not be empty, must not start with a bare `'`,
/// newline, tab or carriage return, and holds exactly one escape or one
/// character (ASCII for a byte literal).
pub open spec fn quoted_unit(b: Seq<u8>, p: int, byte: bool) -> Result<u32, ErrorModel> {
    let unterminated = if byte {
        ParseErrorKind::UnterminatedByteLiteral
    } else {
        ParseErrorKind::UnterminatedCharLiteral
    };
    let empty = if byte {
        ParseErrorKind::EmptyByteLiteral
    } else {
        ParseErrorKind::EmptyCharLiteral
    };
    let overlong = if byte {
        ParseErrorKind::OverlongByteLiteral
    } else {
        ParseErrorKind::OverlongCharLiteral
    };
    if b.len() <= p || b[b.len() - 1] != 0x27 {
        Err(err_none(unterminated))
    } else if b.len() - 1 == p {
        Err(err_none(empty))
    } else {
        let body = b.subrange(p, b.len() - 1);
        let first = b[p];
        if first == 0x27 {
            Err(err_at(ParseErrorKind::UnescapedSingleQuote, p))
        } else if first == 0x0a || first == 0x09 || first == 0x0d {
            Err(err_at(ParseErrorKind::UnescapedSpecialWhitespace, p))
        } else {
            let unit = if first == 0x5c {
                unescape_spec(body, p, !byte, byte)
            } else if byte {
                if first < 0x80 {
                    Ok((first as u32, 1int))
                } else {
                    Err(err_at(ParseErrorKind::NonAsciiInByteLiteral, p))
                }
            } else {
                Ok((decode_first_scalar(body), length_of_first_scalar(body)))
            };
            match unit {
                Err(err) => Err(err),
                Ok((code, len)) => if p + len != b.len() - 1 {
                    Err(err_span(overlong, p + len, b.len() - 1))
                } else {
                    Ok(code)
                },
            }
        }
    }
}

/// What `CharLit::parse` returns on the bytes `b`: the value of the char.
pub open spec fn char_literal(b: Seq<u8>) -> Result<u32, ErrorModel> {
    if b.len() == 0 {
        Err(err_none(ParseErrorKind::Empty))
    } else if b[0] != 0x27 {
        Err(err_at(ParseErrorKind::DoesNotStartWithQuote, 0))
    } else {
        quoted_unit(b, 1, false)
    }
}

/// What `ByteLit::parse` returns on the bytes `b`: the value of the byte.
pub open spec fn byte_literal(b: Seq<u8>) -> Result<u32, ErrorModel> {
    if b.len() == 0 {
        Err(err_none(ParseErrorKind::Empty))
    } else if !(b.len() >= 2 && b[0] == 0x62 && b[1] == 0x27) {
        Err(err_none(ParseErrorKind::InvalidByteLiteralStart))
    } else {
        quoted_unit(b, 2, true)
    }
}

/// A character literal, e.g. `'g'` or `'🦊'`.
#[derive(Debug, Clone, Copy, PartialEq, Eq)]
pub struct CharLit<B: Buffer> {
    raw: B,
    value: char,
}

impl<B: Buffer> CharLit<B> {
    /// The source text of the literal.
    pub closed spec fn text(&self) -> Seq<char> {
        self.raw.text()
    }

    /// The value that parsing found.
    pub closed spec fn spec_value(&self) -> char {
        self.value
    }

    /// The value is what parsing the text finds.
    pub closed spec fn wf(&self) -> bool {
        char_literal(bytes_of(&self.raw)) == Ok::<u32, ErrorModel>(self.value as u32)
    }

    /// Parses the input as a character literal. Returns an error if the input
    /// is invalid or represents a different kind of literal.
    pub fn parse(input: B) -> (r: Result<Self, ParseError>)
        ensures
            match r {
                Ok(lit) => lit.wf() && lit.text() == input.text() && char_literal(bytes_of(&input))
                    == Ok::<u32, ErrorModel>(lit.spec_value() as u32),
                Err(e) => char_literal(bytes_of(&input)) == Err::<u32, ErrorModel>(e.model()),
            },
    {
        let value = {
            let s = input.as_text();
            let b = s.as_bytes();
            if b.len() == 0 {
                return Err(perr_none(ParseErrorKind::Empty));
            }
            if b[0] != 0x27 {
                return Err(perr_at(0, ParseErrorKind::DoesNotStartWithQuote));
            }
            match parse_char(s) {
                Ok(c) => c,
                Err(e) => {
                    return Err(e);
                },
            }
        };
        Ok(CharLit { raw: input, value })
    }

    /// Returns the character value that this literal represents.
    pub fn value(&self) -> (r: char)
        ensures
            r == self.spec_value(),
    {
        self.value
    }

    /// Renders the literal: its text, exactly as it was parsed.
    pub fn to_string(&self) -> (r: String)
        ensures
            r@ == self.text(),
    {
        self.raw.as_text().to_owned()
    }

    /// Returns the raw input that was passed to `parse`.
    pub fn raw_input(&self) -> (r: &str)
        ensures
            r@ == self.text(),
    {
        self.raw.as_text()
    }
}

impl<'a> CharLit<&'a str> {
    /// Makes a copy of the underlying buffer and returns the owned version of
    /// `Self`.
    pub fn to_owned(&self) -> (r: CharLit<String>)
        requires
            self.wf(),
        ensures
            r.wf(),
            r.text() == self.text(),
            r.spec_value() == self.spec_value(),
    {
        CharLit { raw: self.raw.to_owned(), value: self.value }
    }
}

/// Parses a char literal. Precondition: the first byte is `'`.
fn parse_char(s: &str) -> (r: Result<char, ParseError>)
    requires
        s.spec_bytes().len() > 0,
        s.spec_bytes()[0] == 0x27,
    ensures
        match r {
            Ok(c) => quoted_unit(s.spec_bytes(), 1, false) == Ok::<u32, ErrorModel>(c as u32),
            Err(e) => quoted_unit(s.spec_bytes(), 1, false) == Err::<u32, ErrorModel>(e.model()),
        },
{
    let b = s.as_bytes();
    let n = b.len();
    if n <= 1 || b[n - 1] != 0x27 {
        return Err(perr_none(ParseErrorKind::UnterminatedCharLiteral));
    }
    if n - 1 == 1 {
        return Err(perr_none(ParseErrorKind::EmptyCharLiteral));
    }
    let first = b[1];
    if first == 0x27 {
        return Err(perr_at(1, ParseErrorKind::UnescapedSingleQuote));
    }
    if first == 0x0a || first == 0x09 || first == 0x0d {
        return Err(perr_at(1, ParseErrorKind::UnescapedSpecialWhitespace));
    }
    let (c, len) = if first == 0x5c {
        let r = unescape::<char>(b, 1, n - 1, true, false);
        proof {
            lemma_unescape_len(b@.subrange(1, n - 1), 1, true, false);
        }
        match r {
            Ok(x) => x,
            Err(e) => {
                return Err(e);
            },
        }
    } else {
        proof {
            encode_utf8_valid_utf8(s@);
            lemma_after_ascii(b@, 1);
            lemma_ascii_boundary(b@, n - 1);
        }
        let inner = substr(s, 1, n - 1);
        let mut chars = inner.chars();
        proof {
            assert(inner@.len() > 0) by {
                if inner@.len() == 0 {
                    assert(encode_utf8(inner@) =~= Seq::<u8>::empty());
                }
            }
        }
        let c = match chars.next() {
            Some(c) => c,
            None => {
                return Err(perr_none(ParseErrorKind::EmptyCharLiteral));
            },
        };
        proof {
            encode_utf8_first_scalar(inner@);
        }
        let x = c as u32;
        let len: usize = if x <= 0x7f {
            1
        } else if x <= 0x7ff {
            2
        } else if x <= 0xffff {
            3
        } else {
            4
        };
        proof {
            vstd::utf8::char_is_scalar(c);
            assert(len == encode_scalar(x).len());
        }
        (c, len)
    };
    if 1 + len != n - 1 {
        return Err(perr_span(1 + len, n - 1, ParseErrorKind::OverlongCharLiteral));
    }
    Ok(c)
}

/// A (single) byte literal, e.g. `b'k'` or `b'!'`.
#[derive(Debug, Clone, Copy, PartialEq, Eq)]
pub struct ByteLit<B: Buffer> {
    raw: B,
    value: u8,
}

impl<B: Buffer> ByteLit<B> {
    /// The source text of the literal.
    pub closed spec fn text(&self) -> Seq<char> {
        self.raw.text()
    }

    /// The value that parsing found.
    pub closed spec fn spec_value(&self) -> u8 {
        self.value
    }

    /// The value is what parsing the text finds.
    pub closed spec fn wf(&self) -> bool {
        byte_literal(bytes_of(&self.raw)) == Ok::<u32, ErrorModel>(self.value as u32)
    }

    /// Parses the input as a byte literal. Returns an error if the input is
    /// invalid or represents a different kind of literal.
    pub fn parse(input: B) -> (r: Result<Self, ParseError>)
        ensures
            match r {
                Ok(lit) => lit.wf() && lit.text() == input.text() && byte_literal(bytes_of(&input))
                    == Ok::<u32, ErrorModel>(lit.spec_value() as u32),
                Err(e) => byte_literal(bytes_of(&input)) == Err::<u32, ErrorModel>(e.model()),
            },
    {
        let value = {
            let b = input.as_text().as_bytes();
            if b.len() == 0 {
                return Err(perr_none(ParseErrorKind::Empty));
            }
            if !(b.len() >= 2 && b[0] == 0x62 && b[1] == 0x27) {
                return Err(perr_none(ParseErrorKind::InvalidByteLiteralStart));
            }
            match parse_byte(b) {
                Ok(c) => c,
                Err(e) => {
                    return Err(e);
                },
            }
        };
        Ok(ByteLit { raw: input, value })
    }

    /// Returns the byte value that this literal represents.
    pub fn value(&self) -> (r: u8)
        ensures
            r == self.spec_value(),
    {
        self.value
    }

    /// Renders the literal: its text, exactly as it was parsed.
    pub fn to_string(&self) -> (r: String)
        ensures
            r@ == self.text(),
    {
        self.raw.as_text().to_owned()
    }

    /// Returns the raw input that was passed to `parse`.
    pub fn raw_input(&self) -> (r: &str)
        ensures
            r@ == self.text(),
    {
        self.raw.as_text()
    }
}

impl<'a> ByteLit<&'a str> {
    /// Makes a copy of the underlying buffer and returns the owned version of
    /// `Self`.
    pub fn to_owned(&self) -> (r: ByteLit<String>)
        requires
            self.wf(),
        ensures
            r.wf(),
            r.text() == self.text(),
            r.spec_value() == self.spec_value(),
    {
        ByteLit { raw: self.raw.to_owned(), value: self.value }
    }
}

/// Parses a byte literal. Precondition: it starts with `b'`.
fn parse_byte(b: &[u8]) -> (r: Result<u8, ParseError>)
    requires
        b@.len() >= 2,
        b@[0] == 0x62,
        b@[1] == 0x27,
    ensures
        match r {
            Ok(c) => quoted_unit(b@, 2, true) == Ok::<u32, ErrorModel>(c as u32),
            Err(e) => quoted_unit(b@, 2, true) == Err::<u32, ErrorModel>(e.model()),
        },
{
    let n = b.len();
    if n <= 2 || b[n - 1] != 0x27 {
        return Err(perr_none(ParseErrorKind::UnterminatedByteLiteral));
    }
    if n - 1 == 2 {
        return Err(perr_none(ParseErrorKind::EmptyByteLiteral));
    }
    let first = b[2];
    if first == 0x27 {
        return Err(perr_at(2, ParseErrorKind::UnescapedSingleQuote));
    }
    if first == 0x0a || first == 0x09 || first == 0x0d {
        return Err(perr_at(2, ParseErrorKind::UnescapedSpecialWhitespace));
    }
    let (c, len): (u8, usize) = if first == 0x5c {
        let r = unescape::<u8>(b, 2, n - 1, false, true);
        proof {
            lemma_unescape_len(b@.subrange(2, n - 1), 2, false, true);
        }
        match r {
            Ok(x) => x,
            Err(e) => {
                return Err(e);
            },
        }
    } else if first < 0x80 {
        (first, 1)
    } else {
        return Err(perr_at(2, ParseErrorKind::NonAsciiInByteLiteral));
    };
    if 2 + len != n - 1 {
        return Err(perr_span(2 + len, n - 1, ParseErrorKind::OverlongByteLiteral));
    }
    Ok(c)
}

} // verus!
