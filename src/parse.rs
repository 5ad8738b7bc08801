//! The dispatcher: picks the kind of a literal from its first bytes.

use crate::bool_lit::{bool_literal, bool_of_bytes, false_bytes, true_bytes};
use crate::bytestr::byte_string_literal;
use crate::char_lit::{byte_literal, char_literal};
use crate::err::{err_at, err_none, perr_at, perr_none, ErrorModel, ParseError, ParseErrorKind};
use crate::float::float_literal;
use crate::integer::integer_literal;
use crate::scan::{dec_or_underscore, end_dec_digits, is_dec_digit, lemma_run_end, run_end};
use crate::string::string_literal;
use crate::{
    bytes_of, Buffer, ByteLit, ByteStringLit, CharLit, FloatLit, IntegerLit, Literal, LiteralKind, StringLit,
};
use vstd::prelude::*;

verus! {

/// Which parser the first bytes of `b` select, or the error when none
/// does. `false` and `true` are bools; after a run of decimal digits and `_`,
/// the end or `b`, `o`, `x`, `u`, `i` make an integer and `.`, `e`, `E`, `f` a
/// float; `'` a char; `"` or `r` a string; `b'` a byte; `br` or `b"` a byte
/// string.
pub open spec fn literal_kind(b: Seq<u8>) -> Result<LiteralKind, ErrorModel> {
    if b.len() == 0 {
        Err(err_none(ParseErrorKind::Empty))
    } else if b == false_bytes() || b == true_bytes() {
        Ok(LiteralKind::Bool)
    } else if is_dec_digit(b[0]) {
        let end = run_end(b, 1, dec_or_underscore());
        if end == b.len() || b[end] == 0x62 || b[end] == 0x6f || b[end] == 0x78 || b[end] == 0x75
            || b[end] == 0x69 {
            Ok(LiteralKind::Integer)
        } else if b[end] == 0x2e || b[end] == 0x65 || b[end] == 0x45 || b[end] == 0x66 {
            Ok(LiteralKind::Float)
        } else {
            Err(err_at(ParseErrorKind::UnexpectedChar, end))
        }
    } else if b[0] == 0x27 {
        Ok(LiteralKind::Char)
    } else if b[0] == 0x22 || b[0] == 0x72 {
        Ok(LiteralKind::String)
    } else if b[0] == 0x62 && b.len() >= 2 && b[1] == 0x27 {
        Ok(LiteralKind::Byte)
    } else if b[0] == 0x62 && b.len() >= 2 && (b[1] == 0x72 || b[1] == 0x22) {
        Ok(LiteralKind::ByteString)
    } else {
        Err(err_none(ParseErrorKind::InvalidLiteral))
    }
}

/// The grammar of the literal kind `k`, as an error model on failure.
pub open spec fn kind_error(k: LiteralKind, b: Seq<u8>) -> Option<ErrorModel> {
    match k {
        LiteralKind::Bool => match bool_literal(b) {
            Err(e) => Some(e),
            Ok(_) => None,
        },
        LiteralKind::Integer => match integer_literal(b) {
            Err(e) => Some(e),
            Ok(_) => None,
        },
        LiteralKind::Float => match float_literal(b) {
            Err(e) => Some(e),
            Ok(_) => None,
        },
        LiteralKind::Char => match char_literal(b) {
            Err(e) => Some(e),
            Ok(_) => None,
        },
        LiteralKind::String => match string_literal(b) {
            Err(e) => Some(e),
            Ok(_) => None,
        },
        LiteralKind::Byte => match byte_literal(b) {
            Err(e) => Some(e),
            Ok(_) => None,
        },
        LiteralKind::ByteString => match byte_string_literal(b) {
            Err(e) => Some(e),
            Ok(_) => None,
        },
    }
}

/// What `Literal::parse` returns on the bytes `b`: the dispatcher's error,
/// or the error of the selected kind's grammar, or a literal of that kind
/// whose text is `b` and whose parts are what that grammar finds.
pub open spec fn literal_result<B: Buffer>(b: Seq<u8>, r: Result<Literal<B>, ParseError>) -> bool {
    match literal_kind(b) {
        Err(e) => r matches Err(x) && x.model() == e,
        Ok(k) => match r {
            Err(x) => kind_error(k, b) == Some(x.model()),
            Ok(lit) => kind_error(k, b) is None && lit.kind() == k && lit.wf() && lit.bytes() == b,
        },
    }
}

/// The first byte of the input, or an `Empty` error.
pub(crate) fn first_byte_or_empty(b: &[u8]) -> (r: Result<u8, ParseError>)
    ensures
        match r {
            Ok(x) => b@.len() > 0 && x == b@[0],
            Err(e) => b@.len() == 0 && e.model() == err_none(ParseErrorKind::Empty),
        },
{
    if b.len() == 0 {
        Err(perr_none(ParseErrorKind::Empty))
    } else {
        Ok(b[0])
    }
}

/// Picks the kind of literal from the first bytes.
fn kind_of_bytes(b: &[u8]) -> (r: Result<LiteralKind, ParseError>)
    ensures
        match r {
            Ok(k) => literal_kind(b@) == Ok::<LiteralKind, ErrorModel>(k),
            Err(e) => literal_kind(b@) == Err::<LiteralKind, ErrorModel>(e.model()),
        },
{
    let first = match first_byte_or_empty(b) {
        Ok(x) => x,
        Err(e) => {
            return Err(e);
        },
    };
    if bool_of_bytes(b).is_some() {
        return Ok(LiteralKind::Bool);
    }
    if 0x30 <= first && first <= 0x39 {
        // To figure out whether this is a float or integer, look at the byte
        // after the leading digits.
        let end = end_dec_digits(b, 1);
        proof {
            lemma_run_end(b@, 1, dec_or_underscore());
        }
        if end == b.len() {
            return Ok(LiteralKind::Integer);
        }
        let next = b[end];
        if next == 0x62 || next == 0x6f || next == 0x78 || next == 0x75 || next == 0x69 {
            Ok(LiteralKind::Integer)
        } else if next == 0x2e || next == 0x65 || next == 0x45 || next == 0x66 {
            Ok(LiteralKind::Float)
        } else {
            Err(perr_at(end, ParseErrorKind::UnexpectedChar))
        }
    } else if first == 0x27 {
        Ok(LiteralKind::Char)
    } else if first == 0x22 || first == 0x72 {
        Ok(LiteralKind::String)
    } else if first == 0x62 && b.len() >= 2 && b[1] == 0x27 {
        Ok(LiteralKind::Byte)
    } else if first == 0x62 && b.len() >= 2 && (b[1] == 0x72 || b[1] == 0x22) {
        Ok(LiteralKind::ByteString)
    } else {
        Err(perr_none(ParseErrorKind::InvalidLiteral))
    }
}

impl<B: Buffer> Literal<B> {
    /// Parses the given input as a Rust literal.
    pub fn parse(input: B) -> (r: Result<Self, ParseError>)
        ensures
            literal_result(bytes_of(&input), r),
    {
        let (kind, bool_value) = {
            let b = input.as_text().as_bytes();
            match kind_of_bytes(b) {
                Ok(k) => (k, bool_of_bytes(b)),
                Err(e) => {
                    return Err(e);
                },
            }
        };
        match kind {
            LiteralKind::Bool => match bool_value {
                Some(v) => Ok(Literal::Bool(v)),
                None => Err(perr_none(ParseErrorKind::InvalidLiteral)),
            },
            LiteralKind::Integer => match IntegerLit::parse(input) {
                Ok(l) => Ok(Literal::Integer(l)),
                Err(e) => Err(e),
            },
            LiteralKind::Float => match FloatLit::parse(input) {
                Ok(l) => Ok(Literal::Float(l)),
                Err(e) => Err(e),
            },
            LiteralKind::Char => match CharLit::parse(input) {
                Ok(l) => Ok(Literal::Char(l)),
                Err(e) => Err(e),
            },
            LiteralKind::String => match StringLit::parse(input) {
                Ok(l) => Ok(Literal::String(l)),
                Err(e) => Err(e),
            },
            LiteralKind::Byte => match ByteLit::parse(input) {
                Ok(l) => Ok(Literal::Byte(l)),
                Err(e) => Err(e),
            },
            LiteralKind::ByteString => match ByteStringLit::parse(input) {
                Ok(l) => Ok(Literal::ByteString(l)),
                Err(e) => Err(e),
            },
        }
    }
}

} // verus!
