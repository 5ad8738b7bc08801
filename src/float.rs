//! Floating point literals: `3.14`, `8.`, `135e12`, `27f32`, `1.956e2f64`.

use crate::err::{err_at, err_none, err_span, perr_at, perr_none, perr_span, ErrorModel, ParseError, ParseErrorKind};
use crate::scan::{dec_or_underscore, end_dec_digits, is_dec_digit, lemma_run_end, run_end};
use crate::textutil::substr;
use crate::{bytes_of, Buffer};
use vstd::prelude::*;
use vstd::string::StringSliceAdditionalSpecFns;

verus! {

/// All possible float type suffixes.
#[derive(Debug, Clone, Copy, PartialEq, Eq, Structural)]
pub enum FloatType {
    F32,
    F64,
}

/// The float type spelled by `s`, if any.
pub open spec fn float_type_of(s: Seq<u8>) -> Option<FloatType> {
    if s == seq![0x66u8, 0x33u8, 0x32u8] {
        Some(FloatType::F32)
    } else if s == seq![0x66u8, 0x36u8, 0x34u8] {
        Some(FloatType::F64)
    } else {
        None
    }
}

/// What parsing a float literal finds. Its text is partitioned by three
/// indices: the integer part is `..end_integer`; the fractional part, with
/// its leading `.`, is `end_integer..end_fractional`; the exponent, with its
/// `e` or `E`, is `end_fractional..end_number`; the type suffix follows.
pub struct FloatParts {
    pub end_integer: int,
    pub end_fractional: int,
    pub end_number: int,
    pub type_suffix: Option<FloatType>,
}

/// The float grammar, on input that starts with a decimal digit: digits and
/// `_`; optionally a `.` not followed by `_`, and more digits and `_`; if the
/// `.` is not followed by a digit, nothing may follow at all; optionally an
/// exponent (`e` or `E`, one optional sign, digits and `_` with at least one
/// digit); then nothing, `f32` or `f64`.
pub open spec fn float_grammar(b: Seq<u8>) -> Result<FloatParts, ErrorModel> {
    let end_int = run_end(b, 0, dec_or_underscore());
    let has_period = end_int < b.len() && b[end_int] == 0x2e;
    if has_period && end_int + 1 < b.len() && b[end_int + 1] == 0x5f {
        Err(err_at(ParseErrorKind::UnexpectedChar, end_int + 1))
    } else {
        let end_frac = if has_period {
            run_end(b, end_int + 1, dec_or_underscore())
        } else {
            end_int
        };
        if end_frac == end_int + 1 && end_frac < b.len() {
            Err(err_at(ParseErrorKind::UnexpectedChar, end_int + 1))
        } else {
            let has_exp = end_frac < b.len() && (b[end_frac] == 0x65 || b[end_frac] == 0x45);
            let exp_digits = if end_frac + 1 < b.len() && (b[end_frac + 1] == 0x2d || b[end_frac
                + 1] == 0x2b) {
                end_frac + 2
            } else {
                end_frac + 1
            };
            let end_exp = run_end(b, exp_digits, dec_or_underscore());
            if has_exp && !(exists|k: int| exp_digits <= k < end_exp && is_dec_digit(b[k])) {
                Err(err_span(ParseErrorKind::NoExponentDigits, end_frac, end_exp))
            } else {
                let end_number = if has_exp {
                    end_exp
                } else {
                    end_frac
                };
                let suffix = b.subrange(end_number, b.len() as int);
                if suffix.len() == 0 {
                    Ok(FloatParts { end_integer: end_int, end_fractional: end_frac, end_number, type_suffix: None })
                } else {
                    match float_type_of(suffix) {
                        Some(t) => Ok(
                            FloatParts {
                                end_integer: end_int,
                                end_fractional: end_frac,
                                end_number,
                                type_suffix: Some(t),
                            },
                        ),
                        None => Err(
                            err_span(ParseErrorKind::InvalidFloatTypeSuffix, end_number, b.len() as int),
                        ),
                    }
                }
            }
        }
    }
}

/// What `FloatLit::parse` returns on the bytes `b`.
pub open spec fn float_literal(b: Seq<u8>) -> Result<FloatParts, ErrorModel> {
    if b.len() == 0 {
        Err(err_none(ParseErrorKind::Empty))
    } else if !is_dec_digit(b[0]) {
        Err(err_at(ParseErrorKind::DoesNotStartWithDigit, 0))
    } else {
        float_grammar(b)
    }
}

/// A floating point literal, e.g. `3.14`, `8.`, `135e12`, `27f32` or `1.956e2f64`.
///
/// This kind of literal has several forms, but generally consists of a main
/// number part, an optional exponent and an optional type suffix.
///
/// A leading minus sign `-` is not part of the literal grammar! `-3.14` are two
/// tokens in the Rust grammar.
#[derive(Debug, Clone, Copy, PartialEq, Eq)]
pub struct FloatLit<B: Buffer> {
    /// The whole raw input. The `usize` fields in this struct partition this
    /// string. Always true: `end_integer_part <= end_fractional_part`.
    ///
    /// ```text
    ///    12_3.4_56e789f32
    ///        ╷    ╷   ╷
    ///        |    |   └ end_number_part = 13
    ///        |    └ end_fractional_part = 9
    ///        └ end_integer_part = 4
    ///
    ///    246.
    ///       ╷╷
    ///       |└ end_fractional_part = end_number_part = 4
    ///       └ end_integer_part = 3
    ///
    ///    1234e89
    ///        ╷  ╷
    ///        |  └ end_number_part = 7
    ///        └ end_integer_part = end_fractional_part = 4
    /// ```
    raw: B,
    /// The first index not part of the integer part anymore. Since the integer
    /// part is at the start, this is also the length of that part.
    end_integer_part: usize,
    /// The first index after the fractional part.
    end_fractional_part: usize,
    /// The first index after the whole number part (everything except type suffix).
    end_number_part: usize,
    /// Optional type suffix.
    type_suffix: Option<FloatType>,
}

/// Every byte of a float literal's text is ASCII.
proof fn lemma_float_ascii(b: Seq<u8>)
    requires
        float_grammar(b) is Ok,
    ensures
        forall|i: int| 0 <= i < b.len() ==> #[trigger] b[i] < 0x80,
{
    let p = float_grammar(b)->Ok_0;
    lemma_run_end(b, 0, dec_or_underscore());
    let end_int = p.end_integer;
    if end_int < b.len() && b[end_int] == 0x2e {
        lemma_run_end(b, end_int + 1, dec_or_underscore());
    }
    let end_frac = p.end_fractional;
    let exp_digits = if end_frac + 1 < b.len() && (b[end_frac + 1] == 0x2d || b[end_frac + 1]
        == 0x2b) {
        end_frac + 2
    } else {
        end_frac + 1
    };
    let has_exp = end_frac < b.len() && (b[end_frac] == 0x65 || b[end_frac] == 0x45);
    if has_exp {
        lemma_run_end(b, exp_digits, dec_or_underscore());
    }
    let suffix = b.subrange(p.end_number, b.len() as int);
    assert forall|i: int| 0 <= i < b.len() implies #[trigger] b[i] < 0x80 by {
        if i >= p.end_number {
            assert(suffix[i - p.end_number] == b[i]);
        }
    }
}

impl<B: Buffer> FloatLit<B> {
    /// The source text of the literal.
    pub closed spec fn text(&self) -> Seq<char> {
        self.raw.text()
    }

    /// The parts that parsing found in the text.
    pub closed spec fn parts(&self) -> FloatParts {
        FloatParts {
            end_integer: self.end_integer_part as int,
            end_fractional: self.end_fractional_part as int,
            end_number: self.end_number_part as int,
            type_suffix: self.type_suffix,
        }
    }

    /// The parts are what parsing the text finds.
    pub closed spec fn wf(&self) -> bool {
        float_literal(bytes_of(&self.raw)) == Ok::<FloatParts, ErrorModel>(self.parts())
    }

    /// Parses the input as a floating point literal. Returns an error if the
    /// input is invalid or represents a different kind of literal.
    pub fn parse(s: B) -> (r: Result<Self, ParseError>)
        ensures
            match r {
                Ok(lit) => lit.wf() && lit.text() == s.text() && float_literal(bytes_of(&s))
                    == Ok::<FloatParts, ErrorModel>(lit.parts()),
                Err(e) => float_literal(bytes_of(&s)) == Err::<FloatParts, ErrorModel>(e.model()),
            },
    {
        let parts = {
            let b = s.as_text().as_bytes();
            if b.len() == 0 {
                return Err(perr_none(ParseErrorKind::Empty));
            }
            if !(0x30 <= b[0] && b[0] <= 0x39) {
                return Err(perr_at(0, ParseErrorKind::DoesNotStartWithDigit));
            }
            parse_impl(b)
        };
        match parts {
            Ok((end_integer_part, end_fractional_part, end_number_part, type_suffix)) => Ok(
                FloatLit {
                    raw: s,
                    end_integer_part,
                    end_fractional_part,
                    end_number_part,
                    type_suffix,
                },
            ),
            Err(e) => Err(e),
        }
    }

    /// The raw buffer, for contracts.
    pub closed spec fn raw_spec(&self) -> B {
        self.raw
    }

    /// Every byte of the text is ASCII, and the parts lie in order within it.
    proof fn lemma_wf(&self)
        requires
            self.wf(),
        ensures
            forall|i: int| 0 <= i < bytes_of(&self.raw).len() ==> #[trigger] bytes_of(&self.raw)[i] < 0x80,
            0 < self.end_integer_part <= self.end_fractional_part <= self.end_number_part
                <= bytes_of(&self.raw).len(),
            self.end_integer_part < self.end_fractional_part ==> bytes_of(&self.raw)[self.end_integer_part as int] == 0x2e,
    {
        let b = bytes_of(&self.raw);
        lemma_float_ascii(b);
        lemma_run_end(b, 0, dec_or_underscore());
        if self.end_integer_part < b.len() && b[self.end_integer_part as int] == 0x2e {
            lemma_run_end(b, self.end_integer_part + 1, dec_or_underscore());
        }
        let end_frac = self.end_fractional_part as int;
        let exp_digits = if end_frac + 1 < b.len() && (b[end_frac + 1] == 0x2d || b[end_frac + 1]
            == 0x2b) {
            end_frac + 2
        } else {
            end_frac + 1
        };
        if end_frac < b.len() && (b[end_frac] == 0x65 || b[end_frac] == 0x45) {
            lemma_run_end(b, exp_digits, dec_or_underscore());
        }
    }

    /// The text between two byte offsets.
    fn slice(&self, start: usize, end: usize) -> (r: &str)
        requires
            self.wf(),
            start <= end <= bytes_of(&self.raw).len(),
        ensures
            r.spec_bytes() == bytes_of(&self.raw).subrange(start as int, end as int),
    {
        let s = self.raw.as_text();
        proof {
            self.lemma_wf();
            let b = s.spec_bytes();
            if start < b.len() {
                crate::textutil::lemma_ascii_boundary(b, start as int);
            }
            if end < b.len() {
                crate::textutil::lemma_ascii_boundary(b, end as int);
            }
        }
        substr(s, start, end)
    }

    /// Returns the whole number part (including integer part, fractional part
    /// and exponent), but without the type suffix. If you want an actual
    /// floating point value, you need to parse this string, e.g. with
    /// `f32::from_str` or an external crate.
    pub fn number_part(&self) -> (r: &str)
        requires
            self.wf(),
        ensures
            r.spec_bytes() == bytes_of(&self.raw_spec()).subrange(0, self.parts().end_number),
    {
        proof {
            self.lemma_wf();
        }
        self.slice(0, self.end_number_part)
    }

    /// Returns the non-empty integer part of this literal.
    pub fn integer_part(&self) -> (r: &str)
        requires
            self.wf(),
        ensures
            r.spec_bytes() == bytes_of(&self.raw_spec()).subrange(0, self.parts().end_integer),
    {
        proof {
            self.lemma_wf();
        }
        self.slice(0, self.end_integer_part)
    }

    /// Returns the optional fractional part of this literal. Does not include
    /// the period. If a period exists in the input, `Some` is returned, `None`
    /// otherwise. Note that `Some("")` might be returned, e.g. for `3.`.
    pub fn fractional_part(&self) -> (r: Option<&str>)
        requires
            self.wf(),
        ensures
            r is None <==> self.parts().end_integer == self.parts().end_fractional,
            r matches Some(f) ==> f.spec_bytes() == bytes_of(&self.raw_spec()).subrange(
                self.parts().end_integer + 1,
                self.parts().end_fractional,
            ),
    {
        proof {
            self.lemma_wf();
        }
        if self.end_integer_part == self.end_fractional_part {
            None
        } else {
            Some(self.slice(self.end_integer_part + 1, self.end_fractional_part))
        }
    }

    /// Optional exponent part. Might be empty if there was no exponent part in
    /// the input. Includes the `e` or `E` at the beginning.
    pub fn exponent_part(&self) -> (r: &str)
        requires
            self.wf(),
        ensures
            r.spec_bytes() == bytes_of(&self.raw_spec()).subrange(
                self.parts().end_fractional,
                self.parts().end_number,
            ),
    {
        proof {
            self.lemma_wf();
        }
        self.slice(self.end_fractional_part, self.end_number_part)
    }

    /// The optional type suffix.
    pub fn type_suffix(&self) -> (r: Option<FloatType>)
        ensures
            r == self.parts().type_suffix,
    {
        self.type_suffix
    }

    /// Renders the literal: its text, exactly as it was parsed.
    pub fn to_string(&self) -> (r: String)
        ensures
            r@ == self.text(),
    {
        self.raw.as_text().to_owned()
    }

    /// Returns the raw input that was passed to `parse`.
    pub fn raw_input(&self) -> (r: &str)
        ensures
            r@ == self.text(),
    {
        self.raw.as_text()
    }

    /// Returns the raw input that was passed to `parse`, potentially owned.
    pub fn into_raw_input(self) -> (r: B)
        ensures
            r.text() == self.text(),
    {
        self.raw
    }
}

impl<'a> FloatLit<&'a str> {
    /// Makes a copy of the underlying buffer and returns the owned version of
    /// `Self`.
    pub fn to_owned(&self) -> (r: FloatLit<String>)
        requires
            self.wf(),
        ensures
            r.wf(),
            r.text() == self.text(),
            r.parts() == self.parts(),
    {
        FloatLit {
            raw: self.raw.to_owned(),
            end_integer_part: self.end_integer_part,
            end_fractional_part: self.end_fractional_part,
            end_number_part: self.end_number_part,
            type_suffix: self.type_suffix,
        }
    }
}

/// The float type spelled by the bytes of `b` from `start` to the end.
fn float_type_at(b: &[u8], start: usize) -> (r: Option<FloatType>)
    requires
        start <= b@.len(),
    ensures
        r == float_type_of(b@.subrange(start as int, b@.len() as int)),
{
    let ghost s = b@.subrange(start as int, b@.len() as int);
    if b.len() - start == 3 && b[start] == 0x66 {
        if b[start + 1] == 0x33 && b[start + 2] == 0x32 {
            assert(s =~= seq![0x66u8, 0x33u8, 0x32u8]);
            return Some(FloatType::F32);
        }
        if b[start + 1] == 0x36 && b[start + 2] == 0x34 {
            assert(s =~= seq![0x66u8, 0x36u8, 0x34u8]);
            return Some(FloatType::F64);
        }
        assert(s[1] == b[start + 1]);
        assert(s[2] == b[start + 2]);
    }
    proof {
        if b.len() - start == 3 {
            assert(s[0] == b[start as int]);
        }
        if s == seq![0x66u8, 0x33u8, 0x32u8] {
            assert(s[0] == 0x66 && s[1] == 0x33 && s[2] == 0x32);
        }
        if s == seq![0x66u8, 0x36u8, 0x34u8] {
            assert(s[0] == 0x66 && s[1] == 0x36 && s[2] == 0x34);
        }
    }
    None
}

/// Parses a float literal. Precondition: the first byte is a decimal digit.
/// Returns the ends of the integer, fractional and number parts and the type
/// suffix.
fn parse_impl(b: &[u8]) -> (r: Result<(usize, usize, usize, Option<FloatType>), ParseError>)
    requires
        b@.len() > 0,
        is_dec_digit(b@[0]),
    ensures
        match r {
            Ok((i, f, n, t)) => float_grammar(b@) == Ok::<FloatParts, ErrorModel>(
                FloatParts {
                    end_integer: i as int,
                    end_fractional: f as int,
                    end_number: n as int,
                    type_suffix: t,
                },
            ),
            Err(e) => float_grammar(b@) == Err::<FloatParts, ErrorModel>(e.model()),
        },
{
    // Integer part.
    let end_integer_part = end_dec_digits(b, 0);
    proof {
        lemma_run_end(b@, 0, dec_or_underscore());
    }

    // Fractional part.
    let has_period = end_integer_part < b.len() && b[end_integer_part] == 0x2e;
    let end_fractional_part = if has_period {
        // The fractional part must not start with `_`.
        if end_integer_part + 1 < b.len() && b[end_integer_part + 1] == 0x5f {
            return Err(perr_at(end_integer_part + 1, ParseErrorKind::UnexpectedChar));
        }
        end_dec_digits(b, end_integer_part + 1)
    } else {
        end_integer_part
    };
    proof {
        if has_period {
            lemma_run_end(b@, end_integer_part + 1, dec_or_underscore());
        }
    }

    // If we have a period that is not followed by decimal digits, the
    // literal must end now.
    if has_period && end_integer_part + 1 == end_fractional_part && end_fractional_part < b.len() {
        return Err(perr_at(end_integer_part + 1, ParseErrorKind::UnexpectedChar));
    }

    // Optional exponent.
    let has_exp = end_fractional_part < b.len() && (b[end_fractional_part] == 0x65
        || b[end_fractional_part] == 0x45);
    let end_number_part = if has_exp {
        // Strip single - or + sign at the beginning.
        let exp_digits = if end_fractional_part + 1 < b.len() && (b[end_fractional_part + 1]
            == 0x2d || b[end_fractional_part + 1] == 0x2b) {
            end_fractional_part + 2
        } else {
            end_fractional_part + 1
        };

        // Find end of exponent and make sure there is at least one digit.
        let end_exponent = end_dec_digits(b, exp_digits);
        proof {
            lemma_run_end(b@, exp_digits as int, dec_or_underscore());
        }
        let mut k: usize = exp_digits;
        while k < end_exponent && !(0x30 <= b[k] && b[k] <= 0x39)
            invariant
                exp_digits <= k <= end_exponent <= b@.len(),
                forall|j: int| exp_digits <= j < k ==> !is_dec_digit(#[trigger] b@[j]),
            decreases end_exponent - k,
        {
            k += 1;
        }
        if k == end_exponent {
            return Err(perr_span(end_fractional_part, end_exponent, ParseErrorKind::NoExponentDigits));
        }
        end_exponent
    } else {
        end_fractional_part
    };

    // Type suffix
    if end_number_part == b.len() {
        return Ok((end_integer_part, end_fractional_part, end_number_part, None));
    }
    match float_type_at(b, end_number_part) {
        Some(t) => Ok((end_integer_part, end_fractional_part, end_number_part, Some(t))),
        None => Err(perr_span(end_number_part, b.len(), ParseErrorKind::InvalidFloatTypeSuffix)),
    }
}

} // verus!
