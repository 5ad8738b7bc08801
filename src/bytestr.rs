//! Byte string literals: `b"hello"`, `br#"abc"def"#`.

use crate::err::{err_none, perr_none, ErrorModel, ParseError, ParseErrorKind};
use crate::escape::{escaped_literal, lemma_raw_literal, raw_literal, scan_raw_string, unescape_string};
use crate::{bytes_of, Buffer};
use std::ops::Range;
use vstd::prelude::*;

verus! {

/// What parsing a (raw) byte string literal finds: its value, whether an
/// escape or string continue made the value differ from the body, and the
/// number of hashes of a raw byte string.
pub struct ByteStringParts {
    pub value: Seq<u8>,
    pub escaped: bool,
    pub num_hashes: Option<int>,
}

/// The byte string literal grammar: `br`, hashes, a quoted body of ASCII
/// used verbatim, as many hashes; or `b` and a quoted body of ASCII in which
/// escapes (byte escapes, no `\u{...}`) and string continues are resolved.
pub open spec fn byte_string_literal(b: Seq<u8>) -> Result<ByteStringParts, ErrorModel> {
    if b.len() == 0 {
        Err(err_none(ParseErrorKind::Empty))
    } else if b.len() >= 2 && b[0] == 0x62 && b[1] == 0x72 {
        match raw_literal(b, 2, false) {
            Err(err) => Err(err),
            Ok(h) => Ok(
                ByteStringParts {
                    value: b.subrange(h + 3, b.len() - 1 - h),
                    escaped: false,
                    num_hashes: Some(h),
                },
            ),
        }
    } else if b.len() >= 2 && b[0] == 0x62 && b[1] == 0x22 {
        match escaped_literal(b, 2, false) {
            Err(err) => Err(err),
            Ok((v, esc)) => Ok(ByteStringParts { value: v, escaped: esc, num_hashes: None }),
        }
    } else {
        Err(err_none(ParseErrorKind::InvalidByteStringLiteralStart))
    }
}

/// The body of a byte string literal (between the quotes and hashes).
pub open spec fn byte_string_body(b: Seq<u8>, num_hashes: Option<int>) -> Seq<u8> {
    match num_hashes {
        None => b.subrange(2, b.len() - 1),
        Some(h) => b.subrange(h + 3, b.len() - 1 - h),
    }
}

/// A byte string or raw byte string literal, e.g. `b"hello"` or `br#"abc"def"#`.
#[derive(Debug, Clone, PartialEq, Eq)]
pub struct ByteStringLit<B: Buffer> {
    /// The raw input.
    raw: B,
    /// The string value (with all escapes unescaped), or `None` if there were
    /// no escapes. In the latter case, the body of `raw` is the value.
    value: Option<Vec<u8>>,
    /// The number of hash signs in case of a raw string literal, or `None` if
    /// it's not a raw string literal.
    num_hashes: Option<usize>,
}

impl<B: Buffer> ByteStringLit<B> {
    /// The source text of the literal.
    pub closed spec fn text(&self) -> Seq<char> {
        self.raw.text()
    }

    /// The parts that parsing found in the text.
    pub closed spec fn parts(&self) -> ByteStringParts {
        let nh = match self.num_hashes {
            Some(h) => Some(h as int),
            None => None,
        };
        ByteStringParts {
            value: match self.value {
                Some(v) => v@,
                None => byte_string_body(bytes_of(&self.raw), nh),
            },
            escaped: self.value is Some,
            num_hashes: nh,
        }
    }

    /// The parts are what parsing the text finds.
    pub closed spec fn wf(&self) -> bool {
        byte_string_literal(bytes_of(&self.raw)) == Ok::<ByteStringParts, ErrorModel>(self.parts())
    }

    /// Parses the input as a (raw) byte string literal. Returns an error if the
    /// input is invalid or represents a different kind of literal.
    pub fn parse(input: B) -> (r: Result<Self, ParseError>)
        ensures
            match r {
                Ok(lit) => lit.wf() && lit.text() == input.text() && byte_string_literal(
                    bytes_of(&input),
                ) == Ok::<ByteStringParts, ErrorModel>(lit.parts()),
                Err(e) => byte_string_literal(bytes_of(&input)) == Err::<ByteStringParts, ErrorModel>(
                    e.model(),
                ),
            },
    {
        let found = {
            let s = input.as_text();
            let b = s.as_bytes();
            proof {
                vstd::utf8::encode_utf8_valid_utf8(s@);
            }
            if b.len() == 0 {
                return Err(perr_none(ParseErrorKind::Empty));
            }
            if b.len() >= 2 && b[0] == 0x62 && b[1] == 0x72 {
                match scan_raw_string(b, 2, false) {
                    Ok(h) => (None, Some(h)),
                    Err(e) => {
                        return Err(e);
                    },
                }
            } else if b.len() >= 2 && b[0] == 0x62 && b[1] == 0x22 {
                match unescape_string::<u8>(b, 2, false) {
                    Ok(v) => (v, None),
                    Err(e) => {
                        return Err(e);
                    },
                }
            } else {
                return Err(perr_none(ParseErrorKind::InvalidByteStringLiteralStart));
            }
        };
        let (value, num_hashes) = found;
        let lit = ByteStringLit { raw: input, value, num_hashes };
        proof {
            let b = bytes_of(&lit.raw);
            if b[0] == 0x62 && b[1] == 0x72 {
                lemma_raw_literal(b, 2, false);
            }
        }
        Ok(lit)
    }

    /// The raw buffer, for contracts.
    pub closed spec fn raw_spec(&self) -> B {
        self.raw
    }

    /// The range within the text that excludes the quotes and potential `br#`.
    fn inner_range(&self) -> (r: Range<usize>)
        requires
            self.wf(),
        ensures
            r.start <= r.end <= bytes_of(&self.raw).len(),
            bytes_of(&self.raw).subrange(r.start as int, r.end as int) == byte_string_body(
                bytes_of(&self.raw),
                self.parts().num_hashes,
            ),
    {
        proof {
            let b = bytes_of(&self.raw);
            if b[0] == 0x62 && b[1] == 0x72 {
                lemma_raw_literal(b, 2, false);
            }
        }
        let n = self.raw.as_text().as_bytes().len();
        match self.num_hashes {
            None => Range { start: 2, end: n - 1 },
            Some(h) => Range { start: h + 3, end: n - 1 - h },
        }
    }

    /// Returns the string value this literal represents (where all escapes have
    /// been turned into their respective values).
    pub fn value(&self) -> (r: &[u8])
        requires
            self.wf(),
        ensures
            r@ == self.parts().value,
    {
        match &self.value {
            Some(v) => v.as_slice(),
            None => {
                let rg = self.inner_range();
                let b = self.raw.as_text().as_bytes();
                &b[rg.start..rg.end]
            },
        }
    }

    /// Like `value` but returns a potentially owned version of the value:
    /// borrowed from the input where it is borrowed and has no escapes.
    pub fn into_value(self) -> (r: B::ByteCow)
        requires
            self.wf(),
        ensures
            r@ == self.parts().value,
    {
        let rg = self.inner_range();
        let ByteStringLit { raw, value, .. } = self;
        match value {
            Some(v) => B::byte_cow_from_vec(v),
            None => raw.cut_bytes(rg.start, rg.end),
        }
    }

    /// Returns whether this literal is a raw byte string literal (starting with
    /// `br`).
    pub fn is_raw_byte_string(&self) -> (r: bool)
        ensures
            r == self.parts().num_hashes is Some,
    {
        self.num_hashes.is_some()
    }

    /// Renders the literal: its text, exactly as it was parsed.
    pub fn to_string(&self) -> (r: String)
        ensures
            r@ == self.text(),
    {
        self.raw.as_text().to_owned()
    }

    /// Returns the raw input that was passed to `parse`.
    pub fn raw_input(&self) -> (r: &str)
        ensures
            r@ == self.text(),
    {
        self.raw.as_text()
    }

    /// Returns the raw input that was passed to `parse`, potentially owned.
    pub fn into_raw_input(self) -> (r: B)
        ensures
            r.text() == self.text(),
    {
        self.raw
    }
}

impl<'a> ByteStringLit<&'a str> {
    /// Makes a copy of the underlying buffer and returns the owned version of
    /// `Self`.
    pub fn into_owned(self) -> (r: ByteStringLit<String>)
        requires
            self.wf(),
        ensures
            r.wf(),
            r.text() == self.text(),
            r.parts() == self.parts(),
    {
        ByteStringLit { raw: self.raw.to_owned(), value: self.value, num_hashes: self.num_hashes }
    }
}

} // verus!
