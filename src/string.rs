//! String literals: `"foo"`, `"Grüße"`, `r#"a🦊c"d🦀f"#`.

use crate::err::{err_at, err_none, perr_at, perr_none, ErrorModel, ParseError, ParseErrorKind};
use crate::escape::{escaped_literal, lemma_raw_literal, raw_literal, scan_raw_string, unescape_string};
use crate::textutil::{lemma_after_ascii, lemma_ascii_boundary, substr};
use crate::{bytes_of, Buffer};
use std::ops::Range;
use vstd::prelude::*;
use vstd::string::StringSliceAdditionalSpecFns;
use vstd::utf8::{encode_utf8, encode_utf8_valid_utf8, valid_utf8};

verus! {

/// Relies on `String::from_utf8`: it accepts exactly the valid UTF-8 byte
/// sequences and keeps their bytes.
#[verifier::external_body]
fn string_from_utf8(bytes: Vec<u8>) -> (r: Option<String>)
    ensures
        r is Some <==> valid_utf8(bytes@),
        r matches Some(s) ==> encode_utf8(s@) == bytes@,
{
    String::from_utf8(bytes).ok()
}

/// What parsing a (raw) string literal finds: the UTF-8 bytes of its value,
/// whether an escape or string continue made the value differ from the body,
/// and the number of hashes of a raw string.
pub struct StringParts {
    pub value: Seq<u8>,
    pub escaped: bool,
    pub num_hashes: Option<int>,
}

/// The string literal grammar: a raw string (`r`, hashes, a quoted body used
/// verbatim, as many hashes), or a quoted body in which escapes and string
/// continues are resolved.
pub open spec fn string_literal(b: Seq<u8>) -> Result<StringParts, ErrorModel> {
    if b.len() == 0 {
        Err(err_none(ParseErrorKind::Empty))
    } else if b[0] == 0x72 {
        match raw_literal(b, 1, true) {
            Err(err) => Err(err),
            Ok(h) => Ok(
                StringParts {
                    value: b.subrange(h + 2, b.len() - 1 - h),
                    escaped: false,
                    num_hashes: Some(h),
                },
            ),
        }
    } else if b[0] == 0x22 {
        match escaped_literal(b, 1, true) {
            Err(err) => Err(err),
            Ok((v, esc)) => Ok(StringParts { value: v, escaped: esc, num_hashes: None }),
        }
    } else {
        Err(err_at(ParseErrorKind::InvalidStringLiteralStart, 0))
    }
}

/// The body of a string literal (between the quotes and hashes).
pub open spec fn string_body(b: Seq<u8>, num_hashes: Option<int>) -> Seq<u8> {
    match num_hashes {
        None => b.subrange(1, b.len() - 1),
        Some(h) => b.subrange(h + 2, b.len() - 1 - h),
    }
}

/// A string or raw string literal, e.g. `"foo"`, `"Grüße"` or `r#"a🦊c"d🦀f"#`.
#[derive(Debug, Clone, PartialEq, Eq)]
pub struct StringLit<B: Buffer> {
    /// The raw input.
    raw: B,
    /// The string value (with all escapes unescaped), or `None` if there were
    /// no escapes. In the latter case, the body of `raw` is the string value.
    value: Option<String>,
    /// The number of hash signs in case of a raw string literal, or `None` if
    /// it's not a raw string literal.
    num_hashes: Option<usize>,
}

impl<B: Buffer> StringLit<B> {
    /// The source text of the literal.
    pub closed spec fn text(&self) -> Seq<char> {
        self.raw.text()
    }

    /// The parts that parsing found in the text.
    pub closed spec fn parts(&self) -> StringParts {
        let nh = match self.num_hashes {
            Some(h) => Some(h as int),
            None => None,
        };
        StringParts {
            value: match self.value {
                Some(s) => encode_utf8(s@),
                None => string_body(bytes_of(&self.raw), nh),
            },
            escaped: self.value is Some,
            num_hashes: nh,
        }
    }

    /// The parts are what parsing the text finds.
    pub closed spec fn wf(&self) -> bool {
        string_literal(bytes_of(&self.raw)) == Ok::<StringParts, ErrorModel>(self.parts())
    }

    /// Parses the input as a (raw) string literal. Returns an error if the
    /// input is invalid or represents a different kind of literal.
    pub fn parse(input: B) -> (r: Result<Self, ParseError>)
        ensures
            match r {
                Ok(lit) => lit.wf() && lit.text() == input.text() && string_literal(bytes_of(&input))
                    == Ok::<StringParts, ErrorModel>(lit.parts()),
                Err(e) => string_literal(bytes_of(&input)) == Err::<StringParts, ErrorModel>(e.model()),
            },
    {
        let found = {
            let s = input.as_text();
            let b = s.as_bytes();
            proof {
                encode_utf8_valid_utf8(s@);
            }
            if b.len() == 0 {
                return Err(perr_none(ParseErrorKind::Empty));
            }
            if b[0] == 0x72 {
                match scan_raw_string(b, 1, true) {
                    Ok(h) => (None, Some(h)),
                    Err(e) => {
                        return Err(e);
                    },
                }
            } else if b[0] == 0x22 {
                match unescape_string::<char>(b, 1, true) {
                    Ok(None) => (None, None),
                    Ok(Some(v)) => match string_from_utf8(v) {
                        Some(value) => (Some(value), None),
                        None => {
                            return Err(perr_none(ParseErrorKind::InvalidLiteral));
                        },
                    },
                    Err(e) => {
                        return Err(e);
                    },
                }
            } else {
                return Err(perr_at(0, ParseErrorKind::InvalidStringLiteralStart));
            }
        };
        let (value, num_hashes) = found;
        let lit = StringLit { raw: input, value, num_hashes };
        proof {
            let b = bytes_of(&lit.raw);
            if b[0] == 0x72 {
                lemma_raw_literal(b, 1, true);
            }
        }
        Ok(lit)
    }

    /// The raw buffer, for contracts.
    pub closed spec fn raw_spec(&self) -> B {
        self.raw
    }

    /// Where the body lies, with its quotes around it.
    proof fn lemma_body(&self)
        requires
            self.wf(),
        ensures
            ({
                let b = bytes_of(&self.raw);
                let (start, end) = match self.num_hashes {
                    None => (1int, b.len() - 1),
                    Some(h) => (h + 2, b.len() - 1 - h),
                };
                &&& 1 <= start <= end < b.len()
                &&& b[start - 1] < 0x80
                &&& b[end] == 0x22
                &&& valid_utf8(b)
                &&& string_body(b, self.parts().num_hashes) == b.subrange(start, end)
            }),
    {
        let b = bytes_of(&self.raw);
        encode_utf8_valid_utf8(self.raw.text());
        if b[0] == 0x72 {
            lemma_raw_literal(b, 1, true);
        }
    }

    /// The range within the text that excludes the quotes and potential `r#`.
    fn inner_range(&self) -> (r: Range<usize>)
        requires
            self.wf(),
        ensures
            r.start <= r.end < bytes_of(&self.raw).len(),
            bytes_of(&self.raw).subrange(r.start as int, r.end as int) == string_body(
                bytes_of(&self.raw),
                self.parts().num_hashes,
            ),
            r.start == bytes_of(&self.raw).len() || !vstd::utf8::is_continuation_byte(
                bytes_of(&self.raw)[r.start as int],
            ),
            bytes_of(&self.raw)[r.end as int] == 0x22,
    {
        proof {
            self.lemma_body();
        }
        let n = self.raw.as_text().as_bytes().len();
        let r = match self.num_hashes {
            None => Range { start: 1, end: n - 1 },
            Some(h) => Range { start: h + 2, end: n - 1 - h },
        };
        proof {
            lemma_after_ascii(bytes_of(&self.raw), r.start as int);
        }
        r
    }

    /// The body of the text, as a string slice.
    fn body(&self) -> (r: &str)
        requires
            self.wf(),
        ensures
            r.spec_bytes() == string_body(bytes_of(&self.raw), self.parts().num_hashes),
    {
        let rg = self.inner_range();
        let s = self.raw.as_text();
        proof {
            lemma_ascii_boundary(s.spec_bytes(), rg.end as int);
        }
        substr(s, rg.start, rg.end)
    }

    /// Returns the string value this literal represents (where all escapes have
    /// been turned into their respective values).
    pub fn value(&self) -> (r: &str)
        requires
            self.wf(),
        ensures
            r.spec_bytes() == self.parts().value,
    {
        match &self.value {
            Some(v) => v.as_str(),
            None => self.body(),
        }
    }

    /// Like `value` but returns a potentially owned version of the value:
    /// borrowed from the input where it is borrowed and has no escapes.
    pub fn into_value(self) -> (r: B::Cow)
        requires
            self.wf(),
        ensures
            encode_utf8(r@) == self.parts().value,
    {
        let rg = self.inner_range();
        proof {
            self.lemma_body();
        }
        let ghost body = string_body(bytes_of(&self.raw), self.parts().num_hashes);
        let StringLit { raw, value, .. } = self;
        match value {
            Some(v) => B::cow_from_string(v),
            None => {
                proof {
                    lemma_ascii_boundary(bytes_of(&raw), rg.end as int);
                }
                raw.cut(rg.start, rg.end)
            },
        }
    }

    /// Returns whether this literal is a raw string literal (starting with
    /// `r`).
    pub fn is_raw_string(&self) -> (r: bool)
        ensures
            r == self.parts().num_hashes is Some,
    {
        self.num_hashes.is_some()
    }

    /// Renders the literal: its text, exactly as it was parsed.
    pub fn to_string(&self) -> (r: String)
        ensures
            r@ == self.text(),
    {
        self.raw.as_text().to_owned()
    }

    /// Returns the raw input that was passed to `parse`.
    pub fn raw_input(&self) -> (r: &str)
        ensures
            r@ == self.text(),
    {
        self.raw.as_text()
    }

    /// Returns the raw input that was passed to `parse`, potentially owned.
    pub fn into_raw_input(self) -> (r: B)
        ensures
            r.text() == self.text(),
    {
        self.raw
    }
}

impl<'a> StringLit<&'a str> {
    /// Makes a copy of the underlying buffer and returns the owned version of
    /// `Self`.
    pub fn into_owned(self) -> (r: StringLit<String>)
        requires
            self.wf(),
        ensures
            r.wf(),
            r.text() == self.text(),
            r.parts() == self.parts(),
    {
        StringLit { raw: self.raw.to_owned(), value: self.value, num_hashes: self.num_hashes }
    }
}

} // verus!
