//! Parsing and inspecting Rust literal tokens.
//!
//! Each literal kind has its own type (`IntegerLit`, `FloatLit`, `CharLit`,
//! `StringLit`, `ByteLit`, `ByteStringLit`, `BoolLit`); `Literal` is the sum
//! of all of them. Every `parse` function takes the exact text of one literal
//! and returns the decoded literal or a `ParseError`. Their contracts state the
//! grammar over the input's UTF-8 bytes.

mod bool_lit;
mod bytestr;
mod char_lit;
mod err;
mod escape;
mod float;
mod integer;
mod laws;
mod parse;
mod scan;
mod sealed;
mod string;
mod textutil;

pub use bool_lit::{bool_literal, BoolLit};
pub use bytestr::{byte_string_literal, ByteStringLit, ByteStringParts};
pub use char_lit::{byte_literal, char_literal, ByteLit, CharLit};
pub use err::{message_of, ErrorModel, ParseError, ParseErrorKind};
pub use escape::{escaped_literal, raw_literal, unescape_spec};
pub use float::{float_literal, FloatLit, FloatParts, FloatType};
pub use integer::{
    digits_value, integer_literal, reads_value, without_underscores, FromIntegerLiteral, IntegerBase,
    IntegerLit, IntegerParts, IntegerType,
};
pub use laws::{
    lemma_all_separators_no_digits, lemma_round_trip, lemma_separators_transparent,
    lemma_value_idempotent,
};
pub use parse::{literal_kind, literal_result};
pub use string::{string_literal, StringLit, StringParts};

use bool_lit::{false_bytes, true_bytes};
use vstd::prelude::*;
use std::borrow::Cow;
use textutil::{boundary_ok, substr};
use vstd::string::StringSliceAdditionalSpecFns;
use vstd::utf8::encode_utf8;

verus! {

/// A shared or owned string buffer that a literal keeps its source text in.
/// Implemented for `&str` (the literal borrows the input) and `String` (the
/// literal owns it); sealed against other implementations.
pub trait Buffer: sealed::Sealed + Sized {
    /// `Cow<'a, str>` for `&'a str`, `Cow<'static, str>` for `String`.
    type Cow: View<V = Seq<char>>;

    /// `Cow<'a, [u8]>` for `&'a str`, `Cow<'static, [u8]>` for `String`.
    type ByteCow: View<V = Seq<u8>>;

    /// The text held by the buffer.
    spec fn text(&self) -> Seq<char>;

    /// The text held by the buffer, as a string slice.
    fn as_text(&self) -> (r: &str)
        ensures
            r@ == self.text(),
    ;

    /// An owned string as a `Cow`.
    fn cow_from_string(s: String) -> (r: Self::Cow)
        ensures
            r@ == s@,
    ;

    /// An owned byte vector as a `ByteCow`.
    fn byte_cow_from_vec(v: Vec<u8>) -> (r: Self::ByteCow)
        ensures
            r@ == v@,
    ;

    /// The text between two byte offsets, borrowed where the buffer is.
    fn cut(self, start: usize, end: usize) -> (r: Self::Cow)
        requires
            start <= end <= encode_utf8(self.text()).len(),
            boundary_ok(encode_utf8(self.text()), start as int),
            boundary_ok(encode_utf8(self.text()), end as int),
        ensures
            encode_utf8(r@) == encode_utf8(self.text()).subrange(start as int, end as int),
    ;

    /// The bytes between two byte offsets, borrowed where the buffer is.
    fn cut_bytes(self, start: usize, end: usize) -> (r: Self::ByteCow)
        requires
            start <= end <= encode_utf8(self.text()).len(),
        ensures
            r@ == encode_utf8(self.text()).subrange(start as int, end as int),
    ;
}

impl<'a> Buffer for &'a str {
    type Cow = Cow<'a, str>;

    type ByteCow = Cow<'a, [u8]>;

    open spec fn text(&self) -> Seq<char> {
        (**self)@
    }

    fn as_text(&self) -> (r: &str) {
        *self
    }

    fn cow_from_string(s: String) -> (r: Self::Cow) {
        Cow::Owned(s)
    }

    fn byte_cow_from_vec(v: Vec<u8>) -> (r: Self::ByteCow) {
        Cow::Owned(v)
    }

    fn cut(self, start: usize, end: usize) -> (r: Self::Cow) {
        let r = substr(self, start, end);
        proof {
            assert(encode_utf8(r@) == r.spec_bytes());
        }
        Cow::Borrowed(r)
    }

    fn cut_bytes(self, start: usize, end: usize) -> (r: Self::ByteCow) {
        let b = self.as_bytes();
        Cow::Borrowed(&b[start..end])
    }
}

impl Buffer for String {
    type Cow = Cow<'static, str>;

    type ByteCow = Cow<'static, [u8]>;

    open spec fn text(&self) -> Seq<char> {
        self@
    }

    fn as_text(&self) -> (r: &str) {
        self.as_str()
    }

    fn cow_from_string(s: String) -> (r: Self::Cow) {
        Cow::Owned(s)
    }

    fn byte_cow_from_vec(v: Vec<u8>) -> (r: Self::ByteCow) {
        Cow::Owned(v)
    }

    fn cut(self, start: usize, end: usize) -> (r: Self::Cow) {
        let r = substr(self.as_str(), start, end).to_owned();
        Cow::Owned(r)
    }

    fn cut_bytes(self, start: usize, end: usize) -> (r: Self::ByteCow) {
        let b = self.as_str().as_bytes();
        Cow::Owned(vstd::slice::slice_to_vec(&b[start..end]))
    }
}

/// The UTF-8 bytes of a buffer's text.
pub open spec fn bytes_of<B: Buffer>(b: &B) -> Seq<u8> {
    encode_utf8(b.text())
}

/// A literal. This is the main type of this library.
///
/// This type is generic over the underlying buffer `B`, which can be `&str` or
/// `String`. To create it, call `Literal::parse` with the input text.
#[derive(Debug, Clone, PartialEq, Eq)]
pub enum Literal<B: Buffer> {
    Bool(BoolLit),
    Integer(IntegerLit<B>),
    Float(FloatLit<B>),
    Char(CharLit<B>),
    String(StringLit<B>),
    Byte(ByteLit<B>),
    ByteString(ByteStringLit<B>),
}

/// The kinds of literals.
#[derive(Debug, Clone, Copy, PartialEq, Eq, Structural)]
pub enum LiteralKind {
    Bool,
    Integer,
    Float,
    Char,
    String,
    Byte,
    ByteString,
}

impl<B: Buffer> Literal<B> {
    /// The kind of the literal.
    pub open spec fn kind(&self) -> LiteralKind {
        match self {
            Literal::Bool(_) => LiteralKind::Bool,
            Literal::Integer(_) => LiteralKind::Integer,
            Literal::Float(_) => LiteralKind::Float,
            Literal::Char(_) => LiteralKind::Char,
            Literal::String(_) => LiteralKind::String,
            Literal::Byte(_) => LiteralKind::Byte,
            Literal::ByteString(_) => LiteralKind::ByteString,
        }
    }

    /// The literal's parts are what parsing its text finds.
    pub open spec fn wf(&self) -> bool {
        match self {
            Literal::Bool(_) => true,
            Literal::Integer(l) => l.wf(),
            Literal::Float(l) => l.wf(),
            Literal::Char(l) => l.wf(),
            Literal::String(l) => l.wf(),
            Literal::Byte(l) => l.wf(),
            Literal::ByteString(l) => l.wf(),
        }
    }

    /// The UTF-8 bytes of the literal's text.
    pub open spec fn bytes(&self) -> Seq<u8> {
        match self {
            Literal::Bool(BoolLit::False) => false_bytes(),
            Literal::Bool(BoolLit::True) => true_bytes(),
            Literal::Integer(l) => encode_utf8(l.text()),
            Literal::Float(l) => encode_utf8(l.text()),
            Literal::Char(l) => encode_utf8(l.text()),
            Literal::String(l) => encode_utf8(l.text()),
            Literal::Byte(l) => encode_utf8(l.text()),
            Literal::ByteString(l) => encode_utf8(l.text()),
        }
    }
}

impl<B: Buffer> Literal<B> {
    /// Renders the literal: its text, exactly as it was parsed.
    pub fn to_string(&self) -> (r: String)
        ensures
            encode_utf8(r@) == self.bytes(),
    {
        match self {
            Literal::Bool(l) => l.as_str().to_owned(),
            Literal::Integer(l) => l.to_string(),
            Literal::Float(l) => l.to_string(),
            Literal::Char(l) => l.to_string(),
            Literal::String(l) => l.to_string(),
            Literal::Byte(l) => l.to_string(),
            Literal::ByteString(l) => l.to_string(),
        }
    }
}

impl<'a> Literal<&'a str> {
    /// Makes a copy of the underlying buffer and returns the owned version of
    /// `Self`.
    pub fn into_owned(self) -> (r: Literal<String>)
        requires
            self.wf(),
        ensures
            r.wf(),
            r.kind() == self.kind(),
            r.bytes() == self.bytes(),
    {
        match self {
            Literal::Bool(l) => Literal::Bool(l),
            Literal::Integer(l) => Literal::Integer(l.to_owned()),
            Literal::Float(l) => Literal::Float(l.to_owned()),
            Literal::Char(l) => Literal::Char(l.to_owned()),
            Literal::String(l) => Literal::String(l.into_owned()),
            Literal::Byte(l) => Literal::Byte(l.to_owned()),
            Literal::ByteString(l) => Literal::ByteString(l.into_owned()),
        }
    }
}


impl<B: Buffer> From<BoolLit> for Literal<B> {
    fn from(src: BoolLit) -> (r: Self) {
        Literal::Bool(src)
    }
}

impl<B: Buffer> vstd::std_specs::convert::FromSpecImpl<BoolLit> for Literal<B> {
    open spec fn obeys_from_spec() -> bool {
        true
    }

    open spec fn from_spec(v: BoolLit) -> Self {
        Literal::Bool(v)
    }
}

impl<B: Buffer> From<IntegerLit<B>> for Literal<B> {
    fn from(src: IntegerLit<B>) -> (r: Self) {
        Literal::Integer(src)
    }
}

impl<B: Buffer> vstd::std_specs::convert::FromSpecImpl<IntegerLit<B>> for Literal<B> {
    open spec fn obeys_from_spec() -> bool {
        true
    }

    open spec fn from_spec(v: IntegerLit<B>) -> Self {
        Literal::Integer(v)
    }
}

impl<B: Buffer> From<FloatLit<B>> for Literal<B> {
    fn from(src: FloatLit<B>) -> (r: Self) {
        Literal::Float(src)
    }
}

impl<B: Buffer> vstd::std_specs::convert::FromSpecImpl<FloatLit<B>> for Literal<B> {
    open spec fn obeys_from_spec() -> bool {
        true
    }

    open spec fn from_spec(v: FloatLit<B>) -> Self {
        Literal::Float(v)
    }
}

impl<B: Buffer> From<CharLit<B>> for Literal<B> {
    fn from(src: CharLit<B>) -> (r: Self) {
        Literal::Char(src)
    }
}

impl<B: Buffer> vstd::std_specs::convert::FromSpecImpl<CharLit<B>> for Literal<B> {
    open spec fn obeys_from_spec() -> bool {
        true
    }

    open spec fn from_spec(v: CharLit<B>) -> Self {
        Literal::Char(v)
    }
}

impl<B: Buffer> From<StringLit<B>> for Literal<B> {
    fn from(src: StringLit<B>) -> (r: Self) {
        Literal::String(src)
    }
}

impl<B: Buffer> vstd::std_specs::convert::FromSpecImpl<StringLit<B>> for Literal<B> {
    open spec fn obeys_from_spec() -> bool {
        true
    }

    open spec fn from_spec(v: StringLit<B>) -> Self {
        Literal::String(v)
    }
}

impl<B: Buffer> From<ByteLit<B>> for Literal<B> {
    fn from(src: ByteLit<B>) -> (r: Self) {
        Literal::Byte(src)
    }
}

impl<B: Buffer> vstd::std_specs::convert::FromSpecImpl<ByteLit<B>> for Literal<B> {
    open spec fn obeys_from_spec() -> bool {
        true
    }

    open spec fn from_spec(v: ByteLit<B>) -> Self {
        Literal::Byte(v)
    }
}

impl<B: Buffer> From<ByteStringLit<B>> for Literal<B> {
    fn from(src: ByteStringLit<B>) -> (r: Self) {
        Literal::ByteString(src)
    }
}

impl<B: Buffer> vstd::std_specs::convert::FromSpecImpl<ByteStringLit<B>> for Literal<B> {
    open spec fn obeys_from_spec() -> bool {
        true
    }

    open spec fn from_spec(v: ByteStringLit<B>) -> Self {
        Literal::ByteString(v)
    }
}

} // verus!
