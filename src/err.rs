use std::ops::Range;
use vstd::prelude::*;
use vstd::string::StringExecFns;

verus! {

/// Kinds of errors.
#[derive(Debug, Clone, Copy, PartialEq, Eq, Structural)]
#[non_exhaustive]
pub enum ParseErrorKind {
    /// The input was an empty string
    Empty,
    /// An unexpected char was encountered.
    UnexpectedChar,
    /// Literal was not recognized.
    InvalidLiteral,
    /// Input does not start with decimal digit when trying to parse an integer.
    DoesNotStartWithDigit,
    /// A digit invalid for the specified integer base was found.
    InvalidDigit,
    /// Integer literal does not contain any valid digits.
    NoDigits,
    /// Found a integer type suffix that is invalid.
    InvalidIntegerTypeSuffix,
    /// Found a float type suffix that is invalid. Only `f32` and `f64` are
    /// valid.
    InvalidFloatTypeSuffix,
    /// Exponent of a float literal does not contain any digits.
    NoExponentDigits,
    /// An unknown escape code, e.g. `\b`.
    UnknownEscape,
    /// A started escape sequence where the input ended before the escape was
    /// finished.
    UnterminatedEscape,
    /// An `\x` escape where the two digits are not valid hex digits.
    InvalidXEscape,
    /// A string or character literal using the `\xNN` escape where `NN > 0x7F`.
    NonAsciiXEscape,
    /// A `\u{...}` escape in a byte or byte string literal.
    UnicodeEscapeInByteLiteral,
    /// A Unicode escape that does not start with a hex digit.
    InvalidStartOfUnicodeEscape,
    /// A `\u{...}` escape that lacks the opening brace.
    UnicodeEscapeWithoutBrace,
    /// In a `\u{...}` escape, a non-hex digit and non-underscore character was
    /// found.
    NonHexDigitInUnicodeEscape,
    /// More than 6 digits found in unicode escape.
    TooManyDigitInUnicodeEscape,
    /// The value from a unicode escape does not represent a valid character.
    InvalidUnicodeEscapeChar,
    /// A `\u{..` escape that is not terminated (lacks the closing brace).
    UnterminatedUnicodeEscape,
    /// A character literal that's not terminated.
    UnterminatedCharLiteral,
    /// A character literal that contains more than one character.
    OverlongCharLiteral,
    /// An empty character literal, i.e. `''`.
    EmptyCharLiteral,
    /// A byte literal that's not terminated.
    UnterminatedByteLiteral,
    /// A byte literal that contains more than one byte.
    OverlongByteLiteral,
    /// An empty byte literal, i.e. `b''`.
    EmptyByteLiteral,
    /// A non-ASCII character in a byte or byte string literal.
    NonAsciiInByteLiteral,
    /// A `'` character was not escaped in a character or byte literal.
    UnescapedSingleQuote,
    /// A \n, \t or \r raw character in a char or byte literal.
    UnescapedSpecialWhitespace,
    /// When parsing a character literal directly and the input does not start
    /// with `'`.
    DoesNotStartWithQuote,
    /// Unterminated raw string literal.
    UnterminatedRawString,
    /// String literal without a `"` at the end.
    UnterminatedString,
    /// Invalid start for a string literal.
    InvalidStringLiteralStart,
    /// Invalid start for a byte literal.
    InvalidByteLiteralStart,
    /// Invalid start for a byte string literal.
    InvalidByteStringLiteralStart,
    /// An literal `\r` character not followed by a `\n` character in a
    /// (raw) string or byte string literal.
    IsolatedCr,
}

/// What an error says: its kind and, if there is one, its half-open byte
/// range into the input.
pub type ErrorModel = (ParseErrorKind, Option<(int, int)>);

/// An error with a one-byte span at `at`.
pub open spec fn err_at(kind: ParseErrorKind, at: int) -> ErrorModel {
    (kind, Some((at, at + 1)))
}

/// An error with the span `start..end`.
pub open spec fn err_span(kind: ParseErrorKind, start: int, end: int) -> ErrorModel {
    (kind, Some((start, end)))
}

/// An error without a span.
pub open spec fn err_none(kind: ParseErrorKind) -> ErrorModel {
    (kind, None)
}

/// Errors during parsing.
///
/// This type should be seen primarily for error reporting and not for catching
/// specific cases. The span and error kind are not guaranteed to be stable
/// over different versions of this library: there are too many fringe cases
/// that are not easy to classify as a specific error kind.
#[derive(Debug, Clone)]
pub struct ParseError {
    span: Option<Range<usize>>,
    kind: ParseErrorKind,
}

impl ParseError {
    /// The kind and span of this error.
    pub closed spec fn model(&self) -> ErrorModel {
        (
            self.kind,
            match self.span {
                Some(r) => Some((r.start as int, r.end as int)),
                None => None,
            },
        )
    }

    /// Returns a span of this error, if available. **Note**: the returned span
    /// might change in future versions of this library.
    pub fn span(&self) -> (r: Option<Range<usize>>)
        ensures
            r is None <==> self.model().1 is None,
            r matches Some(rg) ==> self.model().1 == Some((rg.start as int, rg.end as int)),
    {
        match &self.span {
            Some(r) => Some(Range { start: r.start, end: r.end }),
            None => None,
        }
    }

    /// Returns the kind of this error.
    pub fn kind(&self) -> (r: ParseErrorKind)
        ensures
            r == self.model().0,
    {
        self.kind
    }
}

/// An error with a one-byte span at `at`.
pub(crate) fn perr_at(at: usize, kind: ParseErrorKind) -> (r: ParseError)
    requires
        at < usize::MAX,
    ensures
        r.model() == err_at(kind, at as int),
{
    ParseError { span: Some(Range { start: at, end: at + 1 }), kind }
}

/// An error with the span `start..end`.
pub(crate) fn perr_span(start: usize, end: usize, kind: ParseErrorKind) -> (r: ParseError)
    ensures
        r.model() == err_span(kind, start as int, end as int),
{
    ParseError { span: Some(Range { start, end }), kind }
}

/// An error without a span.
pub(crate) fn perr_none(kind: ParseErrorKind) -> (r: ParseError)
    ensures
        r.model() == err_none(kind),
{
    ParseError { span: None, kind }
}


/// The description of an error kind.
pub open spec fn description_of(kind: ParseErrorKind) -> Seq<char> {
    match kind {
        ParseErrorKind::Empty => "input is empty"@,
        ParseErrorKind::UnexpectedChar => "unexpected character"@,
        ParseErrorKind::InvalidLiteral => "invalid literal"@,
        ParseErrorKind::DoesNotStartWithDigit => "number literal does not start with decimal digit"@,
        ParseErrorKind::InvalidDigit => "integer literal contains a digit invalid for its base"@,
        ParseErrorKind::NoDigits => "integer literal does not contain any digits"@,
        ParseErrorKind::InvalidIntegerTypeSuffix => "invalid integer type suffix"@,
        ParseErrorKind::InvalidFloatTypeSuffix => "invalid floating point type suffix"@,
        ParseErrorKind::NoExponentDigits => "exponent of floating point literal does not contain any digits"@,
        ParseErrorKind::UnknownEscape => "unknown escape"@,
        ParseErrorKind::UnterminatedEscape => "unterminated escape: input ended too soon"@,
        ParseErrorKind::InvalidXEscape => "invalid `\\x` escape: not followed by two hex digits"@,
        ParseErrorKind::NonAsciiXEscape => "`\\x` escape in char/string literal exceed ASCII range"@,
        ParseErrorKind::UnicodeEscapeInByteLiteral => "`\\u{...}` escape in byte (string) literal not allowed"@,
        ParseErrorKind::InvalidStartOfUnicodeEscape => "invalid start of `\\u{...}` escape"@,
        ParseErrorKind::UnicodeEscapeWithoutBrace => "`Unicode \\u{...}` escape without opening brace"@,
        ParseErrorKind::NonHexDigitInUnicodeEscape => "non-hex digit found in `\\u{...}` escape"@,
        ParseErrorKind::TooManyDigitInUnicodeEscape => "more than six digits in `\\u{...}` escape"@,
        ParseErrorKind::InvalidUnicodeEscapeChar => "value specified in `\\u{...}` escape is not a valid char"@,
        ParseErrorKind::UnterminatedUnicodeEscape => "unterminated `\\u{...}` escape"@,
        ParseErrorKind::UnterminatedCharLiteral => "character literal is not terminated"@,
        ParseErrorKind::OverlongCharLiteral => "character literal contains more than one character"@,
        ParseErrorKind::EmptyCharLiteral => "empty character literal"@,
        ParseErrorKind::UnterminatedByteLiteral => "byte literal is not terminated"@,
        ParseErrorKind::OverlongByteLiteral => "byte literal contains more than one byte"@,
        ParseErrorKind::EmptyByteLiteral => "empty byte literal"@,
        ParseErrorKind::NonAsciiInByteLiteral => "non ASCII character in byte (string) literal"@,
        ParseErrorKind::UnescapedSingleQuote => "character literal contains unescaped ' character"@,
        ParseErrorKind::UnescapedSpecialWhitespace => "unescaped newline (\\n), tab (\\t) or cr (\\r) character"@,
        ParseErrorKind::DoesNotStartWithQuote => "invalid start for char/byte/string literal"@,
        ParseErrorKind::UnterminatedRawString => "unterminated raw (byte) string literal"@,
        ParseErrorKind::UnterminatedString => "unterminated (byte) string literal"@,
        ParseErrorKind::InvalidStringLiteralStart => "invalid start for string literal"@,
        ParseErrorKind::InvalidByteLiteralStart => "invalid start for byte literal"@,
        ParseErrorKind::InvalidByteStringLiteralStart => "invalid start for byte string literal"@,
        ParseErrorKind::IsolatedCr => "`\\r` not immediately followed by `\\n` in string"@,
    }
}

/// The decimal digit `d`.
pub open spec fn digit_text(d: nat) -> Seq<char> {
    if d == 0 {
        "0"@
    } else if d == 1 {
        "1"@
    } else if d == 2 {
        "2"@
    } else if d == 3 {
        "3"@
    } else if d == 4 {
        "4"@
    } else if d == 5 {
        "5"@
    } else if d == 6 {
        "6"@
    } else if d == 7 {
        "7"@
    } else if d == 8 {
        "8"@
    } else if d == 9 {
        "9"@
    } else {
        Seq::empty()
    }
}

/// The decimal notation of `n`.
pub open spec fn decimal(n: nat) -> Seq<char>
    decreases n,
{
    if n < 10 {
        digit_text(n)
    } else {
        decimal(n / 10) + digit_text(n % 10)
    }
}

/// The rendering of an error: its description, and its span if it has one.
pub open spec fn message_of(m: ErrorModel) -> Seq<char> {
    description_of(m.0) + match m.1 {
        None => Seq::empty(),
        Some((start, end)) => " (at "@ + decimal(start as nat) + ".."@ + decimal(end as nat) + ")"@,
    }
}

impl ParseErrorKind {
    /// A human-readable description of the error kind.
    pub fn description(self) -> (r: &'static str)
        ensures
            r@ == description_of(self),
    {
        match self {
            ParseErrorKind::Empty => "input is empty",
            ParseErrorKind::UnexpectedChar => "unexpected character",
            ParseErrorKind::InvalidLiteral => "invalid literal",
            ParseErrorKind::DoesNotStartWithDigit => "number literal does not start with decimal digit",
            ParseErrorKind::InvalidDigit => "integer literal contains a digit invalid for its base",
            ParseErrorKind::NoDigits => "integer literal does not contain any digits",
            ParseErrorKind::InvalidIntegerTypeSuffix => "invalid integer type suffix",
            ParseErrorKind::InvalidFloatTypeSuffix => "invalid floating point type suffix",
            ParseErrorKind::NoExponentDigits => "exponent of floating point literal does not contain any digits",
            ParseErrorKind::UnknownEscape => "unknown escape",
            ParseErrorKind::UnterminatedEscape => "unterminated escape: input ended too soon",
            ParseErrorKind::InvalidXEscape => "invalid `\\x` escape: not followed by two hex digits",
            ParseErrorKind::NonAsciiXEscape => "`\\x` escape in char/string literal exceed ASCII range",
            ParseErrorKind::UnicodeEscapeInByteLiteral => "`\\u{...}` escape in byte (string) literal not allowed",
            ParseErrorKind::InvalidStartOfUnicodeEscape => "invalid start of `\\u{...}` escape",
            ParseErrorKind::UnicodeEscapeWithoutBrace => "`Unicode \\u{...}` escape without opening brace",
            ParseErrorKind::NonHexDigitInUnicodeEscape => "non-hex digit found in `\\u{...}` escape",
            ParseErrorKind::TooManyDigitInUnicodeEscape => "more than six digits in `\\u{...}` escape",
            ParseErrorKind::InvalidUnicodeEscapeChar => "value specified in `\\u{...}` escape is not a valid char",
            ParseErrorKind::UnterminatedUnicodeEscape => "unterminated `\\u{...}` escape",
            ParseErrorKind::UnterminatedCharLiteral => "character literal is not terminated",
            ParseErrorKind::OverlongCharLiteral => "character literal contains more than one character",
            ParseErrorKind::EmptyCharLiteral => "empty character literal",
            ParseErrorKind::UnterminatedByteLiteral => "byte literal is not terminated",
            ParseErrorKind::OverlongByteLiteral => "byte literal contains more than one byte",
            ParseErrorKind::EmptyByteLiteral => "empty byte literal",
            ParseErrorKind::NonAsciiInByteLiteral => "non ASCII character in byte (string) literal",
            ParseErrorKind::UnescapedSingleQuote => "character literal contains unescaped ' character",
            ParseErrorKind::UnescapedSpecialWhitespace => "unescaped newline (\\n), tab (\\t) or cr (\\r) character",
            ParseErrorKind::DoesNotStartWithQuote => "invalid start for char/byte/string literal",
            ParseErrorKind::UnterminatedRawString => "unterminated raw (byte) string literal",
            ParseErrorKind::UnterminatedString => "unterminated (byte) string literal",
            ParseErrorKind::InvalidStringLiteralStart => "invalid start for string literal",
            ParseErrorKind::InvalidByteLiteralStart => "invalid start for byte literal",
            ParseErrorKind::InvalidByteStringLiteralStart => "invalid start for byte string literal",
            ParseErrorKind::IsolatedCr => "`\\r` not immediately followed by `\\n` in string",
        }
    }
}

/// The decimal digit `d`.
fn digit_str(d: usize) -> (r: &'static str)
    requires
        d < 10,
    ensures
        r@ == digit_text(d as nat),
{
    match d {
        0 => "0",
        1 => "1",
        2 => "2",
        3 => "3",
        4 => "4",
        5 => "5",
        6 => "6",
        7 => "7",
        8 => "8",
        9 => "9",
        _ => "9",
    }
}

/// Appends the decimal notation of `n`.
fn push_decimal(s: &mut String, n: usize)
    ensures
        final(s)@ == old(s)@ + decimal(n as nat),
    decreases n,
{
    if n >= 10 {
        push_decimal(s, n / 10);
    }
    s.append(digit_str(n % 10));
    proof {
        if n >= 10 {
            assert(final(s)@ =~= old(s)@ + decimal(n as nat));
        }
    }
}

impl ParseError {
    /// Renders the error: its description, then its span, if any, as
    /// ` (at start..end)`.
    pub fn to_string(&self) -> (r: String)
        ensures
            r@ == message_of(self.model()),
    {
        let mut s = String::from_str(self.kind.description());
        match &self.span {
            Some(rg) => {
                s.append(" (at ");
                push_decimal(&mut s, rg.start);
                s.append("..");
                push_decimal(&mut s, rg.end);
                s.append(")");
                assert(s@ =~= message_of(self.model()));
            },
            None => {
                assert(s@ =~= message_of(self.model()));
            },
        }
        s
    }
}

} // verus!
