use litrs::{CharLit, Literal, ParseError, ParseErrorKind};
use std::fmt::Debug;
use std::ops::Range;

fn check(input: &str, value: char) {
    let lit = CharLit::parse(input).expect("failed to parse");
    assert_eq!(lit.value(), value);
    assert_eq!(lit.to_string(), input);
    match Literal::parse(input) {
        Ok(Literal::Char(l)) => assert_eq!(l, lit),
        other => panic!("unexpected result for `{}`: {:?}", input, other),
    }
    assert_eq!(Literal::parse(input).unwrap().to_string(), input);
}

fn expect_err<T: Debug>(res: Result<T, ParseError>, kind: ParseErrorKind, span: Option<Range<usize>>) {
    match res {
        Ok(v) => panic!("expected an error, got Ok({:?})", v),
        Err(e) => {
            assert_eq!(e.kind(), kind);
            assert_eq!(e.span(), span);
        }
    }
}


#[test]
fn alphanumeric() {
    check(r#"'a'"#, 'a');
    check(r#"'b'"#, 'b');
    check(r#"'y'"#, 'y');
    check(r#"'z'"#, 'z');
    check(r#"'A'"#, 'A');
    check(r#"'B'"#, 'B');
    check(r#"'Y'"#, 'Y');
    check(r#"'Z'"#, 'Z');

    check(r#"'0'"#, '0');
    check(r#"'1'"#, '1');
    check(r#"'8'"#, '8');
    check(r#"'9'"#, '9');
}

#[test]
fn special_chars() {
    check(r#"' '"#, ' ');
    check(r#"'!'"#, '!');
    check(r#"'"'"#, '"');
    check(r#"'#'"#, '#');
    check(r#"'$'"#, '$');
    check(r#"'%'"#, '%');
    check(r#"'&'"#, '&');
    check(r#"'('"#, '(');
    check(r#"')'"#, ')');
    check(r#"'*'"#, '*');
    check(r#"'+'"#, '+');
    check(r#"','"#, ',');
    check(r#"'-'"#, '-');
    check(r#"'.'"#, '.');
    check(r#"'/'"#, '/');
    check(r#"':'"#, ':');
    check(r#"';'"#, ';');
    check(r#"'<'"#, '<');
    check(r#"'='"#, '=');
    check(r#"'>'"#, '>');
    check(r#"'?'"#, '?');
    check(r#"'@'"#, '@');
    check(r#"'['"#, '[');
    check(r#"']'"#, ']');
    check(r#"'^'"#, '^');
    check(r#"'_'"#, '_');
    check(r#"'`'"#, '`');
    check(r#"'{'"#, '{');
    check(r#"'|'"#, '|');
    check(r#"'}'"#, '}');
    check(r#"'~'"#, '~');
}

#[test]
fn quote_escapes() {
    check(r#"'\''"#, '\'');
    check(r#"'\"'"#, '\"');
}

#[test]
fn ascii_escapes() {
    check(r#"'\n'"#, '\n');
    check(r#"'\r'"#, '\r');
    check(r#"'\t'"#, '\t');
    check(r#"'\\'"#, '\\');
    check(r#"'\0'"#, '\0');

    check(r#"'\x00'"#, '\x00');
    check(r#"'\x01'"#, '\x01');
    check(r#"'\x0c'"#, '\x0c');
    check(r#"'\x0D'"#, '\x0D');
    check(r#"'\x13'"#, '\x13');
    check(r#"'\x30'"#, '\x30');
    check(r#"'\x30'"#, '\x30');
    check(r#"'\x4B'"#, '\x4B');
    check(r#"'\x6b'"#, '\x6b');
    check(r#"'\x7F'"#, '\x7F');
    check(r#"'\x7f'"#, '\x7f');
}

#[test]
fn unicode_escapes() {
    check(r#"'\u{0}'"#, '\u{0}');
    check(r#"'\u{00}'"#, '\u{00}');
    check(r#"'\u{b}'"#, '\u{b}');
    check(r#"'\u{B}'"#, '\u{B}');
    check(r#"'\u{7e}'"#, '\u{7e}');
    check(r#"'\u{E4}'"#, '\u{E4}');
    check(r#"'\u{e4}'"#, '\u{e4}');
    check(r#"'\u{fc}'"#, '\u{fc}');
    check(r#"'\u{Fc}'"#, '\u{Fc}');
    check(r#"'\u{fC}'"#, '\u{fC}');
    check(r#"'\u{FC}'"#, '\u{FC}');
    check(r#"'\u{b10}'"#, '\u{b10}');
    check(r#"'\u{B10}'"#, '\u{B10}');
    check(r#"'\u{0b10}'"#, '\u{0b10}');
    check(r#"'\u{2764}'"#, '\u{2764}');
    check(r#"'\u{1f602}'"#, '\u{1f602}');
    check(r#"'\u{1F602}'"#, '\u{1F602}');

    check(r#"'\u{0}'"#, '\u{0}');
    check(r#"'\u{0__}'"#, '\u{0__}');
    check(r#"'\u{3_b}'"#, '\u{3_b}');
    check(r#"'\u{1_F_6_0_2}'"#, '\u{1_F_6_0_2}');
    check(r#"'\u{1_F6_02_____}'"#, '\u{1_F6_02_____}');
}

#[test]
fn invald_ascii_escapes() {
    expect_err(CharLit::parse(r"'\x80'"), ParseErrorKind::NonAsciiXEscape, Some(1..5));
    expect_err(Literal::parse(r"'\x80'"), ParseErrorKind::NonAsciiXEscape, Some(1..5));
    expect_err(CharLit::parse(r"'\x81'"), ParseErrorKind::NonAsciiXEscape, Some(1..5));
    expect_err(Literal::parse(r"'\x81'"), ParseErrorKind::NonAsciiXEscape, Some(1..5));
    expect_err(CharLit::parse(r"'\x8a'"), ParseErrorKind::NonAsciiXEscape, Some(1..5));
    expect_err(Literal::parse(r"'\x8a'"), ParseErrorKind::NonAsciiXEscape, Some(1..5));
    expect_err(CharLit::parse(r"'\x8F'"), ParseErrorKind::NonAsciiXEscape, Some(1..5));
    expect_err(Literal::parse(r"'\x8F'"), ParseErrorKind::NonAsciiXEscape, Some(1..5));
    expect_err(CharLit::parse(r"'\xa0'"), ParseErrorKind::NonAsciiXEscape, Some(1..5));
    expect_err(Literal::parse(r"'\xa0'"), ParseErrorKind::NonAsciiXEscape, Some(1..5));
    expect_err(CharLit::parse(r"'\xB0'"), ParseErrorKind::NonAsciiXEscape, Some(1..5));
    expect_err(Literal::parse(r"'\xB0'"), ParseErrorKind::NonAsciiXEscape, Some(1..5));
    expect_err(CharLit::parse(r"'\xc3'"), ParseErrorKind::NonAsciiXEscape, Some(1..5));
    expect_err(Literal::parse(r"'\xc3'"), ParseErrorKind::NonAsciiXEscape, Some(1..5));
    expect_err(CharLit::parse(r"'\xDf'"), ParseErrorKind::NonAsciiXEscape, Some(1..5));
    expect_err(Literal::parse(r"'\xDf'"), ParseErrorKind::NonAsciiXEscape, Some(1..5));
    expect_err(CharLit::parse(r"'\xff'"), ParseErrorKind::NonAsciiXEscape, Some(1..5));
    expect_err(Literal::parse(r"'\xff'"), ParseErrorKind::NonAsciiXEscape, Some(1..5));
    expect_err(CharLit::parse(r"'\xfF'"), ParseErrorKind::NonAsciiXEscape, Some(1..5));
    expect_err(Literal::parse(r"'\xfF'"), ParseErrorKind::NonAsciiXEscape, Some(1..5));
    expect_err(CharLit::parse(r"'\xFf'"), ParseErrorKind::NonAsciiXEscape, Some(1..5));
    expect_err(Literal::parse(r"'\xFf'"), ParseErrorKind::NonAsciiXEscape, Some(1..5));
    expect_err(CharLit::parse(r"'\xFF'"), ParseErrorKind::NonAsciiXEscape, Some(1..5));
    expect_err(Literal::parse(r"'\xFF'"), ParseErrorKind::NonAsciiXEscape, Some(1..5));
}

#[test]
fn invald_escapes() {
    expect_err(CharLit::parse(r"'\a'"), ParseErrorKind::UnknownEscape, Some(1..3));
    expect_err(Literal::parse(r"'\a'"), ParseErrorKind::UnknownEscape, Some(1..3));
    expect_err(CharLit::parse(r"'\y'"), ParseErrorKind::UnknownEscape, Some(1..3));
    expect_err(Literal::parse(r"'\y'"), ParseErrorKind::UnknownEscape, Some(1..3));
    expect_err(CharLit::parse(r"'\"), ParseErrorKind::UnterminatedCharLiteral, None);
    expect_err(Literal::parse(r"'\"), ParseErrorKind::UnterminatedCharLiteral, None);
    expect_err(CharLit::parse(r"'\x'"), ParseErrorKind::UnterminatedEscape, Some(1..3));
    expect_err(Literal::parse(r"'\x'"), ParseErrorKind::UnterminatedEscape, Some(1..3));
    expect_err(CharLit::parse(r"'\x1'"), ParseErrorKind::UnterminatedEscape, Some(1..4));
    expect_err(Literal::parse(r"'\x1'"), ParseErrorKind::UnterminatedEscape, Some(1..4));
    expect_err(CharLit::parse(r"'\xaj'"), ParseErrorKind::InvalidXEscape, Some(1..5));
    expect_err(Literal::parse(r"'\xaj'"), ParseErrorKind::InvalidXEscape, Some(1..5));
    expect_err(CharLit::parse(r"'\xjb'"), ParseErrorKind::InvalidXEscape, Some(1..5));
    expect_err(Literal::parse(r"'\xjb'"), ParseErrorKind::InvalidXEscape, Some(1..5));
}

#[test]
fn invalid_unicode_escapes() {
    expect_err(CharLit::parse(r"'\u'"), ParseErrorKind::UnicodeEscapeWithoutBrace, Some(1..3));
    expect_err(Literal::parse(r"'\u'"), ParseErrorKind::UnicodeEscapeWithoutBrace, Some(1..3));
    expect_err(CharLit::parse(r"'\u '"), ParseErrorKind::UnicodeEscapeWithoutBrace, Some(1..3));
    expect_err(Literal::parse(r"'\u '"), ParseErrorKind::UnicodeEscapeWithoutBrace, Some(1..3));
    expect_err(CharLit::parse(r"'\u3'"), ParseErrorKind::UnicodeEscapeWithoutBrace, Some(1..3));
    expect_err(Literal::parse(r"'\u3'"), ParseErrorKind::UnicodeEscapeWithoutBrace, Some(1..3));

    expect_err(CharLit::parse(r"'\u{'"), ParseErrorKind::UnterminatedUnicodeEscape, Some(1..4));
    expect_err(Literal::parse(r"'\u{'"), ParseErrorKind::UnterminatedUnicodeEscape, Some(1..4));
    expect_err(CharLit::parse(r"'\u{12'"), ParseErrorKind::UnterminatedUnicodeEscape, Some(1..6));
    expect_err(Literal::parse(r"'\u{12'"), ParseErrorKind::UnterminatedUnicodeEscape, Some(1..6));
    expect_err(CharLit::parse(r"'\u{a0b'"), ParseErrorKind::UnterminatedUnicodeEscape, Some(1..7));
    expect_err(Literal::parse(r"'\u{a0b'"), ParseErrorKind::UnterminatedUnicodeEscape, Some(1..7));
    expect_err(CharLit::parse(r"'\u{a0_b  '"), ParseErrorKind::UnterminatedUnicodeEscape, Some(1..10));
    expect_err(Literal::parse(r"'\u{a0_b  '"), ParseErrorKind::UnterminatedUnicodeEscape, Some(1..10));

    expect_err(CharLit::parse(r"'\u{_}'"), ParseErrorKind::InvalidStartOfUnicodeEscape, Some(4..4+1));
    expect_err(Literal::parse(r"'\u{_}'"), ParseErrorKind::InvalidStartOfUnicodeEscape, Some(4..4+1));
    expect_err(CharLit::parse(r"'\u{_5f}'"), ParseErrorKind::InvalidStartOfUnicodeEscape, Some(4..4+1));
    expect_err(Literal::parse(r"'\u{_5f}'"), ParseErrorKind::InvalidStartOfUnicodeEscape, Some(4..4+1));

    expect_err(CharLit::parse(r"'\u{x}'"), ParseErrorKind::NonHexDigitInUnicodeEscape, Some(4..4+1));
    expect_err(Literal::parse(r"'\u{x}'"), ParseErrorKind::NonHexDigitInUnicodeEscape, Some(4..4+1));
    expect_err(CharLit::parse(r"'\u{0x}'"), ParseErrorKind::NonHexDigitInUnicodeEscape, Some(5..5+1));
    expect_err(Literal::parse(r"'\u{0x}'"), ParseErrorKind::NonHexDigitInUnicodeEscape, Some(5..5+1));
    expect_err(CharLit::parse(r"'\u{3bx}'"), ParseErrorKind::NonHexDigitInUnicodeEscape, Some(6..6+1));
    expect_err(Literal::parse(r"'\u{3bx}'"), ParseErrorKind::NonHexDigitInUnicodeEscape, Some(6..6+1));
    expect_err(CharLit::parse(r"'\u{3b_x}'"), ParseErrorKind::NonHexDigitInUnicodeEscape, Some(7..7+1));
    expect_err(Literal::parse(r"'\u{3b_x}'"), ParseErrorKind::NonHexDigitInUnicodeEscape, Some(7..7+1));
    expect_err(CharLit::parse(r"'\u{4x_}'"), ParseErrorKind::NonHexDigitInUnicodeEscape, Some(5..5+1));
    expect_err(Literal::parse(r"'\u{4x_}'"), ParseErrorKind::NonHexDigitInUnicodeEscape, Some(5..5+1));

    expect_err(CharLit::parse(r"'\u{1234567}'"), ParseErrorKind::TooManyDigitInUnicodeEscape, Some(10..10+1));
    expect_err(Literal::parse(r"'\u{1234567}'"), ParseErrorKind::TooManyDigitInUnicodeEscape, Some(10..10+1));
    expect_err(CharLit::parse(r"'\u{1234567}'"), ParseErrorKind::TooManyDigitInUnicodeEscape, Some(10..10+1));
    expect_err(Literal::parse(r"'\u{1234567}'"), ParseErrorKind::TooManyDigitInUnicodeEscape, Some(10..10+1));
    expect_err(CharLit::parse(r"'\u{1_23_4_56_7}'"), ParseErrorKind::TooManyDigitInUnicodeEscape, Some(14..14+1));
    expect_err(Literal::parse(r"'\u{1_23_4_56_7}'"), ParseErrorKind::TooManyDigitInUnicodeEscape, Some(14..14+1));
    expect_err(CharLit::parse(r"'\u{abcdef123}'"), ParseErrorKind::TooManyDigitInUnicodeEscape, Some(10..10+1));
    expect_err(Literal::parse(r"'\u{abcdef123}'"), ParseErrorKind::TooManyDigitInUnicodeEscape, Some(10..10+1));

    expect_err(CharLit::parse(r"'\u{110000}'"), ParseErrorKind::InvalidUnicodeEscapeChar, Some(1..10));
    expect_err(Literal::parse(r"'\u{110000}'"), ParseErrorKind::InvalidUnicodeEscapeChar, Some(1..10));
}

#[test]
fn tests_parse_err() {
    expect_err(CharLit::parse(r"''"), ParseErrorKind::EmptyCharLiteral, None);
    expect_err(Literal::parse(r"''"), ParseErrorKind::EmptyCharLiteral, None);
    expect_err(CharLit::parse(r"' ''"), ParseErrorKind::OverlongCharLiteral, Some(2..3));
    expect_err(Literal::parse(r"' ''"), ParseErrorKind::OverlongCharLiteral, Some(2..3));

    expect_err(CharLit::parse(r"'"), ParseErrorKind::UnterminatedCharLiteral, None);
    expect_err(Literal::parse(r"'"), ParseErrorKind::UnterminatedCharLiteral, None);
    expect_err(CharLit::parse(r"'a"), ParseErrorKind::UnterminatedCharLiteral, None);
    expect_err(Literal::parse(r"'a"), ParseErrorKind::UnterminatedCharLiteral, None);
    expect_err(CharLit::parse(r"'\n"), ParseErrorKind::UnterminatedCharLiteral, None);
    expect_err(Literal::parse(r"'\n"), ParseErrorKind::UnterminatedCharLiteral, None);
    expect_err(CharLit::parse(r"'\x35"), ParseErrorKind::UnterminatedCharLiteral, None);
    expect_err(Literal::parse(r"'\x35"), ParseErrorKind::UnterminatedCharLiteral, None);

    expect_err(CharLit::parse(r"'ab'"), ParseErrorKind::OverlongCharLiteral, Some(2..3));
    expect_err(Literal::parse(r"'ab'"), ParseErrorKind::OverlongCharLiteral, Some(2..3));
    expect_err(CharLit::parse(r"'a _'"), ParseErrorKind::OverlongCharLiteral, Some(2..4));
    expect_err(Literal::parse(r"'a _'"), ParseErrorKind::OverlongCharLiteral, Some(2..4));
    expect_err(CharLit::parse(r"'\n3'"), ParseErrorKind::OverlongCharLiteral, Some(3..4));
    expect_err(Literal::parse(r"'\n3'"), ParseErrorKind::OverlongCharLiteral, Some(3..4));

    expect_err(CharLit::parse(r""), ParseErrorKind::Empty, None);
    expect_err(Literal::parse(r""), ParseErrorKind::Empty, None);

    expect_err(CharLit::parse(r"'''"), ParseErrorKind::UnescapedSingleQuote, Some(1..1+1));
    expect_err(Literal::parse(r"'''"), ParseErrorKind::UnescapedSingleQuote, Some(1..1+1));
    expect_err(CharLit::parse(r"''''"), ParseErrorKind::UnescapedSingleQuote, Some(1..1+1));
    expect_err(Literal::parse(r"''''"), ParseErrorKind::UnescapedSingleQuote, Some(1..1+1));
}
