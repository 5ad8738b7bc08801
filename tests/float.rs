use litrs::{FloatLit, FloatType, Literal, ParseError, ParseErrorKind};
use std::fmt::Debug;
use std::ops::Range;

fn check(int_part: &str, frac_part: &str, exp_part: &str, suffix: Option<FloatType>) {
    let suffix_text = match suffix {
        None => "",
        Some(FloatType::F32) => "f32",
        Some(FloatType::F64) => "f64",
    };
    let number = format!("{}{}{}", int_part, frac_part, exp_part);
    let input = format!("{}{}", number, suffix_text);
    let f = FloatLit::parse(input.as_str()).expect("failed to parse");
    assert_eq!(f.number_part(), number);
    assert_eq!(f.integer_part(), int_part);
    if frac_part.is_empty() {
        assert_eq!(f.fractional_part(), None);
    } else {
        assert_eq!(f.fractional_part(), Some(&frac_part[1..]));
    }
    assert_eq!(f.exponent_part(), exp_part);
    assert_eq!(f.type_suffix(), suffix);
    assert_eq!(f.to_string(), input);
    match Literal::parse(input.as_str()) {
        Ok(Literal::Float(l)) => assert_eq!(l, f),
        other => panic!("unexpected result for `{}`: {:?}", input, other),
    }
}

fn expect_err<T: Debug>(res: Result<T, ParseError>, kind: ParseErrorKind, span: Option<Range<usize>>) {
    match res {
        Ok(v) => panic!("expected an error, got Ok({:?})", v),
        Err(e) => {
            assert_eq!(e.kind(), kind);
            assert_eq!(e.span(), span);
        }
    }
}


#[test]
fn manual_without_suffix() -> Result<(), ParseError> {
    let f = FloatLit::parse("3.14")?;
    assert_eq!(f.number_part(), "3.14");
    assert_eq!(f.integer_part(), "3");
    assert_eq!(f.fractional_part(), Some("14"));
    assert_eq!(f.exponent_part(), "");
    assert_eq!(f.type_suffix(), None);

    let f = FloatLit::parse("9.")?;
    assert_eq!(f.number_part(), "9.");
    assert_eq!(f.integer_part(), "9");
    assert_eq!(f.fractional_part(), Some(""));
    assert_eq!(f.exponent_part(), "");
    assert_eq!(f.type_suffix(), None);

    let f = FloatLit::parse("8e1")?;
    assert_eq!(f.number_part(), "8e1");
    assert_eq!(f.integer_part(), "8");
    assert_eq!(f.fractional_part(), None);
    assert_eq!(f.exponent_part(), "e1");
    assert_eq!(f.type_suffix(), None);

    let f = FloatLit::parse("8E3")?;
    assert_eq!(f.number_part(), "8E3");
    assert_eq!(f.integer_part(), "8");
    assert_eq!(f.fractional_part(), None);
    assert_eq!(f.exponent_part(), "E3");
    assert_eq!(f.type_suffix(), None);

    let f = FloatLit::parse("8_7_6.1_23e15")?;
    assert_eq!(f.number_part(), "8_7_6.1_23e15");
    assert_eq!(f.integer_part(), "8_7_6");
    assert_eq!(f.fractional_part(), Some("1_23"));
    assert_eq!(f.exponent_part(), "e15");
    assert_eq!(f.type_suffix(), None);

    let f = FloatLit::parse("8.2e-_04_9")?;
    assert_eq!(f.number_part(), "8.2e-_04_9");
    assert_eq!(f.integer_part(), "8");
    assert_eq!(f.fractional_part(), Some("2"));
    assert_eq!(f.exponent_part(), "e-_04_9");
    assert_eq!(f.type_suffix(), None);

    Ok(())
}

#[test]
fn manual_with_suffix() -> Result<(), ParseError> {
    let f = FloatLit::parse("3.14f32")?;
    assert_eq!(f.number_part(), "3.14");
    assert_eq!(f.integer_part(), "3");
    assert_eq!(f.fractional_part(), Some("14"));
    assert_eq!(f.exponent_part(), "");
    assert_eq!(f.type_suffix(), Some(FloatType::F32));

    let f = FloatLit::parse("8e1f64")?;
    assert_eq!(f.number_part(), "8e1");
    assert_eq!(f.integer_part(), "8");
    assert_eq!(f.fractional_part(), None);
    assert_eq!(f.exponent_part(), "e1");
    assert_eq!(f.type_suffix(), Some(FloatType::F64));

    let f = FloatLit::parse("8_7_6.1_23e15f32")?;
    assert_eq!(f.number_part(), "8_7_6.1_23e15");
    assert_eq!(f.integer_part(), "8_7_6");
    assert_eq!(f.fractional_part(), Some("1_23"));
    assert_eq!(f.exponent_part(), "e15");
    assert_eq!(f.type_suffix(), Some(FloatType::F32));

    let f = FloatLit::parse("8.2e-_04_9f64")?;
    assert_eq!(f.number_part(), "8.2e-_04_9");
    assert_eq!(f.integer_part(), "8");
    assert_eq!(f.fractional_part(), Some("2"));
    assert_eq!(f.exponent_part(), "e-_04_9");
    assert_eq!(f.type_suffix(), Some(FloatType::F64));

    Ok(())
}

#[test]
fn simple() {
    check("3", ".14", "", None);
    check("3", ".14", "", Some(FloatType::F32));
    check("3", ".14", "", Some(FloatType::F64));

    check("3", "", "", Some(FloatType::F32));
    check("3", "", "e987654321", None);
    check("3", "", "e987654321", Some(FloatType::F64));

    check("42_888", ".05", "", None);
    check("42_888", ".05", "E5___", Some(FloatType::F32));
    check("123456789", "", "e_1", Some(FloatType::F64));
    check("123456789", ".99", "e_1", Some(FloatType::F64));
    check("123456789", ".99", "", Some(FloatType::F64));
    check("123456789", ".99", "", None);

    check("147", ".3_33", "", None);
    check("147", ".3_33__", "E3", Some(FloatType::F64));
    check("147", ".3_33__", "", Some(FloatType::F32));

    check("147", ".333", "e-10", None);
    check("147", ".333", "e-_7", Some(FloatType::F32));
    check("147", ".333", "e+10", None);
    check("147", ".333", "e+_7", Some(FloatType::F32));

    check("86", ".", "", None);
    check("0", ".", "", None);
    check("0_", ".", "", None);
    check("0", ".0000001", "", None);
    check("0", ".000_0001", "", None);

    check("0", ".0", "e+0", None);
    check("0", "", "E+0", None);
    check("34", "", "e+0", None);
    check("0", ".9182", "E+0", Some(FloatType::F32));
}

#[test]
fn float_parse_err() {
    expect_err(FloatLit::parse(""), ParseErrorKind::Empty, None);
    expect_err(Literal::parse(""), ParseErrorKind::Empty, None);
    expect_err(FloatLit::parse("."), ParseErrorKind::DoesNotStartWithDigit, Some(0..0+1));
    expect_err(FloatLit::parse("+"), ParseErrorKind::DoesNotStartWithDigit, Some(0..0+1));
    expect_err(FloatLit::parse("-"), ParseErrorKind::DoesNotStartWithDigit, Some(0..0+1));
    expect_err(FloatLit::parse("e"), ParseErrorKind::DoesNotStartWithDigit, Some(0..0+1));
    expect_err(FloatLit::parse("e8"), ParseErrorKind::DoesNotStartWithDigit, Some(0..0+1));
    expect_err(FloatLit::parse("0e"), ParseErrorKind::NoExponentDigits, Some(1..2));
    expect_err(Literal::parse("0e"), ParseErrorKind::NoExponentDigits, Some(1..2));
    expect_err(FloatLit::parse("f32"), ParseErrorKind::DoesNotStartWithDigit, Some(0..0+1));
    expect_err(FloatLit::parse("foo"), ParseErrorKind::DoesNotStartWithDigit, Some(0..0+1));

    expect_err(FloatLit::parse("inf"), ParseErrorKind::DoesNotStartWithDigit, Some(0..0+1));
    expect_err(FloatLit::parse("nan"), ParseErrorKind::DoesNotStartWithDigit, Some(0..0+1));
    expect_err(FloatLit::parse("NaN"), ParseErrorKind::DoesNotStartWithDigit, Some(0..0+1));
    expect_err(FloatLit::parse("NAN"), ParseErrorKind::DoesNotStartWithDigit, Some(0..0+1));

    expect_err(FloatLit::parse("_2.7"), ParseErrorKind::DoesNotStartWithDigit, Some(0..0+1));
    expect_err(FloatLit::parse(".5"), ParseErrorKind::DoesNotStartWithDigit, Some(0..0+1));
    expect_err(FloatLit::parse("0x44.5"), ParseErrorKind::InvalidFloatTypeSuffix, Some(1..6));
    expect_err(FloatLit::parse("1e"), ParseErrorKind::NoExponentDigits, Some(1..2));
    expect_err(Literal::parse("1e"), ParseErrorKind::NoExponentDigits, Some(1..2));
    expect_err(FloatLit::parse("1.e4"), ParseErrorKind::UnexpectedChar, Some(2..2+1));
    expect_err(Literal::parse("1.e4"), ParseErrorKind::UnexpectedChar, Some(2..2+1));
    expect_err(FloatLit::parse("3._4"), ParseErrorKind::UnexpectedChar, Some(2..2+1));
    expect_err(Literal::parse("3._4"), ParseErrorKind::UnexpectedChar, Some(2..2+1));
    expect_err(FloatLit::parse("12345._987"), ParseErrorKind::UnexpectedChar, Some(6..6+1));
    expect_err(Literal::parse("12345._987"), ParseErrorKind::UnexpectedChar, Some(6..6+1));
    expect_err(FloatLit::parse("46._"), ParseErrorKind::UnexpectedChar, Some(3..3+1));
    expect_err(Literal::parse("46._"), ParseErrorKind::UnexpectedChar, Some(3..3+1));
    expect_err(FloatLit::parse("46.f32"), ParseErrorKind::UnexpectedChar, Some(3..3+1));
    expect_err(Literal::parse("46.f32"), ParseErrorKind::UnexpectedChar, Some(3..3+1));
    expect_err(FloatLit::parse("46.e3"), ParseErrorKind::UnexpectedChar, Some(3..3+1));
    expect_err(Literal::parse("46.e3"), ParseErrorKind::UnexpectedChar, Some(3..3+1));
    expect_err(FloatLit::parse("46._e3"), ParseErrorKind::UnexpectedChar, Some(3..3+1));
    expect_err(Literal::parse("46._e3"), ParseErrorKind::UnexpectedChar, Some(3..3+1));
    expect_err(FloatLit::parse("46.e3f64"), ParseErrorKind::UnexpectedChar, Some(3..3+1));
    expect_err(Literal::parse("46.e3f64"), ParseErrorKind::UnexpectedChar, Some(3..3+1));
    expect_err(FloatLit::parse("23.4e_"), ParseErrorKind::NoExponentDigits, Some(4..6));
    expect_err(Literal::parse("23.4e_"), ParseErrorKind::NoExponentDigits, Some(4..6));
    expect_err(FloatLit::parse("23E___f32"), ParseErrorKind::NoExponentDigits, Some(2..6));
    expect_err(Literal::parse("23E___f32"), ParseErrorKind::NoExponentDigits, Some(2..6));
    expect_err(FloatLit::parse("7f23"), ParseErrorKind::InvalidFloatTypeSuffix, Some(1..4));
    expect_err(Literal::parse("7f23"), ParseErrorKind::InvalidFloatTypeSuffix, Some(1..4));
    expect_err(FloatLit::parse("7f320"), ParseErrorKind::InvalidFloatTypeSuffix, Some(1..5));
    expect_err(Literal::parse("7f320"), ParseErrorKind::InvalidFloatTypeSuffix, Some(1..5));
    expect_err(FloatLit::parse("7f64_"), ParseErrorKind::InvalidFloatTypeSuffix, Some(1..5));
    expect_err(Literal::parse("7f64_"), ParseErrorKind::InvalidFloatTypeSuffix, Some(1..5));
    expect_err(FloatLit::parse("8f649"), ParseErrorKind::InvalidFloatTypeSuffix, Some(1..5));
    expect_err(Literal::parse("8f649"), ParseErrorKind::InvalidFloatTypeSuffix, Some(1..5));
    expect_err(FloatLit::parse("8f64f32"), ParseErrorKind::InvalidFloatTypeSuffix, Some(1..7));
    expect_err(Literal::parse("8f64f32"), ParseErrorKind::InvalidFloatTypeSuffix, Some(1..7));
    expect_err(FloatLit::parse("55e3.1"), ParseErrorKind::InvalidFloatTypeSuffix, Some(4..6));
    expect_err(Literal::parse("55e3.1"), ParseErrorKind::InvalidFloatTypeSuffix, Some(4..6));

    expect_err(FloatLit::parse("3.7+"), ParseErrorKind::InvalidFloatTypeSuffix, Some(3..4));
    expect_err(Literal::parse("3.7+"), ParseErrorKind::InvalidFloatTypeSuffix, Some(3..4));
    expect_err(FloatLit::parse("3.7+2"), ParseErrorKind::InvalidFloatTypeSuffix, Some(3..5));
    expect_err(Literal::parse("3.7+2"), ParseErrorKind::InvalidFloatTypeSuffix, Some(3..5));
    expect_err(FloatLit::parse("3.7-"), ParseErrorKind::InvalidFloatTypeSuffix, Some(3..4));
    expect_err(Literal::parse("3.7-"), ParseErrorKind::InvalidFloatTypeSuffix, Some(3..4));
    expect_err(FloatLit::parse("3.7-2"), ParseErrorKind::InvalidFloatTypeSuffix, Some(3..5));
    expect_err(Literal::parse("3.7-2"), ParseErrorKind::InvalidFloatTypeSuffix, Some(3..5));
    expect_err(FloatLit::parse("3.7e+"), ParseErrorKind::NoExponentDigits, Some(3..5));
    expect_err(Literal::parse("3.7e+"), ParseErrorKind::NoExponentDigits, Some(3..5));
    expect_err(FloatLit::parse("3.7e-"), ParseErrorKind::NoExponentDigits, Some(3..5));
    expect_err(Literal::parse("3.7e-"), ParseErrorKind::NoExponentDigits, Some(3..5));
    expect_err(FloatLit::parse("3.7e-+3"), ParseErrorKind::NoExponentDigits, Some(3..5));
    expect_err(Literal::parse("3.7e-+3"), ParseErrorKind::NoExponentDigits, Some(3..5));
    expect_err(FloatLit::parse("3.7e+-3"), ParseErrorKind::NoExponentDigits, Some(3..5));
    expect_err(Literal::parse("3.7e+-3"), ParseErrorKind::NoExponentDigits, Some(3..5));
}
