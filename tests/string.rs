use litrs::{Literal, StringLit};

fn check(input: &str, value: &str, has_escapes: bool, num_hashes: Option<u32>) {
    let _ = has_escapes;
    let lit = StringLit::parse(input).expect("failed to parse");
    assert_eq!(lit.value(), value);
    assert_eq!(lit.clone().into_value(), value);
    assert_eq!(lit.is_raw_string(), num_hashes.is_some());
    assert_eq!(lit.to_string(), input);
    match Literal::parse(input) {
        Ok(Literal::String(l)) => assert_eq!(l, lit),
        other => panic!("unexpected result for `{}`: {:?}", input, other),
    }
}


#[test]
fn raw_string() {
    check(r#"r"""#, r"", false, Some(0));
    check(r#"r"a""#, r"a", false, Some(0));
    check(r#"r"peter""#, r"peter", false, Some(0));
    check(r#"r"Sei gegrÃ¼ÃŸt, BÃ¤rthelt!""#, r"Sei gegrÃ¼ÃŸt, BÃ¤rthelt!", false, Some(0));
    check(r#"r"Ø£Ù†Ø§ Ù„Ø§ Ø£ØªØ­Ø¯Ø« Ø§Ù„Ø¹Ø±Ø¨ÙŠØ©""#, r"Ø£Ù†Ø§ Ù„Ø§ Ø£ØªØ­Ø¯Ø« Ø§Ù„Ø¹Ø±Ø¨ÙŠØ©", false, Some(0));
    check(r#"r"ãŠå‰ã¯ã‚‚ã†æ­»ã‚“ã§ã„ã‚‹""#, r"ãŠå‰ã¯ã‚‚ã†æ­»ã‚“ã§ã„ã‚‹", false, Some(0));
    check(r#"r"ĞŸÑƒÑˆĞºĞ¸ - Ğ¸Ğ½Ñ‚ĞµÑ€ĞµÑĞ½Ñ‹Ğµ Ğ¼ÑƒĞ·Ñ‹ĞºĞ°Ğ»ÑŒĞ½Ñ‹Ğµ Ğ¸Ğ½ÑÑ‚Ñ€ÑƒĞ¼ĞµĞ½Ñ‚Ñ‹""#, r"ĞŸÑƒÑˆĞºĞ¸ - Ğ¸Ğ½Ñ‚ĞµÑ€ĞµÑĞ½Ñ‹Ğµ Ğ¼ÑƒĞ·Ñ‹ĞºĞ°Ğ»ÑŒĞ½Ñ‹Ğµ Ğ¸Ğ½ÑÑ‚Ñ€ÑƒĞ¼ĞµĞ½Ñ‚Ñ‹", false, Some(0));
    check(r#"r"lit ğŸ‘Œ ğŸ˜‚ af""#, r"lit ğŸ‘Œ ğŸ˜‚ af", false, Some(0));

    check(r##"r#""#"##, r#""#, false, Some(1));
    check(r##"r#"a"#"##, r#"a"#, false, Some(1));
    check(r###"r##"peter"##"###, r##"peter"##, false, Some(2));
    check(r####"r###"Sei gegrÃ¼ÃŸt, BÃ¤rthelt!"###"####, r###"Sei gegrÃ¼ÃŸt, BÃ¤rthelt!"###, false, Some(3));
    check(r#########"r########"lit ğŸ‘Œ ğŸ˜‚ af"########"#########, r########"lit ğŸ‘Œ ğŸ˜‚ af"########, false, Some(8));

    check(r##"r#"foo " bar"#"##, r#"foo " bar"#, false, Some(1));
    check(r###"r##"foo " bar"##"###, r##"foo " bar"##, false, Some(2));
    check(r##"r#"foo """" '"'" bar"#"##, r#"foo """" '"'" bar"#, false, Some(1));
    check(r##"r#""foo""#"##, r#""foo""#, false, Some(1));
    check(r####"r###""foo'"###"####, r###""foo'"###, false, Some(3));
    check(r##"r#""x'#_#s'"#"##, r#""x'#_#s'"#, false, Some(1));
    check(r##"r"#""##, r"#", false, Some(0));
    check(r#"r"foo#""#, r"foo#", false, Some(0));
    check(r###"r"##bar""###, r"##bar", false, Some(0));
    check(r####"r###""##foo"##bar'"###"####, r###""##foo"##bar'"###, false, Some(3));

    check(r#"r"ã•ã³\n\t\r\0\\x60\u{123}ãƒ•ã‚§ãƒªã‚¹""#, r"ã•ã³\n\t\r\0\\x60\u{123}ãƒ•ã‚§ãƒªã‚¹", false, Some(0));
    check(r##"r#"ã•ã³\n\t\r\0\\x60\u{123}ãƒ•ã‚§ãƒªã‚¹"#"##, r#"ã•ã³\n\t\r\0\\x60\u{123}ãƒ•ã‚§ãƒªã‚¹"#, false, Some(1));
}
