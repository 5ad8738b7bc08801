use litrs::{BoolLit, Literal};

fn check_bool(input: &str, expected: BoolLit) {
    match Literal::parse(input) {
        Ok(Literal::Bool(b)) => assert_eq!(b, expected),
        other => panic!("unexpected result for `{}`: {:?}", input, other),
    }
    let b = BoolLit::parse(input).expect("failed to parse");
    assert_eq!(b, expected);
    assert_eq!(b.to_string(), input);
    assert_eq!(Literal::parse(input).unwrap().to_string(), input);
}

#[test]
fn parse_ok() {
    check_bool("false", BoolLit::False);
    check_bool("true", BoolLit::True);
}

#[test]
fn bool_parse_err() {
    assert!(Literal::parse("fa").is_err());
    assert!(Literal::parse("fal").is_err());
    assert!(Literal::parse("fals").is_err());
    assert!(Literal::parse(" false").is_err());
    assert!(Literal::parse("false ").is_err());
    assert!(Literal::parse("False").is_err());

    assert!(Literal::parse("tr").is_err());
    assert!(Literal::parse("tru").is_err());
    assert!(Literal::parse(" true").is_err());
    assert!(Literal::parse("true ").is_err());
    assert!(Literal::parse("True").is_err());

    assert!(BoolLit::parse("fals").is_err());
    assert!(BoolLit::parse("True").is_err());
    assert!(BoolLit::parse("").is_err());
}

#[test]
fn value() {
    assert!(!BoolLit::False.value());
    assert!(BoolLit::True.value());
}

#[test]
fn as_str() {
    assert_eq!(BoolLit::False.as_str(), "false");
    assert_eq!(BoolLit::True.as_str(), "true");
}

#[test]
fn mod_empty() {
    let err = Literal::parse("").unwrap_err();
    assert_eq!(err.kind(), litrs::ParseErrorKind::Empty);
    assert_eq!(err.span(), None);
}

#[test]
fn bool_ok() {
    check_bool("false", BoolLit::False);
    check_bool("true", BoolLit::True);
}

#[test]
fn bool_err() {
    assert!(Literal::parse("fa").is_err());
    assert!(Literal::parse("fal").is_err());
    assert!(Literal::parse("fals").is_err());
    assert!(Literal::parse(" false").is_err());
    assert!(Literal::parse("false ").is_err());
    assert!(Literal::parse("False").is_err());

    assert!(Literal::parse("tr").is_err());
    assert!(Literal::parse("tru").is_err());
    assert!(Literal::parse(" true").is_err());
    assert!(Literal::parse("true ").is_err());
    assert!(Literal::parse("True").is_err());
}
