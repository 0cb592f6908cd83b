use eilmeldung::config::ConfigError;
use eilmeldung::dimension::{Dimension, LayoutConstraint};

fn parse(s: &str) -> Result<Dimension, ConfigError> {
    Dimension::from_str(s)
}

fn message(r: Result<Dimension, ConfigError>) -> String {
    match r {
        Err(ConfigError::DimensionParseError(m)) => m,
        other => panic!("expected a dimension parse error, got {other:?}"),
    }
}

#[test]
fn no_space_length() {
    assert_eq!(Dimension::Length(10), parse("10length").unwrap());
}

#[test]
fn space_length() {
    assert_eq!(Dimension::Length(4), parse("4 length").unwrap());
}

#[test]
fn multiple_spaces_length() {
    assert_eq!(Dimension::Length(19), parse("  19 \t length  \t").unwrap());
}

#[test]
fn leading_zeros_length() {
    assert_eq!(Dimension::Length(19), parse("  00019 \t length  \t").unwrap());
}

#[test]
fn zero_length() {
    assert_eq!(Dimension::Length(0), parse("0 length").unwrap());
}

#[test]
fn no_space_percent() {
    assert_eq!(Dimension::Percentage(81), parse("81%").unwrap());
}

#[test]
fn space_percent() {
    assert_eq!(Dimension::Percentage(10), parse("10 %").unwrap());
}

#[test]
fn multiple_spaces_percent() {
    assert_eq!(Dimension::Percentage(9), parse("  9 \t %  \t").unwrap());
}

#[test]
fn leading_zeros_percent() {
    assert_eq!(Dimension::Percentage(19), parse("  00019 \t %  \t").unwrap());
}

#[test]
fn zero_percent() {
    assert_eq!(Dimension::Percentage(0), parse("0 %").unwrap());
}

#[test]
fn hundred_percent() {
    assert_eq!(Dimension::Percentage(100), parse("100 %").unwrap());
}

#[test]
fn garbage() {
    assert_eq!("expected number", message(parse("abc")));
}

#[test]
fn empty() {
    assert_eq!("expected number", message(parse("")));
}

#[test]
fn just_length() {
    assert!(parse("length").is_err());
}

#[test]
fn just_percent() {
    assert!(parse("percent").is_err());
}

#[test]
fn negative_length() {
    assert!(parse("-1length").is_err());
}

#[test]
fn negative_percent() {
    assert!(parse("-1%").is_err());
}

#[test]
fn too_much_percent() {
    assert_eq!("percent value must be between 0 and 100", message(parse("101%")));
}

#[test]
fn a_number_too_large_for_sixteen_bits_is_refused() {
    assert_eq!("unable to parse number (too large?)", message(parse("70000 length")));
}

#[test]
fn a_number_without_unit_is_refused() {
    assert_eq!("expecting unit", message(parse("12")));
}

#[test]
fn trailing_characters_are_refused() {
    assert_eq!(
        "invalid trailing characters after dimension",
        message(parse("12 length 3"))
    );
}

#[test]
fn dimension_constraints() {
    assert_eq!(LayoutConstraint::Length(30), Dimension::Length(30).as_constraint());
    assert_eq!(LayoutConstraint::Percentage(25), Dimension::Percentage(25).as_constraint());
    assert_eq!(
        LayoutConstraint::Length(70),
        Dimension::Length(30).as_complementary_constraint(100)
    );
    assert_eq!(
        LayoutConstraint::Length(0),
        Dimension::Length(300).as_complementary_constraint(100)
    );
    assert_eq!(
        LayoutConstraint::Percentage(75),
        Dimension::Percentage(25).as_complementary_constraint(100)
    );
    assert_eq!(1, Dimension::Length(0).as_fill_weight());
    assert_eq!(40, Dimension::Percentage(40).as_fill_weight());
}
