//! Panel dimensions of the configuration: a length in columns or rows, or a percentage.

use vstd::prelude::*;

use crate::config::ConfigError;
use crate::unicode::chars_of;

verus! {

/// A configured dimension.
#[derive(Debug, Clone, Copy, PartialEq, Eq, Structural)]
pub enum Dimension {
    Length(u16),
    Percentage(u16),
}

/// A layout constraint, as the terminal toolkit's layout takes it.
#[derive(Debug, Clone, Copy, PartialEq, Eq, Structural)]
pub enum LayoutConstraint {
    Length(u16),
    Percentage(u16),
    Fill(u16),
    Min(u16),
    Max(u16),
}

/// Why a dimension could not be parsed.
#[derive(Debug, Clone, Copy, PartialEq, Eq, Structural)]
pub enum DimensionErrorKind {
    ExpectedNumber,
    NumberTooLarge,
    PercentOutOfRange,
    ExpectingUnit,
    TrailingCharacters,
}

/// The message of a parse error.
pub open spec fn dimension_error_message(k: DimensionErrorKind) -> Seq<char> {
    match k {
        DimensionErrorKind::ExpectedNumber => "expected number"@,
        DimensionErrorKind::NumberTooLarge => "unable to parse number (too large?)"@,
        DimensionErrorKind::PercentOutOfRange => "percent value must be between 0 and 100"@,
        DimensionErrorKind::ExpectingUnit => "expecting unit"@,
        DimensionErrorKind::TrailingCharacters => "invalid trailing characters after dimension"@,
    }
}

/// The characters skipped between the tokens of a dimension.
pub open spec fn is_skip(c: char) -> bool {
    c == ' ' || c == '\t' || c == '\n' || c == '\x0c'
}

/// An ASCII digit.
pub open spec fn is_digit(c: char) -> bool {
    '0' <= c && c <= '9'
}

/// The first position at or after `i` that does not hold a skipped character.
pub open spec fn skip_from(s: Seq<char>, i: nat) -> nat
    decreases s.len() - i,
{
    if i < s.len() && is_skip(s[i as int]) {
        skip_from(s, i + 1)
    } else {
        i
    }
}

/// The first position at or after `i` that does not hold a digit.
pub open spec fn digits_from(s: Seq<char>, i: nat) -> nat
    decreases s.len() - i,
{
    if i < s.len() && is_digit(s[i as int]) {
        digits_from(s, i + 1)
    } else {
        i
    }
}

/// The value of the decimal digits `d`.
pub open spec fn decimal_value(d: Seq<char>) -> nat
    decreases d.len(),
{
    if d.len() == 0 {
        0
    } else {
        decimal_value(d.drop_last()) * 10 + ((d.last() as int - '0' as int) as nat)
    }
}

/// The unit that stands at position `i`: a percent sign, the word `length`, or neither.
pub open spec fn unit_at(s: Seq<char>, i: nat) -> Option<(bool, nat)> {
    if i < s.len() && s[i as int] == '%' {
        Some((true, i + 1))
    } else if i + 6 <= s.len() && s.subrange(i as int, (i + 6) as int) == "length"@ {
        Some((false, i + 6))
    } else {
        None
    }
}

/// The dimension `s` describes, or why it describes none: a number, then a unit (`length` or
/// `%`), with any of space, tab, newline and form feed around them; a percentage must not exceed
/// 100 and any number must fit in a `u16`.
pub open spec fn spec_parse_dimension(s: Seq<char>) -> Result<Dimension, DimensionErrorKind> {
    let p1 = skip_from(s, 0);
    if !(p1 < s.len() && is_digit(s[p1 as int])) {
        Err(DimensionErrorKind::ExpectedNumber)
    } else {
        let e1 = digits_from(s, p1);
        let value = decimal_value(s.subrange(p1 as int, e1 as int));
        if value > u16::MAX {
            Err(DimensionErrorKind::NumberTooLarge)
        } else {
            let p2 = skip_from(s, e1);
            match unit_at(s, p2) {
                None => Err(DimensionErrorKind::ExpectingUnit),
                Some((percent, e2)) => {
                    if percent && value > 100 {
                        Err(DimensionErrorKind::PercentOutOfRange)
                    } else if skip_from(s, e2) < s.len() {
                        Err(DimensionErrorKind::TrailingCharacters)
                    } else if percent {
                        Ok(Dimension::Percentage(value as u16))
                    } else {
                        Ok(Dimension::Length(value as u16))
                    }
                },
            }
        }
    }
}

/// The position after the skipped characters from `i`.
fn skip_exec(s: &Vec<char>, i: usize) -> (r: usize)
    requires
        i <= s@.len(),
    ensures
        r == skip_from(s@, i as nat),
        i <= r <= s@.len(),
{
    let mut j = i;
    while j < s.len() && (s[j] == ' ' || s[j] == '\t' || s[j] == '\n' || s[j] == '\x0c')
        invariant
            i <= j <= s@.len(),
            skip_from(s@, i as nat) == skip_from(s@, j as nat),
        decreases s.len() - j,
    {
        j += 1;
    }
    j
}

/// Parses a dimension, giving the kind of error when there is none.
pub fn parse_dimension(text: &str) -> (r: Result<Dimension, DimensionErrorKind>)
    ensures
        r == spec_parse_dimension(text@),
{
    let s = chars_of(text);
    let p1 = skip_exec(&s, 0);
    if !(p1 < s.len() && '0' <= s[p1] && s[p1] <= '9') {
        return Err(DimensionErrorKind::ExpectedNumber);
    }
    // Read the digits, noting when the value no longer fits in a `u16`.
    let mut e1 = p1;
    let mut value: u32 = 0;
    let mut too_large = false;
    assert(s@.subrange(p1 as int, p1 as int) =~= Seq::<char>::empty());
    while e1 < s.len() && '0' <= s[e1] && s[e1] <= '9'
        invariant
            p1 <= e1 <= s@.len(),
            digits_from(s@, p1 as nat) == digits_from(s@, e1 as nat),
            too_large <==> decimal_value(s@.subrange(p1 as int, e1 as int)) > u16::MAX,
            !too_large ==> value as nat == decimal_value(s@.subrange(p1 as int, e1 as int)),
        decreases s.len() - e1,
    {
        let digit = (s[e1] as u32) - ('0' as u32);
        let ghost sub = s@.subrange(p1 as int, e1 + 1);
        assert(sub.drop_last() =~= s@.subrange(p1 as int, e1 as int));
        assert(sub.last() == s@[e1 as int]);
        if !too_large {
            value = value * 10 + digit;
            if value > 65535 {
                too_large = true;
            }
        } else {
            assert(decimal_value(sub) >= decimal_value(sub.drop_last()));
        }
        e1 += 1;
    }
    if too_large {
        return Err(DimensionErrorKind::NumberTooLarge);
    }
    let number = value as u16;
    let p2 = skip_exec(&s, e1);
    let percent;
    let e2;
    if p2 < s.len() && s[p2] == '%' {
        percent = true;
        e2 = p2 + 1;
    } else if p2 <= s.len() && s.len() - p2 >= 6 && s[p2] == 'l' && s[p2 + 1] == 'e' && s[p2 + 2] == 'n'
        && s[p2 + 3] == 'g' && s[p2 + 4] == 't' && s[p2 + 5] == 'h' {
        proof {
            reveal_strlit("length");
            assert(s@.subrange(p2 as int, p2 + 6) =~= "length"@);
        }
        percent = false;
        e2 = p2 + 6;
    } else {
        proof {
            reveal_strlit("length");
            if p2 + 6 <= s@.len() && s@.subrange(p2 as int, p2 + 6) == "length"@ {
                assert(s@[p2 as int] == s@.subrange(p2 as int, p2 + 6)[0]);
                assert(s@[p2 + 1] == s@.subrange(p2 as int, p2 + 6)[1]);
                assert(s@[p2 + 2] == s@.subrange(p2 as int, p2 + 6)[2]);
                assert(s@[p2 + 3] == s@.subrange(p2 as int, p2 + 6)[3]);
                assert(s@[p2 + 4] == s@.subrange(p2 as int, p2 + 6)[4]);
                assert(s@[p2 + 5] == s@.subrange(p2 as int, p2 + 6)[5]);
            }
        }
        return Err(DimensionErrorKind::ExpectingUnit);
    }
    if percent && number > 100 {
        return Err(DimensionErrorKind::PercentOutOfRange);
    }
    let p3 = skip_exec(&s, e2);
    if p3 < s.len() {
        return Err(DimensionErrorKind::TrailingCharacters);
    }
    if percent {
        Ok(Dimension::Percentage(number))
    } else {
        Ok(Dimension::Length(number))
    }
}


/// The message of a parse error, as text.
pub fn dimension_error_text(k: DimensionErrorKind) -> (m: String)
    ensures
        m@ == dimension_error_message(k),
{
    match k {
        DimensionErrorKind::ExpectedNumber => "expected number".to_owned(),
        DimensionErrorKind::NumberTooLarge => "unable to parse number (too large?)".to_owned(),
        DimensionErrorKind::PercentOutOfRange => "percent value must be between 0 and 100".to_owned(),
        DimensionErrorKind::ExpectingUnit => "expecting unit".to_owned(),
        DimensionErrorKind::TrailingCharacters => "invalid trailing characters after dimension".to_owned(),
    }
}

/// The result of parsing `s`, with a configuration error in place of the error kind.
pub open spec fn parse_result_matches(r: Result<Dimension, ConfigError>, s: Seq<char>) -> bool {
    match spec_parse_dimension(s) {
        Ok(d) => r == Ok::<Dimension, ConfigError>(d),
        Err(k) => r matches Err(ConfigError::DimensionParseError(m)) && m@ == dimension_error_message(k),
    }
}

impl Dimension {
    /// Parses a dimension such as `10 length` or `25%`.
    pub fn from_str(s: &str) -> (r: Result<Dimension, ConfigError>)
        ensures
            parse_result_matches(r, s@),
    {
        match parse_dimension(s) {
            Ok(d) => Ok(d),
            Err(k) => Err(ConfigError::DimensionParseError(dimension_error_text(k))),
        }
    }

    /// The constraint that gives a panel this dimension.
    pub fn as_constraint(&self) -> (c: LayoutConstraint)
        ensures
            c == match *self {
                Dimension::Length(l) => LayoutConstraint::Length(l),
                Dimension::Percentage(p) => LayoutConstraint::Percentage(p),
            },
    {
        match self {
            Dimension::Length(length) => LayoutConstraint::Length(*length),
            Dimension::Percentage(percent) => LayoutConstraint::Percentage(*percent),
        }
    }

    /// The constraint for what is left beside a panel of this dimension, within `max`.
    pub fn as_complementary_constraint(&self, max: u16) -> (c: LayoutConstraint)
        ensures
            c == match *self {
                Dimension::Length(l) => LayoutConstraint::Length(
                    if l <= max { (max - l) as u16 } else { 0 },
                ),
                Dimension::Percentage(p) => LayoutConstraint::Percentage(
                    if p <= 100 { (100 - p) as u16 } else { 0 },
                ),
            },
    {
        match self {
            Dimension::Length(length) => LayoutConstraint::Length(max.saturating_sub(*length)),
            Dimension::Percentage(percent) => LayoutConstraint::Percentage(100u16.saturating_sub(*percent)),
        }
    }

    /// Relative weight for sharing the space left over by other panels: the length or
    /// percentage, but at least 1.
    ///
    /// Used for the panels that are not focused, so that a configuration whose three widths add
    /// up to 100% lays out identically whichever panel is focused.
    pub fn as_fill_weight(&self) -> (w: u16)
        ensures
            w == match *self {
                Dimension::Length(l) => if l >= 1 { l } else { 1 },
                Dimension::Percentage(p) => if p >= 1 { p } else { 1 },
            },
            w >= 1,
    {
        match self {
            Dimension::Length(length) => if *length >= 1 { *length } else { 1 },
            Dimension::Percentage(percent) => if *percent >= 1 { *percent } else { 1 },
        }
    }
}

impl std::str::FromStr for Dimension {
    type Err = ConfigError;

    fn from_str(s: &str) -> (r: Result<Dimension, ConfigError>)
        ensures
            parse_result_matches(r, s@),
    {
        Dimension::from_str(s)
    }
}

/// A parsed percentage never exceeds 100.
pub proof fn law_parsed_percentage_at_most_hundred(s: Seq<char>)
    ensures
        spec_parse_dimension(s) matches Ok(Dimension::Percentage(p)) ==> p <= 100,
{
}

} // verus!
