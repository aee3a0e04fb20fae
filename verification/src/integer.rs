//! The values of integer literals.
use vstd::prelude::*;

use crate::ast::Int;
use crate::bigint::{
    bigint_from_str_radix, bigint_from_u64, bigint_value, has_foreign, is_number, number,
    parse_error_to_string, parsed_radix,
};
use crate::error::{CodegenErrorType, ErrorKind};
use crate::text::{chars_of, text_of};
use malachite_bigint::BigInt;

verus! {

/// The radix of a literal: `0b`, `0o` and `0x` prefixes, in either case, stand for 2, 8 and 16.
pub open spec fn literal_radix(text: Seq<char>) -> u32 {
    if text.len() < 2 || text[0] != '0' {
        10
    } else if text[1] == 'b' || text[1] == 'B' {
        2
    } else if text[1] == 'o' || text[1] == 'O' {
        8
    } else if text[1] == 'x' || text[1] == 'X' {
        16
    } else {
        10
    }
}

/// The digits of a literal, without a prefix.
pub open spec fn literal_digits(text: Seq<char>) -> Seq<char> {
    if literal_radix(text) == 10 {
        text
    } else {
        text.subrange(2, text.len() as int)
    }
}

/// A radix in decimal.
pub open spec fn radix_text(radix: u32) -> Seq<char> {
    if radix == 2 {
        "2"@
    } else if radix == 8 {
        "8"@
    } else if radix == 16 {
        "16"@
    } else {
        "10"@
    }
}

/// What is reported of digits that do not make an integer.
pub open spec fn unparsed_text(radix: u32, digits: Seq<char>, error: Seq<char>) -> Seq<char> {
    "unparsed integer literal (radix "@ + radix_text(radix) + "): "@ + digits + " ("@ + error
        + ")"@
}

/// The value of a literal given as text, where `parsed` is what its digits parse to.
pub open spec fn parsed_literal(text: Seq<char>, parsed: Result<int, Seq<char>>) -> Result<
    int,
    Seq<char>,
> {
    match parsed {
        Ok(value) => Ok(value),
        Err(error) => Err(unparsed_text(literal_radix(text), literal_digits(text), error)),
    }
}

/// The value of an integer literal, or what is reported of it.
pub open spec fn int_literal(literal: Int) -> Result<int, Seq<char>> {
    match literal {
        Int::Small(small) => Ok(small as int),
        Int::Big(text) => parsed_literal(
            text@,
            parsed_radix(literal_digits(text@), literal_radix(text@)),
        ),
    }
}

/// The value that a conversion gives, or what it reports.
pub open spec fn conversion(r: Result<BigInt, CodegenErrorType>) -> Result<int, Seq<char>> {
    match r {
        Ok(b) => Ok(bigint_value(b)),
        Err(CodegenErrorType::SyntaxError(text)) => Err(text@),
        Err(_) => Err(Seq::empty()),
    }
}

/// What is known of the value of a literal, whatever else its digits may hold: a number has its
/// value, no digits and a foreign character are refused.
pub open spec fn literal_known(text: Seq<char>, value: Result<int, Seq<char>>) -> bool {
    let radix = literal_radix(text);
    let digits = literal_digits(text);
    &&& is_number(digits, radix) ==> value == Ok::<int, Seq<char>>(number(digits, radix))
    &&& digits.len() == 0 ==> value == Err::<int, Seq<char>>(
        unparsed_text(radix, digits, "cannot parse integer from empty string"@),
    )
    &&& has_foreign(digits, radix) ==> value == Err::<int, Seq<char>>(
        unparsed_text(radix, digits, "invalid digit found in string"@),
    )
}

/// The value of an integer literal as a big integer.
pub fn ruff_int_to_bigint(literal: &Int) -> (r: Result<BigInt, CodegenErrorType>)
    ensures
        conversion(r) == int_literal(*literal),
        r matches Err(e) ==> e is SyntaxError,
        literal matches Int::Big(text) ==> literal_known(text@, conversion(r)),
{
    match literal {
        Int::Small(small) => Ok(bigint_from_u64(*small)),
        Int::Big(text) => parse_big_integer(text.as_str()),
    }
}

/// The radix of a literal, and its digits without a prefix.
pub fn split_radix(text: &str) -> (r: (u32, String))
    ensures
        r.0 == literal_radix(text@),
        r.1@ == literal_digits(text@),
{
    let chars = chars_of(text);
    let n: usize = chars.len();
    let mut radix: u32 = 10;
    if n >= 2 && chars[0] == '0' {
        if chars[1] == 'b' || chars[1] == 'B' {
            radix = 2;
        } else if chars[1] == 'o' || chars[1] == 'O' {
            radix = 8;
        } else if chars[1] == 'x' || chars[1] == 'X' {
            radix = 16;
        }
    }
    if radix == 10 {
        (radix, text.to_owned())
    } else {
        (radix, text_of(&chars, 2, n))
    }
}

/// Converts the text of an integer literal, which may be in one of four radix representations,
/// into a big integer.
fn parse_big_integer(text: &str) -> (r: Result<BigInt, CodegenErrorType>)
    ensures
        conversion(r) == parsed_literal(
            text@,
            parsed_radix(literal_digits(text@), literal_radix(text@)),
        ),
        r matches Err(e) ==> e is SyntaxError,
        literal_known(text@, conversion(r)),
{
    let (radix, digits) = split_radix(text);
    let parsed = match bigint_from_str_radix(digits.as_str(), radix) {
        Ok(value) => Ok(value),
        Err(e) => Err(parse_error_to_string(&e)),
    };
    integer_or_error(radix, digits.as_str(), parsed)
}

/// The integer that digits were parsed to, or the error that says why they were not.
pub fn integer_or_error(radix: u32, digits: &str, parsed: Result<BigInt, String>) -> (r: Result<
    BigInt,
    CodegenErrorType,
>)
    ensures
        match parsed {
            Ok(value) => r == Ok::<BigInt, CodegenErrorType>(value),
            Err(error) => r is Err && r->Err_0@ == ErrorKind::SyntaxError(
                unparsed_text(radix, digits@, error@),
            ),
        },
{
    match parsed {
        Ok(value) => Ok(value),
        Err(error) => Err(
            CodegenErrorType::SyntaxError(unparsed_message(radix, digits, error.as_str())),
        ),
    }
}

/// The message for digits that do not make an integer.
fn unparsed_message(radix: u32, digits: &str, error: &str) -> (r: String)
    ensures
        r@ == unparsed_text(radix, digits@, error@),
{
    let mut r: String = "unparsed integer literal (radix ".to_owned();
    r.append(
        if radix == 2 {
            "2"
        } else if radix == 8 {
            "8"
        } else if radix == 16 {
            "16"
        } else {
            "10"
        },
    );
    r.append("): ");
    r.append(digits);
    r.append(" (");
    r.append(error);
    r.append(")");
    r
}

} // verus!
