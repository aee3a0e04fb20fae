//! Arbitrary-precision integers, as the `malachite-bigint` crate has them.
use vstd::prelude::*;

use malachite_bigint::{BigInt, ParseBigIntError};
use num_traits::{Num, ToPrimitive, Zero};

verus! {

/// `malachite_bigint::BigInt`, an opaque value whose contents are named by [`bigint_value`].
#[verifier::external_type_specification]
#[verifier::external_body]
pub struct ExBigInt(BigInt);

/// `malachite_bigint::ParseBigIntError`, an opaque value.
#[verifier::external_type_specification]
#[verifier::external_body]
pub struct ExParseBigIntError(ParseBigIntError);

/// The integer that a `BigInt` holds.
pub uninterp spec fn bigint_value(b: BigInt) -> int;

/// What `BigInt::from_str_radix` makes of a text in a radix: the integer, or the text of the
/// error it reports.
pub uninterp spec fn parsed_radix(text: Seq<char>, radix: u32) -> Result<int, Seq<char>>;

/// The text that the `Display` impl of `ParseBigIntError` writes.
pub uninterp spec fn parse_error_text(e: ParseBigIntError) -> Seq<char>;

/// The value of a digit; a character that is no digit has a value above that of every digit.
pub open spec fn digit_value(c: char) -> int {
    if '0' <= c <= '9' {
        c as int - '0' as int
    } else if 'a' <= c <= 'z' {
        c as int - 'a' as int + 10
    } else if 'A' <= c <= 'Z' {
        c as int - 'A' as int + 10
    } else {
        36
    }
}

/// Whether a text is a number in a radix: digits below it, at least one.
pub open spec fn is_number(text: Seq<char>, radix: u32) -> bool {
    &&& text.len() > 0
    &&& forall|i: int| 0 <= i < text.len() ==> digit_value(#[trigger] text[i]) < radix
}

/// The number that digits write in a radix, the most significant first.
pub open spec fn number(text: Seq<char>, radix: u32) -> int
    decreases text.len(),
{
    if text.len() == 0 {
        0
    } else {
        number(text.drop_last(), radix) * radix + digit_value(text.last())
    }
}

/// Whether a text has a character that is in no number in a radix: neither a digit below it, nor
/// a sign, nor an underscore.
pub open spec fn has_foreign(text: Seq<char>, radix: u32) -> bool {
    exists|i: int|
        0 <= i < text.len() && digit_value(#[trigger] text[i]) >= radix && text[i] != '_' && text[i]
            != '+' && text[i] != '-'
}

/// Remainder of `a` by a positive `m` with the sign of `a`, as truncating division leaves it.
pub open spec fn truncated_rem(a: int, m: int) -> int {
    if a >= 0 {
        a % m
    } else {
        -((-a) % m)
    }
}

/// `ToPrimitive::to_i64` on a `BigInt`: the value where it fits in an `i64`, else nothing.
#[verifier::external_body]
pub(crate) fn bigint_to_i64(b: &BigInt) -> (r: Option<i64>)
    ensures
        r == (if i64::MIN <= bigint_value(*b) <= i64::MAX {
            Some(bigint_value(*b) as i64)
        } else {
            None
        }),
{
    b.to_i64()
}

/// `BigInt % u64`: the remainder of truncating division by a divisor other than zero.
#[verifier::external_body]
pub(crate) fn bigint_rem_u64(b: &BigInt, m: u64) -> (r: BigInt)
    requires
        m != 0,
    ensures
        bigint_value(r) == truncated_rem(bigint_value(*b), m as int),
{
    b % m
}

/// `BigInt::from(u64)`: the same integer.
#[verifier::external_body]
pub(crate) fn bigint_from_u64(n: u64) -> (r: BigInt)
    ensures
        bigint_value(r) == n,
{
    BigInt::from(n)
}

/// `Zero::zero` for `BigInt`: the integer 0.
#[verifier::external_body]
pub(crate) fn bigint_zero() -> (r: BigInt)
    ensures
        bigint_value(r) == 0,
{
    BigInt::zero()
}

/// `==` on two `BigInt`s: whether they hold the same integer.
#[verifier::external_body]
pub(crate) fn bigint_eq(a: &BigInt, b: &BigInt) -> (r: bool)
    ensures
        r == (bigint_value(*a) == bigint_value(*b)),
{
    a == b
}

/// `Num::from_str_radix` for `BigInt`, in a radix that it does not refuse with a panic: a number
/// gives its value, an empty text is refused as such, and a foreign character as an invalid
/// digit. What it makes of signs and underscores is left to the name [`parsed_radix`].
#[verifier::external_body]
pub(crate) fn bigint_from_str_radix(text: &str, radix: u32) -> (r: Result<BigInt, ParseBigIntError>)
    requires
        2 <= radix <= 36,
    ensures
        parsed_radix(text@, radix) == (match r {
            Ok(b) => Ok::<int, Seq<char>>(bigint_value(b)),
            Err(e) => Err::<int, Seq<char>>(parse_error_text(e)),
        }),
        is_number(text@, radix) ==> r is Ok && bigint_value(r->Ok_0) == number(text@, radix),
        text@.len() == 0 ==> r is Err && parse_error_text(r->Err_0)
            == "cannot parse integer from empty string"@,
        has_foreign(text@, radix) ==> r is Err && parse_error_text(r->Err_0)
            == "invalid digit found in string"@,
{
    BigInt::from_str_radix(text, radix)
}

/// `ToString::to_string` on a `ParseBigIntError`: the text its `Display` impl writes.
#[verifier::external_body]
pub(crate) fn parse_error_to_string(e: &ParseBigIntError) -> (r: String)
    ensures
        r@ == parse_error_text(*e),
{
    e.to_string()
}

} // verus!
