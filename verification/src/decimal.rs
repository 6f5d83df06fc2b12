//! Exact decimal numbers as `rust_decimal` holds them: a signed mantissa of
//! at most 96 bits and a scale of at most 28 decimal places.
use vstd::prelude::*;
use rust_decimal::Decimal;
use crate::text::int_decimal;

verus! {

/// The type `rust_decimal::Decimal`, opaque; its parts are named by
/// `decimal_mantissa`, `decimal_scale` and `decimal_negative`.
#[verifier::external_type_specification]
#[verifier::external_body]
pub struct ExDecimal(rust_decimal::Decimal);

/// `<Decimal as Clone>::clone`: `Decimal` is `Copy`, so a clone is the
/// same value.
pub assume_specification[ <rust_decimal::Decimal as Clone>::clone ](d: &rust_decimal::Decimal) -> (r: rust_decimal::Decimal)
    ensures
        r == *d,
;

/// `Decimal::mantissa`: the signed mantissa (the value times ten to the
/// scale).
pub uninterp spec fn decimal_mantissa(d: Decimal) -> int;

/// `Decimal::scale`: the number of decimal places.
pub uninterp spec fn decimal_scale(d: Decimal) -> int;

/// `Decimal::is_sign_negative`: the sign flag (which a zero may carry).
pub uninterp spec fn decimal_negative(d: Decimal) -> bool;

/// The largest mantissa magnitude, 2^96 - 1.
pub open spec fn max_mantissa() -> int {
    0xFFFF_FFFF_FFFF_FFFF_FFFF_FFFF
}

/// Whether `num / 10^scale` is a `Decimal`: a scale of at most 28 and a
/// mantissa of at most 96 bits.
pub open spec fn decimal_fits(num: int, scale: int) -> bool {
    scale <= 28 && -max_mantissa() <= num <= max_mantissa()
}

/// The message of the error `Decimal::try_from_i128_with_scale` gives when
/// the number does not fit: the scale is checked first, then the mantissa
/// against the largest and the smallest value.
pub open spec fn decimal_error_text(num: int, scale: int) -> Seq<char> {
    if scale > 28 {
        "Scale exceeds the maximum precision allowed: "@ + int_decimal(scale) + " > 28"@
    } else if num > max_mantissa() {
        "Number exceeds maximum value that can be represented."@
    } else {
        "Number less than minimum value that can be represented."@
    }
}

/// `Decimal::try_from_i128_with_scale`: the decimal `num / 10^scale`, with
/// the sign flag of `num`; otherwise the error's message.
#[verifier::external_body]
pub(crate) fn decimal_from_i128_with_scale(num: i128, scale: u32) -> (r: Result<Decimal, String>)
    ensures
        r is Ok <==> decimal_fits(num as int, scale as int),
        r matches Ok(d) ==> decimal_mantissa(d) == num && decimal_scale(d) == scale
            && decimal_negative(d) == (num < 0),
        r matches Err(m) ==> m@ == decimal_error_text(num as int, scale as int),
{
    match Decimal::try_from_i128_with_scale(num, scale) {
        Ok(d) => Ok(d),
        Err(e) => Err(e.to_string()),
    }
}

/// `Decimal::mantissa`.  The magnitude fits in 96 bits, and a mantissa
/// that is not zero carries the sign of the sign flag.
#[verifier::external_body]
pub(crate) fn decimal_mantissa_of(d: &Decimal) -> (r: i128)
    ensures
        r == decimal_mantissa(*d),
        -max_mantissa() <= r <= max_mantissa(),
        r < 0 ==> decimal_negative(*d),
        r > 0 ==> !decimal_negative(*d),
{
    d.mantissa()
}

/// `Decimal::is_sign_negative`.
#[verifier::external_body]
pub(crate) fn decimal_is_sign_negative(d: &Decimal) -> (r: bool)
    ensures
        r == decimal_negative(*d),
{
    d.is_sign_negative()
}

/// `Decimal::scale`: at most 28 for every `Decimal`.
#[verifier::external_body]
pub(crate) fn decimal_scale_of(d: &Decimal) -> (r: u32)
    ensures
        r == decimal_scale(*d),
        r <= 28,
{
    d.scale()
}

} // verus!
