//! Arbitrary-precision counts. Requested character counts and the chunking
//! unit may exceed any machine integer, so they are held as
//! `num_bigint::BigUint` values. The value a `BigUint` holds is abstracted
//! by the uninterpreted `nat_of`; the few operations the generator needs
//! (parse, compare, subtract, divide with remainder, display, narrowing)
//! are trusted wrappers whose contracts speak over `nat_of`.

use vstd::prelude::*;

use crate::chars::{dec_value, is_digit_seq};
use num_bigint::BigUint;

verus! {

#[verifier::external_type_specification]
#[verifier::external_body]
pub struct ExBigUint(BigUint);

/// The natural number a `BigUint` holds.
pub uninterp spec fn nat_of(b: BigUint) -> nat;

/// Relies on `<BigUint as From<u64>>::from`: builds the number with that value.
#[verifier::external_body]
pub(crate) fn big_from_u64(x: u64) -> (r: BigUint)
    ensures
        nat_of(r) == x as nat,
{
    BigUint::from(x)
}

/// Relies on `<BigUint as Clone>::clone`: the copy holds the same value.
pub assume_specification[ <BigUint as Clone>::clone ](b: &BigUint) -> (r: BigUint)
    ensures
        nat_of(r) == nat_of(*b),
;

/// Relies on `<BigUint as PartialEq>::eq`: the representation is canonical,
/// so two values compare equal exactly when they hold the same number.
#[verifier::external_body]
pub(crate) fn big_eq(a: &BigUint, b: &BigUint) -> (r: bool)
    ensures
        r == (nat_of(*a) == nat_of(*b)),
{
    a == b
}

/// Relies on `<&BigUint as Sub>::sub`, which panics when the subtrahend is
/// larger; the precondition keeps that input out.
#[verifier::external_body]
pub(crate) fn big_sub(a: &BigUint, b: &BigUint) -> (r: BigUint)
    requires
        nat_of(*b) <= nat_of(*a),
    ensures
        nat_of(r) == nat_of(*a) - nat_of(*b),
{
    a - b
}

/// Relies on `<&BigUint as Div>::div` (Euclidean quotient), which panics on
/// a zero divisor; the precondition keeps that input out.
#[verifier::external_body]
pub(crate) fn big_div(a: &BigUint, b: &BigUint) -> (r: BigUint)
    requires
        nat_of(*b) > 0,
    ensures
        nat_of(r) == nat_of(*a) / nat_of(*b),
{
    a / b
}

/// Relies on `<&BigUint as Rem>::rem` (Euclidean remainder), which panics on
/// a zero divisor; the precondition keeps that input out.
#[verifier::external_body]
pub(crate) fn big_rem(a: &BigUint, b: &BigUint) -> (r: BigUint)
    requires
        nat_of(*b) > 0,
    ensures
        nat_of(r) == nat_of(*a) % nat_of(*b),
{
    a % b
}

/// Relies on `<BigUint as FromStr>::from_str`, which reads a nonempty string
/// of ASCII digits as a base-10 number; the precondition admits exactly such
/// strings, on which parsing cannot fail.
#[verifier::external_body]
pub(crate) fn big_parse_decimal(s: &str) -> (r: BigUint)
    requires
        s@.len() > 0,
        is_digit_seq(s@),
    ensures
        nat_of(r) == dec_value(s@),
{
    s.parse().unwrap()
}

/// Relies on `<BigUint as Display>::fmt`, which writes the value in base 10
/// with no sign, no separators and no leading zero.
#[verifier::external_body]
pub(crate) fn big_to_decimal(b: &BigUint) -> (r: String)
    ensures
        r@.len() > 0,
        is_digit_seq(r@),
        r@.len() > 1 ==> r@[0] != '0',
        dec_value(r@) == nat_of(*b),
{
    b.to_string()
}

/// Relies on `<usize as TryFrom<&BigUint>>::try_from`, which succeeds exactly
/// when the value fits a `usize`.
#[verifier::external_body]
pub(crate) fn big_to_usize(b: &BigUint) -> (r: Option<usize>)
    ensures
        match r {
            Some(x) => x as nat == nat_of(*b),
            None => nat_of(*b) > usize::MAX,
        },
{
    usize::try_from(b).ok()
}

} // verus!
