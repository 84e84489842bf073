use std::str::FromStr;
use vstd::prelude::*;

verus! {

/// The atomics (the value times 10^18) of the decimal that the platform's
/// decimal parser reads from a string, or `None` where it refuses the string.
pub uninterp spec fn decimal_atomics(s: Seq<char>) -> Option<u128>;

/// Calls `cosmwasm_std::Decimal::from_str` and hands back the atomics of the
/// parsed decimal. Claims only that the outcome is a function of the input
/// string (named `decimal_atomics`); what the parser accepts is not stated.
#[verifier::external_body]
pub(crate) fn parse_decimal(input: &str) -> (r: Result<u128, cosmwasm_std::StdError>)
    ensures
        r is Ok <==> decimal_atomics(input@) is Some,
        r matches Ok(a) ==> decimal_atomics(input@) == Some(a),
{
    match cosmwasm_std::Decimal::from_str(input) {
        Ok(d) => Ok(d.atomics().u128()),
        Err(e) => Err(e),
    }
}

/// A decimal amount read from a message: the atomics of its magnitude, and
/// whether a minus sign stood in front of it.
#[derive(Debug, PartialEq, Eq)]
pub enum SignedDecimal {
    NonNegative(u128),
    Negative(u128),
}

impl SignedDecimal {
    /// The atomics of the magnitude.
    pub open spec fn magnitude(self) -> u128 {
        match self {
            SignedDecimal::NonNegative(a) => a,
            SignedDecimal::Negative(a) => a,
        }
    }

    /// The amount is at most zero: negative, or zero.
    pub open spec fn not_positive(self) -> bool {
        self is Negative || self.magnitude() == 0
    }
}

/// How a message's amount string reads: a `-` followed by a decimal the
/// parser accepts is a negative amount; otherwise the parser reads the whole
/// string; `None` where it refuses it.
pub open spec fn signed_decimal(s: Seq<char>) -> Option<SignedDecimal> {
    if s.len() > 0 && s[0] == '-' && decimal_atomics(s.drop_first()) is Some {
        Some(SignedDecimal::Negative(decimal_atomics(s.drop_first())->0))
    } else {
        match decimal_atomics(s) {
            Some(a) => Some(SignedDecimal::NonNegative(a)),
            None => None,
        }
    }
}

/// Reads an amount string as `signed_decimal` says; where the parser refuses
/// it, the parser's error is handed back.
pub fn parse_signed_decimal(input: &String) -> (r: Result<SignedDecimal, cosmwasm_std::StdError>)
    ensures
        r is Ok <==> signed_decimal(input@) is Some,
        r matches Ok(a) ==> signed_decimal(input@) == Some(a),
{
    let s = input.as_str();
    let n = s.unicode_len();
    if n > 0 && s.get_char(0) == '-' {
        let rest = s.substring_char(1, n);
        assert(rest@ =~= input@.drop_first());
        match parse_decimal(rest) {
            Ok(a) => {
                return Ok(SignedDecimal::Negative(a));
            },
            Err(_) => {},
        }
    }
    match parse_decimal(s) {
        Ok(a) => Ok(SignedDecimal::NonNegative(a)),
        Err(e) => Err(e),
    }
}

} // verus!
