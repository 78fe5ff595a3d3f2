//! The amount rules of annual EUR→BRL transfers.
use vstd::prelude::*;

use crate::money::{
    checked_mul, decimal_display, decimal_from_str, from_repr, money_mul, money_to_string, parse_decimal, Money,
};
use crate::text::{debug_quoted, spec_trim, str_debug, trim};

verus! {

/// A transfer's EUR amount or exchange rate as read from its form field:
/// it must have parsed, and be positive. `input` is the field as typed.
pub fn positive_amount(parsed: Option<Money>, input: &str) -> (r: Result<Money, String>)
    ensures
        parsed is None ==> (r matches Err(e) && e@ == "invalid amount: "@ + str_debug(input@)),
        parsed matches Some(m) ==> (if m.spec_is_positive() {
            r == Ok::<Money, String>(m)
        } else {
            r matches Err(e) && e@ == "amount must be positive: "@ + str_debug(input@)
        }),
{
    match parsed {
        None => {
            let mut e = String::from_str("invalid amount: ");
            let q = debug_quoted(input);
            e.append(q.as_str());
            Err(e)
        },
        Some(m) => {
            if m.is_positive() {
                Ok(m)
            } else {
                let mut e = String::from_str("amount must be positive: ");
                let q = debug_quoted(input);
                e.append(q.as_str());
                Err(e)
            }
        },
    }
}

/// A transfer's EUR amount or exchange rate as typed into its form field:
/// the decimal it reads as, ignoring surrounding whitespace, when that is
/// positive; otherwise an error quoting the field.
pub fn parse_amount(s: &str) -> (r: Result<Money, String>)
    ensures
        match from_repr(decimal_from_str(spec_trim(s@))) {
            None => (r matches Err(e) && e@ == "invalid amount: "@ + str_debug(s@)),
            Some(m) => if m.mantissa > 0 {
                r == Ok::<Money, String>(m)
            } else {
                r matches Err(e) && e@ == "amount must be positive: "@ + str_debug(s@)
            },
        },
        r matches Ok(m) ==> m.wf(),
{
    let parsed = parse_decimal(trim(s));
    positive_amount(parsed, s)
}

/// The BRL amount a transfer received: `eur_amount × rate`, or an error
/// naming both when the product overflows a decimal, rather than a panic.
pub fn checked_multiply(eur_amount: Money, rate: Money) -> (r: Result<Money, String>)
    requires
        eur_amount.wf(),
        rate.wf(),
    ensures
        money_mul(eur_amount, rate) is Some ==> r == Ok::<Money, String>(money_mul(eur_amount, rate)->Some_0),
        money_mul(eur_amount, rate) is None ==> (r matches Err(e) && e@ == "amount \u{d7} rate overflows: "@
            + decimal_display(eur_amount.mantissa, eur_amount.scale) + " \u{d7} "@ + decimal_display(
            rate.mantissa,
            rate.scale,
        )),
        r matches Ok(m) ==> m.wf(),
{
    match checked_mul(eur_amount, rate) {
        Some(m) => Ok(m),
        None => {
            let mut e = String::from_str("amount \u{d7} rate overflows: ");
            let a = money_to_string(eur_amount);
            e.append(a.as_str());
            e.append(" \u{d7} ");
            let b = money_to_string(rate);
            e.append(b.as_str());
            proof {
                reveal_strlit(" \u{d7} ");
            }
            Err(e)
        },
    }
}

} // verus!
