//! Money amounts. An amount is a `rust_decimal::Decimal` held by its
//! representation — a signed 96-bit mantissa and a power-of-ten scale —
//! so that the library's contracts can speak of it. Arithmetic is done by
//! `rust_decimal` itself, through the wrappers below.
use vstd::prelude::*;

use rust_decimal::Decimal;

use crate::text::nat_digits;

verus! {

/// The largest mantissa magnitude a `Decimal` holds (2^96 - 1).
pub open spec fn max_mantissa() -> int {
    0xFFFF_FFFF_FFFF_FFFF_FFFF_FFFF
}

/// A decimal amount: `mantissa / 10^scale`.
#[derive(Debug, Clone, Copy)]
pub struct Money {
    pub mantissa: i128,
    pub scale: u32,
}

impl Money {
    /// The representation is one a `Decimal` can hold.
    pub open spec fn wf(self) -> bool {
        &&& -max_mantissa() <= self.mantissa <= max_mantissa()
        &&& self.scale <= 28
    }

    /// `Decimal::ZERO`.
    pub open spec fn spec_zero() -> Money {
        Money { mantissa: 0, scale: 0 }
    }

    pub fn zero() -> (m: Money)
        ensures
            m == Money::spec_zero(),
            m.wf(),
    {
        Money { mantissa: 0, scale: 0 }
    }

    /// `self > Decimal::ZERO`: a decimal is positive exactly when its
    /// mantissa is.
    pub open spec fn spec_is_positive(self) -> bool {
        self.mantissa > 0
    }

    pub fn is_positive(&self) -> (b: bool)
        ensures
            b == self.spec_is_positive(),
    {
        self.mantissa > 0
    }
}

/// What `Decimal::checked_add` returns for two decimals given by their
/// representations, as a representation.
pub uninterp spec fn decimal_checked_add(
    a_mantissa: i128,
    a_scale: u32,
    b_mantissa: i128,
    b_scale: u32,
) -> Option<(i128, u32)>;

/// What `Decimal::checked_sub` returns, as a representation.
pub uninterp spec fn decimal_checked_sub(
    a_mantissa: i128,
    a_scale: u32,
    b_mantissa: i128,
    b_scale: u32,
) -> Option<(i128, u32)>;

/// What `Decimal::checked_mul` returns, as a representation.
pub uninterp spec fn decimal_checked_mul(
    a_mantissa: i128,
    a_scale: u32,
    b_mantissa: i128,
    b_scale: u32,
) -> Option<(i128, u32)>;

pub open spec fn from_repr(r: Option<(i128, u32)>) -> Option<Money> {
    match r {
        Some((m, s)) => Some(Money { mantissa: m, scale: s }),
        None => None,
    }
}

/// What `Decimal`'s `FromStr` parses the text `s` to, as a
/// representation; `None` where it refuses the text.
pub uninterp spec fn decimal_from_str(s: Seq<char>) -> Option<(i128, u32)>;

/// Parses `s` with `Decimal`'s `FromStr`. Claims: the result is the named
/// `decimal_from_str` of the text, and a parsed decimal is a valid
/// representation.
#[verifier::external_body]
pub(crate) fn parse_decimal(s: &str) -> (r: Option<Money>)
    ensures
        r == from_repr(decimal_from_str(s@)),
        r matches Some(m) ==> m.wf(),
{
    match s.parse::<Decimal>() {
        Ok(d) => Some(Money { mantissa: d.mantissa(), scale: d.scale() }),
        Err(_) => None,
    }
}

/// `a + b` as `Decimal` computes it; `None` where that overflows (and `+`
/// panics).
pub open spec fn money_add(a: Money, b: Money) -> Option<Money> {
    from_repr(decimal_checked_add(a.mantissa, a.scale, b.mantissa, b.scale))
}

/// `a - b` as `Decimal` computes it; `None` where that overflows.
pub open spec fn money_sub(a: Money, b: Money) -> Option<Money> {
    from_repr(decimal_checked_sub(a.mantissa, a.scale, b.mantissa, b.scale))
}

/// `a * b` as `Decimal` computes it; `None` where that overflows.
pub open spec fn money_mul(a: Money, b: Money) -> Option<Money> {
    from_repr(decimal_checked_mul(a.mantissa, a.scale, b.mantissa, b.scale))
}

/// `10^n`.
pub open spec fn pow10(n: nat) -> int
    decreases n,
{
    if n == 0 {
        1
    } else {
        10 * pow10((n - 1) as nat)
    }
}

/// The amount `m` written at scale `s` (at least its own): its mantissa
/// times `10^(s - scale)`.
pub open spec fn value_at(m: Money, s: u32) -> int {
    m.mantissa * pow10((s - m.scale) as nat)
}

/// `m` is the amount `v` units of scale `s`, at a scale no finer than `s`.
pub open spec fn value_is(m: Money, s: u32, v: int) -> bool {
    m.scale <= s && value_at(m, s) == v
}

/// The finer of two amounts' scales, the one `Decimal` aligns them to.
pub open spec fn finer_scale(a: Money, b: Money) -> u32 {
    if a.scale < b.scale {
        b.scale
    } else {
        a.scale
    }
}

/// `x` fits in a `Decimal` mantissa.
pub open spec fn fits(x: int) -> bool {
    -max_mantissa() <= x <= max_mantissa()
}

pub proof fn lemma_pow10_add(x: nat, y: nat)
    ensures
        pow10(x + y) == pow10(x) * pow10(y),
        pow10(x) >= 1,
    decreases x,
{
    if x > 0 {
        lemma_pow10_add((x - 1) as nat, y);
        assert(pow10(x + y) == 10 * pow10((x - 1 + y) as nat));
        assert(10 * (pow10((x - 1) as nat) * pow10(y)) == (10 * pow10((x - 1) as nat)) * pow10(y))
            by (nonlinear_arith);
    }
}

/// Writing an amount at a finer scale multiplies it by the power of ten
/// between the two scales, so it fits there only if it fits at the
/// coarser one.
pub proof fn lemma_rescale(m: Money, s: u32, t: u32)
    requires
        m.scale <= s <= t,
    ensures
        value_at(m, t) == value_at(m, s) * pow10((t - s) as nat),
        pow10((t - s) as nat) >= 1,
        fits(value_at(m, t)) ==> fits(value_at(m, s)),
{
    let a = (s - m.scale) as nat;
    let b = (t - s) as nat;
    lemma_pow10_add(a, b);
    lemma_pow10_add(b, 0);
    assert((t - m.scale) as nat == a + b);
    let p = pow10(a);
    let q = pow10(b);
    assert(m.mantissa * (p * q) == (m.mantissa * p) * q) by (nonlinear_arith);
    lemma_fits_shrinks(value_at(m, s), q);
}

/// A multiple of `x` by a positive factor fits only if `x` does.
pub proof fn lemma_fits_shrinks(x: int, q: int)
    requires
        q >= 1,
    ensures
        fits(x * q) ==> fits(x),
{
    if x >= 0 {
        assert(x * q >= x) by (nonlinear_arith)
            requires
                x >= 0,
                q >= 1,
        ;
    } else {
        assert(x * q <= x) by (nonlinear_arith)
            requires
                x < 0,
                q >= 1,
        ;
    }
}

/// Calls `rust_decimal::Decimal::checked_add`. Claims: the result is the
/// named `decimal_checked_add` of the two representations; a returned
/// decimal is a valid representation; adding to a zero gives the other
/// amount as it is, and adding a zero gives the first one (the zero
/// checks that `add_sub_internal` makes before any rescaling); and two
/// nonzero amounts add exactly at the finer of their scales when both,
/// written at that scale, and their sum fit in 96 bits (the coarser one
/// is scaled up and the two added in `add_sub_internal`'s fast paths or
/// `unaligned_add`/`aligned_add`, with no rounding). Where they do not
/// fit, the rounding is left to the name.
#[verifier::external_body]
pub(crate) fn checked_add(a: Money, b: Money) -> (r: Option<Money>)
    requires
        a.wf(),
        b.wf(),
    ensures
        r == from_repr(decimal_checked_add(a.mantissa, a.scale, b.mantissa, b.scale)),
        r matches Some(m) ==> m.wf(),
        a.mantissa == 0 ==> r == Some(b),
        a.mantissa != 0 && b.mantissa == 0 ==> r == Some(a),
        a.mantissa != 0 && b.mantissa != 0 && fits(value_at(a, finer_scale(a, b))) && fits(
            value_at(b, finer_scale(a, b)),
        ) && fits(value_at(a, finer_scale(a, b)) + value_at(b, finer_scale(a, b))) ==> r == Some(
            Money {
                mantissa: (value_at(a, finer_scale(a, b)) + value_at(b, finer_scale(a, b))) as i128,
                scale: finer_scale(a, b),
            },
        ),
{
    let x = Decimal::from_i128_with_scale(a.mantissa, a.scale);
    let y = Decimal::from_i128_with_scale(b.mantissa, b.scale);
    match x.checked_add(y) {
        Some(d) => Some(Money { mantissa: d.mantissa(), scale: d.scale() }),
        None => None,
    }
}

/// Calls `rust_decimal::Decimal::checked_sub`. Claims: the result is the
/// named `decimal_checked_sub`; a returned decimal is a valid
/// representation; a zero minus an amount is that amount negated, at its
/// scale; an amount minus a zero is that amount; and two nonzero amounts
/// subtract exactly at the finer of their scales when both, written at
/// that scale, and their difference fit in 96 bits (as for
/// `checked_add`).
#[verifier::external_body]
pub(crate) fn checked_sub(a: Money, b: Money) -> (r: Option<Money>)
    requires
        a.wf(),
        b.wf(),
    ensures
        r == from_repr(decimal_checked_sub(a.mantissa, a.scale, b.mantissa, b.scale)),
        r matches Some(m) ==> m.wf(),
        a.mantissa == 0 ==> r == Some(Money { mantissa: (-b.mantissa) as i128, scale: b.scale }),
        a.mantissa != 0 && b.mantissa == 0 ==> r == Some(a),
        a.mantissa != 0 && b.mantissa != 0 && fits(value_at(a, finer_scale(a, b))) && fits(
            value_at(b, finer_scale(a, b)),
        ) && fits(value_at(a, finer_scale(a, b)) - value_at(b, finer_scale(a, b))) ==> r == Some(
            Money {
                mantissa: (value_at(a, finer_scale(a, b)) - value_at(b, finer_scale(a, b))) as i128,
                scale: finer_scale(a, b),
            },
        ),
{
    let x = Decimal::from_i128_with_scale(a.mantissa, a.scale);
    let y = Decimal::from_i128_with_scale(b.mantissa, b.scale);
    match x.checked_sub(y) {
        Some(d) => Some(Money { mantissa: d.mantissa(), scale: d.scale() }),
        None => None,
    }
}

/// Calls `rust_decimal::Decimal::checked_mul`. Claims: the result is the
/// named `decimal_checked_mul`, and a returned decimal is a valid
/// representation. How the product is rescaled is left to the name.
#[verifier::external_body]
pub(crate) fn checked_mul(a: Money, b: Money) -> (r: Option<Money>)
    requires
        a.wf(),
        b.wf(),
    ensures
        r == from_repr(decimal_checked_mul(a.mantissa, a.scale, b.mantissa, b.scale)),
        r matches Some(m) ==> m.wf(),
{
    let x = Decimal::from_i128_with_scale(a.mantissa, a.scale);
    let y = Decimal::from_i128_with_scale(b.mantissa, b.scale);
    match x.checked_mul(y) {
        Some(d) => Some(Money { mantissa: d.mantissa(), scale: d.scale() }),
        None => None,
    }
}

/// Sum of `amounts` as `Iterator::sum` over `Decimal` computes it: a
/// left fold with `+` from `Decimal::ZERO`. `None` if some step overflows.
pub open spec fn sum_of(amounts: Seq<Money>) -> Option<Money>
    decreases amounts.len(),
{
    if amounts.len() == 0 {
        Some(Money::spec_zero())
    } else {
        match sum_of(amounts.drop_last()) {
            Some(t) => money_add(t, amounts.last()),
            None => None,
        }
    }
}

/// Summing one more amount adds it to the running sum.
pub proof fn lemma_sum_of_push(s: Seq<Money>, x: Money)
    ensures
        sum_of(s.push(x)) == (match sum_of(s) {
            Some(t) => money_add(t, x),
            None => None,
        }),
{
    assert(s.push(x).drop_last() =~= s);
}

/// One step of a running `Option` sum: `acc + m`, staying `None` once an
/// overflow happened. Amounts add exactly while both, written at a scale
/// no coarser than theirs, and the sum fit in 96 bits.
pub(crate) fn add_step(acc: Option<Money>, m: Money) -> (r: Option<Money>)
    requires
        acc matches Some(a) ==> a.wf(),
        m.wf(),
    ensures
        r == (match acc {
            Some(a) => money_add(a, m),
            None => None,
        }),
        r matches Some(x) ==> x.wf(),
        forall|s: u32, v: int|
            acc is Some && #[trigger] value_is(acc->Some_0, s, v) && m.scale <= s && fits(v) && fits(
                value_at(m, s),
            ) && fits(v + value_at(m, s)) ==> (r is Some && value_is(r->Some_0, s, v + value_at(m, s))),
{
    match acc {
        Some(a) => {
            let r = checked_add(a, m);
            proof {
                assert forall|s: u32, v: int|
                    #[trigger] value_is(a, s, v) && m.scale <= s && fits(v) && fits(value_at(m, s)) && fits(
                        v + value_at(m, s),
                    ) implies (r is Some && value_is(r->Some_0, s, v + value_at(m, s))) by {
                    lemma_step_exact(a, m, s, true);
                }
            }
            r
        },
        None => None,
    }
}

/// One step of a running `Option` difference: `acc - m`. Amounts
/// subtract exactly while both, written at a scale no coarser than theirs,
/// and the difference fit in 96 bits.
pub(crate) fn sub_step(acc: Option<Money>, m: Money) -> (r: Option<Money>)
    requires
        acc matches Some(a) ==> a.wf(),
        m.wf(),
    ensures
        r == (match acc {
            Some(a) => money_sub(a, m),
            None => None,
        }),
        r matches Some(x) ==> x.wf(),
        forall|s: u32, v: int|
            acc is Some && #[trigger] value_is(acc->Some_0, s, v) && m.scale <= s && fits(v) && fits(
                value_at(m, s),
            ) && fits(v - value_at(m, s)) ==> (r is Some && value_is(r->Some_0, s, v - value_at(m, s))),
{
    match acc {
        Some(a) => {
            let r = checked_sub(a, m);
            proof {
                assert forall|s: u32, v: int|
                    #[trigger] value_is(a, s, v) && m.scale <= s && fits(v) && fits(value_at(m, s)) && fits(
                        v - value_at(m, s),
                    ) implies (r is Some && value_is(r->Some_0, s, v - value_at(m, s))) by {
                    lemma_step_exact(a, m, s, false);
                }
            }
            r
        },
        None => None,
    }
}

/// The arithmetic behind an exact step: with `a` and `m` at scales no
/// finer than `s`, both and the result fitting at `s`, they also fit at
/// the finer of their own scales, and the result there, written at `s`,
/// is the sum (or difference) at `s`.
proof fn lemma_step_exact(a: Money, m: Money, s: u32, add: bool)
    requires
        m.wf(),
        a.scale <= s,
        m.scale <= s,
        fits(value_at(a, s)),
        fits(value_at(m, s)),
        add ==> fits(value_at(a, s) + value_at(m, s)),
        !add ==> fits(value_at(a, s) - value_at(m, s)),
    ensures
        a.mantissa == 0 ==> value_at(a, s) == 0,
        m.mantissa == 0 ==> value_at(m, s) == 0,
        fits(value_at(a, finer_scale(a, m))),
        fits(value_at(m, finer_scale(a, m))),
        add ==> fits(value_at(a, finer_scale(a, m)) + value_at(m, finer_scale(a, m))),
        !add ==> fits(value_at(a, finer_scale(a, m)) - value_at(m, finer_scale(a, m))),
        add ==> value_at(
            Money {
                mantissa: (value_at(a, finer_scale(a, m)) + value_at(m, finer_scale(a, m))) as i128,
                scale: finer_scale(a, m),
            },
            s,
        ) == value_at(a, s) + value_at(m, s),
        !add ==> value_at(
            Money {
                mantissa: (value_at(a, finer_scale(a, m)) - value_at(m, finer_scale(a, m))) as i128,
                scale: finer_scale(a, m),
            },
            s,
        ) == value_at(a, s) - value_at(m, s),
        value_at(Money { mantissa: (-m.mantissa) as i128, scale: m.scale }, s) == -value_at(m, s),
{
    let f = finer_scale(a, m);
    lemma_rescale(a, f, s);
    lemma_rescale(m, f, s);
    let q = pow10((s - f) as nat);
    let x = value_at(a, f);
    let y = value_at(m, f);
    assert(a.mantissa == 0 ==> value_at(a, s) == 0) by (nonlinear_arith)
        requires
            value_at(a, s) == a.mantissa * pow10((s - a.scale) as nat),
    ;
    assert(m.mantissa == 0 ==> value_at(m, s) == 0) by (nonlinear_arith)
        requires
            value_at(m, s) == m.mantissa * pow10((s - m.scale) as nat),
    ;
    assert((x + y) * q == x * q + y * q) by (nonlinear_arith);
    assert((x - y) * q == x * q - y * q) by (nonlinear_arith);
    lemma_fits_shrinks(x + y, q);
    lemma_fits_shrinks(x - y, q);
    assert(fits(x) && fits(y));
    let neg = Money { mantissa: (-m.mantissa) as i128, scale: m.scale };
    assert(neg.mantissa * pow10((s - m.scale) as nat) == -(m.mantissa * pow10((s - m.scale) as nat)))
        by (nonlinear_arith)
        requires
            neg.mantissa == -m.mantissa,
    ;
    if add {
        assert(fits(x + y));
        let r = Money { mantissa: (x + y) as i128, scale: f };
        assert(r.mantissa == x + y);
    } else {
        assert(fits(x - y));
        let r = Money { mantissa: (x - y) as i128, scale: f };
        assert(r.mantissa == x - y);
    }
}

/// `n` zero digits.
pub open spec fn zeros(n: nat) -> Seq<char> {
    Seq::new(n, |i: int| '0')
}

/// What `Decimal`'s `Display` writes for the decimal with this
/// representation: a `-` for a negative amount, then the mantissa's
/// digits with the point placed `scale` digits from the right (padded
/// with zeros to reach it, and a `0` before a point with no whole part);
/// trailing zeros are kept, and a zero amount of scale 0 reads `0`.
pub open spec fn decimal_display(mantissa: i128, scale: u32) -> Seq<char> {
    let digits = if mantissa == 0 {
        Seq::<char>::empty()
    } else if mantissa < 0 {
        nat_digits((-mantissa) as nat)
    } else {
        nat_digits(mantissa as nat)
    };
    let padded = if digits.len() < scale {
        zeros((scale - digits.len()) as nat) + digits
    } else {
        digits
    };
    let whole = padded.take(padded.len() - scale);
    let frac = padded.skip(padded.len() - scale);
    let sign = if mantissa < 0 {
        seq!['-']
    } else {
        Seq::<char>::empty()
    };
    if scale == 0 {
        sign + if digits.len() == 0 {
            seq!['0']
        } else {
            digits
        }
    } else {
        sign + (if whole.len() == 0 {
            seq!['0']
        } else {
            whole
        }) + seq!['.'] + frac
    }
}

/// Calls `Decimal::from_i128_with_scale` and formats the decimal with
/// `to_string` (its `Display`, with no precision asked for). The text is
/// `decimal_display` of the representation.
#[verifier::external_body]
pub fn money_to_string(m: Money) -> (s: String)
    requires
        m.wf(),
    ensures
        s@ == decimal_display(m.mantissa, m.scale),
{
    Decimal::from_i128_with_scale(m.mantissa, m.scale).to_string()
}

} // verus!
