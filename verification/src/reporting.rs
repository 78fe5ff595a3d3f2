//! Report aggregation: what the ledger and donation data add up to over a
//! date range. Every function takes plain data in and returns plain data
//! out; formatting and localisation are left to the caller, which hands in
//! the already-localised labels it wants (`ReportLabels`).
use vstd::prelude::*;

use crate::model::donor::{Donor, PhysicalDonation};
use crate::model::outbound::OutboundEventRow;
use crate::model::transaction::{BrlTxRow, BrlTxType, EurTxRow, EurTxType};
use crate::money::{
    add_step, fits, lemma_sum_of_push, max_mantissa, money_add, money_sub, sub_step, sum_of, value_at, value_is,
    Money,
};
use crate::text::{seq_le, seq_lt, str_le, str_lt};

verus! {

// ---------------------------------------------------------------------
// Date ranges
// ---------------------------------------------------------------------

/// `date` lies within `[from, to]`, an empty bound meaning "no limit" on
/// that side. Dates are ISO strings, compared as strings.
pub open spec fn spec_in_range(date: Seq<char>, from: Seq<char>, to: Seq<char>) -> bool {
    (from.len() == 0 || seq_le(from, date)) && (to.len() == 0 || seq_le(date, to))
}

/// True if `date` falls within `[from, to]`, treating an empty bound as no
/// limit on that side. Both bounds are inclusive.
pub fn in_range(date: &str, from: &str, to: &str) -> (r: bool)
    ensures
        r == spec_in_range(date@, from@, to@),
{
    (from.is_empty() || str_le(from, date)) && (to.is_empty() || str_le(date, to))
}

// ---------------------------------------------------------------------
// Balances
// ---------------------------------------------------------------------

/// Inflows minus outflows, folded left from zero with `Decimal`'s `+` and
/// `-`; `None` where a step overflows.
pub open spec fn balance_of(flows: Seq<(bool, Money)>) -> Option<Money>
    decreases flows.len(),
{
    if flows.len() == 0 {
        Some(Money::spec_zero())
    } else {
        match balance_of(flows.drop_last()) {
            Some(b) => if flows.last().0 {
                money_add(b, flows.last().1)
            } else {
                money_sub(b, flows.last().1)
            },
            None => None,
        }
    }
}

/// One more flow moves the balance by that flow.
pub proof fn lemma_balance_push(flows: Seq<(bool, Money)>, f: (bool, Money))
    ensures
        balance_of(flows.push(f)) == (match balance_of(flows) {
            Some(b) => if f.0 {
                money_add(b, f.1)
            } else {
                money_sub(b, f.1)
            },
            None => None,
        }),
{
    assert(flows.push(f).drop_last() =~= flows);
}

/// What one flow moves a balance by, in units of scale `s`: its amount
/// for an inflow, the amount negated for an outflow.
pub open spec fn flow_value(f: (bool, Money), s: u32) -> int {
    if f.0 {
        value_at(f.1, s)
    } else {
        -value_at(f.1, s)
    }
}

/// Inflows minus outflows, in units of scale `s`.
pub open spec fn signed_total(flows: Seq<(bool, Money)>, s: u32) -> int
    decreases flows.len(),
{
    if flows.len() == 0 {
        0
    } else {
        signed_total(flows.drop_last(), s) + flow_value(flows.last(), s)
    }
}

/// The magnitude of `x`.
pub open spec fn magnitude(x: int) -> int {
    if x < 0 {
        -x
    } else {
        x
    }
}

/// All flows' amounts added up regardless of direction, in units of
/// scale `s`: a bound on every running balance, in whatever order the
/// flows come.
pub open spec fn abs_total(flows: Seq<(bool, Money)>, s: u32) -> int
    decreases flows.len(),
{
    if flows.len() == 0 {
        0
    } else {
        abs_total(flows.drop_last(), s) + magnitude(value_at(flows.last().1, s))
    }
}

/// Every amount of `flows` has a scale no finer than `s`.
pub open spec fn flows_within_scale(flows: Seq<(bool, Money)>, s: u32) -> bool {
    forall|i: int| 0 <= i < flows.len() ==> (#[trigger] flows[i]).1.scale <= s
}

/// Written at scale `s`, every amount of `flows` and every running
/// balance along them fits in a decimal: nothing on the way has to be
/// rounded.
pub open spec fn balance_fits(flows: Seq<(bool, Money)>, s: u32) -> bool {
    &&& forall|i: int| 0 <= i < flows.len() ==> fits(value_at((#[trigger] flows[i]).1, s))
    &&& forall|k: int| 0 <= k <= flows.len() ==> fits(#[trigger] signed_total(flows.take(k), s))
}

/// A balance never exceeds the amounts it is made of.
proof fn lemma_signed_within_abs(flows: Seq<(bool, Money)>, s: u32)
    ensures
        -abs_total(flows, s) <= signed_total(flows, s) <= abs_total(flows, s),
    decreases flows.len(),
{
    if flows.len() > 0 {
        lemma_signed_within_abs(flows.drop_last(), s);
    }
}

/// A prefix's amounts add up to no more than all of them.
proof fn lemma_abs_total_prefix(flows: Seq<(bool, Money)>, i: int, s: u32)
    requires
        0 <= i <= flows.len(),
    ensures
        0 <= abs_total(flows.take(i), s) <= abs_total(flows, s),
    decreases flows.len(),
{
    if i == flows.len() {
        assert(flows.take(i) =~= flows);
        lemma_abs_total_nonneg(flows, s);
    } else {
        lemma_abs_total_prefix(flows.drop_last(), i, s);
        assert(flows.drop_last().take(i) =~= flows.take(i));
    }
}

proof fn lemma_abs_total_nonneg(flows: Seq<(bool, Money)>, s: u32)
    ensures
        abs_total(flows, s) >= 0,
    decreases flows.len(),
{
    if flows.len() > 0 {
        lemma_abs_total_nonneg(flows.drop_last(), s);
    }
}

/// Two ledgers one after the other: the balance is the sum of their
/// balances, whichever comes first, and so is the bound on it.
pub proof fn lemma_signed_total_concat(a: Seq<(bool, Money)>, b: Seq<(bool, Money)>, s: u32)
    ensures
        signed_total(Seq::empty(), s) == 0,
        signed_total(a + b, s) == signed_total(a, s) + signed_total(b, s),
        signed_total(a + b, s) == signed_total(b + a, s),
        abs_total(a + b, s) == abs_total(a, s) + abs_total(b, s),
        abs_total(a + b, s) == abs_total(b + a, s),
{
    lemma_concat_one_way(a, b, s);
    lemma_concat_one_way(b, a, s);
}

proof fn lemma_concat_one_way(a: Seq<(bool, Money)>, b: Seq<(bool, Money)>, s: u32)
    ensures
        signed_total(a + b, s) == signed_total(a, s) + signed_total(b, s),
        abs_total(a + b, s) == abs_total(a, s) + abs_total(b, s),
    decreases b.len(),
{
    if b.len() == 0 {
        assert(a + b =~= a);
    } else {
        lemma_concat_one_way(a, b.drop_last(), s);
        assert((a + b).drop_last() =~= a + b.drop_last());
        assert((a + b).last() == b.last());
    }
}

/// Every amount of `flows` is a valid decimal.
pub open spec fn flows_wf(flows: Seq<(bool, Money)>) -> bool {
    forall|i: int| 0 <= i < flows.len() ==> (#[trigger] flows[i]).1.wf()
}

/// Sums a ledger's inflows minus its outflows, or `None` if the running
/// balance overflows. Callers map their own rows into `(is_inflow,
/// amount)` pairs. Where nothing has to be rounded (written at a scale
/// `s` no coarser than any amount's, every amount and running balance
/// fits in a decimal), the balance is exact: inflows minus outflows, in
/// units of `s`, whatever the amounts' own scales (see
/// `lemma_signed_total_concat` for two ledgers in either order).
pub fn checked_balance(flows: &[(bool, Money)]) -> (r: Option<Money>)
    requires
        flows_wf(flows@),
    ensures
        r == balance_of(flows@),
        r matches Some(m) ==> m.wf(),
        forall|s: u32|
            #[trigger] flows_within_scale(flows@, s) && balance_fits(flows@, s) ==> (r is Some && value_is(
                r->Some_0,
                s,
                signed_total(flows@, s),
            )),
{
    let mut acc: Option<Money> = Some(Money::zero());
    let mut i: usize = 0;
    while i < flows.len()
        invariant
            i <= flows@.len(),
            flows_wf(flows@),
            acc == balance_of(flows@.take(i as int)),
            acc matches Some(m) ==> m.wf(),
            forall|s: u32|
                #[trigger] flows_within_scale(flows@, s) && balance_fits(flows@, s) ==> (acc is Some
                    && value_is(acc->Some_0, s, signed_total(flows@.take(i as int), s))),
        decreases flows@.len() - i,
    {
        let (inflow, amount) = flows[i];
        let ghost before = acc;
        proof {
            assert(flows@[i as int].1.wf());
            assert(flows@.take(i + 1).drop_last() =~= flows@.take(i as int));
        }
        acc = if inflow {
            add_step(acc, amount)
        } else {
            sub_step(acc, amount)
        };
        proof {
            assert forall|s: u32|
                #[trigger] flows_within_scale(flows@, s) && balance_fits(flows@, s) implies (acc is Some
                && value_is(acc->Some_0, s, signed_total(flows@.take(i + 1), s))) by {
                let v = signed_total(flows@.take(i as int), s);
                assert(flows@.take(i + 1).last() == flows@[i as int]);
                assert(flows@[i as int].1.scale <= s);
                assert(fits(value_at(flows@[i as int].1, s)));
                assert(fits(signed_total(flows@.take(i as int), s)));
                assert(fits(signed_total(flows@.take(i + 1), s)));
                assert(value_is(before->Some_0, s, v));
            }
        }
        i = i + 1;
    }
    assert(flows@.take(flows@.len() as int) =~= flows@);
    acc
}

/// Sums a ledger's inflows minus its outflows: the one shared balance
/// computation behind the EUR and BRL ledgers' balances. Where nothing
/// has to be rounded, the balance is exactly inflows minus outflows, so
/// the balance of two ledgers one after the other is the sum of theirs,
/// in either order (see `lemma_signed_total_concat`), and that of no
/// flows is zero.
pub fn compute_balance(flows: &[(bool, Money)]) -> (r: Money)
    requires
        flows_wf(flows@),
        balance_of(flows@) is Some,
    ensures
        Some(r) == balance_of(flows@),
        r.wf(),
        forall|s: u32|
            #[trigger] flows_within_scale(flows@, s) && balance_fits(flows@, s) ==> value_is(
                r,
                s,
                signed_total(flows@, s),
            ),
{
    match checked_balance(flows) {
        Some(m) => m,
        None => Money::zero(),  // unreachable: the balance does not overflow
    }
}

// ---------------------------------------------------------------------
// Descriptions
// ---------------------------------------------------------------------

/// Localised labels the reports need, resolved by the caller in its
/// target locale.
pub struct ReportLabels {
    /// Stands in for a missing donor name.
    pub anonymous: String,
    /// Describes an EUR → BRL transfer entry.
    pub eur_to_brl_transfer: String,
    pub donation_in: String,
    pub self_funding_in: String,
    pub purchase_out: String,
    pub transfer_to_brl_out: String,
    pub transfer_in: String,
    pub brazil_purchase_out: String,
    pub cash_gift_out: String,
}

/// The text of an optional string, or `default` when absent.
pub open spec fn text_or(o: Option<String>, default: Seq<char>) -> Seq<char> {
    match o {
        Some(s) => s@,
        None => default,
    }
}

fn string_or(o: &Option<String>, default: &str) -> (r: String)
    ensures
        r@ == text_or(*o, default@),
{
    match o {
        Some(s) => s.clone(),
        None => String::from_str(default),
    }
}

/// A donor's name, or the anonymous label when there is none.
pub fn donor_or_anonymous(name: &Option<String>, anonymous: &str) -> (r: String)
    ensures
        r@ == text_or(*name, anonymous@),
{
    string_or(name, anonymous)
}

/// What an EUR entry's description column shows.
pub open spec fn spec_eur_description(r: EurTxRow, labels: ReportLabels) -> Seq<char> {
    match r.tx_type {
        EurTxType::DonationIn => text_or(r.donor_name, labels.anonymous@),
        EurTxType::SelfFundingIn => text_or(r.note, Seq::empty()),
        EurTxType::PurchaseOut => text_or(r.purchase_channel, Seq::empty()),
        EurTxType::TransferToBrlOut => labels.eur_to_brl_transfer@,
    }
}

/// What a BRL entry's description column shows.
pub open spec fn spec_brl_description(r: BrlTxRow, labels: ReportLabels) -> Seq<char> {
    match r.tx_type {
        BrlTxType::TransferIn => labels.eur_to_brl_transfer@,
        BrlTxType::BrazilPurchaseOut => text_or(r.purchase_channel, Seq::empty()),
        BrlTxType::CashGiftOut => text_or(r.recipient_name, Seq::empty()),
    }
}

/// Description of an EUR entry: the donor (or anonymous) for donations,
/// the note for self-funding, the channel for purchases, a fixed label for
/// transfers to BRL.
pub fn eur_tx_description(r: &EurTxRow, labels: &ReportLabels) -> (d: String)
    ensures
        d@ == spec_eur_description(*r, *labels),
{
    proof {
        reveal_strlit("");
    }
    match r.tx_type {
        EurTxType::DonationIn => string_or(&r.donor_name, labels.anonymous.as_str()),
        EurTxType::SelfFundingIn => string_or(&r.note, ""),
        EurTxType::PurchaseOut => string_or(&r.purchase_channel, ""),
        EurTxType::TransferToBrlOut => labels.eur_to_brl_transfer.clone(),
    }
}

/// Description of a BRL entry: a fixed label for incoming transfers, the
/// channel for purchases, the recipient for cash gifts.
pub fn brl_tx_description(r: &BrlTxRow, labels: &ReportLabels) -> (d: String)
    ensures
        d@ == spec_brl_description(*r, *labels),
{
    proof {
        reveal_strlit("");
    }
    match r.tx_type {
        BrlTxType::TransferIn => labels.eur_to_brl_transfer.clone(),
        BrlTxType::BrazilPurchaseOut => string_or(&r.purchase_channel, ""),
        BrlTxType::CashGiftOut => string_or(&r.recipient_name, ""),
    }
}

// ---------------------------------------------------------------------
// Ledger summaries
// ---------------------------------------------------------------------

/// The EUR entries dated strictly before `from` (none when `from` is
/// empty), as balance flows, in order.
pub open spec fn eur_opening_flows(rows: Seq<EurTxRow>, from: Seq<char>) -> Seq<(bool, Money)>
    decreases rows.len(),
{
    if rows.len() == 0 {
        Seq::empty()
    } else {
        let prev = eur_opening_flows(rows.drop_last(), from);
        let r = rows.last();
        if from.len() > 0 && seq_lt(r.date@, from) {
            prev.push((r.tx_type.spec_is_inflow(), r.amount))
        } else {
            prev
        }
    }
}

/// Amounts of the EUR entries of kind `t` within `[from, to]`, in order.
pub open spec fn eur_period_amounts(
    rows: Seq<EurTxRow>,
    from: Seq<char>,
    to: Seq<char>,
    t: EurTxType,
) -> Seq<Money>
    decreases rows.len(),
{
    if rows.len() == 0 {
        Seq::empty()
    } else {
        let prev = eur_period_amounts(rows.drop_last(), from, to, t);
        let r = rows.last();
        if spec_in_range(r.date@, from, to) && r.tx_type == t {
            prev.push(r.amount)
        } else {
            prev
        }
    }
}

/// Every EUR amount is a valid decimal.
pub open spec fn eur_rows_wf(rows: Seq<EurTxRow>) -> bool {
    forall|i: int| 0 <= i < rows.len() ==> (#[trigger] rows[i]).amount.wf()
}

/// Every BRL amount is a valid decimal.
pub open spec fn brl_rows_wf(rows: Seq<BrlTxRow>) -> bool {
    forall|i: int| 0 <= i < rows.len() ==> (#[trigger] rows[i]).amount.wf()
}

/// One more row unfolds each EUR fold by one step.
proof fn lemma_eur_step(rows: Seq<EurTxRow>, i: int, from: Seq<char>, to: Seq<char>)
    requires
        0 <= i < rows.len(),
    ensures
        eur_opening_flows(rows.take(i + 1), from) == (if from.len() > 0 && seq_lt(
            rows[i].date@,
            from,
        ) {
            eur_opening_flows(rows.take(i), from).push(
                (rows[i].tx_type.spec_is_inflow(), rows[i].amount),
            )
        } else {
            eur_opening_flows(rows.take(i), from)
        }),
        forall|t: EurTxType|
            #[trigger] eur_period_amounts(rows.take(i + 1), from, to, t) == (if spec_in_range(
                rows[i].date@,
                from,
                to,
            ) && rows[i].tx_type == t {
                eur_period_amounts(rows.take(i), from, to, t).push(rows[i].amount)
            } else {
                eur_period_amounts(rows.take(i), from, to, t)
            }),
{
    assert(rows.take(i + 1).drop_last() =~= rows.take(i));
    assert(rows.take(i + 1).last() == rows[i]);
}

#[derive(Debug, Clone, Copy)]
pub struct EurSummary {
    pub starting_balance: Money,
    pub donation_count: i64,
    pub donation_total: Money,
    pub self_funding_count: i64,
    pub self_funding_total: Money,
    pub purchase_count: i64,
    pub purchase_total: Money,
    pub transfer_count: i64,
    pub transfer_total: Money,
    pub net: Money,
    pub ending_balance: Money,
}

/// The EUR summary of `[from, to]`: the balance of everything before
/// `from`, per-kind counts and totals within the period, their net
/// (donations + self-funding - purchases - transfers) and the ending
/// balance (starting balance + net). `None` where a sum overflows.
pub open spec fn spec_eur_summary(rows: Seq<EurTxRow>, from: Seq<char>, to: Seq<char>) -> Option<
    EurSummary,
> {
    let d = eur_period_amounts(rows, from, to, EurTxType::DonationIn);
    let s = eur_period_amounts(rows, from, to, EurTxType::SelfFundingIn);
    let p = eur_period_amounts(rows, from, to, EurTxType::PurchaseOut);
    let t = eur_period_amounts(rows, from, to, EurTxType::TransferToBrlOut);
    match (balance_of(eur_opening_flows(rows, from)), sum_of(d), sum_of(s), sum_of(p), sum_of(t)) {
        (Some(start), Some(dt), Some(st), Some(pt), Some(tt)) => match money_add(dt, st) {
            Some(x) => match money_sub(x, pt) {
                Some(y) => match money_sub(y, tt) {
                    Some(net) => match money_add(start, net) {
                        Some(end) => Some(
                            EurSummary {
                                starting_balance: start,
                                donation_count: d.len() as i64,
                                donation_total: dt,
                                self_funding_count: s.len() as i64,
                                self_funding_total: st,
                                purchase_count: p.len() as i64,
                                purchase_total: pt,
                                transfer_count: t.len() as i64,
                                transfer_total: tt,
                                net,
                                ending_balance: end,
                            },
                        ),
                        None => None,
                    },
                    None => None,
                },
                None => None,
            },
            None => None,
        },
        _ => None,
    }
}

/// All EUR entries as balance flows, in order.
pub open spec fn eur_flows(rows: Seq<EurTxRow>) -> Seq<(bool, Money)> {
    Seq::new(rows.len(), |i: int| (rows[i].tx_type.spec_is_inflow(), rows[i].amount))
}

/// The amounts of `a` added up, in units of scale `s`.
pub open spec fn amounts_total(a: Seq<Money>, s: u32) -> int
    decreases a.len(),
{
    if a.len() == 0 {
        0
    } else {
        amounts_total(a.drop_last(), s) + value_at(a.last(), s)
    }
}

/// The amounts of `a` added up regardless of sign, in units of scale `s`.
pub open spec fn amounts_abs(a: Seq<Money>, s: u32) -> int
    decreases a.len(),
{
    if a.len() == 0 {
        0
    } else {
        amounts_abs(a.drop_last(), s) + magnitude(value_at(a.last(), s))
    }
}

proof fn lemma_amounts_within_abs(a: Seq<Money>, s: u32)
    ensures
        -amounts_abs(a, s) <= amounts_total(a, s) <= amounts_abs(a, s),
        amounts_abs(a, s) >= 0,
    decreases a.len(),
{
    if a.len() > 0 {
        lemma_amounts_within_abs(a.drop_last(), s);
    }
}

/// With no upper bound every EUR entry is either before the range, and
/// so in the starting balance, or in the range, in the total of its kind:
/// the balance of all entries is the starting balance plus the inflow
/// totals minus the outflow totals, and likewise for their magnitudes.
proof fn lemma_eur_partition(rows: Seq<EurTxRow>, from: Seq<char>, s: u32)
    ensures
        signed_total(eur_flows(rows), s) == signed_total(eur_opening_flows(rows, from), s)
            + amounts_total(eur_period_amounts(rows, from, Seq::empty(), EurTxType::DonationIn), s)
            + amounts_total(eur_period_amounts(rows, from, Seq::empty(), EurTxType::SelfFundingIn), s)
            - amounts_total(eur_period_amounts(rows, from, Seq::empty(), EurTxType::PurchaseOut), s)
            - amounts_total(eur_period_amounts(rows, from, Seq::empty(), EurTxType::TransferToBrlOut), s),
        abs_total(eur_flows(rows), s) == abs_total(eur_opening_flows(rows, from), s) + amounts_abs(
            eur_period_amounts(rows, from, Seq::empty(), EurTxType::DonationIn),
            s,
        ) + amounts_abs(eur_period_amounts(rows, from, Seq::empty(), EurTxType::SelfFundingIn), s)
            + amounts_abs(eur_period_amounts(rows, from, Seq::empty(), EurTxType::PurchaseOut), s)
            + amounts_abs(eur_period_amounts(rows, from, Seq::empty(), EurTxType::TransferToBrlOut), s),
    decreases rows.len(),
{
    if rows.len() > 0 {
        let prev = rows.drop_last();
        let e = Seq::<char>::empty();
        lemma_eur_partition(prev, from, s);
        let r = rows.last();
        assert(eur_flows(rows).drop_last() =~= eur_flows(prev));
        assert(eur_flows(rows).last() == (r.tx_type.spec_is_inflow(), r.amount));
        let o = eur_opening_flows(prev, from);
        assert(o.push((r.tx_type.spec_is_inflow(), r.amount)).drop_last() =~= o);
        let d = eur_period_amounts(prev, from, e, EurTxType::DonationIn);
        let sf = eur_period_amounts(prev, from, e, EurTxType::SelfFundingIn);
        let p = eur_period_amounts(prev, from, e, EurTxType::PurchaseOut);
        let t = eur_period_amounts(prev, from, e, EurTxType::TransferToBrlOut);
        assert(d.push(r.amount).drop_last() =~= d);
        assert(sf.push(r.amount).drop_last() =~= sf);
        assert(p.push(r.amount).drop_last() =~= p);
        assert(t.push(r.amount).drop_last() =~= t);
    }
}

/// With no upper bound, written at a scale `sc` no coarser than any
/// amount's, the magnitudes of all EUR amounts together fit in a decimal:
/// then none of `eur_summary`'s sums has anything to round.
pub open spec fn eur_exact(rows: Seq<EurTxRow>, to: Seq<char>, sc: u32) -> bool {
    &&& to.len() == 0
    &&& flows_within_scale(eur_flows(rows), sc)
    &&& abs_total(eur_flows(rows), sc) <= max_mantissa()
}

#[verifier::spinoff_prover]
#[verifier::rlimit(60)]
fn eur_summary_opt(rows: &[EurTxRow], date_from: &str, date_to: &str) -> (r: Option<EurSummary>)
    requires
        eur_rows_wf(rows@),
    ensures
        r == spec_eur_summary(rows@, date_from@, date_to@),
        forall|sc: u32|
            #[trigger] eur_exact(rows@, date_to@, sc) ==> (r is Some && value_is(
                r->Some_0.ending_balance,
                sc,
                signed_total(eur_flows(rows@), sc),
            )),
{
    let ghost from = date_from@;
    let ghost to = date_to@;
    let mut opening: Option<Money> = Some(Money::zero());
    let mut d: Option<Money> = Some(Money::zero());
    let mut s: Option<Money> = Some(Money::zero());
    let mut p: Option<Money> = Some(Money::zero());
    let mut t: Option<Money> = Some(Money::zero());
    let mut dc: usize = 0;
    let mut sc: usize = 0;
    let mut pc: usize = 0;
    let mut tc: usize = 0;
    let has_from = !date_from.is_empty();
    let mut i: usize = 0;
    while i < rows.len()
        invariant
            i <= rows@.len(),
            from == date_from@,
            to == date_to@,
            has_from == (from.len() > 0),
            eur_rows_wf(rows@),
            opening == balance_of(eur_opening_flows(rows@.take(i as int), from)),
            d == sum_of(eur_period_amounts(rows@.take(i as int), from, to, EurTxType::DonationIn)),
            s == sum_of(eur_period_amounts(rows@.take(i as int), from, to, EurTxType::SelfFundingIn)),
            p == sum_of(eur_period_amounts(rows@.take(i as int), from, to, EurTxType::PurchaseOut)),
            t == sum_of(
                eur_period_amounts(rows@.take(i as int), from, to, EurTxType::TransferToBrlOut),
            ),
            dc == eur_period_amounts(rows@.take(i as int), from, to, EurTxType::DonationIn).len(),
            sc == eur_period_amounts(rows@.take(i as int), from, to, EurTxType::SelfFundingIn).len(),
            pc == eur_period_amounts(rows@.take(i as int), from, to, EurTxType::PurchaseOut).len(),
            tc == eur_period_amounts(
                rows@.take(i as int),
                from,
                to,
                EurTxType::TransferToBrlOut,
            ).len(),
            dc <= i,
            sc <= i,
            pc <= i,
            tc <= i,
            opening matches Some(m) ==> m.wf(),
            d matches Some(m) ==> m.wf(),
            s matches Some(m) ==> m.wf(),
            p matches Some(m) ==> m.wf(),
            t matches Some(m) ==> m.wf(),
            forall|sc: u32|
                #[trigger] eur_exact(rows@, to, sc) ==> {
                    &&& opening is Some && value_is(
                        opening->Some_0,
                        sc,
                        signed_total(eur_opening_flows(rows@.take(i as int), from), sc),
                    )
                    &&& d is Some && value_is(
                        d->Some_0,
                        sc,
                        amounts_total(eur_period_amounts(rows@.take(i as int), from, to, EurTxType::DonationIn), sc),
                    )
                    &&& s is Some && value_is(
                        s->Some_0,
                        sc,
                        amounts_total(eur_period_amounts(rows@.take(i as int), from, to, EurTxType::SelfFundingIn), sc),
                    )
                    &&& p is Some && value_is(
                        p->Some_0,
                        sc,
                        amounts_total(eur_period_amounts(rows@.take(i as int), from, to, EurTxType::PurchaseOut), sc),
                    )
                    &&& t is Some && value_is(
                        t->Some_0,
                        sc,
                        amounts_total(
                            eur_period_amounts(rows@.take(i as int), from, to, EurTxType::TransferToBrlOut),
                        sc,
                        ),
                    )
                },
        decreases rows@.len() - i,
    {
        let r = &rows[i];
        let ghost (o0, d0, s0, p0, t0) = (opening, d, s, p, t);
        proof {
            lemma_eur_step(rows@, i as int, from, to);
            assert(rows@[i as int].amount.wf());
            let ri = rows@[i as int];
            lemma_balance_push(
                eur_opening_flows(rows@.take(i as int), from),
                (ri.tx_type.spec_is_inflow(), ri.amount),
            );
            lemma_sum_of_push(eur_period_amounts(rows@.take(i as int), from, to, EurTxType::DonationIn), ri.amount);
            lemma_sum_of_push(eur_period_amounts(rows@.take(i as int), from, to, EurTxType::SelfFundingIn), ri.amount);
            lemma_sum_of_push(eur_period_amounts(rows@.take(i as int), from, to, EurTxType::PurchaseOut), ri.amount);
            lemma_sum_of_push(eur_period_amounts(rows@.take(i as int), from, to, EurTxType::TransferToBrlOut), ri.amount);
        }
        if has_from && str_lt(r.date.as_str(), date_from) {
            opening = if r.tx_type.is_inflow() {
                add_step(opening, r.amount)
            } else {
                sub_step(opening, r.amount)
            };
        }
        if in_range(r.date.as_str(), date_from, date_to) {
            match r.tx_type {
                EurTxType::DonationIn => {
                    d = add_step(d, r.amount);
                    dc = dc + 1;
                },
                EurTxType::SelfFundingIn => {
                    s = add_step(s, r.amount);
                    sc = sc + 1;
                },
                EurTxType::PurchaseOut => {
                    p = add_step(p, r.amount);
                    pc = pc + 1;
                },
                EurTxType::TransferToBrlOut => {
                    t = add_step(t, r.amount);
                    tc = tc + 1;
                },
            }
        }
        proof {
            assert forall|sc: u32| #[trigger] eur_exact(rows@, to, sc) implies {
                &&& opening is Some && value_is(
                    opening->Some_0,
                    sc,
                    signed_total(eur_opening_flows(rows@.take(i + 1), from), sc),
                )
                &&& d is Some && value_is(
                    d->Some_0,
                    sc,
                    amounts_total(eur_period_amounts(rows@.take(i + 1), from, to, EurTxType::DonationIn), sc),
                )
                &&& s is Some && value_is(
                    s->Some_0,
                    sc,
                    amounts_total(eur_period_amounts(rows@.take(i + 1), from, to, EurTxType::SelfFundingIn), sc),
                )
                &&& p is Some && value_is(
                    p->Some_0,
                    sc,
                    amounts_total(eur_period_amounts(rows@.take(i + 1), from, to, EurTxType::PurchaseOut), sc),
                )
                &&& t is Some && value_is(
                    t->Some_0,
                    sc,
                    amounts_total(
                        eur_period_amounts(rows@.take(i + 1), from, to, EurTxType::TransferToBrlOut),
                    sc,
                    ),
                )
            } by {
                let k = i + 1;
                let ri = rows@[i as int];
                assert(to =~= Seq::<char>::empty());
                lemma_eur_partition(rows@.take(k), from, sc);
                assert(eur_flows(rows@.take(k)) =~= eur_flows(rows@).take(k));
                lemma_abs_total_prefix(eur_flows(rows@), k, sc);
                let ok = eur_opening_flows(rows@.take(k), from);
                let dk = eur_period_amounts(rows@.take(k), from, to, EurTxType::DonationIn);
                let sk = eur_period_amounts(rows@.take(k), from, to, EurTxType::SelfFundingIn);
                let pk = eur_period_amounts(rows@.take(k), from, to, EurTxType::PurchaseOut);
                let tk = eur_period_amounts(rows@.take(k), from, to, EurTxType::TransferToBrlOut);
                lemma_signed_within_abs(ok, sc);
                lemma_abs_total_nonneg(ok, sc);
                lemma_amounts_within_abs(dk, sc);
                lemma_amounts_within_abs(sk, sc);
                lemma_amounts_within_abs(pk, sc);
                lemma_amounts_within_abs(tk, sc);
                let oi = eur_opening_flows(rows@.take(i as int), from);
                let di = eur_period_amounts(rows@.take(i as int), from, to, EurTxType::DonationIn);
                let si = eur_period_amounts(rows@.take(i as int), from, to, EurTxType::SelfFundingIn);
                let pi = eur_period_amounts(rows@.take(i as int), from, to, EurTxType::PurchaseOut);
                let ti = eur_period_amounts(rows@.take(i as int), from, to, EurTxType::TransferToBrlOut);
                assert(oi.push((ri.tx_type.spec_is_inflow(), ri.amount)).drop_last() =~= oi);
                assert(di.push(ri.amount).drop_last() =~= di);
                assert(si.push(ri.amount).drop_last() =~= si);
                assert(pi.push(ri.amount).drop_last() =~= pi);
                assert(ti.push(ri.amount).drop_last() =~= ti);
                assert(eur_flows(rows@)[i as int].1.scale <= sc);
                lemma_eur_partition(rows@.take(i as int), from, sc);
                assert(eur_flows(rows@.take(k)).drop_last() =~= eur_flows(rows@.take(i as int)));
                assert(eur_flows(rows@.take(k)).last().1 == ri.amount);
                lemma_abs_total_nonneg(eur_flows(rows@.take(i as int)), sc);
                lemma_signed_within_abs(oi, sc);
                lemma_abs_total_nonneg(oi, sc);
                lemma_amounts_within_abs(di, sc);
                lemma_amounts_within_abs(si, sc);
                lemma_amounts_within_abs(pi, sc);
                lemma_amounts_within_abs(ti, sc);
                assert(fits(value_at(ri.amount, sc)));
                assert(value_is(o0->Some_0, sc, signed_total(oi, sc)));
                assert(value_is(d0->Some_0, sc, amounts_total(di, sc)));
                assert(value_is(s0->Some_0, sc, amounts_total(si, sc)));
                assert(value_is(p0->Some_0, sc, amounts_total(pi, sc)));
                assert(value_is(t0->Some_0, sc, amounts_total(ti, sc)));
            }
        }
        i = i + 1;
    }
    proof {
        assert(rows@.take(rows@.len() as int) =~= rows@);
    }
    let start = match opening {
        Some(m) => m,
        None => return None,
    };
    let dt = match d {
        Some(m) => m,
        None => return None,
    };
    let st = match s {
        Some(m) => m,
        None => return None,
    };
    let pt = match p {
        Some(m) => m,
        None => return None,
    };
    let tt = match t {
        Some(m) => m,
        None => return None,
    };
    proof {
        assert forall|sc: u32| #[trigger] eur_exact(rows@, to, sc) implies {
            let (vs, vd, vf, vp, vt) = (
                value_at(start, sc),
                value_at(dt, sc),
                value_at(st, sc),
                value_at(pt, sc),
                value_at(tt, sc),
            );
            &&& fits(vs) && fits(vd) && fits(vf) && fits(vp) && fits(vt)
            &&& fits(vd + vf) && fits(vd + vf - vp) && fits(vd + vf - vp - vt)
            &&& vs + (vd + vf - vp - vt) == signed_total(eur_flows(rows@), sc)
            &&& fits(signed_total(eur_flows(rows@), sc))
        } by {
            assert(to =~= Seq::<char>::empty());
            lemma_eur_partition(rows@, from, sc);
            lemma_signed_within_abs(eur_flows(rows@), sc);
            lemma_signed_within_abs(eur_opening_flows(rows@, from), sc);
            lemma_abs_total_nonneg(eur_opening_flows(rows@, from), sc);
            lemma_amounts_within_abs(eur_period_amounts(rows@, from, to, EurTxType::DonationIn), sc);
            lemma_amounts_within_abs(eur_period_amounts(rows@, from, to, EurTxType::SelfFundingIn), sc);
            lemma_amounts_within_abs(eur_period_amounts(rows@, from, to, EurTxType::PurchaseOut), sc);
            lemma_amounts_within_abs(eur_period_amounts(rows@, from, to, EurTxType::TransferToBrlOut), sc);
        }
    }
    let sd = Some(dt);
    let x = match add_step(sd, st) {
        Some(m) => m,
        None => return None,
    };
    let sx = Some(x);
    let y = match sub_step(sx, pt) {
        Some(m) => m,
        None => return None,
    };
    let sy = Some(y);
    let net = match sub_step(sy, tt) {
        Some(m) => m,
        None => return None,
    };
    let ss = Some(start);
    let end = match add_step(ss, net) {
        Some(m) => m,
        None => return None,
    };
    proof {
        assert forall|sc: u32| #[trigger] eur_exact(rows@, to, sc) implies value_is(
            end,
            sc,
            signed_total(eur_flows(rows@), sc),
        ) by {
            assert(value_is(sd->Some_0, sc, value_at(dt, sc)));
            assert(value_is(sx->Some_0, sc, value_at(dt, sc) + value_at(st, sc)));
            assert(value_is(sy->Some_0, sc, value_at(dt, sc) + value_at(st, sc) - value_at(pt, sc)));
            assert(value_is(ss->Some_0, sc, value_at(start, sc)));
        }
    }
    Some(
        EurSummary {
            starting_balance: start,
            donation_count: dc as i64,
            donation_total: dt,
            self_funding_count: sc as i64,
            self_funding_total: st,
            purchase_count: pc as i64,
            purchase_total: pt,
            transfer_count: tc as i64,
            transfer_total: tt,
            net,
            ending_balance: end,
        },
    )
}

/// EUR ledger summary for `[date_from, date_to]`: starting balance (the
/// running balance immediately before `date_from`), per-type counts and
/// totals within the period, net change, and ending balance. With no
/// upper bound and the amounts' magnitudes, written at a scale no coarser
/// than any of theirs, together within a decimal, the ending balance is
/// the balance of the whole ledger, whatever the lower bound and whatever
/// the amounts' own scales.
pub fn eur_summary(rows: &[EurTxRow], date_from: &str, date_to: &str) -> (r: EurSummary)
    requires
        eur_rows_wf(rows@),
        spec_eur_summary(rows@, date_from@, date_to@) is Some,
    ensures
        Some(r) == spec_eur_summary(rows@, date_from@, date_to@),
        forall|sc: u32|
            #[trigger] eur_exact(rows@, date_to@, sc) ==> value_is(
                r.ending_balance,
                sc,
                signed_total(eur_flows(rows@), sc),
            ),
{
    match eur_summary_opt(rows, date_from, date_to) {
        Some(x) => x,
        None => {
            // unreachable: the summary does not overflow
            let z = Money::zero();
            EurSummary {
                starting_balance: z,
                donation_count: 0,
                donation_total: z,
                self_funding_count: 0,
                self_funding_total: z,
                purchase_count: 0,
                purchase_total: z,
                transfer_count: 0,
                transfer_total: z,
                net: z,
                ending_balance: z,
            }
        },
    }
}

/// `eur_summary`, or `None` where one of its sums overflows (where
/// `eur_summary` itself would have no result).
pub fn checked_eur_summary(rows: &[EurTxRow], date_from: &str, date_to: &str) -> (r: Option<
    EurSummary,
>)
    requires
        eur_rows_wf(rows@),
    ensures
        r == spec_eur_summary(rows@, date_from@, date_to@),
{
    match eur_summary_opt(rows, date_from, date_to) {
        Some(_) => Some(eur_summary(rows, date_from, date_to)),
        None => None,
    }
}


/// The BRL entries dated strictly before `from` (none when `from` is
/// empty), as balance flows, in order.
pub open spec fn brl_opening_flows(rows: Seq<BrlTxRow>, from: Seq<char>) -> Seq<(bool, Money)>
    decreases rows.len(),
{
    if rows.len() == 0 {
        Seq::empty()
    } else {
        let prev = brl_opening_flows(rows.drop_last(), from);
        let r = rows.last();
        if from.len() > 0 && seq_lt(r.date@, from) {
            prev.push((r.tx_type.spec_is_inflow(), r.amount))
        } else {
            prev
        }
    }
}

/// Amounts of the BRL entries of kind `t` within `[from, to]`, in order.
pub open spec fn brl_period_amounts(
    rows: Seq<BrlTxRow>,
    from: Seq<char>,
    to: Seq<char>,
    t: BrlTxType,
) -> Seq<Money>
    decreases rows.len(),
{
    if rows.len() == 0 {
        Seq::empty()
    } else {
        let prev = brl_period_amounts(rows.drop_last(), from, to, t);
        let r = rows.last();
        if spec_in_range(r.date@, from, to) && r.tx_type == t {
            prev.push(r.amount)
        } else {
            prev
        }
    }
}

/// One more row unfolds each BRL fold by one step.
proof fn lemma_brl_step(rows: Seq<BrlTxRow>, i: int, from: Seq<char>, to: Seq<char>)
    requires
        0 <= i < rows.len(),
    ensures
        brl_opening_flows(rows.take(i + 1), from) == (if from.len() > 0 && seq_lt(
            rows[i].date@,
            from,
        ) {
            brl_opening_flows(rows.take(i), from).push(
                (rows[i].tx_type.spec_is_inflow(), rows[i].amount),
            )
        } else {
            brl_opening_flows(rows.take(i), from)
        }),
        forall|t: BrlTxType|
            #[trigger] brl_period_amounts(rows.take(i + 1), from, to, t) == (if spec_in_range(
                rows[i].date@,
                from,
                to,
            ) && rows[i].tx_type == t {
                brl_period_amounts(rows.take(i), from, to, t).push(rows[i].amount)
            } else {
                brl_period_amounts(rows.take(i), from, to, t)
            }),
{
    assert(rows.take(i + 1).drop_last() =~= rows.take(i));
    assert(rows.take(i + 1).last() == rows[i]);
}

#[derive(Debug, Clone, Copy)]
pub struct BrlSummary {
    pub starting_balance: Money,
    pub transfer_in_count: i64,
    pub transfer_in_total: Money,
    pub purchase_count: i64,
    pub purchase_total: Money,
    pub gift_count: i64,
    pub gift_total: Money,
    pub net: Money,
    pub ending_balance: Money,
}

/// The BRL summary of `[from, to]`: same shape as the EUR summary, over
/// the three BRL kinds; net is transfers in - purchases - cash gifts.
pub open spec fn spec_brl_summary(rows: Seq<BrlTxRow>, from: Seq<char>, to: Seq<char>) -> Option<
    BrlSummary,
> {
    let ti = brl_period_amounts(rows, from, to, BrlTxType::TransferIn);
    let p = brl_period_amounts(rows, from, to, BrlTxType::BrazilPurchaseOut);
    let g = brl_period_amounts(rows, from, to, BrlTxType::CashGiftOut);
    match (balance_of(brl_opening_flows(rows, from)), sum_of(ti), sum_of(p), sum_of(g)) {
        (Some(start), Some(tt), Some(pt), Some(gt)) => match money_sub(tt, pt) {
            Some(x) => match money_sub(x, gt) {
                Some(net) => match money_add(start, net) {
                    Some(end) => Some(
                        BrlSummary {
                            starting_balance: start,
                            transfer_in_count: ti.len() as i64,
                            transfer_in_total: tt,
                            purchase_count: p.len() as i64,
                            purchase_total: pt,
                            gift_count: g.len() as i64,
                            gift_total: gt,
                            net,
                            ending_balance: end,
                        },
                    ),
                    None => None,
                },
                None => None,
            },
            None => None,
        },
        _ => None,
    }
}

fn brl_summary_opt(rows: &[BrlTxRow], date_from: &str, date_to: &str) -> (r: Option<BrlSummary>)
    requires
        brl_rows_wf(rows@),
    ensures
        r == spec_brl_summary(rows@, date_from@, date_to@),
{
    let ghost from = date_from@;
    let ghost to = date_to@;
    let mut opening: Option<Money> = Some(Money::zero());
    let mut ti: Option<Money> = Some(Money::zero());
    let mut p: Option<Money> = Some(Money::zero());
    let mut g: Option<Money> = Some(Money::zero());
    let mut tc: usize = 0;
    let mut pc: usize = 0;
    let mut gc: usize = 0;
    let has_from = !date_from.is_empty();
    let mut i: usize = 0;
    while i < rows.len()
        invariant
            i <= rows@.len(),
            from == date_from@,
            to == date_to@,
            has_from == (from.len() > 0),
            brl_rows_wf(rows@),
            opening == balance_of(brl_opening_flows(rows@.take(i as int), from)),
            ti == sum_of(brl_period_amounts(rows@.take(i as int), from, to, BrlTxType::TransferIn)),
            p == sum_of(
                brl_period_amounts(rows@.take(i as int), from, to, BrlTxType::BrazilPurchaseOut),
            ),
            g == sum_of(brl_period_amounts(rows@.take(i as int), from, to, BrlTxType::CashGiftOut)),
            tc == brl_period_amounts(rows@.take(i as int), from, to, BrlTxType::TransferIn).len(),
            pc == brl_period_amounts(
                rows@.take(i as int),
                from,
                to,
                BrlTxType::BrazilPurchaseOut,
            ).len(),
            gc == brl_period_amounts(rows@.take(i as int), from, to, BrlTxType::CashGiftOut).len(),
            tc <= i,
            pc <= i,
            gc <= i,
            opening matches Some(m) ==> m.wf(),
            ti matches Some(m) ==> m.wf(),
            p matches Some(m) ==> m.wf(),
            g matches Some(m) ==> m.wf(),
        decreases rows@.len() - i,
    {
        let r = &rows[i];
        proof {
            lemma_brl_step(rows@, i as int, from, to);
            assert(rows@[i as int].amount.wf());
            let ri = rows@[i as int];
            lemma_balance_push(
                brl_opening_flows(rows@.take(i as int), from),
                (ri.tx_type.spec_is_inflow(), ri.amount),
            );
            lemma_sum_of_push(brl_period_amounts(rows@.take(i as int), from, to, BrlTxType::TransferIn), ri.amount);
            lemma_sum_of_push(brl_period_amounts(rows@.take(i as int), from, to, BrlTxType::BrazilPurchaseOut), ri.amount);
            lemma_sum_of_push(brl_period_amounts(rows@.take(i as int), from, to, BrlTxType::CashGiftOut), ri.amount);
        }
        if has_from && str_lt(r.date.as_str(), date_from) {
            opening = if r.tx_type.is_inflow() {
                add_step(opening, r.amount)
            } else {
                sub_step(opening, r.amount)
            };
        }
        if in_range(r.date.as_str(), date_from, date_to) {
            match r.tx_type {
                BrlTxType::TransferIn => {
                    ti = add_step(ti, r.amount);
                    tc = tc + 1;
                },
                BrlTxType::BrazilPurchaseOut => {
                    p = add_step(p, r.amount);
                    pc = pc + 1;
                },
                BrlTxType::CashGiftOut => {
                    g = add_step(g, r.amount);
                    gc = gc + 1;
                },
            }
        }
        i = i + 1;
    }
    proof {
        assert(rows@.take(rows@.len() as int) =~= rows@);
    }
    let start = match opening {
        Some(m) => m,
        None => return None,
    };
    let tt = match ti {
        Some(m) => m,
        None => return None,
    };
    let pt = match p {
        Some(m) => m,
        None => return None,
    };
    let gt = match g {
        Some(m) => m,
        None => return None,
    };
    let x = match crate::money::checked_sub(tt, pt) {
        Some(m) => m,
        None => return None,
    };
    let net = match crate::money::checked_sub(x, gt) {
        Some(m) => m,
        None => return None,
    };
    let end = match crate::money::checked_add(start, net) {
        Some(m) => m,
        None => return None,
    };
    Some(
        BrlSummary {
            starting_balance: start,
            transfer_in_count: tc as i64,
            transfer_in_total: tt,
            purchase_count: pc as i64,
            purchase_total: pt,
            gift_count: gc as i64,
            gift_total: gt,
            net,
            ending_balance: end,
        },
    )
}

/// BRL ledger summary for `[date_from, date_to]` — same shape as
/// `eur_summary`, over the three BRL kinds.
pub fn brl_summary(rows: &[BrlTxRow], date_from: &str, date_to: &str) -> (r: BrlSummary)
    requires
        brl_rows_wf(rows@),
        spec_brl_summary(rows@, date_from@, date_to@) is Some,
    ensures
        Some(r) == spec_brl_summary(rows@, date_from@, date_to@),
{
    match brl_summary_opt(rows, date_from, date_to) {
        Some(x) => x,
        None => {
            // unreachable: the summary does not overflow
            let z = Money::zero();
            BrlSummary {
                starting_balance: z,
                transfer_in_count: 0,
                transfer_in_total: z,
                purchase_count: 0,
                purchase_total: z,
                gift_count: 0,
                gift_total: z,
                net: z,
                ending_balance: z,
            }
        },
    }
}

/// `brl_summary`, or `None` where one of its sums overflows.
pub fn checked_brl_summary(rows: &[BrlTxRow], date_from: &str, date_to: &str) -> (r: Option<
    BrlSummary,
>)
    requires
        brl_rows_wf(rows@),
    ensures
        r == spec_brl_summary(rows@, date_from@, date_to@),
{
    match brl_summary_opt(rows, date_from, date_to) {
        Some(_) => Some(brl_summary(rows, date_from, date_to)),
        None => None,
    }
}


// ---------------------------------------------------------------------
// Donor breakdown
// ---------------------------------------------------------------------

/// `a == b` on optional ids.
pub fn same_id(a: Option<i64>, b: Option<i64>) -> (r: bool)
    ensures
        r == (a == b),
{
    match (a, b) {
        (Some(x), Some(y)) => x == y,
        (None, None) => true,
        _ => false,
    }
}

/// Amounts of the cash donations by `who` (`None`: anonymous) within
/// `[from, to]`, in order.
pub open spec fn donor_cash(eur: Seq<EurTxRow>, who: Option<i64>, from: Seq<char>, to: Seq<char>) -> Seq<
    Money,
>
    decreases eur.len(),
{
    if eur.len() == 0 {
        Seq::empty()
    } else {
        let prev = donor_cash(eur.drop_last(), who, from, to);
        let r = eur.last();
        if r.tx_type == EurTxType::DonationIn && r.donor_id == who && spec_in_range(
            r.date@,
            from,
            to,
        ) {
            prev.push(r.amount)
        } else {
            prev
        }
    }
}

/// Number of physical donations by `who` (`None`: anonymous) received
/// within `[from, to]`.
pub open spec fn donor_items(
    donations: Seq<PhysicalDonation>,
    who: Option<i64>,
    from: Seq<char>,
    to: Seq<char>,
) -> nat
    decreases donations.len(),
{
    if donations.len() == 0 {
        0
    } else {
        let prev = donor_items(donations.drop_last(), who, from, to);
        let d = donations.last();
        if d.donor_id == who && spec_in_range(d.date_received@, from, to) {
            prev + 1
        } else {
            prev
        }
    }
}

/// Cash-gift count, cash total and donated-item count of one donor within
/// a date range.
pub struct DonorRow {
    pub name: String,
    pub cash_count: i64,
    pub cash_total: Money,
    pub item_count: i64,
}

impl View for DonorRow {
    type V = (Seq<char>, i64, Money, i64);

    open spec fn view(&self) -> (Seq<char>, i64, Money, i64) {
        (self.name@, self.cash_count, self.cash_total, self.item_count)
    }
}

/// The row of `who` named `name`: `Some(None)` when `who` has no activity
/// in the range (the row is omitted), `None` when the cash total overflows.
pub open spec fn donor_row_of(
    name: Seq<char>,
    who: Option<i64>,
    eur: Seq<EurTxRow>,
    donations: Seq<PhysicalDonation>,
    from: Seq<char>,
    to: Seq<char>,
) -> Option<Option<(Seq<char>, i64, Money, i64)>> {
    let cash = donor_cash(eur, who, from, to);
    let items = donor_items(donations, who, from, to);
    if cash.len() == 0 && items == 0 {
        Some(None)
    } else {
        match sum_of(cash) {
            Some(total) => Some(Some((name, cash.len() as i64, total, items as i64))),
            None => None,
        }
    }
}

/// Rows of the known donors with activity in the range, in donor order.
pub open spec fn named_donor_rows(
    donors: Seq<Donor>,
    eur: Seq<EurTxRow>,
    donations: Seq<PhysicalDonation>,
    from: Seq<char>,
    to: Seq<char>,
) -> Option<Seq<(Seq<char>, i64, Money, i64)>>
    decreases donors.len(),
{
    if donors.len() == 0 {
        Some(Seq::empty())
    } else {
        match named_donor_rows(donors.drop_last(), eur, donations, from, to) {
            None => None,
            Some(prev) => {
                let d = donors.last();
                match donor_row_of(d.name@, Some(d.id), eur, donations, from, to) {
                    None => None,
                    Some(None) => Some(prev),
                    Some(Some(v)) => Some(prev.push(v)),
                }
            },
        }
    }
}

/// The donor breakdown: the known donors' rows, then a trailing row for
/// anonymous activity if there was any. `None` where a cash total
/// overflows.
pub open spec fn spec_donor_rows(
    donors: Seq<Donor>,
    eur: Seq<EurTxRow>,
    donations: Seq<PhysicalDonation>,
    from: Seq<char>,
    to: Seq<char>,
    anonymous: Seq<char>,
) -> Option<Seq<(Seq<char>, i64, Money, i64)>> {
    match named_donor_rows(donors, eur, donations, from, to) {
        None => None,
        Some(named) => match donor_row_of(anonymous, None, eur, donations, from, to) {
            None => None,
            Some(None) => Some(named),
            Some(Some(v)) => Some(named.push(v)),
        },
    }
}

/// Once a donor's total overflows, the whole breakdown does.
proof fn lemma_named_donor_rows_none(
    donors: Seq<Donor>,
    eur: Seq<EurTxRow>,
    donations: Seq<PhysicalDonation>,
    from: Seq<char>,
    to: Seq<char>,
    k: int,
    j: int,
)
    requires
        0 <= k <= j <= donors.len(),
        named_donor_rows(donors.take(k), eur, donations, from, to) is None,
    ensures
        named_donor_rows(donors.take(j), eur, donations, from, to) is None,
    decreases j - k,
{
    if j > k {
        lemma_named_donor_rows_none(donors, eur, donations, from, to, k, j - 1);
        assert(donors.take(j).drop_last() =~= donors.take(j - 1));
    }
}

/// Cash total, cash-gift count and item count of `who` within the range.
fn donor_activity(
    who: Option<i64>,
    eur_rows: &[EurTxRow],
    donations: &[PhysicalDonation],
    date_from: &str,
    date_to: &str,
) -> (r: (Option<Money>, usize, usize))
    requires
        eur_rows_wf(eur_rows@),
    ensures
        r.0 == sum_of(donor_cash(eur_rows@, who, date_from@, date_to@)),
        r.0 matches Some(m) ==> m.wf(),
        r.1 == donor_cash(eur_rows@, who, date_from@, date_to@).len(),
        r.2 == donor_items(donations@, who, date_from@, date_to@),
{
    let ghost from = date_from@;
    let ghost to = date_to@;
    let mut total: Option<Money> = Some(Money::zero());
    let mut count: usize = 0;
    let mut i: usize = 0;
    while i < eur_rows.len()
        invariant
            i <= eur_rows@.len(),
            from == date_from@,
            to == date_to@,
            eur_rows_wf(eur_rows@),
            total == sum_of(donor_cash(eur_rows@.take(i as int), who, from, to)),
            count == donor_cash(eur_rows@.take(i as int), who, from, to).len(),
            count <= i,
            total matches Some(m) ==> m.wf(),
        decreases eur_rows@.len() - i,
    {
        let r = &eur_rows[i];
        proof {
            let t = eur_rows@.take(i + 1);
            assert(t.drop_last() =~= eur_rows@.take(i as int));
            assert(t.last() == eur_rows@[i as int]);
            assert(eur_rows@[i as int].amount.wf());
            lemma_sum_of_push(donor_cash(eur_rows@.take(i as int), who, from, to), r.amount);
        }
        let is_donation = match r.tx_type {
            EurTxType::DonationIn => true,
            _ => false,
        };
        if is_donation && same_id(r.donor_id, who) && in_range(r.date.as_str(), date_from, date_to) {
            total = add_step(total, r.amount);
            count = count + 1;
        }
        i = i + 1;
    }
    let mut items: usize = 0;
    let mut j: usize = 0;
    while j < donations.len()
        invariant
            j <= donations@.len(),
            from == date_from@,
            to == date_to@,
            items == donor_items(donations@.take(j as int), who, from, to),
            items <= j,
        decreases donations@.len() - j,
    {
        let d = &donations[j];
        proof {
            let t = donations@.take(j + 1);
            assert(t.drop_last() =~= donations@.take(j as int));
            assert(t.last() == donations@[j as int]);
        }
        if same_id(d.donor_id, who) && in_range(d.date_received.as_str(), date_from, date_to) {
            items = items + 1;
        }
        j = j + 1;
    }
    proof {
        assert(eur_rows@.take(eur_rows@.len() as int) =~= eur_rows@);
        assert(donations@.take(donations@.len() as int) =~= donations@);
    }
    (total, count, items)
}

/// The row for `who`, as `donor_row_of` describes it.
fn donor_row(
    name: String,
    who: Option<i64>,
    eur_rows: &[EurTxRow],
    donations: &[PhysicalDonation],
    date_from: &str,
    date_to: &str,
) -> (r: Option<Option<DonorRow>>)
    requires
        eur_rows_wf(eur_rows@),
    ensures
        (match r {
            None => None,
            Some(None) => Some(None),
            Some(Some(row)) => Some(Some(row@)),
        }) == donor_row_of(name@, who, eur_rows@, donations@, date_from@, date_to@),
        r matches Some(Some(row)) ==> row.cash_total.wf(),
{
    let (total, count, items) = donor_activity(who, eur_rows, donations, date_from, date_to);
    if count == 0 && items == 0 {
        return Some(None);
    }
    match total {
        Some(cash_total) => Some(
            Some(
                DonorRow {
                    name,
                    cash_count: count as i64,
                    cash_total,
                    item_count: items as i64,
                },
            ),
        ),
        None => None,
    }
}

fn donor_rows_opt(
    donors: &[Donor],
    eur_rows: &[EurTxRow],
    donations: &[PhysicalDonation],
    date_from: &str,
    date_to: &str,
    anonymous: &str,
) -> (r: Option<Vec<DonorRow>>)
    requires
        eur_rows_wf(eur_rows@),
    ensures
        (match r {
            Some(v) => Some(v@.map_values(|x: DonorRow| x@)),
            None => None,
        }) == spec_donor_rows(donors@, eur_rows@, donations@, date_from@, date_to@, anonymous@),
{
    let mut rows: Vec<DonorRow> = Vec::new();
    let mut i: usize = 0;
    while i < donors.len()
        invariant
            i <= donors@.len(),
            eur_rows_wf(eur_rows@),
            named_donor_rows(donors@.take(i as int), eur_rows@, donations@, date_from@, date_to@)
                == Some(rows@.map_values(|x: DonorRow| x@)),
        decreases donors@.len() - i,
    {
        let d = &donors[i];
        proof {
            let t = donors@.take(i + 1);
            assert(t.drop_last() =~= donors@.take(i as int));
            assert(t.last() == donors@[i as int]);
        }
        match donor_row(d.name.clone(), Some(d.id), eur_rows, donations, date_from, date_to) {
            None => {
                proof {
                    lemma_named_donor_rows_none(
                        donors@,
                        eur_rows@,
                        donations@,
                        date_from@,
                        date_to@,
                        i + 1,
                        donors@.len() as int,
                    );
                    assert(donors@.take(donors@.len() as int) =~= donors@);
                }
                return None;
            },
            Some(None) => {},
            Some(Some(row)) => {
                let ghost before = rows@;
                rows.push(row);
                proof {
                    assert(rows@.map_values(|x: DonorRow| x@) =~= before.map_values(
                        |x: DonorRow| x@,
                    ).push(row@));
                }
            },
        }
        i = i + 1;
    }
    proof {
        assert(donors@.take(donors@.len() as int) =~= donors@);
    }
    match donor_row(String::from_str(anonymous), None, eur_rows, donations, date_from, date_to) {
        None => None,
        Some(None) => Some(rows),
        Some(Some(row)) => {
            let ghost before = rows@;
            rows.push(row);
            proof {
                assert(rows@.map_values(|x: DonorRow| x@) =~= before.map_values(|x: DonorRow| x@).push(
                    row@,
                ));
            }
            Some(rows)
        },
    }
}

/// Per-donor cash + physical-donation totals within `[date_from,
/// date_to]`, plus a trailing row (named `anonymous`) for anonymous
/// activity. Donors with no activity in range are omitted entirely, and
/// the anonymous row only appears if there was any anonymous activity.
pub fn build_donor_rows(
    donors: &[Donor],
    eur_rows: &[EurTxRow],
    donations: &[PhysicalDonation],
    date_from: &str,
    date_to: &str,
    anonymous: &str,
) -> (r: Vec<DonorRow>)
    requires
        eur_rows_wf(eur_rows@),
        spec_donor_rows(donors@, eur_rows@, donations@, date_from@, date_to@, anonymous@) is Some,
    ensures
        Some(r@.map_values(|x: DonorRow| x@)) == spec_donor_rows(
            donors@,
            eur_rows@,
            donations@,
            date_from@,
            date_to@,
            anonymous@,
        ),
{
    match donor_rows_opt(donors, eur_rows, donations, date_from, date_to, anonymous) {
        Some(v) => v,
        None => Vec::new(),  // unreachable: no cash total overflows
    }
}

/// `build_donor_rows`, or `None` where a cash total overflows.
pub fn checked_donor_rows(
    donors: &[Donor],
    eur_rows: &[EurTxRow],
    donations: &[PhysicalDonation],
    date_from: &str,
    date_to: &str,
    anonymous: &str,
) -> (r: Option<Vec<DonorRow>>)
    requires
        eur_rows_wf(eur_rows@),
    ensures
        (match r {
            Some(v) => Some(v@.map_values(|x: DonorRow| x@)),
            None => None,
        }) == spec_donor_rows(donors@, eur_rows@, donations@, date_from@, date_to@, anonymous@),
{
    match donor_rows_opt(donors, eur_rows, donations, date_from, date_to, anonymous) {
        Some(_) => Some(build_donor_rows(donors, eur_rows, donations, date_from, date_to, anonymous)),
        None => None,
    }
}

// ---------------------------------------------------------------------
// Audit trail
// ---------------------------------------------------------------------

/// How many documents are filed against one record.
#[derive(Clone)]
pub struct DocCount {
    pub record_type: String,
    pub record_id: i64,
    pub count: i64,
}

/// Documents filed against `(record_type, id)`: the first matching entry
/// of `counts`, 0 when there is none.
pub open spec fn doc_count_of(counts: Seq<DocCount>, record_type: Seq<char>, id: i64) -> i64
    decreases counts.len(),
{
    if counts.len() == 0 {
        0
    } else if counts[0].record_type@ == record_type && counts[0].record_id == id {
        counts[0].count
    } else {
        doc_count_of(counts.drop_first(), record_type, id)
    }
}

/// Documents filed against an optionally linked record.
pub open spec fn linked_docs(counts: Seq<DocCount>, record_type: Seq<char>, linked: Option<i64>) -> i64 {
    match linked {
        Some(id) => doc_count_of(counts, record_type, id),
        None => 0,
    }
}

proof fn lemma_doc_count_skip(counts: Seq<DocCount>, record_type: Seq<char>, id: i64, i: int)
    requires
        0 <= i <= counts.len(),
        forall|k: int|
            0 <= k < i ==> !((#[trigger] counts[k]).record_type@ == record_type && counts[k].record_id
                == id),
    ensures
        doc_count_of(counts, record_type, id) == doc_count_of(counts.skip(i), record_type, id),
    decreases i,
{
    if i > 0 {
        let t = counts.drop_first();
        assert forall|k: int| 0 <= k < i - 1 implies !((#[trigger] t[k]).record_type@ == record_type
            && t[k].record_id == id) by {
            assert(t[k] == counts[k + 1]);
        }
        lemma_doc_count_skip(t, record_type, id, i - 1);
        assert(t.skip(i - 1) =~= counts.skip(i));
    } else {
        assert(counts.skip(0) =~= counts);
    }
}

/// No record appears twice among `counts`, as in a map keyed by record.
pub open spec fn doc_keys_unique(counts: Seq<DocCount>) -> bool {
    forall|a: int, b: int|
        0 <= a < b < counts.len() ==> !((#[trigger] counts[a]).record_type@ == (
        #[trigger] counts[b]).record_type@ && counts[a].record_id == counts[b].record_id)
}

/// The number of documents filed against `(record_type, id)`: the count
/// of the first entry for that record, 0 when there is none. With no
/// record listed twice, that is the count of the one entry there is.
pub fn lookup_doc_count(counts: &[DocCount], record_type: &str, id: i64) -> (r: i64)
    ensures
        r == doc_count_of(counts@, record_type@, id),
        (forall|k: int|
            0 <= k < counts@.len() ==> !((#[trigger] counts@[k]).record_type@ == record_type@
                && counts@[k].record_id == id)) ==> r == 0,
        doc_keys_unique(counts@) ==> forall|k: int|
            0 <= k < counts@.len() && (#[trigger] counts@[k]).record_type@ == record_type@
                && counts@[k].record_id == id ==> r == counts@[k].count,
{
    let mut i: usize = 0;
    while i < counts.len()
        invariant
            i <= counts@.len(),
            forall|k: int|
                0 <= k < i ==> !((#[trigger] counts@[k]).record_type@ == record_type@
                    && counts@[k].record_id == id),
        decreases counts@.len() - i,
    {
        let c = &counts[i];
        if c.record_id == id && crate::text::str_eq(c.record_type.as_str(), record_type) {
            proof {
                lemma_doc_count_skip(counts@, record_type@, id, i as int);
                assert(counts@.skip(i as int)[0] == counts@[i as int]);
                assert forall|k: int|
                    doc_keys_unique(counts@) && 0 <= k < counts@.len() && (
                    #[trigger] counts@[k]).record_type@ == record_type@ && counts@[k].record_id
                        == id implies k == i by {
                    if (i as int) < k {
                        assert(counts@[i as int].record_type@ == record_type@);
                    }
                }
            }
            return c.count;
        }
        i = i + 1;
    }
    proof {
        lemma_doc_count_skip(counts@, record_type@, id, i as int);
    }
    0
}

fn linked_doc_count(counts: &[DocCount], record_type: &str, linked: Option<i64>) -> (r: i64)
    ensures
        r == linked_docs(counts@, record_type@, linked),
{
    match linked {
        Some(id) => lookup_doc_count(counts, record_type, id),
        None => 0,
    }
}

/// Raw pieces of an outbound event's audit row, so each consumer can
/// word it in its own target locale.
pub struct OutboundAuditInfo {
    pub item_count: i64,
    pub recipient_name: String,
    pub cash: Option<Money>,
}

/// The description of an outbound event's audit row: `one` of the
/// recipient for a single item, `other` of the count and recipient
/// otherwise, followed by `cash_suffix` of the cash gift when there is one.
pub open spec fn is_outbound_description<O, M, C>(
    d: Seq<char>,
    info: OutboundAuditInfo,
    one: O,
    other: M,
    cash_suffix: C,
) -> bool where O: Fn(&String) -> String, M: Fn(i64, &String) -> String, C: Fn(Money) -> String {
    exists|base: String|
        (if info.item_count == 1 {
            one.ensures((&info.recipient_name,), base)
        } else {
            other.ensures((info.item_count, &info.recipient_name), base)
        }) && match info.cash {
            Some(c) => exists|suffix: String|
                #[trigger] cash_suffix.ensures((c,), suffix) && d == base@ + suffix@,
            None => d == base@,
        }
}

/// The ledger, kind and description columns of an outbound event's audit
/// row: the given `ledger` and `kind` labels, and a description worded by
/// the caller's localised `one`/`other` messages (singular for exactly
/// one item) with `cash_suffix` appended when the event included cash.
pub fn outbound_audit_text<O, M, C>(
    info: &OutboundAuditInfo,
    ledger: &str,
    kind: &str,
    one: O,
    other: M,
    cash_suffix: C,
) -> (r: (String, String, String)) where
    O: Fn(&String) -> String,
    M: Fn(i64, &String) -> String,
    C: Fn(Money) -> String,

    requires
        forall|s: &String| #[trigger] one.requires((s,)),
        forall|n: i64, s: &String| #[trigger] other.requires((n, s)),
        forall|m: Money| #[trigger] cash_suffix.requires((m,)),
    ensures
        r.0@ == ledger@,
        r.1@ == kind@,
        is_outbound_description(r.2@, *info, one, other, cash_suffix),
{
    let base = if info.item_count == 1 {
        one(&info.recipient_name)
    } else {
        other(info.item_count, &info.recipient_name)
    };
    let ghost g_base = base;
    let mut description = base;
    match info.cash {
        Some(c) => {
            let suffix = cash_suffix(c);
            description.append(suffix.as_str());
            assert(cash_suffix.ensures((c,), suffix));
        },
        None => {},
    }
    (String::from_str(ledger), String::from_str(kind), description)
}

/// A signed amount in a currency.
pub struct AuditAmount {
    pub sign: &'static str,
    pub symbol: &'static str,
    pub value: Money,
}

/// One row of the unified audit trail.
pub struct AuditEntry {
    pub date: String,
    /// EUR/BRL rows only: the ledger's currency code and the entry kind's
    /// label. `None` for outbound rows.
    pub ledger_kind: Option<(String, String)>,
    /// EUR/BRL rows only; empty for outbound rows.
    pub description: String,
    /// Outbound rows only.
    pub outbound: Option<OutboundAuditInfo>,
    pub amount: Option<AuditAmount>,
    pub docs: i64,
}

/// What an audit entry holds, as plain values.
pub struct AuditEntryView {
    pub date: Seq<char>,
    pub ledger_kind: Option<(Seq<char>, Seq<char>)>,
    pub description: Seq<char>,
    pub outbound: Option<(i64, Seq<char>, Option<Money>)>,
    pub amount: Option<(Seq<char>, Seq<char>, Money)>,
    pub docs: i64,
}

impl View for AuditEntry {
    type V = AuditEntryView;

    open spec fn view(&self) -> AuditEntryView {
        AuditEntryView {
            date: self.date@,
            ledger_kind: match self.ledger_kind {
                Some((l, k)) => Some((l@, k@)),
                None => None,
            },
            description: self.description@,
            outbound: match self.outbound {
                Some(o) => Some((o.item_count, o.recipient_name@, o.cash)),
                None => None,
            },
            amount: match self.amount {
                Some(a) => Some((a.sign@, a.symbol@, a.value)),
                None => None,
            },
            docs: self.docs,
        }
    }
}

/// The label of an EUR entry kind.
pub open spec fn eur_kind_label(labels: ReportLabels, t: EurTxType) -> Seq<char> {
    match t {
        EurTxType::DonationIn => labels.donation_in@,
        EurTxType::SelfFundingIn => labels.self_funding_in@,
        EurTxType::PurchaseOut => labels.purchase_out@,
        EurTxType::TransferToBrlOut => labels.transfer_to_brl_out@,
    }
}

/// The label of a BRL entry kind.
pub open spec fn brl_kind_label(labels: ReportLabels, t: BrlTxType) -> Seq<char> {
    match t {
        BrlTxType::TransferIn => labels.transfer_in@,
        BrlTxType::BrazilPurchaseOut => labels.brazil_purchase_out@,
        BrlTxType::CashGiftOut => labels.cash_gift_out@,
    }
}

/// `+` for inflows, `-` for outflows.
pub open spec fn sign_of(inflow: bool) -> Seq<char> {
    if inflow {
        "+"@
    } else {
        "-"@
    }
}

/// The audit row of an EUR entry.
pub open spec fn spec_eur_entry(r: EurTxRow, counts: Seq<DocCount>, labels: ReportLabels) -> AuditEntryView {
    AuditEntryView {
        date: r.date@,
        ledger_kind: Some(("EUR"@, eur_kind_label(labels, r.tx_type))),
        description: spec_eur_description(r, labels),
        outbound: None,
        amount: Some((sign_of(r.tx_type.spec_is_inflow()), "€"@, r.amount)),
        docs: match r.tx_type {
            EurTxType::PurchaseOut => linked_docs(counts, "purchase"@, r.linked_purchase_id),
            EurTxType::TransferToBrlOut => linked_docs(counts, "transfer"@, r.linked_transfer_id),
            _ => 0,
        },
    }
}

/// The audit row of a BRL entry.
pub open spec fn spec_brl_entry(r: BrlTxRow, counts: Seq<DocCount>, labels: ReportLabels) -> AuditEntryView {
    AuditEntryView {
        date: r.date@,
        ledger_kind: Some(("BRL"@, brl_kind_label(labels, r.tx_type))),
        description: spec_brl_description(r, labels),
        outbound: None,
        amount: Some((sign_of(r.tx_type.spec_is_inflow()), "R$"@, r.amount)),
        docs: match r.tx_type {
            BrlTxType::BrazilPurchaseOut => linked_docs(counts, "purchase"@, r.linked_purchase_id),
            BrlTxType::TransferIn => linked_docs(counts, "transfer"@, r.linked_transfer_id),
            BrlTxType::CashGiftOut => 0,
        },
    }
}

/// A positive cash amount, dropped when zero or negative.
pub open spec fn positive_cash(cash: Option<Money>) -> Option<Money> {
    match cash {
        Some(c) => if c.spec_is_positive() {
            Some(c)
        } else {
            None
        },
        None => None,
    }
}

/// The audit row of an outbound event.
pub open spec fn spec_outbound_entry(e: OutboundEventRow) -> AuditEntryView {
    AuditEntryView {
        date: e.date@,
        ledger_kind: None,
        description: Seq::empty(),
        outbound: Some((e.item_count, e.recipient_name@, positive_cash(e.cash_amount_brl))),
        amount: None,
        docs: 0,
    }
}

/// The first event whose id is `linked`.
pub open spec fn first_event(events: Seq<OutboundEventRow>, linked: Option<i64>) -> Option<
    OutboundEventRow,
>
    decreases events.len(),
{
    if events.len() == 0 {
        None
    } else if Some(events[0].id) == linked {
        Some(events[0])
    } else {
        first_event(events.drop_first(), linked)
    }
}

/// Whether a BRL entry passes the recipient filter: only cash gifts are
/// filtered, kept when their linked event went to the chosen recipient.
pub open spec fn brl_passes_filter(
    r: BrlTxRow,
    events: Seq<OutboundEventRow>,
    recipient_filter: Option<i64>,
) -> bool {
    match recipient_filter {
        Some(rid) => r.tx_type != BrlTxType::CashGiftOut || (match first_event(
            events,
            r.linked_outbound_event_id,
        ) {
            Some(e) => e.recipient_project_id == rid,
            None => false,
        }),
        None => true,
    }
}

/// Whether an outbound event passes the recipient filter.
pub open spec fn event_passes_filter(e: OutboundEventRow, recipient_filter: Option<i64>) -> bool {
    match recipient_filter {
        Some(rid) => e.recipient_project_id == rid,
        None => true,
    }
}

/// Audit rows of the EUR entries within the range, in ledger order.
pub open spec fn eur_entries(
    rows: Seq<EurTxRow>,
    counts: Seq<DocCount>,
    from: Seq<char>,
    to: Seq<char>,
    labels: ReportLabels,
) -> Seq<AuditEntryView>
    decreases rows.len(),
{
    if rows.len() == 0 {
        Seq::empty()
    } else {
        let prev = eur_entries(rows.drop_last(), counts, from, to, labels);
        if spec_in_range(rows.last().date@, from, to) {
            prev.push(spec_eur_entry(rows.last(), counts, labels))
        } else {
            prev
        }
    }
}

/// Audit rows of the BRL entries within the range that pass the
/// recipient filter, in ledger order.
pub open spec fn brl_entries(
    rows: Seq<BrlTxRow>,
    events: Seq<OutboundEventRow>,
    counts: Seq<DocCount>,
    from: Seq<char>,
    to: Seq<char>,
    recipient_filter: Option<i64>,
    labels: ReportLabels,
) -> Seq<AuditEntryView>
    decreases rows.len(),
{
    if rows.len() == 0 {
        Seq::empty()
    } else {
        let prev = brl_entries(rows.drop_last(), events, counts, from, to, recipient_filter, labels);
        let r = rows.last();
        if spec_in_range(r.date@, from, to) && brl_passes_filter(r, events, recipient_filter) {
            prev.push(spec_brl_entry(r, counts, labels))
        } else {
            prev
        }
    }
}

/// Audit rows of the outbound events within the range that pass the
/// recipient filter, in list order.
pub open spec fn outbound_entries(
    events: Seq<OutboundEventRow>,
    from: Seq<char>,
    to: Seq<char>,
    recipient_filter: Option<i64>,
) -> Seq<AuditEntryView>
    decreases events.len(),
{
    if events.len() == 0 {
        Seq::empty()
    } else {
        let prev = outbound_entries(events.drop_last(), from, to, recipient_filter);
        let e = events.last();
        if spec_in_range(e.date@, from, to) && event_passes_filter(e, recipient_filter) {
            prev.push(spec_outbound_entry(e))
        } else {
            prev
        }
    }
}

/// Where a row dated `date` goes in a newest-first list: before the
/// first row that is strictly older, after every row at least as new.
pub open spec fn insert_pos(s: Seq<AuditEntryView>, date: Seq<char>) -> nat
    decreases s.len(),
{
    if s.len() == 0 {
        0
    } else if seq_lt(s[0].date, date) {
        0
    } else {
        1 + insert_pos(s.drop_first(), date)
    }
}

/// A stable sort of `s`, newest date first (what `sort_by` with a
/// descending date comparison yields).
pub open spec fn sort_newest_first(s: Seq<AuditEntryView>) -> Seq<AuditEntryView>
    decreases s.len(),
{
    if s.len() == 0 {
        s
    } else {
        let prev = sort_newest_first(s.drop_last());
        prev.insert(insert_pos(prev, s.last().date) as int, s.last())
    }
}

/// The unified audit trail, as `build_audit_entries` returns it.
pub open spec fn spec_audit_entries(
    eur_rows: Seq<EurTxRow>,
    brl_rows: Seq<BrlTxRow>,
    events: Seq<OutboundEventRow>,
    counts: Seq<DocCount>,
    from: Seq<char>,
    to: Seq<char>,
    recipient_filter: Option<i64>,
    labels: ReportLabels,
) -> Seq<AuditEntryView> {
    sort_newest_first(
        eur_entries(eur_rows, counts, from, to, labels) + brl_entries(
            brl_rows,
            events,
            counts,
            from,
            to,
            recipient_filter,
            labels,
        ) + outbound_entries(events, from, to, recipient_filter),
    )
}

proof fn lemma_insert_pos_is(s: Seq<AuditEntryView>, date: Seq<char>, p: int)
    requires
        0 <= p <= s.len(),
        forall|k: int| 0 <= k < p ==> !seq_lt((#[trigger] s[k]).date, date),
        p == s.len() || seq_lt(s[p].date, date),
    ensures
        insert_pos(s, date) == p,
    decreases p,
{
    if p > 0 {
        let t = s.drop_first();
        assert forall|k: int| 0 <= k < p - 1 implies !seq_lt((#[trigger] t[k]).date, date) by {
            assert(t[k] == s[k + 1]);
        }
        if p < s.len() {
            assert(t[p - 1] == s[p]);
        }
        assert(!seq_lt(s[0].date, date));
        lemma_insert_pos_is(t, date, p - 1);
    }
}

pub open spec fn views(v: Seq<AuditEntry>) -> Seq<AuditEntryView> {
    v.map_values(|e: AuditEntry| e@)
}

/// Inserts `e` into the newest-first list `entries` at its stable place.
fn insert_newest_first(entries: &mut Vec<AuditEntry>, e: AuditEntry)
    ensures
        views(final(entries)@) == views(old(entries)@).insert(
            insert_pos(views(old(entries)@), e@.date) as int,
            e@,
        ),
{
    let ghost s = views(entries@);
    let mut p: usize = 0;
    while p < entries.len() && !str_lt(entries[p].date.as_str(), e.date.as_str())
        invariant
            p <= entries@.len(),
            s == views(entries@),
            forall|k: int| 0 <= k < p ==> !seq_lt((#[trigger] s[k]).date, e@.date),
        decreases entries@.len() - p,
    {
        p = p + 1;
    }
    proof {
        lemma_insert_pos_is(s, e@.date, p as int);
    }
    let ghost ev = e@;
    entries.insert(p, e);
    assert(views(entries@) =~= s.insert(p as int, ev));
}

/// Adding one more row to what is sorted inserts it at its stable place.
proof fn lemma_sort_push(s: Seq<AuditEntryView>, x: AuditEntryView)
    ensures
        sort_newest_first(s.push(x)) == sort_newest_first(s).insert(
            insert_pos(sort_newest_first(s), x.date) as int,
            x,
        ),
{
    assert(s.push(x).drop_last() =~= s);
}

fn eur_entry(r: &EurTxRow, counts: &[DocCount], labels: &ReportLabels) -> (e: AuditEntry)
    ensures
        e@ == spec_eur_entry(*r, counts@, *labels),
{
    let docs = match r.tx_type {
        EurTxType::PurchaseOut => linked_doc_count(counts, "purchase", r.linked_purchase_id),
        EurTxType::TransferToBrlOut => linked_doc_count(counts, "transfer", r.linked_transfer_id),
        _ => 0,
    };
    let kind = match r.tx_type {
        EurTxType::DonationIn => labels.donation_in.clone(),
        EurTxType::SelfFundingIn => labels.self_funding_in.clone(),
        EurTxType::PurchaseOut => labels.purchase_out.clone(),
        EurTxType::TransferToBrlOut => labels.transfer_to_brl_out.clone(),
    };
    let sign = if r.tx_type.is_inflow() {
        "+"
    } else {
        "-"
    };
    AuditEntry {
        date: r.date.clone(),
        ledger_kind: Some((String::from_str("EUR"), kind)),
        description: eur_tx_description(r, labels),
        outbound: None,
        amount: Some(AuditAmount { sign, symbol: "€", value: r.amount }),
        docs,
    }
}

fn brl_entry(r: &BrlTxRow, counts: &[DocCount], labels: &ReportLabels) -> (e: AuditEntry)
    ensures
        e@ == spec_brl_entry(*r, counts@, *labels),
{
    let docs = match r.tx_type {
        BrlTxType::BrazilPurchaseOut => linked_doc_count(counts, "purchase", r.linked_purchase_id),
        BrlTxType::TransferIn => linked_doc_count(counts, "transfer", r.linked_transfer_id),
        BrlTxType::CashGiftOut => 0,
    };
    let kind = match r.tx_type {
        BrlTxType::TransferIn => labels.transfer_in.clone(),
        BrlTxType::BrazilPurchaseOut => labels.brazil_purchase_out.clone(),
        BrlTxType::CashGiftOut => labels.cash_gift_out.clone(),
    };
    let sign = if r.tx_type.is_inflow() {
        "+"
    } else {
        "-"
    };
    AuditEntry {
        date: r.date.clone(),
        ledger_kind: Some((String::from_str("BRL"), kind)),
        description: brl_tx_description(r, labels),
        outbound: None,
        amount: Some(AuditAmount { sign, symbol: "R$", value: r.amount }),
        docs,
    }
}

fn outbound_entry(e: &OutboundEventRow) -> (a: AuditEntry)
    ensures
        a@ == spec_outbound_entry(*e),
{
    proof {
        reveal_strlit("");
    }
    let cash = match e.cash_amount_brl {
        Some(c) => if c.is_positive() {
            Some(c)
        } else {
            None
        },
        None => None,
    };
    AuditEntry {
        date: e.date.clone(),
        ledger_kind: None,
        description: String::new(),
        outbound: Some(
            OutboundAuditInfo {
                item_count: e.item_count,
                recipient_name: e.recipient_name.clone(),
                cash,
            },
        ),
        amount: None,
        docs: 0,
    }
}

proof fn lemma_first_event_skip(events: Seq<OutboundEventRow>, linked: Option<i64>, i: int)
    requires
        0 <= i <= events.len(),
        forall|k: int| 0 <= k < i ==> Some((#[trigger] events[k]).id) != linked,
    ensures
        first_event(events, linked) == first_event(events.skip(i), linked),
    decreases i,
{
    if i > 0 {
        let t = events.drop_first();
        assert forall|k: int| 0 <= k < i - 1 implies Some((#[trigger] t[k]).id) != linked by {
            assert(t[k] == events[k + 1]);
        }
        lemma_first_event_skip(t, linked, i - 1);
        assert(t.skip(i - 1) =~= events.skip(i));
    } else {
        assert(events.skip(0) =~= events);
    }
}

/// The recipient of the first event whose id is `linked`, if any.
fn linked_recipient(events: &[OutboundEventRow], linked: Option<i64>) -> (r: Option<i64>)
    ensures
        r == (match first_event(events@, linked) {
            Some(e) => Some(e.recipient_project_id),
            None => None,
        }),
{
    let mut i: usize = 0;
    while i < events.len()
        invariant
            i <= events@.len(),
            forall|k: int| 0 <= k < i ==> Some((#[trigger] events@[k]).id) != linked,
        decreases events@.len() - i,
    {
        let e = &events[i];
        if same_id(Some(e.id), linked) {
            proof {
                lemma_first_event_skip(events@, linked, i as int);
                assert(events@.skip(i as int)[0] == events@[i as int]);
            }
            return Some(e.recipient_project_id);
        }
        i = i + 1;
    }
    proof {
        lemma_first_event_skip(events@, linked, i as int);
    }
    None
}

fn brl_kept(r: &BrlTxRow, events: &[OutboundEventRow], recipient_filter: Option<i64>) -> (b: bool)
    ensures
        b == brl_passes_filter(*r, events@, recipient_filter),
{
    match recipient_filter {
        Some(rid) => match r.tx_type {
            BrlTxType::CashGiftOut => match linked_recipient(events, r.linked_outbound_event_id) {
                Some(project) => project == rid,
                None => false,
            },
            _ => true,
        },
        None => true,
    }
}

/// Unified audit trail across both ledgers and the outbound events for
/// `[date_from, date_to]`, optionally scoped to one recipient project
/// (`recipient_filter`, which only affects BRL cash-gift rows and
/// outbound events — EUR/BRL rows unrelated to a recipient are
/// unaffected). Sorted newest-first; rows of the same date keep their
/// order (EUR, then BRL, then outbound, each in list order).
pub fn build_audit_entries(
    eur_rows: &[EurTxRow],
    brl_rows: &[BrlTxRow],
    outbound_rows: &[OutboundEventRow],
    doc_counts: &[DocCount],
    date_from: &str,
    date_to: &str,
    recipient_filter: Option<i64>,
    labels: &ReportLabels,
) -> (entries: Vec<AuditEntry>)
    ensures
        views(entries@) == spec_audit_entries(
            eur_rows@,
            brl_rows@,
            outbound_rows@,
            doc_counts@,
            date_from@,
            date_to@,
            recipient_filter,
            *labels,
        ),
{
    let ghost from = date_from@;
    let ghost to = date_to@;
    let ghost counts = doc_counts@;
    let ghost lab = *labels;
    let mut entries: Vec<AuditEntry> = Vec::new();
    let mut i: usize = 0;
    while i < eur_rows.len()
        invariant
            i <= eur_rows@.len(),
            from == date_from@,
            to == date_to@,
            counts == doc_counts@,
            lab == *labels,
            views(entries@) == sort_newest_first(
                eur_entries(eur_rows@.take(i as int), counts, from, to, lab),
            ),
        decreases eur_rows@.len() - i,
    {
        let r = &eur_rows[i];
        let ghost prev = eur_entries(eur_rows@.take(i as int), counts, from, to, lab);
        proof {
            let t = eur_rows@.take(i + 1);
            assert(t.drop_last() =~= eur_rows@.take(i as int));
            assert(t.last() == eur_rows@[i as int]);
        }
        if in_range(r.date.as_str(), date_from, date_to) {
            let e = eur_entry(r, doc_counts, labels);
            proof {
                lemma_sort_push(prev, e@);
            }
            insert_newest_first(&mut entries, e);
        }
        i = i + 1;
    }
    let ghost eur_part = eur_entries(eur_rows@, counts, from, to, lab);
    assert(eur_rows@.take(eur_rows@.len() as int) =~= eur_rows@);
    assert(eur_part + Seq::<AuditEntryView>::empty() =~= eur_part);
    let mut j: usize = 0;
    while j < brl_rows.len()
        invariant
            j <= brl_rows@.len(),
            from == date_from@,
            to == date_to@,
            counts == doc_counts@,
            lab == *labels,
            eur_part == eur_entries(eur_rows@, counts, from, to, lab),
            views(entries@) == sort_newest_first(
                eur_part + brl_entries(
                    brl_rows@.take(j as int),
                    outbound_rows@,
                    counts,
                    from,
                    to,
                    recipient_filter,
                    lab,
                ),
            ),
        decreases brl_rows@.len() - j,
    {
        let r = &brl_rows[j];
        let ghost prev = brl_entries(
            brl_rows@.take(j as int),
            outbound_rows@,
            counts,
            from,
            to,
            recipient_filter,
            lab,
        );
        proof {
            let t = brl_rows@.take(j + 1);
            assert(t.drop_last() =~= brl_rows@.take(j as int));
            assert(t.last() == brl_rows@[j as int]);
        }
        if in_range(r.date.as_str(), date_from, date_to) && brl_kept(
            r,
            outbound_rows,
            recipient_filter,
        ) {
            let e = brl_entry(r, doc_counts, labels);
            proof {
                lemma_sort_push(eur_part + prev, e@);
                assert((eur_part + prev).push(e@) =~= eur_part + prev.push(e@));
            }
            insert_newest_first(&mut entries, e);
        }
        j = j + 1;
    }
    let ghost ledger_part = eur_part + brl_entries(
        brl_rows@,
        outbound_rows@,
        counts,
        from,
        to,
        recipient_filter,
        lab,
    );
    assert(brl_rows@.take(brl_rows@.len() as int) =~= brl_rows@);
    assert(ledger_part + Seq::<AuditEntryView>::empty() =~= ledger_part);
    let mut k: usize = 0;
    while k < outbound_rows.len()
        invariant
            k <= outbound_rows@.len(),
            from == date_from@,
            to == date_to@,
            views(entries@) == sort_newest_first(
                ledger_part + outbound_entries(
                    outbound_rows@.take(k as int),
                    from,
                    to,
                    recipient_filter,
                ),
            ),
        decreases outbound_rows@.len() - k,
    {
        let ev = &outbound_rows[k];
        let ghost prev = outbound_entries(outbound_rows@.take(k as int), from, to, recipient_filter);
        proof {
            let t = outbound_rows@.take(k + 1);
            assert(t.drop_last() =~= outbound_rows@.take(k as int));
            assert(t.last() == outbound_rows@[k as int]);
        }
        let passes = match recipient_filter {
            Some(rid) => ev.recipient_project_id == rid,
            None => true,
        };
        if in_range(ev.date.as_str(), date_from, date_to) && passes {
            let e = outbound_entry(ev);
            proof {
                lemma_sort_push(ledger_part + prev, e@);
                assert((ledger_part + prev).push(e@) =~= ledger_part + prev.push(e@));
            }
            insert_newest_first(&mut entries, e);
        }
        k = k + 1;
    }
    assert(outbound_rows@.take(outbound_rows@.len() as int) =~= outbound_rows@);
    entries
}

/// No row is older than a row after it.
pub open spec fn is_newest_first(s: Seq<AuditEntryView>) -> bool {
    forall|i: int, j: int| 0 <= i < j < s.len() ==> !seq_lt(#[trigger] s[i].date, #[trigger] s[j].date)
}

proof fn lemma_insert_pos_props(s: Seq<AuditEntryView>, date: Seq<char>)
    ensures
        insert_pos(s, date) <= s.len(),
        forall|k: int| 0 <= k < insert_pos(s, date) ==> !seq_lt((#[trigger] s[k]).date, date),
        insert_pos(s, date) < s.len() ==> seq_lt(s[insert_pos(s, date) as int].date, date),
    decreases s.len(),
{
    if s.len() > 0 && !seq_lt(s[0].date, date) {
        let t = s.drop_first();
        lemma_insert_pos_props(t, date);
        assert forall|k: int| 0 <= k < insert_pos(s, date) implies !seq_lt((#[trigger] s[k]).date, date) by {
            if k > 0 {
                assert(s[k] == t[k - 1]);
            }
        }
        if insert_pos(s, date) < s.len() {
            assert(s[insert_pos(s, date) as int] == t[insert_pos(t, date) as int]);
        }
    }
}

/// Inserting a row at its place keeps a newest-first list newest-first.
proof fn lemma_insert_keeps_order(s: Seq<AuditEntryView>, x: AuditEntryView)
    requires
        is_newest_first(s),
    ensures
        is_newest_first(s.insert(insert_pos(s, x.date) as int, x)),
{
    lemma_insert_pos_props(s, x.date);
    let p = insert_pos(s, x.date) as int;
    let t = s.insert(p, x);
    assert forall|k: int| p <= k < s.len() implies seq_lt((#[trigger] s[k]).date, x.date) by {
        if k > p {
            assert(!seq_lt(s[p].date, s[k].date));
            crate::text::lemma_seq_lt_trichotomy(s[p].date, s[k].date);
            if s[k].date != s[p].date {
                crate::text::lemma_seq_lt_transitive(s[k].date, s[p].date, x.date);
            }
        }
    }
    assert forall|i: int, j: int| 0 <= i < j < t.len() implies !seq_lt(#[trigger] t[i].date, #[trigger] t[j].date) by {
        if i < p && j < p {
            assert(t[i] == s[i] && t[j] == s[j]);
        } else if i < p && j == p {
            assert(t[i] == s[i] && t[j] == x);
        } else if i < p && j > p {
            assert(t[i] == s[i] && t[j] == s[j - 1]);
        } else if i == p {
            assert(t[j] == s[j - 1]);
            crate::text::lemma_seq_lt_trichotomy(s[j - 1].date, x.date);
        } else {
            assert(t[i] == s[i - 1] && t[j] == s[j - 1]);
        }
    }
}

/// The audit trail order: every stable newest-first sort is sorted
/// newest-first.
pub proof fn lemma_sort_is_newest_first(s: Seq<AuditEntryView>)
    ensures
        is_newest_first(sort_newest_first(s)),
    decreases s.len(),
{
    if s.len() > 0 {
        lemma_sort_is_newest_first(s.drop_last());
        lemma_insert_keeps_order(sort_newest_first(s.drop_last()), s.last());
    }
}

/// Sorting the audit trail neither drops nor duplicates a row.
pub proof fn lemma_sort_is_permutation(s: Seq<AuditEntryView>)
    ensures
        sort_newest_first(s).to_multiset() =~= s.to_multiset(),
    decreases s.len(),
{
    broadcast use vstd::seq_lib::group_to_multiset_ensures;

    if s.len() > 0 {
        let x = s.last();
        let prev = sort_newest_first(s.drop_last());
        lemma_sort_is_permutation(s.drop_last());
        lemma_insert_pos_props(prev, x.date);
        let p = insert_pos(prev, x.date) as int;
        let t = prev.insert(p, x);
        assert(t.remove(p) =~= prev);
        assert(t[p] == x);
        assert(t.contains(x));
        assert(s.drop_last().push(x) =~= s);
        assert(t.to_multiset().remove(x).insert(x) =~= t.to_multiset());
    }
}

/// The audit trail comes out newest-first and holds exactly the rows of
/// the three ledgers that fall in the range and pass the filter.
pub proof fn lemma_audit_entries_sorted_and_complete(
    eur_rows: Seq<EurTxRow>,
    brl_rows: Seq<BrlTxRow>,
    events: Seq<OutboundEventRow>,
    counts: Seq<DocCount>,
    from: Seq<char>,
    to: Seq<char>,
    recipient_filter: Option<i64>,
    labels: ReportLabels,
)
    ensures
        is_newest_first(
            spec_audit_entries(eur_rows, brl_rows, events, counts, from, to, recipient_filter, labels),
        ),
        spec_audit_entries(
            eur_rows,
            brl_rows,
            events,
            counts,
            from,
            to,
            recipient_filter,
            labels,
        ).to_multiset() =~= (eur_entries(eur_rows, counts, from, to, labels) + brl_entries(
            brl_rows,
            events,
            counts,
            from,
            to,
            recipient_filter,
            labels,
        ) + outbound_entries(events, from, to, recipient_filter)).to_multiset(),
{
    let all = eur_entries(eur_rows, counts, from, to, labels) + brl_entries(
        brl_rows,
        events,
        counts,
        from,
        to,
        recipient_filter,
        labels,
    ) + outbound_entries(events, from, to, recipient_filter);
    lemma_sort_is_newest_first(all);
    lemma_sort_is_permutation(all);
}

/// The recipient filter only ever drops BRL cash gifts: every other BRL
/// entry passes it whatever recipient is chosen.
pub proof fn lemma_filter_only_affects_cash_gifts(
    r: BrlTxRow,
    events: Seq<OutboundEventRow>,
    recipient_filter: Option<i64>,
)
    requires
        r.tx_type != BrlTxType::CashGiftOut,
    ensures
        brl_passes_filter(r, events, recipient_filter),
{
}

// ---------------------------------------------------------------------
// Laws of the summaries and the donor breakdown
// ---------------------------------------------------------------------

/// Without a lower bound nothing precedes the range, so the opening
/// flows are empty.
proof fn lemma_eur_opening_unbounded(rows: Seq<EurTxRow>)
    ensures
        eur_opening_flows(rows, Seq::empty()) == Seq::<(bool, Money)>::empty(),
    decreases rows.len(),
{
    if rows.len() > 0 {
        lemma_eur_opening_unbounded(rows.drop_last());
    }
}

proof fn lemma_brl_opening_unbounded(rows: Seq<BrlTxRow>)
    ensures
        brl_opening_flows(rows, Seq::empty()) == Seq::<(bool, Money)>::empty(),
    decreases rows.len(),
{
    if rows.len() > 0 {
        lemma_brl_opening_unbounded(rows.drop_last());
    }
}

/// An EUR summary adds up: net = donations + self-funding - purchases -
/// transfers, ending balance = starting balance + net, and with no lower
/// bound the starting balance is zero.
pub proof fn lemma_eur_summary_adds_up(rows: Seq<EurTxRow>, from: Seq<char>, to: Seq<char>)
    ensures
        spec_eur_summary(rows, from, to) matches Some(x) ==> {
            &&& money_add(x.starting_balance, x.net) == Some(x.ending_balance)
            &&& (match money_add(x.donation_total, x.self_funding_total) {
                Some(a) => match money_sub(a, x.purchase_total) {
                    Some(b) => money_sub(b, x.transfer_total) == Some(x.net),
                    None => false,
                },
                None => false,
            })
            &&& from.len() == 0 ==> x.starting_balance == Money::spec_zero()
        },
{
    if from.len() == 0 {
        assert(from == Seq::<char>::empty());
        lemma_eur_opening_unbounded(rows);
    }
}

/// A BRL summary adds up: net = transfers in - purchases - cash gifts,
/// ending balance = starting balance + net, and with no lower bound the
/// starting balance is zero.
pub proof fn lemma_brl_summary_adds_up(rows: Seq<BrlTxRow>, from: Seq<char>, to: Seq<char>)
    ensures
        spec_brl_summary(rows, from, to) matches Some(x) ==> {
            &&& money_add(x.starting_balance, x.net) == Some(x.ending_balance)
            &&& (match money_sub(x.transfer_in_total, x.purchase_total) {
                Some(a) => money_sub(a, x.gift_total) == Some(x.net),
                None => false,
            })
            &&& from.len() == 0 ==> x.starting_balance == Money::spec_zero()
        },
{
    if from.len() == 0 {
        assert(from == Seq::<char>::empty());
        lemma_brl_opening_unbounded(rows);
    }
}

proof fn lemma_donor_cash_len(eur: Seq<EurTxRow>, who: Option<i64>, from: Seq<char>, to: Seq<char>)
    ensures
        donor_cash(eur, who, from, to).len() <= eur.len(),
    decreases eur.len(),
{
    if eur.len() > 0 {
        lemma_donor_cash_len(eur.drop_last(), who, from, to);
    }
}

proof fn lemma_donor_items_len(
    donations: Seq<PhysicalDonation>,
    who: Option<i64>,
    from: Seq<char>,
    to: Seq<char>,
)
    ensures
        donor_items(donations, who, from, to) <= donations.len(),
    decreases donations.len(),
{
    if donations.len() > 0 {
        lemma_donor_items_len(donations.drop_last(), who, from, to);
    }
}

proof fn lemma_named_rows_active(
    donors: Seq<Donor>,
    eur: Seq<EurTxRow>,
    donations: Seq<PhysicalDonation>,
    from: Seq<char>,
    to: Seq<char>,
)
    requires
        eur.len() <= i64::MAX,
        donations.len() <= i64::MAX,
    ensures
        named_donor_rows(donors, eur, donations, from, to) matches Some(rows) ==> {
            &&& rows.len() <= donors.len()
            &&& forall|i: int| 0 <= i < rows.len() ==> (#[trigger] rows[i]).1 > 0 || rows[i].3 > 0
        },
    decreases donors.len(),
{
    if donors.len() > 0 {
        let d = donors.last();
        lemma_named_rows_active(donors.drop_last(), eur, donations, from, to);
        lemma_donor_cash_len(eur, Some(d.id), from, to);
        lemma_donor_items_len(donations, Some(d.id), from, to);
    }
}

/// The donor breakdown only lists activity: every row has at least one
/// cash gift or donated item, there is at most one row per donor plus the
/// anonymous row, and an anonymous row, when there is one, comes last.
pub proof fn lemma_donor_rows_only_active(
    donors: Seq<Donor>,
    eur: Seq<EurTxRow>,
    donations: Seq<PhysicalDonation>,
    from: Seq<char>,
    to: Seq<char>,
    anonymous: Seq<char>,
)
    requires
        eur.len() <= i64::MAX,
        donations.len() <= i64::MAX,
    ensures
        spec_donor_rows(donors, eur, donations, from, to, anonymous) matches Some(rows) ==> {
            &&& rows.len() <= donors.len() + 1
            &&& forall|i: int| 0 <= i < rows.len() ==> (#[trigger] rows[i]).1 > 0 || rows[i].3 > 0
            &&& rows.len() == donors.len() + 1 ==> rows.last().0 == anonymous
            &&& (donor_cash(eur, None, from, to).len() > 0 || donor_items(donations, None, from, to)
                > 0) ==> rows.last().0 == anonymous
        },
{
    lemma_named_rows_active(donors, eur, donations, from, to);
    lemma_donor_cash_len(eur, None, from, to);
    lemma_donor_items_len(donations, None, from, to);
}

// ---------------------------------------------------------------------
// What the summaries, the donor breakdown and the audit rows are made of
// ---------------------------------------------------------------------

/// `d` is on or after `from` and on or before `to` (ISO dates compare as
/// text), an empty bound being no limit on that side.
pub open spec fn dated_within(d: Seq<char>, from: Seq<char>, to: Seq<char>) -> bool {
    &&& (from.len() == 0 || !seq_lt(d, from))
    &&& (to.len() == 0 || !seq_lt(to, d))
}

/// The BRL entries of kind `t` dated within `[from, to]`.
pub open spec fn brl_of_kind(t: BrlTxType, from: Seq<char>, to: Seq<char>) -> spec_fn(BrlTxRow) -> bool {
    |r: BrlTxRow| r.tx_type == t && dated_within(r.date@, from, to)
}

/// The EUR entries of kind `t` dated within `[from, to]`.
pub open spec fn eur_of_kind(t: EurTxType, from: Seq<char>, to: Seq<char>) -> spec_fn(EurTxRow) -> bool {
    |r: EurTxRow| r.tx_type == t && dated_within(r.date@, from, to)
}

/// The amounts of BRL entries, in order.
pub open spec fn brl_amounts(rows: Seq<BrlTxRow>) -> Seq<Money> {
    rows.map_values(|r: BrlTxRow| r.amount)
}

/// The amounts of EUR entries, in order.
pub open spec fn eur_amounts(rows: Seq<EurTxRow>) -> Seq<Money> {
    rows.map_values(|r: EurTxRow| r.amount)
}

proof fn lemma_brl_period_filter(rows: Seq<BrlTxRow>, from: Seq<char>, to: Seq<char>, t: BrlTxType)
    ensures
        brl_period_amounts(rows, from, to, t) == brl_amounts(rows.filter(brl_of_kind(t, from, to))),
    decreases rows.len(),
{
    reveal(Seq::filter);
    if rows.len() == 0 {
        assert(brl_amounts(rows.filter(brl_of_kind(t, from, to))) =~= Seq::<Money>::empty());
    } else {
        let prev = rows.drop_last();
        lemma_brl_period_filter(prev, from, to, t);
        let f = prev.filter(brl_of_kind(t, from, to));
        let r = rows.last();
        assert(spec_in_range(r.date@, from, to) == dated_within(r.date@, from, to));
        assert(brl_amounts(f.push(r)) =~= brl_amounts(f).push(r.amount));
    }
}

proof fn lemma_eur_period_filter(rows: Seq<EurTxRow>, from: Seq<char>, to: Seq<char>, t: EurTxType)
    ensures
        eur_period_amounts(rows, from, to, t) == eur_amounts(rows.filter(eur_of_kind(t, from, to))),
    decreases rows.len(),
{
    reveal(Seq::filter);
    if rows.len() == 0 {
        assert(eur_amounts(rows.filter(eur_of_kind(t, from, to))) =~= Seq::<Money>::empty());
    } else {
        let prev = rows.drop_last();
        lemma_eur_period_filter(prev, from, to, t);
        let f = prev.filter(eur_of_kind(t, from, to));
        let r = rows.last();
        assert(spec_in_range(r.date@, from, to) == dated_within(r.date@, from, to));
        assert(eur_amounts(f.push(r)) =~= eur_amounts(f).push(r.amount));
    }
}

/// A BRL summary's figures per kind: for transfers in, Brazil purchases
/// and cash gifts alike, the count is how many entries of that kind are
/// dated within `[from, to]`, and the total is their amounts added up in
/// ledger order.
pub proof fn lemma_brl_summary_per_kind(rows: Seq<BrlTxRow>, from: Seq<char>, to: Seq<char>)
    ensures
        spec_brl_summary(rows, from, to) matches Some(x) ==> {
            let ti = rows.filter(brl_of_kind(BrlTxType::TransferIn, from, to));
            let pu = rows.filter(brl_of_kind(BrlTxType::BrazilPurchaseOut, from, to));
            let gi = rows.filter(brl_of_kind(BrlTxType::CashGiftOut, from, to));
            &&& x.transfer_in_count == ti.len() as i64
            &&& sum_of(brl_amounts(ti)) == Some(x.transfer_in_total)
            &&& x.purchase_count == pu.len() as i64
            &&& sum_of(brl_amounts(pu)) == Some(x.purchase_total)
            &&& x.gift_count == gi.len() as i64
            &&& sum_of(brl_amounts(gi)) == Some(x.gift_total)
        },
{
    lemma_brl_period_filter(rows, from, to, BrlTxType::TransferIn);
    lemma_brl_period_filter(rows, from, to, BrlTxType::BrazilPurchaseOut);
    lemma_brl_period_filter(rows, from, to, BrlTxType::CashGiftOut);
}

/// An EUR summary's figures per kind: for donations, self-funding,
/// purchases and transfers to BRL alike, the count is how many entries of
/// that kind are dated within `[from, to]`, and the total is their
/// amounts added up in ledger order.
pub proof fn lemma_eur_summary_per_kind(rows: Seq<EurTxRow>, from: Seq<char>, to: Seq<char>)
    ensures
        spec_eur_summary(rows, from, to) matches Some(x) ==> {
            let dn = rows.filter(eur_of_kind(EurTxType::DonationIn, from, to));
            let sf = rows.filter(eur_of_kind(EurTxType::SelfFundingIn, from, to));
            let pu = rows.filter(eur_of_kind(EurTxType::PurchaseOut, from, to));
            let tr = rows.filter(eur_of_kind(EurTxType::TransferToBrlOut, from, to));
            &&& x.donation_count == dn.len() as i64
            &&& sum_of(eur_amounts(dn)) == Some(x.donation_total)
            &&& x.self_funding_count == sf.len() as i64
            &&& sum_of(eur_amounts(sf)) == Some(x.self_funding_total)
            &&& x.purchase_count == pu.len() as i64
            &&& sum_of(eur_amounts(pu)) == Some(x.purchase_total)
            &&& x.transfer_count == tr.len() as i64
            &&& sum_of(eur_amounts(tr)) == Some(x.transfer_total)
        },
{
    lemma_eur_period_filter(rows, from, to, EurTxType::DonationIn);
    lemma_eur_period_filter(rows, from, to, EurTxType::SelfFundingIn);
    lemma_eur_period_filter(rows, from, to, EurTxType::PurchaseOut);
    lemma_eur_period_filter(rows, from, to, EurTxType::TransferToBrlOut);
}

/// The cash gifts of `who` (`None`: anonymous) dated within `[from, to]`.
pub open spec fn cash_gift_of(who: Option<i64>, from: Seq<char>, to: Seq<char>) -> spec_fn(EurTxRow) -> bool {
    |r: EurTxRow| r.tx_type == EurTxType::DonationIn && r.donor_id == who && dated_within(r.date@, from, to)
}

/// The physical donations of `who` (`None`: anonymous) received within
/// `[from, to]`.
pub open spec fn donation_of(who: Option<i64>, from: Seq<char>, to: Seq<char>) -> spec_fn(PhysicalDonation) -> bool {
    |d: PhysicalDonation| d.donor_id == who && dated_within(d.date_received@, from, to)
}

proof fn lemma_donor_cash_filter(eur: Seq<EurTxRow>, who: Option<i64>, from: Seq<char>, to: Seq<char>)
    ensures
        donor_cash(eur, who, from, to) == eur_amounts(eur.filter(cash_gift_of(who, from, to))),
    decreases eur.len(),
{
    reveal(Seq::filter);
    if eur.len() == 0 {
        assert(eur_amounts(eur.filter(cash_gift_of(who, from, to))) =~= Seq::<Money>::empty());
    } else {
        let prev = eur.drop_last();
        lemma_donor_cash_filter(prev, who, from, to);
        let f = prev.filter(cash_gift_of(who, from, to));
        let r = eur.last();
        assert(spec_in_range(r.date@, from, to) == dated_within(r.date@, from, to));
        assert(eur_amounts(f.push(r)) =~= eur_amounts(f).push(r.amount));
    }
}

proof fn lemma_donor_items_filter(
    donations: Seq<PhysicalDonation>,
    who: Option<i64>,
    from: Seq<char>,
    to: Seq<char>,
)
    ensures
        donor_items(donations, who, from, to) == donations.filter(donation_of(who, from, to)).len(),
    decreases donations.len(),
{
    reveal(Seq::filter);
    if donations.len() > 0 {
        let prev = donations.drop_last();
        lemma_donor_items_filter(prev, who, from, to);
        let d = donations.last();
        assert(spec_in_range(d.date_received@, from, to) == dated_within(d.date_received@, from, to));
    }
}

/// One donor's row of the breakdown: none when the donor gave no cash
/// gift and no physical donation within `[from, to]`; otherwise the
/// donor's name, the number of its cash gifts in the range and their
/// amounts added up, and the number of its physical donations received
/// in the range.
pub proof fn lemma_donor_row(
    name: Seq<char>,
    who: Option<i64>,
    eur: Seq<EurTxRow>,
    donations: Seq<PhysicalDonation>,
    from: Seq<char>,
    to: Seq<char>,
)
    ensures
        ({
            let cash = eur.filter(cash_gift_of(who, from, to));
            let items = donations.filter(donation_of(who, from, to));
            &&& (donor_row_of(name, who, eur, donations, from, to) == Some(
                None::<(Seq<char>, i64, Money, i64)>,
            )) <==> (cash.len() == 0 && items.len() == 0)
            &&& donor_row_of(name, who, eur, donations, from, to) matches Some(Some(v)) ==> {
                &&& v.0 == name
                &&& v.1 == cash.len() as i64
                &&& sum_of(eur_amounts(cash)) == Some(v.2)
                &&& v.3 == items.len() as i64
            }
        }),
{
    lemma_donor_cash_filter(eur, who, from, to);
    lemma_donor_items_filter(donations, who, from, to);
    let cash = eur.filter(cash_gift_of(who, from, to));
    assert(eur_amounts(cash).len() == cash.len());
}

/// The row donor `d` gets in the breakdown (see `lemma_donor_row`).
#[verifier::opaque]
pub open spec fn row_of(
    d: Donor,
    eur: Seq<EurTxRow>,
    donations: Seq<PhysicalDonation>,
    from: Seq<char>,
    to: Seq<char>,
) -> Option<Option<(Seq<char>, i64, Money, i64)>> {
    donor_row_of(d.name@, Some(d.id), eur, donations, from, to)
}

/// The breakdown lists exactly the donors with activity in the range:
/// each of its rows is the row of one of `donors` or, last, the
/// anonymous row, and every donor with a row gets it.
pub proof fn lemma_donor_rows_are_the_active_donors(
    donors: Seq<Donor>,
    eur: Seq<EurTxRow>,
    donations: Seq<PhysicalDonation>,
    from: Seq<char>,
    to: Seq<char>,
    anonymous: Seq<char>,
)
    ensures
        spec_donor_rows(donors, eur, donations, from, to, anonymous) matches Some(rows) ==> {
            &&& forall|i: int|
                0 <= i < rows.len() ==> (exists|j: int|
                    0 <= j < donors.len() && row_of(donors[j], eur, donations, from, to) == Some(
                        Some(#[trigger] rows[i]),
                    )) || (i == rows.len() - 1 && donor_row_of(anonymous, None, eur, donations, from, to)
                    == Some(Some(rows[i])))
            &&& forall|j: int|
                0 <= j < donors.len() ==> (#[trigger] row_of(donors[j], eur, donations, from, to) matches Some(
                    Some(v),
                ) ==> exists|i: int| 0 <= i < rows.len() && rows[i] == v)
        },
{
    lemma_named_rows_cover(donors, eur, donations, from, to);
    let sr = spec_donor_rows(donors, eur, donations, from, to, anonymous);
    if sr is Some {
        let named = named_donor_rows(donors, eur, donations, from, to)->Some_0;
        let rows = sr->Some_0;
        assert(rows.len() >= named.len());
        assert forall|i: int| 0 <= i < named.len() implies rows[i] == named[i] by {}
        assert forall|j: int| 0 <= j < donors.len() implies (#[trigger] row_of(
            donors[j],
            eur,
            donations,
            from,
            to,
        ) matches Some(Some(v)) ==> exists|i: int| 0 <= i < rows.len() && rows[i] == v) by {
            let row = row_of(donors[j], eur, donations, from, to);
            if row is Some && row->Some_0 is Some {
                let i = choose|i: int| 0 <= i < named.len() && named[i] == row->Some_0->Some_0;
                assert(rows[i] == named[i]);
            }
        }
    }
}

proof fn lemma_named_rows_cover(
    donors: Seq<Donor>,
    eur: Seq<EurTxRow>,
    donations: Seq<PhysicalDonation>,
    from: Seq<char>,
    to: Seq<char>,
)
    ensures
        named_donor_rows(donors, eur, donations, from, to) matches Some(named) ==> {
            &&& forall|i: int|
                0 <= i < named.len() ==> exists|j: int|
                    0 <= j < donors.len() && row_of(donors[j], eur, donations, from, to) == Some(
                        Some(#[trigger] named[i]),
                    )
            &&& forall|j: int|
                0 <= j < donors.len() ==> (#[trigger] row_of(donors[j], eur, donations, from, to) matches Some(
                    Some(v),
                ) ==> exists|i: int| 0 <= i < named.len() && named[i] == v)
        },
    decreases donors.len(),
{
    if donors.len() > 0 {
        let prev_d = donors.drop_last();
        lemma_named_rows_cover(prev_d, eur, donations, from, to);
        let nr = named_donor_rows(donors, eur, donations, from, to);
        if nr is Some {
            let named = nr->Some_0;
            let prev = named_donor_rows(prev_d, eur, donations, from, to)->Some_0;
            let last = donors.last();
            let lr = row_of(last, eur, donations, from, to);
            assert(lr == donor_row_of(last.name@, Some(last.id), eur, donations, from, to)) by {
                reveal(row_of);
            }
            assert(named == (match lr {
                Some(Some(v)) => prev.push(v),
                _ => prev,
            }));
            assert forall|i: int| 0 <= i < named.len() implies exists|j: int|
                0 <= j < donors.len() && row_of(donors[j], eur, donations, from, to) == Some(
                    Some(#[trigger] named[i]),
                ) by {
                if i < prev.len() {
                    assert(named[i] == prev[i]);
                    let j = choose|j: int|
                        0 <= j < prev_d.len() && row_of(prev_d[j], eur, donations, from, to) == Some(
                            Some(prev[i]),
                        );
                    assert(donors[j] == prev_d[j]);
                } else {
                    assert(donors[donors.len() - 1] == last);
                }
            }
            assert forall|j: int| 0 <= j < donors.len() implies (#[trigger] row_of(
                donors[j],
                eur,
                donations,
                from,
                to,
            ) matches Some(Some(v)) ==> exists|i: int| 0 <= i < named.len() && named[i] == v) by {
                let row = row_of(donors[j], eur, donations, from, to);
                if row is Some && row->Some_0 is Some {
                    let v = row->Some_0->Some_0;
                    if j < prev_d.len() {
                        assert(donors[j] == prev_d[j]);
                        assert(row_of(prev_d[j], eur, donations, from, to) == Some(Some(v)));
                        let i = choose|i: int| 0 <= i < prev.len() && prev[i] == v;
                        assert(named[i] == prev[i]);
                    } else {
                        assert(donors[j] == last);
                        assert(named[named.len() - 1] == v);
                    }
                }
            }
        }
    }
}

/// The entries of `counts` recorded for `(record_type, id)`.
pub open spec fn counts_for(counts: Seq<DocCount>, record_type: Seq<char>, id: i64) -> spec_fn(DocCount) -> bool {
    |c: DocCount| c.record_type@ == record_type && c.record_id == id
}

/// With no record listed twice, a record's document count is that of its
/// entry, and 0 when it has none.
proof fn lemma_doc_count_entry(counts: Seq<DocCount>, record_type: Seq<char>, id: i64)
    requires
        doc_keys_unique(counts),
    ensures
        forall|k: int|
            0 <= k < counts.len() && (#[trigger] counts[k]).record_type@ == record_type
                && counts[k].record_id == id ==> doc_count_of(counts, record_type, id) == counts[k].count,
        (forall|k: int|
            0 <= k < counts.len() ==> !((#[trigger] counts[k]).record_type@ == record_type
                && counts[k].record_id == id)) ==> doc_count_of(counts, record_type, id) == 0,
    decreases counts.len(),
{
    if counts.len() > 0 {
        let t = counts.drop_first();
        assert(doc_keys_unique(t)) by {
            assert forall|a: int, b: int| 0 <= a < b < t.len() implies !((#[trigger] t[a]).record_type@ == (
            #[trigger] t[b]).record_type@ && t[a].record_id == t[b].record_id) by {
                assert(t[a] == counts[a + 1]);
                assert(t[b] == counts[b + 1]);
            }
        }
        lemma_doc_count_entry(t, record_type, id);
        assert forall|k: int|
            0 <= k < counts.len() && (#[trigger] counts[k]).record_type@ == record_type
                && counts[k].record_id == id implies doc_count_of(counts, record_type, id)
            == counts[k].count by {
            if k > 0 {
                assert(counts[k] == t[k - 1]);
                assert(!(counts[0].record_type@ == counts[k].record_type@ && counts[0].record_id
                    == counts[k].record_id));
            }
        }
        if forall|k: int|
            0 <= k < counts.len() ==> !((#[trigger] counts[k]).record_type@ == record_type
                && counts[k].record_id == id) {
            assert forall|k: int| 0 <= k < t.len() implies !((#[trigger] t[k]).record_type@ == record_type
                && t[k].record_id == id) by {
                assert(t[k] == counts[k + 1]);
            }
        }
    }
}

/// The document count of an audit row, with no record listed twice in
/// `counts`: an EUR purchase shows the documents filed against its linked
/// purchase and an EUR transfer to BRL those filed against its linked
/// transfer (0 without a link, or without an entry for it); donations and
/// self-funding show none. A BRL Brazil purchase shows its linked
/// purchase's documents, a transfer in its linked transfer's, and a cash
/// gift none.
pub proof fn lemma_audit_docs(
    e: EurTxRow,
    b: BrlTxRow,
    counts: Seq<DocCount>,
    labels: ReportLabels,
    k: int,
)
    requires
        doc_keys_unique(counts),
    ensures
        spec_eur_entry(e, counts, labels).docs == match (e.tx_type, e.linked_purchase_id, e.linked_transfer_id) {
            (EurTxType::PurchaseOut, Some(id), _) => doc_count_of(counts, "purchase"@, id),
            (EurTxType::TransferToBrlOut, _, Some(id)) => doc_count_of(counts, "transfer"@, id),
            _ => 0,
        },
        spec_brl_entry(b, counts, labels).docs == match (b.tx_type, b.linked_purchase_id, b.linked_transfer_id) {
            (BrlTxType::BrazilPurchaseOut, Some(id), _) => doc_count_of(counts, "purchase"@, id),
            (BrlTxType::TransferIn, _, Some(id)) => doc_count_of(counts, "transfer"@, id),
            _ => 0,
        },
        0 <= k < counts.len() && counts[k].record_type@ == "transfer"@ ==> {
            &&& (e.tx_type == EurTxType::TransferToBrlOut && e.linked_transfer_id == Some(counts[k].record_id))
                ==> spec_eur_entry(e, counts, labels).docs == counts[k].count
            &&& (b.tx_type == BrlTxType::TransferIn && b.linked_transfer_id == Some(counts[k].record_id))
                ==> spec_brl_entry(b, counts, labels).docs == counts[k].count
        },
        0 <= k < counts.len() && counts[k].record_type@ == "purchase"@ ==> {
            &&& (e.tx_type == EurTxType::PurchaseOut && e.linked_purchase_id == Some(counts[k].record_id))
                ==> spec_eur_entry(e, counts, labels).docs == counts[k].count
            &&& (b.tx_type == BrlTxType::BrazilPurchaseOut && b.linked_purchase_id == Some(
                counts[k].record_id,
            )) ==> spec_brl_entry(b, counts, labels).docs == counts[k].count
        },
{
    if 0 <= k < counts.len() {
        lemma_doc_count_entry(counts, counts[k].record_type@, counts[k].record_id);
    }
}

/// Entries dated strictly before `from`; none when `from` is empty.
pub open spec fn eur_before(from: Seq<char>) -> spec_fn(EurTxRow) -> bool {
    |r: EurTxRow| from.len() > 0 && seq_lt(r.date@, from)
}

/// Entries dated strictly before `from`; none when `from` is empty.
pub open spec fn brl_before(from: Seq<char>) -> spec_fn(BrlTxRow) -> bool {
    |r: BrlTxRow| from.len() > 0 && seq_lt(r.date@, from)
}

/// All BRL entries as balance flows, in order.
pub open spec fn brl_flows(rows: Seq<BrlTxRow>) -> Seq<(bool, Money)> {
    Seq::new(rows.len(), |i: int| (rows[i].tx_type.spec_is_inflow(), rows[i].amount))
}

proof fn lemma_eur_opening_filter(rows: Seq<EurTxRow>, from: Seq<char>)
    ensures
        eur_opening_flows(rows, from) == eur_flows(rows.filter(eur_before(from))),
    decreases rows.len(),
{
    reveal(Seq::filter);
    if rows.len() == 0 {
        assert(eur_flows(rows.filter(eur_before(from))) =~= Seq::<(bool, Money)>::empty());
    } else {
        let prev = rows.drop_last();
        lemma_eur_opening_filter(prev, from);
        let f = prev.filter(eur_before(from));
        let r = rows.last();
        assert(eur_flows(f.push(r)) =~= eur_flows(f).push((r.tx_type.spec_is_inflow(), r.amount)));
    }
}

proof fn lemma_brl_opening_filter(rows: Seq<BrlTxRow>, from: Seq<char>)
    ensures
        brl_opening_flows(rows, from) == brl_flows(rows.filter(brl_before(from))),
    decreases rows.len(),
{
    reveal(Seq::filter);
    if rows.len() == 0 {
        assert(brl_flows(rows.filter(brl_before(from))) =~= Seq::<(bool, Money)>::empty());
    } else {
        let prev = rows.drop_last();
        lemma_brl_opening_filter(prev, from);
        let f = prev.filter(brl_before(from));
        let r = rows.last();
        assert(brl_flows(f.push(r)) =~= brl_flows(f).push((r.tx_type.spec_is_inflow(), r.amount)));
    }
}

/// A summary's starting balance is the running balance of the entries
/// dated strictly before `from` (zero without a lower bound), in ledger
/// order.
pub proof fn lemma_starting_balances(eur: Seq<EurTxRow>, brl: Seq<BrlTxRow>, from: Seq<char>, to: Seq<char>)
    ensures
        spec_eur_summary(eur, from, to) matches Some(x) ==> balance_of(eur_flows(eur.filter(eur_before(from))))
            == Some(x.starting_balance),
        spec_brl_summary(brl, from, to) matches Some(x) ==> balance_of(brl_flows(brl.filter(brl_before(from))))
            == Some(x.starting_balance),
{
    lemma_eur_opening_filter(eur, from);
    lemma_brl_opening_filter(brl, from);
}

/// The EUR rows of the audit trail are those of the entries dated within
/// `[from, to]`, one each, in ledger order.
pub proof fn lemma_eur_audit_rows(
    rows: Seq<EurTxRow>,
    counts: Seq<DocCount>,
    from: Seq<char>,
    to: Seq<char>,
    labels: ReportLabels,
)
    ensures
        eur_entries(rows, counts, from, to, labels) == rows.filter(
            |r: EurTxRow| dated_within(r.date@, from, to),
        ).map_values(|r: EurTxRow| spec_eur_entry(r, counts, labels)),
    decreases rows.len(),
{
    reveal(Seq::filter);
    if rows.len() == 0 {
        assert(rows.filter(|r: EurTxRow| dated_within(r.date@, from, to)).map_values(
            |r: EurTxRow| spec_eur_entry(r, counts, labels),
        ) =~= Seq::<AuditEntryView>::empty());
    } else {
        let prev = rows.drop_last();
        lemma_eur_audit_rows(prev, counts, from, to, labels);
        let f = prev.filter(|r: EurTxRow| dated_within(r.date@, from, to));
        let r = rows.last();
        assert(spec_in_range(r.date@, from, to) == dated_within(r.date@, from, to));
        assert(f.push(r).map_values(|r: EurTxRow| spec_eur_entry(r, counts, labels)) =~= f.map_values(
            |r: EurTxRow| spec_eur_entry(r, counts, labels),
        ).push(spec_eur_entry(r, counts, labels)));
    }
}

/// The BRL rows of the audit trail are those of the entries dated within
/// `[from, to]` that pass the recipient filter, one each, in ledger order.
pub proof fn lemma_brl_audit_rows(
    rows: Seq<BrlTxRow>,
    events: Seq<OutboundEventRow>,
    counts: Seq<DocCount>,
    from: Seq<char>,
    to: Seq<char>,
    recipient_filter: Option<i64>,
    labels: ReportLabels,
)
    ensures
        brl_entries(rows, events, counts, from, to, recipient_filter, labels) == rows.filter(
            |r: BrlTxRow| dated_within(r.date@, from, to) && brl_passes_filter(r, events, recipient_filter),
        ).map_values(|r: BrlTxRow| spec_brl_entry(r, counts, labels)),
    decreases rows.len(),
{
    reveal(Seq::filter);
    if rows.len() == 0 {
        assert(rows.filter(
            |r: BrlTxRow| dated_within(r.date@, from, to) && brl_passes_filter(r, events, recipient_filter),
        ).map_values(|r: BrlTxRow| spec_brl_entry(r, counts, labels)) =~= Seq::<AuditEntryView>::empty());
    } else {
        let prev = rows.drop_last();
        lemma_brl_audit_rows(prev, events, counts, from, to, recipient_filter, labels);
        let f = prev.filter(
            |r: BrlTxRow| dated_within(r.date@, from, to) && brl_passes_filter(r, events, recipient_filter),
        );
        let r = rows.last();
        assert(spec_in_range(r.date@, from, to) == dated_within(r.date@, from, to));
        assert(f.push(r).map_values(|r: BrlTxRow| spec_brl_entry(r, counts, labels)) =~= f.map_values(
            |r: BrlTxRow| spec_brl_entry(r, counts, labels),
        ).push(spec_brl_entry(r, counts, labels)));
    }
}

/// The outbound rows of the audit trail are those of the events dated
/// within `[from, to]` that pass the recipient filter, one each, in list
/// order.
pub proof fn lemma_outbound_audit_rows(
    events: Seq<OutboundEventRow>,
    from: Seq<char>,
    to: Seq<char>,
    recipient_filter: Option<i64>,
)
    ensures
        outbound_entries(events, from, to, recipient_filter) == events.filter(
            |e: OutboundEventRow| dated_within(e.date@, from, to) && event_passes_filter(e, recipient_filter),
        ).map_values(|e: OutboundEventRow| spec_outbound_entry(e)),
    decreases events.len(),
{
    reveal(Seq::filter);
    if events.len() == 0 {
        assert(events.filter(
            |e: OutboundEventRow| dated_within(e.date@, from, to) && event_passes_filter(e, recipient_filter),
        ).map_values(|e: OutboundEventRow| spec_outbound_entry(e)) =~= Seq::<AuditEntryView>::empty());
    } else {
        let prev = events.drop_last();
        lemma_outbound_audit_rows(prev, from, to, recipient_filter);
        let f = prev.filter(
            |e: OutboundEventRow| dated_within(e.date@, from, to) && event_passes_filter(e, recipient_filter),
        );
        let e = events.last();
        assert(spec_in_range(e.date@, from, to) == dated_within(e.date@, from, to));
        assert(f.push(e).map_values(|e: OutboundEventRow| spec_outbound_entry(e)) =~= f.map_values(
            |e: OutboundEventRow| spec_outbound_entry(e),
        ).push(spec_outbound_entry(e)));
    }
}

/// An EUR or BRL audit row carries its entry's date, its ledger's code
/// and the label of its kind, and its amount with `+` for money coming in
/// (donations, self-funding, transfers in) and `-` for money going out,
/// in that ledger's currency.
pub proof fn lemma_audit_row_amounts(e: EurTxRow, b: BrlTxRow, counts: Seq<DocCount>, labels: ReportLabels)
    ensures
        ({
            let v = spec_eur_entry(e, counts, labels);
            let incoming = e.tx_type == EurTxType::DonationIn || e.tx_type == EurTxType::SelfFundingIn;
            &&& v.date == e.date@
            &&& v.ledger_kind == Some(("EUR"@, eur_kind_label(labels, e.tx_type)))
            &&& v.amount == Some((if incoming { "+"@ } else { "-"@ }, "\u{20ac}"@, e.amount))
            &&& v.outbound is None
        }),
        ({
            let v = spec_brl_entry(b, counts, labels);
            let incoming = b.tx_type == BrlTxType::TransferIn;
            &&& v.date == b.date@
            &&& v.ledger_kind == Some(("BRL"@, brl_kind_label(labels, b.tx_type)))
            &&& v.amount == Some((if incoming { "+"@ } else { "-"@ }, "R$"@, b.amount))
            &&& v.outbound is None
        }),
{
}
} // verus!
