//! EUR ledger pages.
use vstd::prelude::*;

use crate::model::transaction::{EurTxRow, EurTxType};
use crate::money::Money;
use crate::web::templates::EurLedgerRow;
use crate::reporting::text_or;
use crate::text::{parse_i64, str_eq, trim};
use crate::web::inventory::spec_parsed_id;

verus! {

/// The description column of the EUR ledger list: the donor for
/// donations, the note for self-funding, the channel for purchases, and
/// the note (or "EUR→BRL") for transfers.
pub open spec fn spec_row_desc(row: EurTxRow) -> Seq<char> {
    match row.tx_type {
        EurTxType::DonationIn => text_or(row.donor_name, Seq::empty()),
        EurTxType::SelfFundingIn => text_or(row.note, Seq::empty()),
        EurTxType::PurchaseOut => text_or(row.purchase_channel, Seq::empty()),
        EurTxType::TransferToBrlOut => text_or(row.note, "EUR\u{2192}BRL"@),
    }
}

/// The description column of one EUR ledger entry.
pub fn row_desc(row: &EurTxRow) -> (d: String)
    ensures
        d@ == spec_row_desc(*row),
{
    let o = match row.tx_type {
        EurTxType::DonationIn => &row.donor_name,
        EurTxType::SelfFundingIn => &row.note,
        EurTxType::PurchaseOut => &row.purchase_channel,
        EurTxType::TransferToBrlOut => &row.note,
    };
    match o {
        Some(s) => s.clone(),
        None => match row.tx_type {
            EurTxType::TransferToBrlOut => String::from_str("EUR\u{2192}BRL"),
            _ => String::new(),
        },
    }
}

/// Parses the donor field: `None` for a blank or unparseable value.
pub fn parsed_donor_id(s: &str) -> (r: Option<i64>)
    ensures
        r == spec_parsed_id(s@),
{
    let s = trim(s);
    if s.is_empty() {
        None
    } else {
        parse_i64(s)
    }
}

/// The kinds of EUR entry that are entered by hand; the others are
/// created alongside a purchase or a transfer.
#[derive(Debug, Clone, Copy, PartialEq, Eq, Structural)]
pub enum ManualEurTxType {
    DonationIn,
    SelfFundingIn,
}

/// The kind a create form asks for: `donation_in` or `self_funding_in`.
/// Any other value is refused: the form has to pick one.
pub fn manual_type_from_form(s: &str) -> (r: Option<ManualEurTxType>)
    ensures
        r == (if s@ == "donation_in"@ {
            Some(ManualEurTxType::DonationIn)
        } else if s@ == "self_funding_in"@ {
            Some(ManualEurTxType::SelfFundingIn)
        } else {
            None
        }),
{
    if str_eq(s, "donation_in") {
        Some(ManualEurTxType::DonationIn)
    } else if str_eq(s, "self_funding_in") {
        Some(ManualEurTxType::SelfFundingIn)
    } else {
        None
    }
}

/// The kind a stored entry keeps when edited; none for entries created
/// automatically, which cannot be edited as ledger entries.
pub fn manual_type_of(t: EurTxType) -> (r: Option<ManualEurTxType>)
    ensures
        r == (match t {
            EurTxType::DonationIn => Some(ManualEurTxType::DonationIn),
            EurTxType::SelfFundingIn => Some(ManualEurTxType::SelfFundingIn),
            _ => None,
        }),
        r is Some <==> t.spec_is_inflow(),
{
    if !t.is_manual() {
        None
    } else if t == EurTxType::DonationIn {
        Some(ManualEurTxType::DonationIn)
    } else {
        Some(ManualEurTxType::SelfFundingIn)
    }
}

/// The fields of the EUR entry form, as submitted.
pub struct EurTxForm {
    pub date: String,
    pub tx_type: String,
    pub amount_str: String,
    pub donor_id: String,
    pub note: String,
}

/// A hand-entered EUR entry as it is saved.
pub struct EurTxDraft {
    pub date: String,
    pub tx_type: ManualEurTxType,
    pub amount_str: String,
    pub donor_id: Option<i64>,
    pub note: String,
}

/// The entry a submitted form describes, for the kind it is saved as: a
/// donor is kept only for donations, so a donor field left filled in
/// while switching to self-funding never reaches the stored row.
pub fn draft_from_form(form: EurTxForm, tx_type: ManualEurTxType) -> (d: EurTxDraft)
    ensures
        d.date == form.date,
        d.tx_type == tx_type,
        d.amount_str == form.amount_str,
        d.note == form.note,
        d.donor_id == (if tx_type == ManualEurTxType::DonationIn {
            spec_parsed_id(form.donor_id@)
        } else {
            None
        }),
        tx_type == ManualEurTxType::SelfFundingIn ==> d.donor_id is None,
{
    let donor_id = if tx_type == ManualEurTxType::DonationIn {
        parsed_donor_id(form.donor_id.as_str())
    } else {
        None
    };
    EurTxDraft { date: form.date, tx_type, amount_str: form.amount_str, donor_id, note: form.note }
}

/// A row of the EUR ledger list for entry `r`: its date, kind label,
/// sign (`+` in, `-` out), amount and description, and whether it can be
/// edited (only hand-entered entries can).
pub open spec fn is_eur_list_row<D, A, K>(row: EurLedgerRow, r: EurTxRow, date: D, amount: A, kind: K) -> bool where
    D: Fn(&String) -> String,
    A: Fn(Money) -> String,
    K: Fn(EurTxType) -> String,
 {
    &&& row.id == r.id
    &&& date.ensures((&r.date,), row.date_display)
    &&& kind.ensures((r.tx_type,), row.type_label)
    &&& row.sign@ == (if r.tx_type.spec_is_inflow() {
        "+"@
    } else {
        "-"@
    })
    &&& amount.ensures((r.amount,), row.amount_display)
    &&& row.desc@ == spec_row_desc(r)
    &&& row.editable == r.tx_type.spec_is_inflow()
}

/// The EUR ledger list, oldest entry first: `rows` come newest first, so
/// the list shows them in reverse.
pub fn ledger_rows<D, A, K>(rows: &[EurTxRow], date: D, amount: A, kind: K) -> (r: Vec<EurLedgerRow>) where
    D: Fn(&String) -> String,
    A: Fn(Money) -> String,
    K: Fn(EurTxType) -> String,

    requires
        forall|s: &String| #[trigger] date.requires((s,)),
        forall|m: Money| #[trigger] amount.requires((m,)),
        forall|k: EurTxType| #[trigger] kind.requires((k,)),
    ensures
        r@.len() == rows@.len(),
        forall|i: int|
            0 <= i < r@.len() ==> is_eur_list_row(
                #[trigger] r@[i],
                rows@[rows@.len() - 1 - i],
                date,
                amount,
                kind,
            ),
{
    let mut out: Vec<EurLedgerRow> = Vec::new();
    let mut k: usize = rows.len();
    while k > 0
        invariant
            k <= rows@.len(),
            out@.len() == rows@.len() - k,
            forall|s: &String| #[trigger] date.requires((s,)),
            forall|m: Money| #[trigger] amount.requires((m,)),
            forall|k: EurTxType| #[trigger] kind.requires((k,)),
            forall|i: int|
                0 <= i < out@.len() ==> is_eur_list_row(
                    #[trigger] out@[i],
                    rows@[rows@.len() - 1 - i],
                    date,
                    amount,
                    kind,
                ),
        decreases k,
    {
        k = k - 1;
        let r = &rows[k];
        let sign: &'static str = if r.tx_type.is_inflow() {
            "+"
        } else {
            "-"
        };
        proof {
            reveal_strlit("+");
            reveal_strlit("-");
        }
        out.push(
            EurLedgerRow {
                id: r.id,
                date_display: date(&r.date),
                type_label: kind(r.tx_type),
                sign,
                amount_display: amount(r.amount),
                desc: row_desc(r),
                editable: r.tx_type.is_manual(),
            },
        );
    }
    out
}

} // verus!
