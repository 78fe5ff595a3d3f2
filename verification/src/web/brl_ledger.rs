//! BRL ledger page.
use vstd::prelude::*;

use crate::model::transaction::{BrlTxRow, BrlTxType};
use crate::money::Money;
use crate::web::templates::BrlLedgerRow;
use crate::reporting::text_or;

verus! {

/// The description column of the BRL ledger list: nothing for incoming
/// transfers, the channel for purchases, the recipient for cash gifts.
pub open spec fn spec_row_desc(row: BrlTxRow) -> Seq<char> {
    match row.tx_type {
        BrlTxType::TransferIn => Seq::empty(),
        BrlTxType::BrazilPurchaseOut => text_or(row.purchase_channel, Seq::empty()),
        BrlTxType::CashGiftOut => text_or(row.recipient_name, Seq::empty()),
    }
}

/// The description column of one BRL ledger entry.
pub fn row_desc(row: &BrlTxRow) -> (d: String)
    ensures
        d@ == spec_row_desc(*row),
{
    match row.tx_type {
        BrlTxType::TransferIn => String::new(),
        BrlTxType::BrazilPurchaseOut => match &row.purchase_channel {
            Some(s) => s.clone(),
            None => String::new(),
        },
        BrlTxType::CashGiftOut => match &row.recipient_name {
            Some(s) => s.clone(),
            None => String::new(),
        },
    }
}

/// A row of the BRL ledger list for entry `r`: its date, kind label,
/// sign (`+` in, `-` out), amount and description.
pub open spec fn is_brl_list_row<D, A, K>(row: BrlLedgerRow, r: BrlTxRow, date: D, amount: A, kind: K) -> bool where
    D: Fn(&String) -> String,
    A: Fn(Money) -> String,
    K: Fn(BrlTxType) -> String,
 {
    &&& date.ensures((&r.date,), row.date_display)
    &&& kind.ensures((r.tx_type,), row.type_label)
    &&& row.sign@ == (if r.tx_type.spec_is_inflow() {
        "+"@
    } else {
        "-"@
    })
    &&& amount.ensures((r.amount,), row.amount_display)
    &&& row.desc@ == spec_row_desc(r)
}

/// The BRL ledger list, oldest entry first: `rows` come newest first, so
/// the list shows them in reverse.
pub fn ledger_rows<D, A, K>(rows: &[BrlTxRow], date: D, amount: A, kind: K) -> (r: Vec<BrlLedgerRow>) where
    D: Fn(&String) -> String,
    A: Fn(Money) -> String,
    K: Fn(BrlTxType) -> String,

    requires
        forall|s: &String| #[trigger] date.requires((s,)),
        forall|m: Money| #[trigger] amount.requires((m,)),
        forall|k: BrlTxType| #[trigger] kind.requires((k,)),
    ensures
        r@.len() == rows@.len(),
        forall|i: int|
            0 <= i < r@.len() ==> is_brl_list_row(
                #[trigger] r@[i],
                rows@[rows@.len() - 1 - i],
                date,
                amount,
                kind,
            ),
{
    let mut out: Vec<BrlLedgerRow> = Vec::new();
    let mut k: usize = rows.len();
    while k > 0
        invariant
            k <= rows@.len(),
            out@.len() == rows@.len() - k,
            forall|s: &String| #[trigger] date.requires((s,)),
            forall|m: Money| #[trigger] amount.requires((m,)),
            forall|k: BrlTxType| #[trigger] kind.requires((k,)),
            forall|i: int|
                0 <= i < out@.len() ==> is_brl_list_row(
                    #[trigger] out@[i],
                    rows@[rows@.len() - 1 - i],
                    date,
                    amount,
                    kind,
                ),
        decreases k,
    {
        k = k - 1;
        let r = &rows[k];
        let sign: &'static str = if r.tx_type.is_inflow() {
            "+"
        } else {
            "-"
        };
        proof {
            reveal_strlit("+");
            reveal_strlit("-");
        }
        out.push(
            BrlLedgerRow {
                date_display: date(&r.date),
                type_label: kind(r.tx_type),
                sign,
                amount_display: amount(r.amount),
                desc: row_desc(r),
            },
        );
    }
    out
}

} // verus!
