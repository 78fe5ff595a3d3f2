//! The tables of the reports page and its exports: which rows each shows,
//! in which order, with which columns. Dates, amounts and kind labels are
//! written by the caller's formatters (localised on screen, plain in CSV),
//! handed in as closures.
use vstd::prelude::*;

use crate::model::inventory::{InventoryItemRow, ItemStatus, Location, SourceType};
use crate::model::outbound::OutboundEventRow;
use crate::model::transaction::{BrlTxRow, BrlTxType, EurTxRow, EurTxType};
use crate::money::Money;
use crate::reporting::{
    brl_tx_description, eur_tx_description, in_range, spec_brl_description, spec_eur_description,
    spec_in_range, AuditEntry, BrlSummary, DonorRow, EurSummary, OutboundAuditInfo, ReportLabels,
};
use crate::web::templates::SummaryLine;
use crate::service::name_views;
use crate::text::{int_digits, push_i64_digits};

verus! {

/// The positions below `n` that `keep` selects, in increasing order.
pub open spec fn positions_where(n: nat, keep: spec_fn(int) -> bool) -> Seq<int>
    decreases n,
{
    if n == 0 {
        Seq::empty()
    } else {
        let prev = positions_where((n - 1) as nat, keep);
        if keep(n - 1) {
            prev.push(n - 1)
        } else {
            prev
        }
    }
}

/// Every selected position is below `n` and selected by `keep`.
pub proof fn lemma_positions_where(n: nat, keep: spec_fn(int) -> bool)
    ensures
        forall|i: int|
            0 <= i < positions_where(n, keep).len() ==> 0 <= #[trigger] positions_where(n, keep)[i]
                < n && keep(positions_where(n, keep)[i]),
    decreases n,
{
    if n > 0 {
        let prev = positions_where((n - 1) as nat, keep);
        lemma_positions_where((n - 1) as nat, keep);
        assert forall|i: int| 0 <= i < positions_where(n, keep).len() implies 0
            <= #[trigger] positions_where(n, keep)[i] < n && keep(positions_where(n, keep)[i]) by {
            if i < prev.len() {
                assert(positions_where(n, keep)[i] == prev[i]);
            }
        }
    }
}

/// Every position below `n` that `keep` selects is selected, once: the
/// selected positions are strictly increasing.
pub proof fn lemma_positions_where_complete(n: nat, keep: spec_fn(int) -> bool)
    ensures
        forall|j: int| 0 <= j < n && #[trigger] keep(j) ==> exists|i: int|
            0 <= i < positions_where(n, keep).len() && #[trigger] positions_where(n, keep)[i] == j,
        forall|a: int, b: int|
            0 <= a < b < positions_where(n, keep).len() ==> #[trigger] positions_where(n, keep)[a]
                < #[trigger] positions_where(n, keep)[b],
    decreases n,
{
    lemma_positions_where(n, keep);
    if n > 0 {
        let prev = positions_where((n - 1) as nat, keep);
        lemma_positions_where_complete((n - 1) as nat, keep);
        lemma_positions_where((n - 1) as nat, keep);
        let cur = positions_where(n, keep);
        assert forall|j: int| 0 <= j < n && #[trigger] keep(j) implies exists|i: int|
            0 <= i < cur.len() && #[trigger] cur[i] == j by {
            if j < n - 1 {
                let i = choose|i: int| 0 <= i < prev.len() && #[trigger] prev[i] == j;
                assert(cur[i] == prev[i]);
            } else {
                assert(cur[cur.len() - 1] == n - 1);
            }
        }
        assert forall|a: int, b: int| 0 <= a < b < cur.len() implies #[trigger] cur[a] < #[trigger] cur[b] by {
            assert(cur[a] == prev[a]);
            if b < prev.len() {
                assert(cur[b] == prev[b]);
            } else {
                assert(prev[a] < n - 1);
            }
        }
    }
}

/// `d` is on or after `from` and on or before `to` (ISO dates compare as
/// text), an empty bound being no limit on that side.
pub open spec fn date_in_period(d: Seq<char>, from: Seq<char>, to: Seq<char>) -> bool {
    &&& (from.len() == 0 || !crate::text::seq_lt(d, from))
    &&& (to.len() == 0 || !crate::text::seq_lt(to, d))
}

/// The ledger tables of `[from, to]` show exactly the entries dated
/// within the period, each once, in ledger order: the `i`-th table row
/// comes from an entry so dated, and every entry so dated has a row.
pub proof fn lemma_ledger_tables_show_the_period(
    eur: Seq<EurTxRow>,
    brl: Seq<BrlTxRow>,
    from: Seq<char>,
    to: Seq<char>,
)
    ensures
        ({
            let pe = positions_where(eur.len(), eur_in_period(eur, from, to));
            &&& forall|i: int|
                0 <= i < pe.len() ==> 0 <= #[trigger] pe[i] < eur.len() && date_in_period(
                    eur[pe[i]].date@,
                    from,
                    to,
                )
            &&& forall|j: int|
                0 <= j < eur.len() && date_in_period(#[trigger] eur[j].date@, from, to) ==> exists|i: int|
                    0 <= i < pe.len() && pe[i] == j
            &&& forall|a: int, b: int| 0 <= a < b < pe.len() ==> #[trigger] pe[a] < #[trigger] pe[b]
        }),
        ({
            let pb = positions_where(brl.len(), brl_in_period(brl, from, to));
            &&& forall|i: int|
                0 <= i < pb.len() ==> 0 <= #[trigger] pb[i] < brl.len() && date_in_period(
                    brl[pb[i]].date@,
                    from,
                    to,
                )
            &&& forall|j: int|
                0 <= j < brl.len() && date_in_period(#[trigger] brl[j].date@, from, to) ==> exists|i: int|
                    0 <= i < pb.len() && pb[i] == j
            &&& forall|a: int, b: int| 0 <= a < b < pb.len() ==> #[trigger] pb[a] < #[trigger] pb[b]
        }),
{
    let ke = eur_in_period(eur, from, to);
    let kb = brl_in_period(brl, from, to);
    lemma_positions_where(eur.len(), ke);
    lemma_positions_where_complete(eur.len(), ke);
    lemma_positions_where(brl.len(), kb);
    lemma_positions_where_complete(brl.len(), kb);
    let pe = positions_where(eur.len(), ke);
    let pb = positions_where(brl.len(), kb);
    assert forall|i: int| 0 <= i < pe.len() implies 0 <= #[trigger] pe[i] < eur.len() && date_in_period(
        eur[pe[i]].date@,
        from,
        to,
    ) by {
        assert(ke(pe[i]));
    }
    assert forall|j: int| 0 <= j < eur.len() && date_in_period(#[trigger] eur[j].date@, from, to) implies exists|
        i: int,
    | 0 <= i < pe.len() && pe[i] == j by {
        assert(ke(j));
    }
    assert forall|i: int| 0 <= i < pb.len() implies 0 <= #[trigger] pb[i] < brl.len() && date_in_period(
        brl[pb[i]].date@,
        from,
        to,
    ) by {
        assert(kb(pb[i]));
    }
    assert forall|j: int| 0 <= j < brl.len() && date_in_period(#[trigger] brl[j].date@, from, to) implies exists|
        i: int,
    | 0 <= i < pb.len() && pb[i] == j by {
        assert(kb(j));
    }
}

/// The outbound table of `[from, to]` shows exactly the events dated
/// within the period and, with a recipient filter, given to that
/// recipient: each once, in list order.
pub proof fn lemma_outbound_table_shows_the_period(
    rows: Seq<OutboundEventRow>,
    from: Seq<char>,
    to: Seq<char>,
    recipient_filter: Option<i64>,
)
    ensures
        ({
            let po = positions_where(rows.len(), outbound_in_view(rows, from, to, recipient_filter));
            let shown = |e: OutboundEventRow|
                date_in_period(e.date@, from, to) && (recipient_filter matches Some(rid)
                    ==> e.recipient_project_id == rid);
            &&& forall|i: int|
                0 <= i < po.len() ==> 0 <= #[trigger] po[i] < rows.len() && shown(rows[po[i]])
            &&& forall|j: int|
                0 <= j < rows.len() && shown(#[trigger] rows[j]) ==> exists|i: int|
                    0 <= i < po.len() && po[i] == j
            &&& forall|a: int, b: int| 0 <= a < b < po.len() ==> #[trigger] po[a] < #[trigger] po[b]
        }),
{
    let k = outbound_in_view(rows, from, to, recipient_filter);
    lemma_positions_where(rows.len(), k);
    lemma_positions_where_complete(rows.len(), k);
    let po = positions_where(rows.len(), k);
    let shown = |e: OutboundEventRow|
        date_in_period(e.date@, from, to) && (recipient_filter matches Some(rid) ==> e.recipient_project_id
            == rid);
    assert forall|j: int| 0 <= j < rows.len() implies #[trigger] k(j) == shown(rows[j]) by {}
    assert forall|i: int| 0 <= i < po.len() implies 0 <= #[trigger] po[i] < rows.len() && shown(rows[po[i]]) by {
        assert(k(po[i]));
    }
    assert forall|j: int| 0 <= j < rows.len() && shown(#[trigger] rows[j]) implies exists|i: int|
        0 <= i < po.len() && po[i] == j by {
        assert(k(j));
    }
}

/// An amount cell of a ledger table: the formatted amount, with `-` in
/// front for money going out.
pub open spec fn signed(inflow: bool, amount: Seq<char>) -> Seq<char> {
    if inflow {
        amount
    } else {
        "-"@ + amount
    }
}

fn signed_cell(inflow: bool, amount: String) -> (c: String)
    ensures
        c@ == signed(inflow, amount@),
{
    if inflow {
        amount
    } else {
        let mut c = String::from_str("-");
        c.append(amount.as_str());
        proof { reveal_strlit("-"); }
        c
    }
}

/// The column headers of the two ledger tables.
pub open spec fn ledger_headers() -> Seq<Seq<char>> {
    seq!["Date"@, "Type"@, "Description"@, "Amount"@]
}

fn ledger_header_row() -> (h: Vec<String>)
    ensures
        name_views(h@) == ledger_headers(),
{
    let mut h: Vec<String> = Vec::new();
    h.push(String::from_str("Date"));
    h.push(String::from_str("Type"));
    h.push(String::from_str("Description"));
    h.push(String::from_str("Amount"));
    proof {
        reveal_strlit("Date");
        reveal_strlit("Type");
        reveal_strlit("Description");
        reveal_strlit("Amount");
        assert(name_views(h@) =~= ledger_headers());
    }
    h
}

/// The EUR entries a period's table shows: those dated within it.
pub open spec fn eur_in_period(rows: Seq<EurTxRow>, from: Seq<char>, to: Seq<char>) -> spec_fn(int) -> bool {
    |j: int| spec_in_range(rows[j].date@, from, to)
}

/// A row of the EUR table for entry `r`: its date, its kind's label, its
/// description and its signed amount.
pub open spec fn is_eur_table_row<D, A, K>(
    cells: Seq<String>,
    r: EurTxRow,
    labels: ReportLabels,
    date: D,
    amount: A,
    kind: K,
) -> bool where D: Fn(&String) -> String, A: Fn(Money) -> String, K: Fn(EurTxType) -> String {
    &&& cells.len() == 4
    &&& date.ensures((&r.date,), cells[0])
    &&& kind.ensures((r.tx_type,), cells[1])
    &&& cells[2]@ == spec_eur_description(r, labels)
    &&& exists|a: String|
        #[trigger] amount.ensures((r.amount,), a) && cells[3]@ == signed(r.tx_type.spec_is_inflow(), a@)
}

/// The EUR ledger table of `[from, to]`: one row per entry dated within
/// the period, in ledger order.
pub fn eur_table<D, A, K>(
    rows: &[EurTxRow],
    from: &str,
    to: &str,
    labels: &ReportLabels,
    date: D,
    amount: A,
    kind: K,
) -> (t: (Vec<String>, Vec<Vec<String>>)) where
    D: Fn(&String) -> String,
    A: Fn(Money) -> String,
    K: Fn(EurTxType) -> String,

    requires
        forall|s: &String| #[trigger] date.requires((s,)),
        forall|m: Money| #[trigger] amount.requires((m,)),
        forall|k: EurTxType| #[trigger] kind.requires((k,)),
    ensures
        name_views(t.0@) == ledger_headers(),
        t.1@.len() == positions_where(rows@.len(), eur_in_period(rows@, from@, to@)).len(),
        forall|i: int|
            0 <= i < t.1@.len() ==> is_eur_table_row(
                #[trigger] t.1@[i]@,
                rows@[positions_where(rows@.len(), eur_in_period(rows@, from@, to@))[i]],
                *labels,
                date,
                amount,
                kind,
            ),
{
    let ghost keep = eur_in_period(rows@, from@, to@);
    let mut table: Vec<Vec<String>> = Vec::new();
    let mut k: usize = 0;
    while k < rows.len()
        invariant
            k <= rows@.len(),
            keep == eur_in_period(rows@, from@, to@),
            forall|s: &String| #[trigger] date.requires((s,)),
            forall|m: Money| #[trigger] amount.requires((m,)),
            forall|k: EurTxType| #[trigger] kind.requires((k,)),
            table@.len() == positions_where(k as nat, keep).len(),
            forall|i: int|
                0 <= i < table@.len() ==> is_eur_table_row(
                    #[trigger] table@[i]@,
                    rows@[positions_where(k as nat, keep)[i]],
                    *labels,
                    date,
                    amount,
                    kind,
                ),
        decreases rows@.len() - k,
    {
        let r = &rows[k];
        if in_range(r.date.as_str(), from, to) {
            let d = date(&r.date);
            let l = kind(r.tx_type);
            let desc = eur_tx_description(r, labels);
            let a = amount(r.amount);
            let ghost ga = a;
            let cell = signed_cell(r.tx_type.is_inflow(), a);
            let mut cells: Vec<String> = Vec::new();
            cells.push(d);
            cells.push(l);
            cells.push(desc);
            cells.push(cell);
            assert(amount.ensures((r.amount,), ga));
            table.push(cells);
        }
        proof {
            assert(keep(k as int) == spec_in_range(rows@[k as int].date@, from@, to@));
        }
        k = k + 1;
    }
    (ledger_header_row(), table)
}

/// The BRL entries a period's table shows: those dated within it.
pub open spec fn brl_in_period(rows: Seq<BrlTxRow>, from: Seq<char>, to: Seq<char>) -> spec_fn(int) -> bool {
    |j: int| spec_in_range(rows[j].date@, from, to)
}

/// A row of the BRL table for entry `r`: its date, its kind's label, its
/// description and its signed amount.
pub open spec fn is_brl_table_row<D, A, K>(
    cells: Seq<String>,
    r: BrlTxRow,
    labels: ReportLabels,
    date: D,
    amount: A,
    kind: K,
) -> bool where D: Fn(&String) -> String, A: Fn(Money) -> String, K: Fn(BrlTxType) -> String {
    &&& cells.len() == 4
    &&& date.ensures((&r.date,), cells[0])
    &&& kind.ensures((r.tx_type,), cells[1])
    &&& cells[2]@ == spec_brl_description(r, labels)
    &&& exists|a: String|
        #[trigger] amount.ensures((r.amount,), a) && cells[3]@ == signed(r.tx_type.spec_is_inflow(), a@)
}

/// The BRL ledger table of `[from, to]`: one row per entry dated within
/// the period, in ledger order.
pub fn brl_table<D, A, K>(
    rows: &[BrlTxRow],
    from: &str,
    to: &str,
    labels: &ReportLabels,
    date: D,
    amount: A,
    kind: K,
) -> (t: (Vec<String>, Vec<Vec<String>>)) where
    D: Fn(&String) -> String,
    A: Fn(Money) -> String,
    K: Fn(BrlTxType) -> String,

    requires
        forall|s: &String| #[trigger] date.requires((s,)),
        forall|m: Money| #[trigger] amount.requires((m,)),
        forall|k: BrlTxType| #[trigger] kind.requires((k,)),
    ensures
        name_views(t.0@) == ledger_headers(),
        t.1@.len() == positions_where(rows@.len(), brl_in_period(rows@, from@, to@)).len(),
        forall|i: int|
            0 <= i < t.1@.len() ==> is_brl_table_row(
                #[trigger] t.1@[i]@,
                rows@[positions_where(rows@.len(), brl_in_period(rows@, from@, to@))[i]],
                *labels,
                date,
                amount,
                kind,
            ),
{
    let ghost keep = brl_in_period(rows@, from@, to@);
    let mut table: Vec<Vec<String>> = Vec::new();
    let mut k: usize = 0;
    while k < rows.len()
        invariant
            k <= rows@.len(),
            keep == brl_in_period(rows@, from@, to@),
            forall|s: &String| #[trigger] date.requires((s,)),
            forall|m: Money| #[trigger] amount.requires((m,)),
            forall|k: BrlTxType| #[trigger] kind.requires((k,)),
            table@.len() == positions_where(k as nat, keep).len(),
            forall|i: int|
                0 <= i < table@.len() ==> is_brl_table_row(
                    #[trigger] table@[i]@,
                    rows@[positions_where(k as nat, keep)[i]],
                    *labels,
                    date,
                    amount,
                    kind,
                ),
        decreases rows@.len() - k,
    {
        let r = &rows[k];
        if in_range(r.date.as_str(), from, to) {
            let d = date(&r.date);
            let l = kind(r.tx_type);
            let desc = brl_tx_description(r, labels);
            let a = amount(r.amount);
            let ghost ga = a;
            let cell = signed_cell(r.tx_type.is_inflow(), a);
            let mut cells: Vec<String> = Vec::new();
            cells.push(d);
            cells.push(l);
            cells.push(desc);
            cells.push(cell);
            assert(amount.ensures((r.amount,), ga));
            table.push(cells);
        }
        proof {
            assert(keep(k as int) == spec_in_range(rows@[k as int].date@, from@, to@));
        }
        k = k + 1;
    }
    (ledger_header_row(), table)
}

/// The outbound events a period's table shows: those dated within it and,
/// when a recipient filter is set, given to that recipient.
pub open spec fn outbound_in_view(
    rows: Seq<OutboundEventRow>,
    from: Seq<char>,
    to: Seq<char>,
    recipient_filter: Option<i64>,
) -> spec_fn(int) -> bool {
    |j: int|
        spec_in_range(rows[j].date@, from, to) && match recipient_filter {
            Some(rid) => rows[j].recipient_project_id == rid,
            None => true,
        }
}

/// The column headers of the outbound table.
pub open spec fn outbound_headers() -> Seq<Seq<char>> {
    seq!["Date"@, "Recipient"@, "Items"@, "Cash"@]
}

/// A row of the outbound table for event `e`: its date, recipient, item
/// count and cash amount (blank when none).
pub open spec fn is_outbound_table_row<D, A>(cells: Seq<String>, e: OutboundEventRow, date: D, amount: A) -> bool where
    D: Fn(&String) -> String,
    A: Fn(Money) -> String,
 {
    &&& cells.len() == 4
    &&& date.ensures((&e.date,), cells[0])
    &&& cells[1]@ == e.recipient_name@
    &&& cells[2]@ == int_digits(e.item_count as int)
    &&& match e.cash_amount_brl {
        Some(c) => amount.ensures((c,), cells[3]),
        None => cells[3]@ == Seq::<char>::empty(),
    }
}

fn digits_cell(n: i64) -> (c: String)
    ensures
        c@ == int_digits(n as int),
{
    let mut c = String::new();
    push_i64_digits(&mut c, n);
    c
}

/// The outbound table of `[from, to]`, optionally for one recipient: one
/// row per matching event, in list order.
pub fn outbound_table<D, A>(
    rows: &[OutboundEventRow],
    from: &str,
    to: &str,
    recipient_filter: Option<i64>,
    date: D,
    amount: A,
) -> (t: (Vec<String>, Vec<Vec<String>>)) where D: Fn(&String) -> String, A: Fn(Money) -> String
    requires
        forall|s: &String| #[trigger] date.requires((s,)),
        forall|m: Money| #[trigger] amount.requires((m,)),
    ensures
        name_views(t.0@) == outbound_headers(),
        t.1@.len() == positions_where(
            rows@.len(),
            outbound_in_view(rows@, from@, to@, recipient_filter),
        ).len(),
        forall|i: int|
            0 <= i < t.1@.len() ==> is_outbound_table_row(
                #[trigger] t.1@[i]@,
                rows@[positions_where(rows@.len(), outbound_in_view(rows@, from@, to@, recipient_filter))[i]],
                date,
                amount,
            ),
{
    let ghost keep = outbound_in_view(rows@, from@, to@, recipient_filter);
    let mut table: Vec<Vec<String>> = Vec::new();
    let mut k: usize = 0;
    while k < rows.len()
        invariant
            k <= rows@.len(),
            keep == outbound_in_view(rows@, from@, to@, recipient_filter),
            forall|s: &String| #[trigger] date.requires((s,)),
            forall|m: Money| #[trigger] amount.requires((m,)),
            table@.len() == positions_where(k as nat, keep).len(),
            forall|i: int|
                0 <= i < table@.len() ==> is_outbound_table_row(
                    #[trigger] table@[i]@,
                    rows@[positions_where(k as nat, keep)[i]],
                    date,
                    amount,
                ),
        decreases rows@.len() - k,
    {
        let e = &rows[k];
        let for_recipient = match recipient_filter {
            Some(rid) => e.recipient_project_id == rid,
            None => true,
        };
        if in_range(e.date.as_str(), from, to) && for_recipient {
            let d = date(&e.date);
            let cash = match e.cash_amount_brl {
                Some(c) => amount(c),
                None => String::new(),
            };
            let mut cells: Vec<String> = Vec::new();
            cells.push(d);
            cells.push(e.recipient_name.clone());
            cells.push(digits_cell(e.item_count));
            cells.push(cash);
            table.push(cells);
        }
        proof {
            assert(keep(k as int) == (spec_in_range(rows@[k as int].date@, from@, to@)
                && for_recipient));
        }
        k = k + 1;
    }
    let mut h: Vec<String> = Vec::new();
    h.push(String::from_str("Date"));
    h.push(String::from_str("Recipient"));
    h.push(String::from_str("Items"));
    h.push(String::from_str("Cash"));
    proof {
        reveal_strlit("Date");
        reveal_strlit("Recipient");
        reveal_strlit("Items");
        reveal_strlit("Cash");
        assert(name_views(h@) =~= outbound_headers());
    }
    (h, table)
}

/// The column headers of the inventory table.
pub open spec fn inventory_headers() -> Seq<Seq<char>> {
    seq!["Name"@, "Category"@, "Status"@, "Location"@, "Source type"@, "Source"@]
}

/// A row of the inventory table for `item`: name, category, status and
/// location labels, source kind and source.
pub open spec fn is_inventory_table_row<S, L>(cells: Seq<String>, item: InventoryItemRow, status: S, location: L) -> bool where
    S: Fn(ItemStatus) -> String,
    L: Fn(Location) -> String,
 {
    &&& cells.len() == 6
    &&& cells[0]@ == item.name@
    &&& cells[1]@ == item.category_name@
    &&& status.ensures((item.status,), cells[2])
    &&& location.ensures((item.location,), cells[3])
    &&& cells[4]@ == (match item.source_type {
        SourceType::Donation => "Donation"@,
        SourceType::Purchase => "Purchase"@,
    })
    &&& cells[5]@ == item.source_desc@
}

/// The inventory table: one row per item, in list order.
pub fn inventory_table<S, L>(items: &[InventoryItemRow], status: S, location: L) -> (t: (
    Vec<String>,
    Vec<Vec<String>>,
)) where S: Fn(ItemStatus) -> String, L: Fn(Location) -> String
    requires
        forall|s: ItemStatus| #[trigger] status.requires((s,)),
        forall|l: Location| #[trigger] location.requires((l,)),
    ensures
        name_views(t.0@) == inventory_headers(),
        t.1@.len() == items@.len(),
        forall|i: int|
            0 <= i < t.1@.len() ==> is_inventory_table_row(#[trigger] t.1@[i]@, items@[i], status, location),
{
    proof {
        reveal_strlit("Donation");
        reveal_strlit("Purchase");
    }
    let mut table: Vec<Vec<String>> = Vec::new();
    let mut k: usize = 0;
    while k < items.len()
        invariant
            k <= items@.len(),
            forall|s: ItemStatus| #[trigger] status.requires((s,)),
            forall|l: Location| #[trigger] location.requires((l,)),
            table@.len() == k,
            forall|i: int|
                0 <= i < k ==> is_inventory_table_row(#[trigger] table@[i]@, items@[i], status, location),
        decreases items@.len() - k,
    {
        let item = &items[k];
        let kind = match item.source_type {
            SourceType::Donation => String::from_str("Donation"),
            SourceType::Purchase => String::from_str("Purchase"),
        };
        let mut cells: Vec<String> = Vec::new();
        cells.push(item.name.clone());
        cells.push(item.category_name.clone());
        cells.push(status(item.status));
        cells.push(location(item.location));
        cells.push(kind);
        cells.push(item.source_desc.clone());
        table.push(cells);
        k = k + 1;
    }
    let mut h: Vec<String> = Vec::new();
    h.push(String::from_str("Name"));
    h.push(String::from_str("Category"));
    h.push(String::from_str("Status"));
    h.push(String::from_str("Location"));
    h.push(String::from_str("Source type"));
    h.push(String::from_str("Source"));
    proof {
        reveal_strlit("Name");
        reveal_strlit("Category");
        reveal_strlit("Status");
        reveal_strlit("Location");
        reveal_strlit("Source type");
        reveal_strlit("Source");
        assert(name_views(h@) =~= inventory_headers());
    }
    (h, table)
}

/// The column headers of the donor breakdown table.
pub open spec fn donor_headers() -> Seq<Seq<char>> {
    seq!["Donor"@, "Cash gifts"@, "Cash total"@, "Items donated"@]
}

/// A row of the donor breakdown for `r`: name, number of cash gifts, cash
/// total and number of items donated.
pub open spec fn is_donor_table_row<A>(cells: Seq<String>, r: DonorRow, amount: A) -> bool where
    A: Fn(Money) -> String,
 {
    &&& cells.len() == 4
    &&& cells[0]@ == r.name@
    &&& cells[1]@ == int_digits(r.cash_count as int)
    &&& amount.ensures((r.cash_total,), cells[2])
    &&& cells[3]@ == int_digits(r.item_count as int)
}

/// The donor breakdown table of rows built by `build_donor_rows`, in
/// their order.
pub fn donors_table<A>(rows: &[DonorRow], amount: A) -> (t: (Vec<String>, Vec<Vec<String>>)) where
    A: Fn(Money) -> String,

    requires
        forall|m: Money| #[trigger] amount.requires((m,)),
    ensures
        name_views(t.0@) == donor_headers(),
        t.1@.len() == rows@.len(),
        forall|i: int| 0 <= i < t.1@.len() ==> is_donor_table_row(#[trigger] t.1@[i]@, rows@[i], amount),
{
    let mut table: Vec<Vec<String>> = Vec::new();
    let mut k: usize = 0;
    while k < rows.len()
        invariant
            k <= rows@.len(),
            forall|m: Money| #[trigger] amount.requires((m,)),
            table@.len() == k,
            forall|i: int| 0 <= i < k ==> is_donor_table_row(#[trigger] table@[i]@, rows@[i], amount),
        decreases rows@.len() - k,
    {
        let r = &rows[k];
        let mut cells: Vec<String> = Vec::new();
        cells.push(r.name.clone());
        cells.push(digits_cell(r.cash_count));
        cells.push(amount(r.cash_total));
        cells.push(digits_cell(r.item_count));
        table.push(cells);
        k = k + 1;
    }
    let mut h: Vec<String> = Vec::new();
    h.push(String::from_str("Donor"));
    h.push(String::from_str("Cash gifts"));
    h.push(String::from_str("Cash total"));
    h.push(String::from_str("Items donated"));
    proof {
        reveal_strlit("Donor");
        reveal_strlit("Cash gifts");
        reveal_strlit("Cash total");
        reveal_strlit("Items donated");
        assert(name_views(h@) =~= donor_headers());
    }
    (h, table)
}

/// The column headers of the audit trail table.
pub open spec fn audit_headers() -> Seq<Seq<char>> {
    seq!["Date"@, "Ledger"@, "Type"@, "Description"@, "Amount"@, "Docs"@]
}

/// A row of the audit trail for entry `e`: its date; the ledger, kind and
/// description that `outbound_text` writes for outbound events, or the
/// entry's own; its signed amount in its currency (blank when none); and
/// its document count (blank when zero).
pub open spec fn is_audit_table_row<D, A, O>(cells: Seq<String>, e: AuditEntry, date: D, amount: A, outbound_text: O) -> bool where
    D: Fn(&String) -> String,
    A: Fn(Money) -> String,
    O: Fn(&OutboundAuditInfo) -> (String, String, String),
 {
    &&& cells.len() == 6
    &&& date.ensures((&e.date,), cells[0])
    &&& match e.outbound {
        Some(info) => outbound_text.ensures((&info,), (cells[1], cells[2], cells[3])),
        None => {
            &&& cells[1]@ == (match e.ledger_kind {
                Some(lk) => lk.0@,
                None => Seq::<char>::empty(),
            })
            &&& cells[2]@ == (match e.ledger_kind {
                Some(lk) => lk.1@,
                None => Seq::<char>::empty(),
            })
            &&& cells[3]@ == e.description@
        },
    }
    &&& match e.amount {
        Some(a) => exists|v: String|
            #[trigger] amount.ensures((a.value,), v) && cells[4]@ == a.sign@ + a.symbol@ + v@,
        None => cells[4]@ == Seq::<char>::empty(),
    }
    &&& cells[5]@ == (if e.docs > 0 {
        int_digits(e.docs as int)
    } else {
        Seq::<char>::empty()
    })
}

/// The audit trail table of entries built by `build_audit_entries`, in
/// their order.
pub fn audit_table<D, A, O>(entries: &[AuditEntry], date: D, amount: A, outbound_text: O) -> (t: (
    Vec<String>,
    Vec<Vec<String>>,
)) where
    D: Fn(&String) -> String,
    A: Fn(Money) -> String,
    O: Fn(&OutboundAuditInfo) -> (String, String, String),

    requires
        forall|s: &String| #[trigger] date.requires((s,)),
        forall|m: Money| #[trigger] amount.requires((m,)),
        forall|o: &OutboundAuditInfo| #[trigger] outbound_text.requires((o,)),
    ensures
        name_views(t.0@) == audit_headers(),
        t.1@.len() == entries@.len(),
        forall|i: int|
            0 <= i < t.1@.len() ==> is_audit_table_row(
                #[trigger] t.1@[i]@,
                entries@[i],
                date,
                amount,
                outbound_text,
            ),
{
    let mut table: Vec<Vec<String>> = Vec::new();
    let mut k: usize = 0;
    while k < entries.len()
        invariant
            k <= entries@.len(),
            forall|s: &String| #[trigger] date.requires((s,)),
            forall|m: Money| #[trigger] amount.requires((m,)),
            forall|o: &OutboundAuditInfo| #[trigger] outbound_text.requires((o,)),
            table@.len() == k,
            forall|i: int|
                0 <= i < k ==> is_audit_table_row(
                    #[trigger] table@[i]@,
                    entries@[i],
                    date,
                    amount,
                    outbound_text,
                ),
        decreases entries@.len() - k,
    {
        let e = &entries[k];
        let d = date(&e.date);
        let (ledger, kind, description) = match &e.outbound {
            Some(info) => outbound_text(info),
            None => match &e.ledger_kind {
                Some(lk) => (lk.0.clone(), lk.1.clone(), e.description.clone()),
                None => (String::new(), String::new(), e.description.clone()),
            },
        };
        let amount_cell = match &e.amount {
            Some(a) => {
                let v = amount(a.value);
                let mut c = String::from_str(a.sign);
                c.append(a.symbol);
                c.append(v.as_str());
                assert(amount.ensures((a.value,), v));
                c
            },
            None => String::new(),
        };
        let docs = if e.docs > 0 {
            digits_cell(e.docs)
        } else {
            String::new()
        };
        let mut cells: Vec<String> = Vec::new();
        cells.push(d);
        cells.push(ledger);
        cells.push(kind);
        cells.push(description);
        cells.push(amount_cell);
        cells.push(docs);
        table.push(cells);
        k = k + 1;
    }
    let mut h: Vec<String> = Vec::new();
    h.push(String::from_str("Date"));
    h.push(String::from_str("Ledger"));
    h.push(String::from_str("Type"));
    h.push(String::from_str("Description"));
    h.push(String::from_str("Amount"));
    h.push(String::from_str("Docs"));
    proof {
        reveal_strlit("Date");
        reveal_strlit("Ledger");
        reveal_strlit("Type");
        reveal_strlit("Description");
        reveal_strlit("Amount");
        reveal_strlit("Docs");
        assert(name_views(h@) =~= audit_headers());
    }
    (h, table)
}

/// A stats line: `label`, and the amount `v` as `amount` writes it after
/// `prefix` (the currency symbol, with `-` in front for money going out).
pub open spec fn is_summary_line<A>(l: SummaryLine, label: Seq<char>, prefix: Seq<char>, v: Money, amount: A) -> bool where
    A: Fn(Money) -> String,
 {
    &&& l.label@ == label
    &&& exists|f: String| #[trigger] amount.ensures((v,), f) && l.value@ == prefix + f@
}

/// `{label} ({count})`.
pub open spec fn counted(label: Seq<char>, count: i64) -> Seq<char> {
    label + " ("@ + int_digits(count as int) + ")"@
}

fn summary_line<A>(label: String, prefix: &str, v: Money, amount: &A) -> (l: SummaryLine) where
    A: Fn(Money) -> String,

    requires
        forall|m: Money| #[trigger] amount.requires((m,)),
    ensures
        is_summary_line(l, label@, prefix@, v, *amount),
{
    let f = amount(v);
    let mut value = String::from_str(prefix);
    value.append(f.as_str());
    assert(amount.ensures((v,), f));
    SummaryLine { label, value }
}

fn counted_label(label: &str, count: i64) -> (s: String)
    ensures
        s@ == counted(label@, count),
{
    let mut s = String::from_str(label);
    s.append(" (");
    push_i64_digits(&mut s, count);
    s.append(")");
    proof {
        reveal_strlit(" (");
        reveal_strlit(")");
    }
    s
}

/// The stats panel of the EUR tab: starting balance, each kind's count
/// and total (outgoing kinds negative), net and ending balance, in euros.
pub fn eur_summary_lines<A>(s: &EurSummary, amount: A) -> (lines: Vec<SummaryLine>) where
    A: Fn(Money) -> String,

    requires
        forall|m: Money| #[trigger] amount.requires((m,)),
    ensures
        lines@.len() == 7,
        is_summary_line(lines@[0], "Starting balance"@, "\u{20ac} "@, s.starting_balance, amount),
        is_summary_line(lines@[1], counted("Donations"@, s.donation_count), "\u{20ac} "@, s.donation_total, amount),
        is_summary_line(lines@[2], counted("Self-funding"@, s.self_funding_count), "\u{20ac} "@, s.self_funding_total, amount),
        is_summary_line(lines@[3], counted("Purchases"@, s.purchase_count), "-\u{20ac} "@, s.purchase_total, amount),
        is_summary_line(lines@[4], counted("Transfers to BRL"@, s.transfer_count), "-\u{20ac} "@, s.transfer_total, amount),
        is_summary_line(lines@[5], "Net"@, "\u{20ac} "@, s.net, amount),
        is_summary_line(lines@[6], "Ending balance"@, "\u{20ac} "@, s.ending_balance, amount),
{
    let mut lines: Vec<SummaryLine> = Vec::new();
    lines.push(summary_line(String::from_str("Starting balance"), "\u{20ac} ", s.starting_balance, &amount));
    lines.push(summary_line(counted_label("Donations", s.donation_count), "\u{20ac} ", s.donation_total, &amount));
    lines.push(summary_line(counted_label("Self-funding", s.self_funding_count), "\u{20ac} ", s.self_funding_total, &amount));
    lines.push(summary_line(counted_label("Purchases", s.purchase_count), "-\u{20ac} ", s.purchase_total, &amount));
    lines.push(summary_line(counted_label("Transfers to BRL", s.transfer_count), "-\u{20ac} ", s.transfer_total, &amount));
    lines.push(summary_line(String::from_str("Net"), "\u{20ac} ", s.net, &amount));
    lines.push(summary_line(String::from_str("Ending balance"), "\u{20ac} ", s.ending_balance, &amount));
    lines
}

/// The stats panel of the BRL tab: starting balance, each kind's count
/// and total (outgoing kinds negative), net and ending balance, in reais.
pub fn brl_summary_lines<A>(s: &BrlSummary, amount: A) -> (lines: Vec<SummaryLine>) where
    A: Fn(Money) -> String,

    requires
        forall|m: Money| #[trigger] amount.requires((m,)),
    ensures
        lines@.len() == 6,
        is_summary_line(lines@[0], "Starting balance"@, "R$ "@, s.starting_balance, amount),
        is_summary_line(lines@[1], counted("Transfers in"@, s.transfer_in_count), "R$ "@, s.transfer_in_total, amount),
        is_summary_line(lines@[2], counted("Purchases"@, s.purchase_count), "-R$ "@, s.purchase_total, amount),
        is_summary_line(lines@[3], counted("Cash gifts"@, s.gift_count), "-R$ "@, s.gift_total, amount),
        is_summary_line(lines@[4], "Net"@, "R$ "@, s.net, amount),
        is_summary_line(lines@[5], "Ending balance"@, "R$ "@, s.ending_balance, amount),
{
    let mut lines: Vec<SummaryLine> = Vec::new();
    lines.push(summary_line(String::from_str("Starting balance"), "R$ ", s.starting_balance, &amount));
    lines.push(summary_line(counted_label("Transfers in", s.transfer_in_count), "R$ ", s.transfer_in_total, &amount));
    lines.push(summary_line(counted_label("Purchases", s.purchase_count), "-R$ ", s.purchase_total, &amount));
    lines.push(summary_line(counted_label("Cash gifts", s.gift_count), "-R$ ", s.gift_total, &amount));
    lines.push(summary_line(String::from_str("Net"), "R$ ", s.net, &amount));
    lines.push(summary_line(String::from_str("Ending balance"), "R$ ", s.ending_balance, &amount));
    lines
}

} // verus!
