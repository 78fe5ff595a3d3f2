use adm_sfa::model::inventory::{InventoryItemRow, ItemStatus, Location, SourceType};
use adm_sfa::model::outbound::OutboundEventRow;
use adm_sfa::model::transaction::{BrlTxRow, BrlTxType, EurTxRow, EurTxType};
use adm_sfa::money::{money_to_string, Money};
use adm_sfa::reporting::{build_audit_entries, eur_summary, DocCount, DonorRow, OutboundAuditInfo, ReportLabels};
use adm_sfa::web::report_tables::{
    audit_table, brl_summary_lines, brl_table, donors_table, eur_summary_lines, eur_table, inventory_table,
    outbound_table,
};

fn amount(n: i64) -> Money {
    Money { mantissa: n as i128 * 100, scale: 2 }
}

fn labels() -> ReportLabels {
    ReportLabels {
        anonymous: "Anonymous".to_string(),
        eur_to_brl_transfer: "EUR→BRL transfer".to_string(),
        donation_in: "Donation".to_string(),
        self_funding_in: "Self-funding".to_string(),
        purchase_out: "Purchase".to_string(),
        transfer_to_brl_out: "Transfer to BRL".to_string(),
        transfer_in: "Transfer in".to_string(),
        brazil_purchase_out: "Purchase".to_string(),
        cash_gift_out: "Cash gift".to_string(),
    }
}

fn eur_row(id: i64, date: &str, tx_type: EurTxType, n: i64, donor_name: Option<&str>) -> EurTxRow {
    EurTxRow {
        id,
        date: date.to_string(),
        tx_type,
        amount: amount(n),
        donor_id: None,
        donor_name: donor_name.map(|s| s.to_string()),
        purchase_channel: None,
        note: None,
        linked_purchase_id: None,
        linked_transfer_id: None,
    }
}

fn brl_row(id: i64, date: &str, tx_type: BrlTxType, n: i64) -> BrlTxRow {
    BrlTxRow {
        id,
        date: date.to_string(),
        tx_type,
        amount: amount(n),
        note: None,
        linked_transfer_id: None,
        linked_purchase_id: None,
        linked_outbound_event_id: None,
        purchase_channel: None,
        recipient_name: Some("Projeto".to_string()),
    }
}

fn fmt(m: Money) -> String {
    money_to_string(m)
}

fn dotted(d: &String) -> String {
    format!("<{d}>")
}

#[test]
fn eur_table_shows_the_period_with_signed_amounts() {
    let rows = vec![
        eur_row(1, "2025-12-31", EurTxType::DonationIn, 5, Some("Ana")),
        eur_row(2, "2026-01-05", EurTxType::DonationIn, 10, None),
        eur_row(3, "2026-01-06", EurTxType::PurchaseOut, 4, None),
    ];
    let (headers, table) = eur_table(&rows, "2026-01-01", "", &labels(), dotted, fmt, |t: EurTxType| format!("{t:?}"));
    assert_eq!(headers, vec!["Date", "Type", "Description", "Amount"]);
    assert_eq!(table.len(), 2);
    assert_eq!(table[0], vec!["<2026-01-05>", "DonationIn", "Anonymous", "10.00"]);
    assert_eq!(table[1], vec!["<2026-01-06>", "PurchaseOut", "", "-4.00"]);
}

#[test]
fn brl_table_describes_cash_gifts_by_recipient() {
    let rows = vec![
        brl_row(1, "2026-02-01", BrlTxType::TransferIn, 100),
        brl_row(2, "2026-02-02", BrlTxType::CashGiftOut, 30),
    ];
    let (_, table) = brl_table(&rows, "", "", &labels(), dotted, fmt, |t: BrlTxType| format!("{t:?}"));
    assert_eq!(table[0], vec!["<2026-02-01>", "TransferIn", "EUR→BRL transfer", "100.00"]);
    assert_eq!(table[1], vec!["<2026-02-02>", "CashGiftOut", "Projeto", "-30.00"]);
}

fn event(id: i64, date: &str, recipient: i64, cash: Option<i64>) -> OutboundEventRow {
    OutboundEventRow {
        id,
        date: date.to_string(),
        recipient_project_id: recipient,
        recipient_name: format!("Project {recipient}"),
        cash_amount_brl: cash.map(amount),
        notes: None,
        item_count: 2,
    }
}

#[test]
fn outbound_table_applies_the_recipient_filter() {
    let rows = vec![event(1, "2026-03-01", 7, Some(50)), event(2, "2026-03-02", 8, None), event(3, "2026-03-03", 7, None)];
    let (headers, table) = outbound_table(&rows, "", "", Some(7), dotted, fmt);
    assert_eq!(headers, vec!["Date", "Recipient", "Items", "Cash"]);
    assert_eq!(table.len(), 2);
    assert_eq!(table[0], vec!["<2026-03-01>", "Project 7", "2", "50.00"]);
    assert_eq!(table[1], vec!["<2026-03-03>", "Project 7", "2", ""]);
    let (_, all) = outbound_table(&rows, "2026-03-02", "2026-03-02", None, dotted, fmt);
    assert_eq!(all.len(), 1);
}

#[test]
fn inventory_table_lists_every_item() {
    let items = vec![InventoryItemRow {
        id: 1,
        name: "Deck".to_string(),
        category_id: 1,
        category_name: "Decks".to_string(),
        source_type: SourceType::Purchase,
        source_donation_id: None,
        source_purchase_id: Some(3),
        source_desc: "eBay".to_string(),
        acquired_date: None,
        location: Location::Brazil,
        status: ItemStatus::Reserved,
        notes: None,
    }];
    let (headers, table) = inventory_table(
        &items,
        |s: ItemStatus| s.as_str().to_string(),
        |l: Location| l.as_str().to_string(),
    );
    assert_eq!(headers.len(), 6);
    assert_eq!(table[0], vec!["Deck", "Decks", "reserved", "brazil", "Purchase", "eBay"]);
}

#[test]
fn donors_table_writes_counts_and_totals() {
    let rows = vec![DonorRow { name: "Ana".to_string(), cash_count: 2, cash_total: amount(15), item_count: 0 }];
    let (headers, table) = donors_table(&rows, fmt);
    assert_eq!(headers, vec!["Donor", "Cash gifts", "Cash total", "Items donated"]);
    assert_eq!(table[0], vec!["Ana", "2", "15.00", "0"]);
}

#[test]
fn audit_table_blanks_zero_doc_counts_and_uses_the_outbound_text() {
    let eur = vec![eur_row(1, "2026-01-01", EurTxType::DonationIn, 10, Some("Ana"))];
    let outbound = vec![event(4, "2026-01-02", 7, Some(20))];
    let counts = vec![DocCount { record_type: "eur_transaction".to_string(), record_id: 1, count: 0 }];
    let entries = build_audit_entries(&eur, &[], &outbound, &counts, "", "", None, &labels());
    let (headers, table) = audit_table(&entries, dotted, fmt, |o: &OutboundAuditInfo| {
        ("Outbound".to_string(), "Donation".to_string(), format!("{} items to {}", o.item_count, o.recipient_name))
    });
    assert_eq!(headers.len(), 6);
    assert_eq!(table.len(), 2);
    assert_eq!(table[0][0], "<2026-01-02>");
    assert_eq!(table[0][3], "2 items to Project 7");
    assert_eq!(table[1][3], "Ana");
    assert_eq!(table[1][5], "");
}

#[test]
fn summary_lines_prefix_the_currency_and_negate_outflows() {
    let rows = vec![
        eur_row(1, "2026-01-01", EurTxType::DonationIn, 10, None),
        eur_row(2, "2026-01-02", EurTxType::PurchaseOut, 4, None),
    ];
    let s = eur_summary(&rows, "", "");
    let lines = eur_summary_lines(&s, fmt);
    assert_eq!(lines.len(), 7);
    assert_eq!(lines[1].label, "Donations (1)");
    assert_eq!(lines[1].value, "\u{20ac} 10.00");
    assert_eq!(lines[3].label, "Purchases (1)");
    assert_eq!(lines[3].value, "-\u{20ac} 4.00");
    assert_eq!(lines[6].label, "Ending balance");
    let brl = adm_sfa::reporting::brl_summary(&[brl_row(1, "2026-01-01", BrlTxType::TransferIn, 100)], "", "");
    let lines = brl_summary_lines(&brl, fmt);
    assert_eq!(lines.len(), 6);
    assert_eq!(lines[1].label, "Transfers in (1)");
    assert_eq!(lines[1].value, "R$ 100.00");
}

#[test]
fn the_eur_ledger_list_shows_oldest_first_and_only_hand_entries_editable() {
    let rows = vec![
        eur_row(3, "2026-01-06", EurTxType::PurchaseOut, 4, None),
        eur_row(2, "2026-01-05", EurTxType::DonationIn, 10, Some("Ana")),
    ];
    let list = adm_sfa::web::eur_ledger::ledger_rows(&rows, dotted, fmt, |t: EurTxType| format!("{t:?}"));
    assert_eq!(list.len(), 2);
    assert_eq!(list[0].id, 2);
    assert_eq!(list[0].sign, "+");
    assert_eq!(list[0].desc, "Ana");
    assert!(list[0].editable);
    assert_eq!(list[1].id, 3);
    assert_eq!(list[1].sign, "-");
    assert_eq!(list[1].amount_display, "4.00");
    assert!(!list[1].editable);
}

#[test]
fn the_brl_ledger_list_shows_oldest_first() {
    let rows = vec![
        brl_row(2, "2026-02-02", BrlTxType::CashGiftOut, 30),
        brl_row(1, "2026-02-01", BrlTxType::TransferIn, 100),
    ];
    let list = adm_sfa::web::brl_ledger::ledger_rows(&rows, dotted, fmt, |t: BrlTxType| format!("{t:?}"));
    assert_eq!(list[0].date_display, "<2026-02-01>");
    assert_eq!(list[0].sign, "+");
    assert_eq!(list[0].desc, "");
    assert_eq!(list[1].type_label, "CashGiftOut");
    assert_eq!(list[1].desc, "Projeto");
}
