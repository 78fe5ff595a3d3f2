use adm_sfa::model::donor::Donor;
use adm_sfa::model::outbound::OutboundEventRow;
use adm_sfa::model::transaction::{BrlTxRow, BrlTxType, EurTxRow, EurTxType};
use adm_sfa::money::{money_to_string, Money};
use adm_sfa::reporting::{
    brl_summary, build_audit_entries, build_donor_rows, compute_balance, donor_or_anonymous,
    eur_summary, in_range, lookup_doc_count, DocCount, OutboundAuditInfo, ReportLabels,
};
use rust_decimal::Decimal;

fn amount(n: i64) -> Money {
    Money {
        mantissa: n as i128,
        scale: 0,
    }
}

fn value(m: &Money) -> Decimal {
    Decimal::from_i128_with_scale(m.mantissa, m.scale)
}

fn labels() -> ReportLabels {
    ReportLabels {
        anonymous: "Anonymous".to_string(),
        eur_to_brl_transfer: "EUR→BRL transfer".to_string(),
        donation_in: "Donation".to_string(),
        self_funding_in: "Self-funding".to_string(),
        purchase_out: "Purchase".to_string(),
        transfer_to_brl_out: "Transfer to BRL".to_string(),
        transfer_in: "Transfer in".to_string(),
        brazil_purchase_out: "Purchase".to_string(),
        cash_gift_out: "Cash gift".to_string(),
    }
}

fn eur_row(id: i64, date: &str, tx_type: EurTxType, amount: Money, donor_id: Option<i64>) -> EurTxRow {
    EurTxRow {
        id,
        date: date.to_string(),
        tx_type,
        amount,
        donor_id,
        donor_name: None,
        purchase_channel: None,
        note: None,
        linked_purchase_id: None,
        linked_transfer_id: None,
    }
}

fn brl_row(id: i64, date: &str, tx_type: BrlTxType, amount: Money) -> BrlTxRow {
    BrlTxRow {
        id,
        date: date.to_string(),
        tx_type,
        amount,
        note: None,
        linked_transfer_id: None,
        linked_purchase_id: None,
        linked_outbound_event_id: None,
        purchase_channel: None,
        recipient_name: None,
    }
}

fn donor(id: i64, name: &str) -> Donor {
    Donor {
        id,
        name: name.to_string(),
        contact_info: None,
        notes: None,
    }
}

#[test]
fn in_range_treats_empty_bound_as_unbounded() {
    assert!(in_range("2026-06-15", "", ""));
    assert!(in_range("2026-06-15", "2026-01-01", ""));
    assert!(in_range("2026-06-15", "", "2026-12-31"));
}

#[test]
fn in_range_is_inclusive_on_both_boundaries() {
    assert!(in_range("2026-01-01", "2026-01-01", "2026-12-31"));
    assert!(in_range("2026-12-31", "2026-01-01", "2026-12-31"));
    assert!(!in_range("2025-12-31", "2026-01-01", "2026-12-31"));
    assert!(!in_range("2027-01-01", "2026-01-01", "2026-12-31"));
}

#[test]
fn compute_balance_sums_inflows_minus_outflows() {
    let flows = vec![(true, amount(100)), (false, amount(30)), (true, amount(5))];
    assert_eq!(value(&compute_balance(&flows)), Decimal::from(75));
}

#[test]
fn compute_balance_of_nothing_is_zero() {
    assert_eq!(value(&compute_balance(&[])), Decimal::ZERO);
}

#[test]
fn compute_balance_adds_across_scales() {
    let flows = vec![
        (true, Money { mantissa: 1050, scale: 2 }),
        (false, Money { mantissa: 5, scale: 1 }),
    ];
    assert_eq!(value(&compute_balance(&flows)), Decimal::from(10));
}

#[test]
fn donor_or_anonymous_falls_back_on_none() {
    assert_eq!(donor_or_anonymous(&Some("Ana".to_string()), "Anonymous"), "Ana");
    assert_eq!(donor_or_anonymous(&None, "Anonymous"), "Anonymous");
}

#[test]
fn build_donor_rows_omits_donors_with_no_activity_in_range() {
    let donors = vec![donor(1, "Active"), donor(2, "Inactive")];
    let eur_rows = vec![eur_row(1, "2026-06-01", EurTxType::DonationIn, amount(50), Some(1))];
    let rows = build_donor_rows(&donors, &eur_rows, &[], "", "", "Anonymous");
    assert_eq!(rows.len(), 1);
    assert_eq!(rows[0].name, "Active");
    assert_eq!(value(&rows[0].cash_total), Decimal::from(50));
}

#[test]
fn build_donor_rows_buckets_anonymous_activity_separately() {
    let eur_rows = vec![eur_row(1, "2026-06-01", EurTxType::DonationIn, amount(20), None)];
    let rows = build_donor_rows(&[], &eur_rows, &[], "", "", "Anonymous");
    assert_eq!(rows.len(), 1);
    assert_eq!(rows[0].name, "Anonymous");
    assert_eq!(value(&rows[0].cash_total), Decimal::from(20));
}

#[test]
fn build_donor_rows_respects_date_range() {
    let donors = vec![donor(1, "Donor")];
    let eur_rows = vec![eur_row(1, "2026-01-01", EurTxType::DonationIn, amount(50), Some(1))];
    let rows = build_donor_rows(&donors, &eur_rows, &[], "2026-06-01", "2026-12-31", "Anonymous");
    assert!(rows.is_empty(), "donation before the range must not count");
}

#[test]
fn eur_summary_starting_balance_is_the_pre_range_running_total() {
    let rows = vec![
        eur_row(1, "2026-01-01", EurTxType::DonationIn, amount(100), None),
        eur_row(2, "2026-06-01", EurTxType::PurchaseOut, amount(30), None),
    ];
    let s = eur_summary(&rows, "2026-06-01", "2026-12-31");
    assert_eq!(value(&s.starting_balance), Decimal::from(100), "only the Jan row precedes the range");
    assert_eq!(s.purchase_count, 1);
    assert_eq!(value(&s.purchase_total), Decimal::from(30));
    assert_eq!(value(&s.net), Decimal::from(-30));
    assert_eq!(value(&s.ending_balance), Decimal::from(70));
}

#[test]
fn eur_summary_with_no_lower_bound_has_zero_starting_balance() {
    let rows = vec![eur_row(1, "2026-01-01", EurTxType::DonationIn, amount(100), None)];
    let s = eur_summary(&rows, "", "");
    assert_eq!(value(&s.starting_balance), Decimal::ZERO);
    assert_eq!(s.donation_count, 1);
    assert_eq!(value(&s.ending_balance), Decimal::from(100));
}

#[test]
fn brl_summary_computes_net_across_all_three_types() {
    let rows = vec![
        brl_row(1, "2026-01-01", BrlTxType::TransferIn, amount(1000)),
        brl_row(2, "2026-01-02", BrlTxType::BrazilPurchaseOut, amount(200)),
        brl_row(3, "2026-01-03", BrlTxType::CashGiftOut, amount(50)),
    ];
    let s = brl_summary(&rows, "", "");
    assert_eq!(value(&s.net), Decimal::from(750));
    assert_eq!(value(&s.ending_balance), Decimal::from(750));
}

#[test]
fn build_audit_entries_sorts_newest_first_and_looks_up_docs() {
    let mut purchase = eur_row(1, "2026-01-01", EurTxType::PurchaseOut, amount(30), None);
    purchase.linked_purchase_id = Some(9);
    let eur_rows = vec![purchase];
    let brl_rows = vec![brl_row(1, "2026-06-01", BrlTxType::TransferIn, amount(100))];
    let doc_counts = vec![DocCount {
        record_type: "purchase".to_string(),
        record_id: 9,
        count: 3,
    }];

    let entries = build_audit_entries(&eur_rows, &brl_rows, &[], &doc_counts, "", "", None, &labels());

    assert_eq!(entries.len(), 2);
    assert_eq!(entries[0].date, "2026-06-01", "newest first");
    assert_eq!(entries[1].date, "2026-01-01");
    assert_eq!(entries[1].docs, 3, "doc count looked up via linked_purchase_id");
}

#[test]
fn build_audit_entries_recipient_filter_only_affects_cash_gift_rows() {
    let mut gift = brl_row(1, "2026-01-01", BrlTxType::CashGiftOut, amount(50));
    gift.linked_outbound_event_id = Some(1);
    let brl_rows = vec![gift, brl_row(2, "2026-01-02", BrlTxType::TransferIn, amount(1000))];
    let outbound_rows = vec![OutboundEventRow {
        id: 1,
        date: "2026-01-01".to_string(),
        recipient_project_id: 42,
        recipient_name: "Other Project".to_string(),
        cash_amount_brl: Some(amount(50)),
        notes: None,
        item_count: 1,
    }];

    // Filtering by a different recipient (7) must drop the cash-gift row
    // (linked to project 42) but keep the unrelated TransferIn row.
    let entries = build_audit_entries(&[], &brl_rows, &outbound_rows, &[], "", "", Some(7), &labels());
    assert_eq!(entries.len(), 1);
    assert_eq!(entries[0].date, "2026-01-02");
}

#[test]
fn build_audit_entries_keeps_same_date_rows_in_input_order() {
    let eur_rows = vec![
        eur_row(1, "2026-03-01", EurTxType::DonationIn, amount(10), None),
        eur_row(2, "2026-03-01", EurTxType::SelfFundingIn, amount(20), None),
    ];
    let entries = build_audit_entries(&eur_rows, &[], &[], &[], "", "", None, &labels());
    assert_eq!(entries.len(), 2);
    assert_eq!(value(&entries[0].amount.as_ref().unwrap().value), Decimal::from(10));
    assert_eq!(entries[0].amount.as_ref().unwrap().sign, "+");
    assert_eq!(entries[0].description, "Anonymous");
    assert_eq!(value(&entries[1].amount.as_ref().unwrap().value), Decimal::from(20));
}

#[test]
fn build_audit_entries_drops_a_zero_cash_gift_on_outbound_rows() {
    let outbound_rows = vec![OutboundEventRow {
        id: 1,
        date: "2026-01-01".to_string(),
        recipient_project_id: 42,
        recipient_name: "Projeto".to_string(),
        cash_amount_brl: Some(amount(0)),
        notes: None,
        item_count: 2,
    }];
    let entries = build_audit_entries(&[], &[], &outbound_rows, &[], "", "", None, &labels());
    assert_eq!(entries.len(), 1);
    let info = entries[0].outbound.as_ref().unwrap();
    assert!(info.cash.is_none());
    assert_eq!(info.item_count, 2);
    assert!(entries[0].ledger_kind.is_none());
}

fn huge() -> Money {
    Money { mantissa: 79_228_162_514_264_337_593_543_950_335, scale: 0 }
}

#[test]
fn checked_summaries_report_an_overflowing_total_as_none() {
    let rows = vec![
        eur_row(1, "2026-01-01", EurTxType::DonationIn, huge(), None),
        eur_row(2, "2026-01-02", EurTxType::DonationIn, huge(), None),
    ];
    assert!(adm_sfa::reporting::checked_eur_summary(&rows, "", "").is_none());
    let fine = vec![eur_row(1, "2026-01-01", EurTxType::DonationIn, amount(7), None)];
    let s = adm_sfa::reporting::checked_eur_summary(&fine, "", "").unwrap();
    assert_eq!(value(&s.ending_balance), Decimal::from(7));
    let brl = vec![brl_row(1, "2026-01-01", BrlTxType::TransferIn, huge()), brl_row(2, "2026-01-01", BrlTxType::TransferIn, huge())];
    assert!(adm_sfa::reporting::checked_brl_summary(&brl, "", "").is_none());
    let brl = vec![brl_row(1, "2026-01-01", BrlTxType::TransferIn, amount(3))];
    assert_eq!(value(&adm_sfa::reporting::checked_brl_summary(&brl, "", "").unwrap().net), Decimal::from(3));
}

#[test]
fn checked_donor_rows_report_an_overflowing_total_as_none() {
    let donors = vec![donor(1, "Ana")];
    let rows = vec![
        eur_row(1, "2026-01-01", EurTxType::DonationIn, huge(), Some(1)),
        eur_row(2, "2026-01-02", EurTxType::DonationIn, huge(), Some(1)),
    ];
    assert!(adm_sfa::reporting::checked_donor_rows(&donors, &rows, &[], "", "", "Anonymous").is_none());
    let rows = vec![eur_row(1, "2026-01-01", EurTxType::DonationIn, amount(5), Some(1))];
    let r = adm_sfa::reporting::checked_donor_rows(&donors, &rows, &[], "", "", "Anonymous").unwrap();
    assert_eq!(r.len(), 1);
    assert_eq!(r[0].name, "Ana");
}

fn audit_one(recipient: &String) -> String {
    format!("1 item donated to {recipient}")
}

fn audit_other(count: i64, recipient: &String) -> String {
    format!("{count} items donated to {recipient}")
}

fn audit_cash(cash: Money) -> String {
    format!(" + cash gift of R$ {:.2}", value(&cash))
}

#[test]
fn outbound_audit_text_uses_singular_for_one_item() {
    let info = OutboundAuditInfo { item_count: 1, recipient_name: "Projeto Teste".to_string(), cash: None };
    let (ledger, kind, description) =
        adm_sfa::reporting::outbound_audit_text(&info, "Outbound", "Donation", audit_one, audit_other, audit_cash);
    assert!(description.contains("Projeto Teste"));
    assert!(!description.contains("cash gift"));
    assert_eq!(description, "1 item donated to Projeto Teste");
    assert_eq!((ledger.as_str(), kind.as_str()), ("Outbound", "Donation"));
}

#[test]
fn outbound_audit_text_appends_cash_suffix_when_present() {
    let info = OutboundAuditInfo { item_count: 2, recipient_name: "Projeto Teste".to_string(), cash: Some(amount(5)) };
    let (_, _, description) =
        adm_sfa::reporting::outbound_audit_text(&info, "Outbound", "Donation", audit_one, audit_other, audit_cash);
    assert!(description.contains("cash gift"), "{description}");
    assert!(description.contains("5.00"), "{description}");
    assert!(description.starts_with("2 items donated to Projeto Teste"));
}

fn cents(n: i64) -> Money {
    Money { mantissa: n as i128, scale: 2 }
}

#[test]
fn the_balance_of_two_ledgers_is_the_sum_of_theirs_in_either_order() {
    let a = [(true, cents(1050)), (false, cents(325))];
    let b = [(false, cents(100)), (true, cents(5))];
    let ab: Vec<(bool, Money)> = a.iter().chain(b.iter()).copied().collect();
    let ba: Vec<(bool, Money)> = b.iter().chain(a.iter()).copied().collect();
    let whole = compute_balance(&ab);
    assert_eq!(value(&whole), value(&compute_balance(&a)) + value(&compute_balance(&b)));
    assert_eq!(value(&whole), value(&compute_balance(&ba)));
    assert_eq!((whole.mantissa, whole.scale), (630, 2));
}

#[test]
fn the_eur_ending_balance_is_the_whole_ledger_balance_whatever_the_lower_bound() {
    let rows = vec![
        eur_row(1, "2026-01-10", EurTxType::DonationIn, cents(10000), None),
        eur_row(2, "2026-03-05", EurTxType::PurchaseOut, cents(2550), None),
        eur_row(3, "2026-06-01", EurTxType::SelfFundingIn, cents(500), None),
        eur_row(4, "2026-09-30", EurTxType::TransferToBrlOut, cents(4000), None),
    ];
    let flows: Vec<(bool, Money)> = rows.iter().map(|r| (r.tx_type.is_inflow(), r.amount)).collect();
    let whole = value(&compute_balance(&flows));
    assert_eq!(whole, Decimal::new(3950, 2));
    for from in ["", "2026-01-01", "2026-03-05", "2026-06-02", "2027-01-01"] {
        assert_eq!(value(&eur_summary(&rows, from, "").ending_balance), whole, "from {from}");
    }
}

#[test]
fn money_is_written_as_decimal_display_writes_it() {
    assert_eq!(money_to_string(Money { mantissa: 5, scale: 2 }), "0.05");
    assert_eq!(money_to_string(Money { mantissa: -150, scale: 2 }), "-1.50");
    assert_eq!(money_to_string(Money { mantissa: 0, scale: 0 }), "0");
    assert_eq!(money_to_string(Money { mantissa: 0, scale: 2 }), "0.00");
    assert_eq!(money_to_string(Money { mantissa: 12345, scale: 0 }), "12345");
    assert_eq!(money_to_string(Money { mantissa: 12345, scale: 1 }), "1234.5");
}

#[test]
fn a_document_count_is_read_by_its_record() {
    let counts = vec![
        DocCount { record_type: "purchase".to_string(), record_id: 1, count: 2 },
        DocCount { record_type: "transfer".to_string(), record_id: 1, count: 5 },
    ];
    assert_eq!(lookup_doc_count(&counts, "transfer", 1), 5);
    assert_eq!(lookup_doc_count(&counts, "purchase", 1), 2);
    assert_eq!(lookup_doc_count(&counts, "purchase", 3), 0);
}

#[test]
fn balances_add_exactly_across_scales() {
    let a = [(true, Money { mantissa: 15, scale: 1 }), (true, amount(2))];
    let b = [(false, Money { mantissa: 25, scale: 2 }), (true, Money { mantissa: 1, scale: 3 })];
    let ab: Vec<(bool, Money)> = a.iter().chain(b.iter()).copied().collect();
    let ba: Vec<(bool, Money)> = b.iter().chain(a.iter()).copied().collect();
    let whole = compute_balance(&ab);
    assert_eq!((whole.mantissa, whole.scale), (3251, 3));
    assert_eq!(value(&whole), value(&compute_balance(&a)) + value(&compute_balance(&b)));
    assert_eq!(value(&whole), value(&compute_balance(&ba)));
}

#[test]
fn the_eur_ending_balance_is_the_whole_ledger_balance_across_scales() {
    let rows = vec![
        eur_row(1, "2026-01-10", EurTxType::DonationIn, Money { mantissa: 15, scale: 1 }, None),
        eur_row(2, "2026-03-05", EurTxType::SelfFundingIn, amount(2), None),
        eur_row(3, "2026-06-01", EurTxType::PurchaseOut, Money { mantissa: 125, scale: 2 }, None),
    ];
    let flows: Vec<(bool, Money)> = rows.iter().map(|r| (r.tx_type.is_inflow(), r.amount)).collect();
    let whole = value(&compute_balance(&flows));
    assert_eq!(whole, Decimal::new(225, 2));
    for from in ["", "2026-02-01", "2026-06-01", "2027-01-01"] {
        assert_eq!(value(&eur_summary(&rows, from, "").ending_balance), whole, "from {from}");
    }
}
