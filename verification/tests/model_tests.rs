use adm_sfa::forms::{default_doc_label, failed_attachments, purchase_form_ok};
use adm_sfa::service::AttachmentOutcome;
use adm_sfa::model::inventory::{InventoryItemDraft, ItemStatus, Location, SourceType};
use adm_sfa::model::purchase::{Currency, PurchaseDraft, PurchaseStatus};
use adm_sfa::model::transaction::{BrlTxType, EurTxType};
use adm_sfa::money::Money;
use adm_sfa::queries::inventory::{
    donated_edit_allowed, item_row_from_raw, purchase_conflict_message, purchase_source_to_check, single_item_conflict,
    RawInventoryRow,
};
use adm_sfa::queries::outbound::{cash_gift_entry, link_items, may_link_item, parse_cash, require_gift};
use adm_sfa::queries::transfers::{checked_multiply, parse_amount, positive_amount};
use std::cell::RefCell;
use adm_sfa::queries::{opt, require_name};

#[test]
fn enums_round_trip_through_their_stored_identifiers() {
    for l in [Location::Germany, Location::Brazil] {
        assert_eq!(Location::from_str(l.as_str()), Some(l));
    }
    for s in [ItemStatus::Available, ItemStatus::Reserved, ItemStatus::Donated] {
        assert_eq!(ItemStatus::from_str(s.as_str()), Some(s));
    }
    for t in [SourceType::Donation, SourceType::Purchase] {
        assert_eq!(SourceType::from_str(t.as_str()), Some(t));
    }
    for c in [Currency::Eur, Currency::Brl] {
        assert_eq!(Currency::from_str(c.as_str()), Some(c));
    }
    for s in [PurchaseStatus::Negotiating, PurchaseStatus::Bought] {
        assert_eq!(PurchaseStatus::from_str(s.as_str()), Some(s));
    }
    assert_eq!(Location::from_str("Germany"), None);
    assert_eq!(ItemStatus::from_str(""), None);
    assert_eq!(Currency::Eur.symbol(), "€");
    assert_eq!(Currency::Brl.symbol(), "R$");
}

#[test]
fn transaction_types_know_their_direction() {
    assert!(EurTxType::DonationIn.is_inflow());
    assert!(EurTxType::SelfFundingIn.is_inflow());
    assert!(!EurTxType::PurchaseOut.is_inflow());
    assert!(!EurTxType::TransferToBrlOut.is_inflow());
    assert!(BrlTxType::TransferIn.is_inflow());
    assert!(!BrlTxType::CashGiftOut.is_inflow());
    assert_eq!(BrlTxType::CashGiftOut.label_key(), "status.brl_tx.cash_gift_out");
}

#[test]
fn a_default_purchase_draft_is_dated_today() {
    let d = PurchaseDraft::default();
    let today = chrono::Local::now().format("%d.%m.%Y").to_string();
    assert_eq!(d.date, today);
    assert_eq!(d.currency, Currency::Eur);
    assert_eq!(d.status, PurchaseStatus::Bought);
    assert!(!d.multiple_items);
    assert!(d.cost_str.is_empty());
}

fn raw(source_type: &str, location: &str, status: &str) -> RawInventoryRow {
    RawInventoryRow {
        id: 5,
        name: "Deck".to_string(),
        category_id: 2,
        category_name: "Decks".to_string(),
        source_type: source_type.to_string(),
        source_donation_id: Some(8),
        source_purchase_id: None,
        donor_name: None,
        date_received: Some("2026-02-03".to_string()),
        purchase_channel: None,
        purchase_date: Some("2026-05-05".to_string()),
        location: location.to_string(),
        status: status.to_string(),
        notes: None,
    }
}

#[test]
fn acquired_date_comes_from_the_matching_source_table() {
    let row = item_row_from_raw(raw("donation", "germany", "available")).ok().unwrap();
    assert_eq!(row.acquired_date, Some("2026-02-03".to_string()));
    assert_eq!(row.source_desc, "Anonymous donation (2026-02-03)");
    let row = item_row_from_raw(raw("purchase", "brazil", "donated")).ok().unwrap();
    assert_eq!(row.acquired_date, Some("2026-05-05".to_string()));
    assert_eq!(row.source_desc, "Purchase");
    assert_eq!(row.location, Location::Brazil);
    assert_eq!(row.status, ItemStatus::Donated);
}

fn rejected_column(r: RawInventoryRow) -> (usize, String) {
    match item_row_from_raw(r) {
        Err(e) => (e.column, e.value),
        Ok(_) => panic!("expected the row to be rejected"),
    }
}

#[test]
fn an_unknown_stored_value_names_its_column() {
    assert_eq!(rejected_column(raw("gift", "germany", "available")), (4, "gift".to_string()));
    assert_eq!(rejected_column(raw("donation", "mars", "available")), (10, "mars".to_string()));
    assert_eq!(rejected_column(raw("donation", "germany", "lost")), (11, "lost".to_string()));
}

#[test]
fn only_purchase_sourced_items_check_the_single_item_rule() {
    let mut draft = InventoryItemDraft {
        name: "Deck".to_string(),
        category_id: Some(1),
        source_type: SourceType::Purchase,
        source_donation_id: None,
        source_purchase_id: Some(4),
        location: Location::Germany,
        status: ItemStatus::Available,
        notes: String::new(),
    };
    assert_eq!(purchase_source_to_check(&draft), Some(4));
    draft.source_type = SourceType::Donation;
    assert_eq!(purchase_source_to_check(&draft), None);
    assert_eq!(
        purchase_conflict_message("eBay"),
        "purchase (eBay) is single-item and already linked to another item"
    );
}

#[test]
fn an_event_with_no_items_and_no_cash_is_rejected() {
    assert_eq!(
        require_gift(&[], None),
        Err("an outbound event needs at least one item or a cash amount".to_string())
    );
}

#[test]
fn a_cash_only_gift_with_no_items_is_allowed() {
    assert_eq!(require_gift(&[], Some(Money { mantissa: 5000, scale: 2 })), Ok(()));
    assert_eq!(require_gift(&[3], None), Ok(()));
}

#[test]
fn a_zero_cash_amount_with_no_items_is_still_rejected() {
    assert!(require_gift(&[], Some(Money { mantissa: 0, scale: 2 })).is_err());
    assert!(require_gift(&[], Some(Money { mantissa: -100, scale: 2 })).is_err());
}

#[test]
fn only_a_positive_cash_amount_becomes_a_ledger_entry() {
    let m = cash_gift_entry(Some(Money { mantissa: 250, scale: 1 })).unwrap();
    assert_eq!((m.mantissa, m.scale), (250, 1));
    assert!(cash_gift_entry(Some(Money { mantissa: 0, scale: 0 })).is_none());
    assert!(cash_gift_entry(None).is_none());
}

#[test]
fn only_available_items_may_be_linked() {
    assert!(may_link_item("available"));
    assert!(!may_link_item("donated"));
    assert!(!may_link_item("reserved"));
}

#[test]
fn blank_name_is_rejected_on_insert() {
    assert_eq!(require_name("category name", "   "), Err("category name must not be empty".to_string()));
    assert_eq!(require_name("category name", "  Decks "), Ok("Decks"));
}

#[test]
fn blank_optional_text_becomes_none() {
    assert_eq!(opt("  "), None);
    assert_eq!(opt(" note "), Some("note"));
}

#[test]
fn linking_stops_at_the_first_item_that_is_not_available() {
    let linked = RefCell::new(Vec::new());
    let status_of = |id: i64| -> Result<String, String> {
        Ok(if id == 2 { "donated".to_string() } else { "available".to_string() })
    };
    let link = |id: i64| -> Result<(), String> {
        linked.borrow_mut().push(id);
        Ok(())
    };
    assert_eq!(link_items(&[1, 3], status_of, link), Ok(()));
    assert_eq!(
        link_items(&[4, 2, 5], status_of, link),
        Err("item 2 is not available (status: \"donated\")".to_string())
    );
    assert_eq!(*linked.borrow(), vec![1, 3, 4]);
}

#[test]
fn zero_or_negative_eur_amount_is_rejected() {
    assert_eq!(parse_amount("0").err(), Some("amount must be positive: \"0\"".to_string()));
    assert_eq!(parse_amount("-100").err(), Some("amount must be positive: \"-100\"".to_string()));
}

#[test]
fn zero_or_negative_exchange_rate_is_rejected() {
    assert_eq!(parse_amount("0").err(), Some("amount must be positive: \"0\"".to_string()));
    assert_eq!(parse_amount("-5.5").err(), Some("amount must be positive: \"-5.5\"".to_string()));
}

#[test]
fn negative_amount_is_rejected_on_update() {
    assert!(parse_amount("-100").is_err());
}

#[test]
fn parse_amount_reads_a_positive_decimal_ignoring_whitespace() {
    let m = parse_amount(" 5.50 ").ok().unwrap();
    assert_eq!((m.mantissa, m.scale), (550, 2));
    assert_eq!(parse_amount("abc").err(), Some("invalid amount: \"abc\"".to_string()));
    assert_eq!(parse_amount("").err(), Some("invalid amount: \"\"".to_string()));
}

#[test]
fn positive_amount_checks_an_already_parsed_value() {
    assert_eq!(positive_amount(Some(Money { mantissa: 0, scale: 0 }), "0").err(), Some("amount must be positive: \"0\"".to_string()));
    assert_eq!(positive_amount(None, "abc").err(), Some("invalid amount: \"abc\"".to_string()));
    let m = positive_amount(Some(Money { mantissa: 55, scale: 1 }), "5.5").ok().unwrap();
    assert_eq!((m.mantissa, m.scale), (55, 1));
}

#[test]
fn amount_times_rate_overflow_is_rejected_not_a_panic() {
    let huge = parse_amount("79228162514264337593543950335").ok().unwrap();
    let rate = parse_amount("2").ok().unwrap();
    let r = checked_multiply(huge, rate);
    assert_eq!(
        r.err(),
        Some("amount \u{d7} rate overflows: 79228162514264337593543950335 \u{d7} 2".to_string())
    );
    let brl = checked_multiply(Money { mantissa: 100000, scale: 2 }, Money { mantissa: 55, scale: 1 }).ok().unwrap();
    assert_eq!(adm_sfa::money::money_to_string(brl), "5500.000");
}

#[test]
fn parse_cash_is_none_for_a_blank_field() {
    assert!(parse_cash("   ").is_none());
    assert!(parse_cash("abc").is_none());
    let m = parse_cash(" 12.5 ").unwrap();
    assert_eq!((m.mantissa, m.scale), (125, 1));
}

#[test]
fn donate_items_rejects_an_empty_gift() {
    assert!(require_gift(&[], parse_cash("")).is_err());
}

#[test]
fn blank_name_is_rejected_on_update() {
    assert!(require_name("category name", "").is_err());
    assert_eq!(require_name("category name", " Decks ").ok(), Some("Decks"));
}

fn purchase_item() -> InventoryItemDraft {
    InventoryItemDraft {
        name: "Deck".to_string(),
        category_id: Some(1),
        source_type: SourceType::Purchase,
        source_donation_id: None,
        source_purchase_id: Some(7),
        location: Location::Germany,
        status: ItemStatus::Available,
        notes: String::new(),
    }
}

#[test]
fn second_item_on_a_single_item_purchase_is_rejected() {
    assert_eq!(purchase_source_to_check(&purchase_item()), Some(7));
    assert!(!single_item_conflict(false, &[], None));
    assert!(single_item_conflict(false, &[1], None));
}

#[test]
fn second_item_on_a_multiple_items_purchase_is_allowed() {
    assert!(!single_item_conflict(true, &[], None));
    assert!(!single_item_conflict(true, &[1], None));
}

#[test]
fn editing_the_item_already_linked_to_a_single_item_purchase_does_not_conflict_with_itself() {
    assert!(!single_item_conflict(false, &[1], Some(1)));
    assert!(single_item_conflict(false, &[1, 2], Some(1)));
}

fn donated_item() -> InventoryItemDraft {
    let mut d = purchase_item();
    d.status = ItemStatus::Donated;
    d
}

#[test]
fn editing_a_locked_field_on_a_donated_item_is_rejected() {
    let mut renamed = donated_item();
    renamed.name = "Renamed deck".to_string();
    let r = donated_edit_allowed(&donated_item(), &renamed);
    assert!(r.unwrap_err().contains("already been donated"));
    let mut moved = donated_item();
    moved.category_id = Some(2);
    assert!(donated_edit_allowed(&donated_item(), &moved).is_err());
}

#[test]
fn notes_can_still_be_updated_on_a_donated_item() {
    let mut noted = donated_item();
    noted.notes = "handled with care".to_string();
    assert!(donated_edit_allowed(&donated_item(), &noted).is_ok());
    let mut renamed = purchase_item();
    renamed.name = "Renamed deck".to_string();
    assert!(donated_edit_allowed(&purchase_item(), &renamed).is_ok());
}

fn statuses(initial: &[(i64, &str)]) -> RefCell<Vec<(i64, String)>> {
    RefCell::new(initial.iter().map(|(i, s)| (*i, s.to_string())).collect())
}

fn status_in(store: &RefCell<Vec<(i64, String)>>, id: i64) -> String {
    store.borrow().iter().find(|(i, _)| *i == id).map(|(_, s)| s.clone()).unwrap()
}

fn link_into(store: &RefCell<Vec<(i64, String)>>, id: i64) {
    for e in store.borrow_mut().iter_mut() {
        if e.0 == id {
            e.1 = "donated".to_string();
        }
    }
}

#[test]
fn linking_an_available_item_marks_it_donated() {
    let store = statuses(&[(1, "available")]);
    let r = link_items(&[1], |id| Ok(status_in(&store, id)), |id| {
        link_into(&store, id);
        Ok(())
    });
    assert_eq!(r, Ok(()));
    assert_eq!(status_in(&store, 1), "donated");
}

#[test]
fn linking_an_already_donated_item_is_rejected_and_rolls_back() {
    let store = statuses(&[(1, "donated")]);
    let linked = RefCell::new(0);
    let r = link_items(&[1], |id| Ok(status_in(&store, id)), |_| {
        *linked.borrow_mut() += 1;
        Ok(())
    });
    assert!(r.is_err());
    assert_eq!(*linked.borrow(), 0);
    assert_eq!(status_in(&store, 1), "donated");
}

#[test]
fn linking_a_reserved_item_is_rejected() {
    let store = statuses(&[(1, "reserved")]);
    let r = link_items(&[1], |id| Ok(status_in(&store, id)), |id| {
        link_into(&store, id);
        Ok(())
    });
    assert_eq!(r, Err("item 1 is not available (status: \"reserved\")".to_string()));
    assert_eq!(status_in(&store, 1), "reserved");
}

#[test]
fn update_can_keep_the_same_previously_linked_item() {
    let store = statuses(&[(1, "available")]);
    let link = |id: i64| -> Result<(), String> {
        link_into(&store, id);
        Ok(())
    };
    assert_eq!(link_items(&[1], |id| Ok(status_in(&store, id)), link), Ok(()));
    // an update releases the event's items to available before relinking
    store.borrow_mut()[0].1 = "available".to_string();
    assert_eq!(link_items(&[1], |id| Ok(status_in(&store, id)), link), Ok(()));
    assert_eq!(status_in(&store, 1), "donated");
}

#[test]
fn an_unknown_discriminant_is_reported_quoted() {
    let r = item_row_from_raw(raw("gift", "germany", "available"));
    match r {
        Err(e) => assert_eq!(e.message(), "unknown discriminant: \"gift\""),
        Ok(_) => panic!("expected the row to be rejected"),
    }
}

#[test]
fn the_purchase_form_needs_a_date_a_channel_and_a_positive_cost() {
    let cost = Some(Money { mantissa: 5000, scale: 2 });
    assert!(purchase_form_ok("01.01.2026", "eBay", cost));
    assert!(!purchase_form_ok("", "eBay", cost));
    assert!(!purchase_form_ok("01.01.2026", "  ", cost));
    assert!(!purchase_form_ok("01.01.2026", "eBay", Some(Money { mantissa: 0, scale: 0 })));
    assert!(!purchase_form_ok("01.01.2026", "eBay", None));
    assert_eq!(default_doc_label(&["chat".to_string(), "ad".to_string()]), "chat");
    assert_eq!(default_doc_label(&[]), "other");
}

#[test]
fn failed_attachments_counts_the_errors() {
    let outcome = |r: Result<String, String>| AttachmentOutcome {
        source_name: "x.png".to_string(),
        label: "chat".to_string(),
        result: r,
    };
    let outcomes = vec![
        outcome(Ok("a.png".to_string())),
        outcome(Err("Copy failed".to_string())),
        outcome(Err("Unknown document label".to_string())),
    ];
    assert_eq!(failed_attachments(&outcomes), 2);
    assert_eq!(failed_attachments(&[]), 0);
}

#[test]
fn failed_entries_keep_the_failed_staged_documents_in_order() {
    let outcome = |r: Result<String, String>| AttachmentOutcome {
        source_name: "x.png".to_string(),
        label: "chat".to_string(),
        result: r,
    };
    let outcomes = vec![
        outcome(Err("first".to_string())),
        outcome(Ok("b.png".to_string())),
        outcome(Err("third".to_string())),
    ];
    let kept = adm_sfa::forms::failed_entries(vec!["a", "b", "c"], &outcomes);
    assert_eq!(kept, vec![("a", "first".to_string()), ("c", "third".to_string())]);
}
