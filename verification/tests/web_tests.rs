use adm_sfa::model::category::Category;
use adm_sfa::model::donor::{Donor, PhysicalDonation};
use adm_sfa::model::inventory::{InventoryItemRow, ItemStatus, Location, SourceType};
use adm_sfa::model::outbound::RecipientProject;
use adm_sfa::model::purchase::{Currency, Purchase, PurchaseStatus};
use adm_sfa::money::Money;
use adm_sfa::service::AttachmentOutcome;
use adm_sfa::model::transaction::EurTxType;
use adm_sfa::web::auth::password_matches;
use adm_sfa::web::eur_ledger::{
    draft_from_form as eur_draft_from_form, manual_type_from_form, manual_type_of, EurTxForm, ManualEurTxType,
};
use adm_sfa::web::inventory::{category_options, parsed_id};
use adm_sfa::web::outbound::{event_summary, item_options, outbound_form_from_pairs, parse_outbound_form, recipient_options};
use adm_sfa::web::purchases::{created_status, draft_from_form, draft_from_purchase, PurchaseForm};
use adm_sfa::web::reports::{parsed_recipient, query_string, tab_links, tab_slug};
use adm_sfa::web::{all_attached, redirect_after_create, safe_return_to, staged_label};

#[test]
fn safe_return_to_rejects_backslash_and_control_character_bypasses() {
    assert!(!safe_return_to("/\\evil.example"));
    assert!(!safe_return_to("\\/evil.example"));
    assert!(!safe_return_to("\\\\evil.example"));
    assert!(!safe_return_to("/\t/evil.example"));
    assert!(!safe_return_to("/\r\nSet-Cookie: evil"));
}

#[test]
fn safe_return_to_accepts_a_normal_relative_path_with_a_query_string() {
    assert!(safe_return_to("/eur-ledger/new?date=2026-01-01&amount_str=10.00"));
}

#[test]
fn safe_return_to_rejects_absolute_and_protocol_relative_urls() {
    assert!(!safe_return_to("https://evil.example"));
    assert!(!safe_return_to("//evil.example"));
    assert!(!safe_return_to(""));
}

#[test]
fn redirect_after_create_appends_the_new_id_to_a_safe_return_to() {
    assert_eq!(
        redirect_after_create("/eur-ledger/new?date=2026-01-01", "donor_id", 7, "/donors"),
        "/eur-ledger/new?date=2026-01-01&donor_id=7"
    );
    assert_eq!(redirect_after_create("/inventory/new", "donation_id", 12, "/donations"), "/inventory/new?donation_id=12");
}

#[test]
fn redirect_after_create_ignores_an_unsafe_or_missing_return_to() {
    assert_eq!(redirect_after_create("//evil.example", "donor_id", 7, "/donors"), "/donors");
    assert_eq!(redirect_after_create("", "donor_id", 7, "/donors"), "/donors");
}

#[test]
fn staged_label_falls_back_to_other_for_a_blank_or_missing_label() {
    assert_eq!(staged_label(Some("receipt".to_string())), "receipt");
    assert_eq!(staged_label(Some("   ".to_string())), "other");
    assert_eq!(staged_label(None), "other");
}

#[test]
fn all_attached_is_false_when_any_document_failed() {
    let ok = |n: &str| AttachmentOutcome {
        source_name: "a.png".to_string(),
        label: "chat".to_string(),
        result: Ok(n.to_string()),
    };
    let failed = AttachmentOutcome {
        source_name: "b.png".to_string(),
        label: "chat".to_string(),
        result: Err("Copy failed".to_string()),
    };
    assert!(all_attached(&[]));
    assert!(all_attached(&[ok("x.png"), ok("y.png")]));
    assert!(!all_attached(&[ok("x.png"), failed]));
}

#[test]
fn tab_slug_keeps_known_tabs_and_defaults_to_donors() {
    assert_eq!(tab_slug("audit"), "audit");
    assert_eq!(tab_slug("eur"), "eur");
    assert_eq!(tab_slug("../../etc/passwd"), "donors");
    assert_eq!(tab_slug(""), "donors");
}

#[test]
fn parsed_recipient_and_parsed_id_ignore_blank_and_garbage() {
    assert_eq!(parsed_recipient(" 42 "), Some(42));
    assert_eq!(parsed_recipient(""), None);
    assert_eq!(parsed_recipient("abc"), None);
    assert_eq!(parsed_id("-3"), Some(-3));
    assert_eq!(parsed_id("  "), None);
}

#[test]
fn query_string_encodes_the_filters_in_order() {
    assert_eq!(query_string("eur", "2026-01-01", "", None), "tab=eur&from=2026-01-01&to=");
    assert_eq!(
        query_string("audit", "01.01.2026", "a b&c", Some(3)),
        "tab=audit&from=01.01.2026&to=a+b%26c&recipient=3"
    );
}

#[test]
fn tab_links_mark_exactly_the_active_tab() {
    let links = tab_links("brl", "2026-01-01", "2026-12-31", Some(5));
    assert_eq!(links.len(), 6);
    assert_eq!(links[0].label, "Donor breakdown");
    assert_eq!(links[2].label, "BRL ledger");
    assert_eq!(links[2].href, "/reports?tab=brl&from=2026-01-01&to=2026-12-31&recipient=5");
    let active: Vec<bool> = links.iter().map(|l| l.active).collect();
    assert_eq!(active, vec![false, false, true, false, false, false]);
}

#[test]
fn outbound_form_collects_repeated_item_ids() {
    let form = parse_outbound_form(
        b"date=01.02.2026&recipient_project_id=+7+&item_ids=3&item_ids=x&item_ids=%2012&notes=two+decks&cash_amount_brl_str=10%2C50&other=1",
    );
    assert_eq!(form.date, "01.02.2026");
    assert_eq!(form.recipient_project_id, Some(7));
    assert_eq!(form.item_ids, vec![3, 12]);
    assert_eq!(form.notes, "two decks");
    assert_eq!(form.cash_amount_brl_str, "10,50");
}

#[test]
fn outbound_form_keeps_the_last_value_of_a_single_field() {
    let pairs = vec![
        ("notes".to_string(), "first".to_string()),
        ("notes".to_string(), "second".to_string()),
        ("recipient_project_id".to_string(), "".to_string()),
    ];
    let form = outbound_form_from_pairs(&pairs);
    assert_eq!(form.notes, "second");
    assert_eq!(form.recipient_project_id, None);
    assert!(form.item_ids.is_empty());
    assert_eq!(form.date, "");
}

fn purchase_form(currency: &str, multiple: bool, negotiating: bool) -> PurchaseForm {
    PurchaseForm {
        date: "01.01.2026".to_string(),
        currency: currency.to_string(),
        cost_str: "50.00".to_string(),
        channel: "Kleinanzeigen".to_string(),
        seller_info: String::new(),
        multiple_items: if multiple { Some("on".to_string()) } else { None },
        negotiating: if negotiating { Some("on".to_string()) } else { None },
    }
}

#[test]
fn purchase_draft_from_form_defaults_an_unknown_currency_to_eur() {
    let d = draft_from_form(purchase_form("BRL", true, false), PurchaseStatus::Bought);
    assert_eq!(d.currency, Currency::Brl);
    assert!(d.multiple_items);
    let d = draft_from_form(purchase_form("brl", false, false), PurchaseStatus::Negotiating);
    assert_eq!(d.currency, Currency::Eur);
    assert!(!d.multiple_items);
    assert_eq!(d.status, PurchaseStatus::Negotiating);
    assert_eq!(d.cost_str, "50.00");
}

#[test]
fn created_status_follows_the_negotiating_box() {
    assert_eq!(created_status(&purchase_form("eur", false, true)), PurchaseStatus::Negotiating);
    assert_eq!(created_status(&purchase_form("eur", false, false)), PurchaseStatus::Bought);
}

#[test]
fn draft_from_purchase_prints_the_cost_at_its_scale() {
    let p = Purchase {
        id: 1,
        date: "2026-01-01".to_string(),
        currency: Currency::Eur,
        cost: Money { mantissa: 5000, scale: 2 },
        channel: "eBay".to_string(),
        seller_info: None,
        multiple_items: false,
        status: PurchaseStatus::Negotiating,
    };
    let d = draft_from_purchase(&p);
    assert_eq!(d.cost_str, "50.00");
    assert_eq!(d.seller_info, "");
    assert_eq!(d.date, "2026-01-01");
    assert_eq!(d.status, PurchaseStatus::Negotiating);
}

#[test]
fn password_matches_only_the_exact_password() {
    assert!(password_matches("s3cret", "s3cret"));
    assert!(!password_matches("s3cret", "s3cre"));
    assert!(!password_matches("s3cret", "S3cret"));
    assert!(!password_matches("s3cret", ""));
    assert!(password_matches("", ""));
}

#[test]
fn category_options_mark_the_selected_category() {
    let cats = vec![
        Category { id: 1, name: "Decks".to_string() },
        Category { id: 2, name: "Wheels".to_string() },
    ];
    let opts = category_options(&cats, Some(2));
    assert_eq!(opts.len(), 2);
    assert!(!opts[0].selected);
    assert!(opts[1].selected);
    assert_eq!(opts[1].name, "Wheels");
}

#[test]
fn recipient_options_keep_an_inactive_selected_recipient() {
    let rp = |id: i64, active: bool| RecipientProject {
        id,
        name: format!("Project {id}"),
        contact_info: None,
        location: None,
        active,
    };
    let opts = recipient_options(&[rp(1, true), rp(2, false), rp(3, false)], Some(3));
    let ids: Vec<i64> = opts.iter().map(|o| o.id).collect();
    assert_eq!(ids, vec![1, 3]);
    assert!(opts[1].selected);
}

#[test]
fn item_options_offer_available_and_already_selected_items() {
    let item = |id: i64, status: ItemStatus| InventoryItemRow {
        id,
        name: format!("Item {id}"),
        category_id: 1,
        category_name: "Decks".to_string(),
        source_type: SourceType::Donation,
        source_donation_id: None,
        source_purchase_id: None,
        source_desc: "Donor".to_string(),
        acquired_date: None,
        location: Location::Germany,
        status,
        notes: None,
    };
    let opts = item_options(
        &[item(1, ItemStatus::Available), item(2, ItemStatus::Donated), item(3, ItemStatus::Donated)],
        &[3],
    );
    let ids: Vec<i64> = opts.iter().map(|o| o.id).collect();
    assert_eq!(ids, vec![1, 3]);
    assert_eq!(opts[0].label, "Item 1 \u{2014} Decks \u{2014} Donor");
    assert!(!opts[0].selected);
    assert!(opts[1].selected);
}

fn purchase(id: i64, status: PurchaseStatus, multiple_items: bool) -> Purchase {
    Purchase {
        id,
        date: "2026-01-01".to_string(),
        currency: Currency::Eur,
        cost: Money { mantissa: 1000, scale: 2 },
        channel: format!("channel {id}"),
        seller_info: None,
        multiple_items,
        status,
    }
}

fn item_from_purchase(id: i64, purchase_id: i64) -> InventoryItemRow {
    InventoryItemRow {
        id,
        name: format!("Item {id}"),
        category_id: 1,
        category_name: "Decks".to_string(),
        source_type: SourceType::Purchase,
        source_donation_id: None,
        source_purchase_id: Some(purchase_id),
        source_desc: "channel".to_string(),
        acquired_date: None,
        location: Location::Germany,
        status: ItemStatus::Available,
        notes: None,
    }
}

#[test]
fn purchase_options_offer_bought_purchases_and_block_used_single_item_ones() {
    let purchases = vec![
        purchase(1, PurchaseStatus::Bought, false),
        purchase(2, PurchaseStatus::Negotiating, false),
        purchase(3, PurchaseStatus::Bought, true),
        purchase(4, PurchaseStatus::Bought, false),
    ];
    let items = vec![item_from_purchase(10, 1), item_from_purchase(11, 3)];
    let label = |p: &Purchase, blocked: bool| {
        if blocked {
            format!("{} (in use)", p.channel)
        } else {
            p.channel.clone()
        }
    };
    let opts = adm_sfa::web::inventory::purchase_options(&purchases, &items, None, Some(4), label);
    let ids: Vec<i64> = opts.iter().map(|o| o.id).collect();
    assert_eq!(ids, vec![1, 3, 4]);
    assert!(opts[0].blocked);
    assert_eq!(opts[0].label, "channel 1 (in use)");
    assert!(!opts[1].blocked);
    assert!(!opts[2].blocked);
    assert!(opts[2].selected);
    let editing = adm_sfa::web::inventory::purchase_options(&purchases, &items, Some(10), None, label);
    assert!(!editing[0].blocked);
}

#[test]
fn donation_and_donor_options_mark_the_selected_one() {
    let donations = vec![
        PhysicalDonation { id: 1, donor_id: None, donor_name: None, date_received: "2026-01-01".to_string(), notes: None },
        PhysicalDonation { id: 2, donor_id: Some(5), donor_name: Some("Ana".to_string()), date_received: "2026-02-01".to_string(), notes: None },
    ];
    let opts = adm_sfa::web::inventory::donation_options(&donations, Some(2), |d: &PhysicalDonation| {
        d.donor_name.clone().unwrap_or_else(|| "Anonymous".to_string())
    });
    assert_eq!(opts.len(), 2);
    assert_eq!(opts[0].label, "Anonymous");
    assert!(opts[1].selected);
    let donors = vec![
        Donor { id: 5, name: "Ana".to_string(), contact_info: None, notes: None },
        Donor { id: 6, name: "Bo".to_string(), contact_info: None, notes: None },
    ];
    let d = adm_sfa::web::inventory::donor_options(&donors, Some(6));
    assert_eq!(d, vec![(5, "Ana".to_string(), false), (6, "Bo".to_string(), true)]);
}

#[test]
fn eur_entry_form_keeps_a_donor_only_for_donations() {
    let form = |t: &str| EurTxForm {
        date: "2026-01-01".to_string(),
        tx_type: t.to_string(),
        amount_str: "10.00".to_string(),
        donor_id: " 4 ".to_string(),
        note: String::new(),
    };
    assert_eq!(manual_type_from_form("donation_in"), Some(ManualEurTxType::DonationIn));
    assert_eq!(manual_type_from_form("self_funding_in"), Some(ManualEurTxType::SelfFundingIn));
    assert_eq!(manual_type_from_form("purchase_out"), None);
    assert_eq!(manual_type_from_form(""), None);
    let d = eur_draft_from_form(form("donation_in"), ManualEurTxType::DonationIn);
    assert_eq!(d.donor_id, Some(4));
    let d = eur_draft_from_form(form("self_funding_in"), ManualEurTxType::SelfFundingIn);
    assert_eq!(d.donor_id, None);
    assert_eq!(d.amount_str, "10.00");
}

#[test]
fn only_hand_entered_eur_entries_keep_a_manual_kind() {
    assert_eq!(manual_type_of(EurTxType::DonationIn), Some(ManualEurTxType::DonationIn));
    assert_eq!(manual_type_of(EurTxType::SelfFundingIn), Some(ManualEurTxType::SelfFundingIn));
    assert_eq!(manual_type_of(EurTxType::PurchaseOut), None);
    assert_eq!(manual_type_of(EurTxType::TransferToBrlOut), None);
}

#[test]
fn tab_links_mark_nothing_for_an_unknown_tab() {
    let links = tab_links("nope", "", "", None);
    assert!(links.iter().all(|l| !l.active));
}

#[test]
fn exports_default_to_english() {
    assert_eq!(adm_sfa::web::reports::default_locale(), "en");
}

fn inventory_form(location: &str, status: &str) -> adm_sfa::web::inventory::InventoryForm {
    adm_sfa::web::inventory::InventoryForm {
        name: "Deck".to_string(),
        category_id: "3".to_string(),
        location: location.to_string(),
        status: status.to_string(),
        source_type: String::new(),
        source_donation_id: String::new(),
        source_purchase_id: String::new(),
        notes: "n".to_string(),
    }
}

#[test]
fn a_new_item_draft_preselects_only_an_existing_donation() {
    let donations = vec![PhysicalDonation {
        id: 9,
        donor_id: None,
        donor_name: None,
        date_received: "2026-01-01".to_string(),
        notes: None,
    }];
    let (d, chosen) = adm_sfa::web::inventory::new_item_draft(inventory_form("brazil", "reserved"), Some(9), &donations);
    assert!(chosen);
    assert_eq!(d.source_donation_id, Some(9));
    assert_eq!(d.location, Location::Brazil);
    assert_eq!(d.status, ItemStatus::Reserved);
    assert_eq!(d.category_id, Some(3));
    let (d, chosen) = adm_sfa::web::inventory::new_item_draft(inventory_form("mars", ""), Some(10), &donations);
    assert!(!chosen);
    assert_eq!(d.source_donation_id, None);
    assert_eq!(d.location, Location::Germany);
    assert_eq!(d.status, ItemStatus::Available);
}

#[test]
fn the_edit_draft_of_an_item_keeps_its_stored_fields() {
    let mut item = item_from_purchase(4, 2);
    item.notes = None;
    let d = adm_sfa::web::inventory::draft_of_item(&item);
    assert_eq!(d.category_id, Some(1));
    assert_eq!(d.source_purchase_id, Some(2));
    assert_eq!(d.source_type, SourceType::Purchase);
    assert_eq!(d.notes, "");
    assert_eq!(d.name, "Item 4");
}

#[test]
fn event_summary_adds_the_cash_suffix_only_for_a_positive_gift() {
    let one = || "1 item".to_string();
    let other = |n: i64| format!("{n} items");
    let cash = |m: Money| format!(" + R$ {}", adm_sfa::money::money_to_string(m));
    assert_eq!(event_summary(1, None, one, other, cash), "1 item");
    assert_eq!(event_summary(3, Some(Money { mantissa: 1050, scale: 2 }), one, other, cash), "3 items + R$ 10.50");
    assert_eq!(event_summary(0, Some(Money { mantissa: 0, scale: 2 }), one, other, cash), "0 items");
}

#[test]
fn password_matches_accepts_the_correct_password() {
    assert!(adm_sfa::web::auth::password_matches("correct horse battery", "correct horse battery"));
}

#[test]
fn password_matches_rejects_a_wrong_password() {
    assert!(!adm_sfa::web::auth::password_matches("correct horse battery", "not the password!!!!!"));
}

#[test]
fn password_matches_rejects_a_password_of_different_length() {
    assert!(!adm_sfa::web::auth::password_matches("correct horse battery", "short"));
    assert!(!adm_sfa::web::auth::password_matches("correct horse battery", "correct horse battery-with-extra-suffix"));
}

#[test]
fn query_string_encodes_each_pair_as_a_form() {
    assert_eq!(
        adm_sfa::web::reports::query_string("audit", "2026-01-01", "", Some(3)),
        "tab=audit&from=2026-01-01&to=&recipient=3"
    );
    assert_eq!(
        adm_sfa::web::reports::query_string("a b&c", "\u{e9}*-._~", "", None),
        "tab=a+b%26c&from=%C3%A9*-._%7E&to="
    );
}
