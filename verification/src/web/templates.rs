//! View models of the web pages: every value a page shows, already
//! formatted, so that a template only interpolates strings.
use vstd::prelude::*;

use crate::model::document::Document;
use crate::model::donor::DonorDraft;
use crate::model::purchase::PurchaseDraft;

verus! {

/// A rendered page of type `T`; the front-end turns it into an HTTP
/// response.
pub struct HtmlTemplate<T>(pub T);

pub struct LoginTemplate {
    pub error: Option<String>,
    pub locale: String,
}

/// One purchase of the purchases list, pre-formatted for display.
pub struct PurchaseRow {
    pub id: i64,
    pub date_display: String,
    pub channel: String,
    pub cost_display: String,
    pub currency_symbol: &'static str,
    pub status_label: String,
    pub multiple_items: bool,
}

pub struct PurchasesListTemplate {
    pub purchases: Vec<PurchaseRow>,
    pub locale: String,
}

/// One line of the per-file status list shown after a create-with-
/// documents submission where the record saved but not every staged
/// document attached.
pub struct AttachResult {
    pub ok: bool,
    pub message: String,
}

pub struct PurchaseFormTemplate {
    pub id: Option<i64>,
    pub draft: PurchaseDraft,
    pub error: Option<String>,
    pub documents: Vec<Document>,
    pub is_negotiating: bool,
    /// Document labels for the document pickers (the allow-list the
    /// attach operation enforces).
    pub labels: Vec<String>,
    pub attach_results: Vec<AttachResult>,
    pub locale: String,
}

pub struct EurLedgerRow {
    pub id: i64,
    pub date_display: String,
    pub type_label: String,
    pub sign: &'static str,
    pub amount_display: String,
    pub desc: String,
    /// Manual entries (donations, self-funding) link to their own edit page.
    pub editable: bool,
}

pub struct EurLedgerListTemplate {
    pub rows: Vec<EurLedgerRow>,
    pub balance_positive: bool,
    /// The full, localised "Balance: € 123.45" sentence.
    pub balance_label: String,
    pub locale: String,
}

pub struct EurTxFormTemplate {
    pub id: Option<i64>,
    pub date: String,
    /// `None` when adding; the fixed kind's label when editing.
    pub type_label: Option<String>,
    pub show_donor: bool,
    pub donation_checked: bool,
    pub self_funding_checked: bool,
    pub amount_str: String,
    /// (donor id, donor name, whether this donor is the selected one).
    pub donors: Vec<(i64, String, bool)>,
    pub note: String,
    pub error: Option<String>,
    pub locale: String,
}

pub struct BrlLedgerRow {
    pub date_display: String,
    pub type_label: String,
    pub sign: &'static str,
    pub amount_display: String,
    pub desc: String,
}

pub struct BrlLedgerListTemplate {
    pub rows: Vec<BrlLedgerRow>,
    pub balance_positive: bool,
    pub balance_label: String,
    pub locale: String,
}

pub struct TransferRow {
    pub id: i64,
    pub date_display: String,
    pub eur_display: String,
    pub brl_display: String,
    pub rate_display: String,
}

pub struct TransfersListTemplate {
    pub transfers: Vec<TransferRow>,
    pub locale: String,
}

pub struct InventoryRow {
    pub id: i64,
    pub name: String,
    pub category_name: String,
    pub location_label: String,
    pub status_label: String,
    pub source_desc: String,
}

pub struct InventoryListTemplate {
    pub items: Vec<InventoryRow>,
    pub locale: String,
}

pub struct CategoryOption {
    pub id: i64,
    pub name: String,
    pub selected: bool,
}

pub struct DonationOption {
    pub id: i64,
    pub label: String,
    pub selected: bool,
}

pub struct PurchaseOption {
    pub id: i64,
    pub label: String,
    pub selected: bool,
    /// A single-item purchase already linked to a different inventory
    /// item: shown, but not pickable.
    pub blocked: bool,
}

pub struct DonationRow {
    pub date_display: String,
    pub donor_display: String,
}

pub struct DonationsTemplate {
    pub donations: Vec<DonationRow>,
    pub date: String,
    pub donors: Vec<(i64, String)>,
    pub error: Option<String>,
    /// A safe path to return to after creating a donation, if any.
    pub return_to: Option<String>,
    pub locale: String,
}

pub struct OutboundRow {
    pub id: i64,
    pub date_display: String,
    pub recipient_name: String,
    pub summary: String,
}

pub struct OutboundListTemplate {
    pub events: Vec<OutboundRow>,
    pub locale: String,
}

pub struct RecipientOption {
    pub id: i64,
    pub name: String,
    pub selected: bool,
}

pub struct ItemOption {
    pub id: i64,
    pub label: String,
    pub selected: bool,
}

pub struct OutboundFormTemplate {
    pub id: Option<i64>,
    pub date: String,
    pub recipients: Vec<RecipientOption>,
    pub cash_amount_brl_str: String,
    pub notes: String,
    pub items: Vec<ItemOption>,
    pub error: Option<String>,
    pub locale: String,
}

pub struct RecipientRow {
    pub name: String,
    pub contact_info: String,
    pub location: String,
    pub active: bool,
}

pub struct RecipientsTemplate {
    pub recipients: Vec<RecipientRow>,
    pub error: Option<String>,
    pub return_to: Option<String>,
    pub locale: String,
}

pub struct TabLink {
    pub label: String,
    pub href: String,
    pub active: bool,
}

/// A label/value pair of the stats panel above the EUR/BRL report tabs.
pub struct SummaryLine {
    pub label: String,
    pub value: String,
}

pub struct ReportsTemplate {
    pub tabs: Vec<TabLink>,
    pub active_tab: &'static str,
    pub date_from: String,
    pub date_to: String,
    pub recipient_id: Option<i64>,
    /// (recipient id, name, whether this is the selected filter).
    pub recipients: Vec<(i64, String, bool)>,
    pub summary: Vec<SummaryLine>,
    pub headers: Vec<String>,
    pub rows: Vec<Vec<String>>,
    pub error: Option<String>,
    pub locale: String,
}

pub struct SettingsTemplate {
    pub categories: Vec<(i64, String)>,
    pub labels: Vec<(i64, String)>,
    pub error: Option<String>,
    pub locale: String,
}

/// One donor of the donors list.
pub struct DonorRow {
    pub id: i64,
    pub name: String,
    pub contact_info: String,
}

pub struct DonorsListTemplate {
    pub donors: Vec<DonorRow>,
    pub locale: String,
}

pub struct DonorFormTemplate {
    pub id: Option<i64>,
    pub draft: DonorDraft,
    pub error: Option<String>,
    /// A safe path to return to after creating the donor, if any.
    pub return_to: Option<String>,
    pub locale: String,
}

pub struct TransferFormTemplate {
    pub id: Option<i64>,
    pub date: String,
    pub eur_amount_sent_str: String,
    pub exchange_rate_str: String,
    pub notes: String,
    /// The EUR × rate preview, when both fields parse.
    pub brl_preview: Option<String>,
    pub error: Option<String>,
    pub documents: Vec<Document>,
    pub labels: Vec<String>,
    pub attach_results: Vec<AttachResult>,
    pub locale: String,
}

pub struct InventoryFormTemplate {
    pub id: Option<i64>,
    pub name: String,
    /// The stored identifier of the item's location.
    pub location: String,
    /// The stored identifier of the item's status.
    pub status: String,
    /// `donation` or `purchase`, or empty while no source is chosen.
    pub source_type: String,
    pub category_id: Option<i64>,
    pub source_donation_id: Option<i64>,
    pub source_purchase_id: Option<i64>,
    pub categories: Vec<CategoryOption>,
    pub donations: Vec<DonationOption>,
    pub purchases: Vec<PurchaseOption>,
    pub notes: String,
    pub error: Option<String>,
    pub documents: Vec<Document>,
    pub labels: Vec<String>,
    /// Once an item is donated every field but its notes is locked.
    pub locked: bool,
    pub attach_results: Vec<AttachResult>,
    pub locale: String,
}

} // verus!
