//! Purchase pages: reading the purchase form and filling it back in.
use vstd::prelude::*;

use crate::model::purchase::{Currency, Purchase, PurchaseDraft, PurchaseStatus};
use crate::money::{decimal_display, money_to_string};

verus! {

/// The fields of the purchase form as submitted. Checkboxes are present
/// (with any value) when ticked and absent otherwise.
pub struct PurchaseForm {
    pub date: String,
    pub currency: String,
    pub cost_str: String,
    pub channel: String,
    pub seller_info: String,
    pub multiple_items: Option<String>,
    pub negotiating: Option<String>,
}

/// The draft a submitted form describes, with the given status: an
/// unknown currency falls back to EUR, and the multiple-items box counts
/// as ticked when present.
pub fn draft_from_form(form: PurchaseForm, status: PurchaseStatus) -> (d: PurchaseDraft)
    ensures
        d.date == form.date,
        d.currency == (match Currency::spec_from_str(form.currency@) {
            Some(c) => c,
            None => Currency::Eur,
        }),
        d.cost_str == form.cost_str,
        d.channel == form.channel,
        d.seller_info == form.seller_info,
        d.multiple_items == form.multiple_items is Some,
        d.status == status,
{
    let currency = match Currency::from_str(form.currency.as_str()) {
        Some(c) => c,
        None => Currency::Eur,
    };
    PurchaseDraft {
        date: form.date,
        currency,
        cost_str: form.cost_str,
        channel: form.channel,
        seller_info: form.seller_info,
        multiple_items: form.multiple_items.is_some(),
        status,
    }
}

/// The status a newly created purchase starts in: negotiating when the
/// "start as negotiating" box was ticked, bought otherwise.
pub fn created_status(form: &PurchaseForm) -> (s: PurchaseStatus)
    ensures
        s == (if form.negotiating is Some {
            PurchaseStatus::Negotiating
        } else {
            PurchaseStatus::Bought
        }),
{
    if form.negotiating.is_some() {
        PurchaseStatus::Negotiating
    } else {
        PurchaseStatus::Bought
    }
}

/// The edit form's draft for a stored purchase: its fields as stored, the
/// cost written as the decimal prints, and no seller info as empty text.
pub fn draft_from_purchase(p: &Purchase) -> (d: PurchaseDraft)
    requires
        p.cost.wf(),
    ensures
        d.date@ == p.date@,
        d.currency == p.currency,
        d.cost_str@ == decimal_display(p.cost.mantissa, p.cost.scale),
        d.channel@ == p.channel@,
        d.seller_info@ == (match p.seller_info {
            Some(s) => s@,
            None => Seq::<char>::empty(),
        }),
        d.multiple_items == p.multiple_items,
        d.status == p.status,
{
    let seller_info = match &p.seller_info {
        Some(s) => s.clone(),
        None => String::new(),
    };
    PurchaseDraft {
        date: p.date.clone(),
        currency: p.currency,
        cost_str: money_to_string(p.cost),
        channel: p.channel.clone(),
        seller_info,
        multiple_items: p.multiple_items,
        status: p.status,
    }
}

} // verus!
