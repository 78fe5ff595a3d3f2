//! Outbound donation events: items and/or cash handed to a recipient project.
use vstd::prelude::*;

use crate::money::Money;

verus! {

/// A recipient project that outbound donations go to.
#[derive(Clone)]
pub struct RecipientProject {
    pub id: i64,
    pub name: String,
    pub contact_info: Option<String>,
    pub location: Option<String>,
    pub active: bool,
}

/// An outbound event joined with its recipient's name and item count.
#[derive(Clone)]
pub struct OutboundEventRow {
    pub id: i64,
    pub date: String,
    pub recipient_project_id: i64,
    pub recipient_name: String,
    pub cash_amount_brl: Option<Money>,
    pub notes: Option<String>,
    pub item_count: i64,
}

} // verus!
