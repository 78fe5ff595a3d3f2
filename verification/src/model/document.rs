//! Documents filed against records (purchases, transfers, items).
use vstd::prelude::*;

verus! {

/// A document filed against a record.
#[derive(Clone)]
pub struct Document {
    pub id: i64,
    pub filename: String,
    pub record_type: String,
    pub record_id: i64,
    pub label: String,
    pub deleted: bool,
}

/// A configured document label (e.g. "chat", "receipt").
pub struct DocumentLabel {
    pub id: i64,
    pub name: String,
}

} // verus!
