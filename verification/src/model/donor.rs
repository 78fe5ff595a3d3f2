//! Donors and the physical donations they hand in.
use vstd::prelude::*;

verus! {

/// A known donor.
#[derive(Clone)]
pub struct Donor {
    pub id: i64,
    pub name: String,
    pub contact_info: Option<String>,
    pub notes: Option<String>,
}

/// A donor as entered on a form.
#[derive(Clone)]
pub struct DonorDraft {
    pub name: String,
    pub contact_info: String,
    pub notes: String,
}

/// A physical donation (one drop-off of items), optionally by a known donor.
#[derive(Clone)]
pub struct PhysicalDonation {
    pub id: i64,
    pub donor_id: Option<i64>,
    pub donor_name: Option<String>,
    pub date_received: String,
    pub notes: Option<String>,
}

} // verus!
