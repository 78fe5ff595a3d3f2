//! Inventory items: where they are, what state they are in, where they
//! came from, and the row/draft shapes the rest of the library passes
//! around.
use vstd::prelude::*;

use crate::text::str_eq;

verus! {

/// Where an inventory item physically is.
#[derive(Debug, Clone, Copy, PartialEq, Eq, Structural)]
pub enum Location {
    Germany,
    Brazil,
}

impl Location {
    /// The stored identifier of a location.
    pub open spec fn spec_as_str(self) -> Seq<char> {
        match self {
            Location::Germany => "germany"@,
            Location::Brazil => "brazil"@,
        }
    }

    /// The location a stored identifier names, if any.
    pub open spec fn spec_from_str(s: Seq<char>) -> Option<Location> {
        if s == "germany"@ {
            Some(Location::Germany)
        } else if s == "brazil"@ {
            Some(Location::Brazil)
        } else {
            None
        }
    }

    pub fn as_str(self) -> (s: &'static str)
        ensures
            s@ == self.spec_as_str(),
    {
        match self {
            Location::Germany => "germany",
            Location::Brazil => "brazil",
        }
    }

    pub fn from_str(s: &str) -> (r: Option<Location>)
        ensures
            r == Location::spec_from_str(s@),
    {
        if str_eq(s, "germany") {
            Some(Location::Germany)
        } else if str_eq(s, "brazil") {
            Some(Location::Brazil)
        } else {
            None
        }
    }

    /// The message key of this location's display label; the stored
    /// identifier from `as_str` stays an English identifier regardless of
    /// the UI locale.
    pub fn label_key(self) -> (k: &'static str)
        ensures
            k@ == (match self {
                Location::Germany => "status.location.germany"@,
                Location::Brazil => "status.location.brazil"@,
            }),
    {
        match self {
            Location::Germany => "status.location.germany",
            Location::Brazil => "status.location.brazil",
        }
    }
}

/// Parsing a location's stored identifier gives the location back.
pub proof fn lemma_location_round_trip(l: Location)
    ensures
        Location::spec_from_str(l.spec_as_str()) == Some(l),
{
    reveal_strlit("germany");
    reveal_strlit("brazil");
    assert("germany"@[0] != "brazil"@[0]);
}

/// Only a location's own stored identifier parses to it.
pub proof fn lemma_location_from_str_exact(s: Seq<char>)
    ensures
        Location::spec_from_str(s) matches Some(l) ==> l.spec_as_str() == s,
{
}

/// Lifecycle state of an inventory item.
#[derive(Debug, Clone, Copy, PartialEq, Eq, Structural)]
pub enum ItemStatus {
    Available,
    Reserved,
    Donated,
}

impl ItemStatus {
    pub open spec fn spec_as_str(self) -> Seq<char> {
        match self {
            ItemStatus::Available => "available"@,
            ItemStatus::Reserved => "reserved"@,
            ItemStatus::Donated => "donated"@,
        }
    }

    pub open spec fn spec_from_str(s: Seq<char>) -> Option<ItemStatus> {
        if s == "available"@ {
            Some(ItemStatus::Available)
        } else if s == "reserved"@ {
            Some(ItemStatus::Reserved)
        } else if s == "donated"@ {
            Some(ItemStatus::Donated)
        } else {
            None
        }
    }

    pub fn as_str(self) -> (s: &'static str)
        ensures
            s@ == self.spec_as_str(),
    {
        match self {
            ItemStatus::Available => "available",
            ItemStatus::Reserved => "reserved",
            ItemStatus::Donated => "donated",
        }
    }

    pub fn from_str(s: &str) -> (r: Option<ItemStatus>)
        ensures
            r == ItemStatus::spec_from_str(s@),
    {
        if str_eq(s, "available") {
            Some(ItemStatus::Available)
        } else if str_eq(s, "reserved") {
            Some(ItemStatus::Reserved)
        } else if str_eq(s, "donated") {
            Some(ItemStatus::Donated)
        } else {
            None
        }
    }

    /// The message key of this status's display label.
    pub fn label_key(self) -> (k: &'static str)
        ensures
            k@ == (match self {
                ItemStatus::Available => "status.item.available"@,
                ItemStatus::Reserved => "status.item.reserved"@,
                ItemStatus::Donated => "status.item.donated"@,
            }),
    {
        match self {
            ItemStatus::Available => "status.item.available",
            ItemStatus::Reserved => "status.item.reserved",
            ItemStatus::Donated => "status.item.donated",
        }
    }
}

/// Parsing a status's stored identifier gives the status back.
pub proof fn lemma_item_status_round_trip(st: ItemStatus)
    ensures
        ItemStatus::spec_from_str(st.spec_as_str()) == Some(st),
{
    reveal_strlit("available");
    reveal_strlit("reserved");
    reveal_strlit("donated");
    assert("available"@[0] != "reserved"@[0]);
    assert("available"@[0] != "donated"@[0]);
    assert("reserved"@[0] != "donated"@[0]);
}

/// Only a status's own stored identifier parses to it.
pub proof fn lemma_item_status_from_str_exact(s: Seq<char>)
    ensures
        ItemStatus::spec_from_str(s) matches Some(st) ==> st.spec_as_str() == s,
{
}

/// How an inventory item was acquired.
#[derive(Debug, Clone, Copy, PartialEq, Eq, Structural)]
pub enum SourceType {
    Donation,
    Purchase,
}

impl SourceType {
    pub open spec fn spec_as_str(self) -> Seq<char> {
        match self {
            SourceType::Donation => "donation"@,
            SourceType::Purchase => "purchase"@,
        }
    }

    pub open spec fn spec_from_str(s: Seq<char>) -> Option<SourceType> {
        if s == "donation"@ {
            Some(SourceType::Donation)
        } else if s == "purchase"@ {
            Some(SourceType::Purchase)
        } else {
            None
        }
    }

    pub fn as_str(self) -> (s: &'static str)
        ensures
            s@ == self.spec_as_str(),
    {
        match self {
            SourceType::Donation => "donation",
            SourceType::Purchase => "purchase",
        }
    }

    pub fn from_str(s: &str) -> (r: Option<SourceType>)
        ensures
            r == SourceType::spec_from_str(s@),
    {
        if str_eq(s, "donation") {
            Some(SourceType::Donation)
        } else if str_eq(s, "purchase") {
            Some(SourceType::Purchase)
        } else {
            None
        }
    }
}

/// Parsing a source type's stored identifier gives it back.
pub proof fn lemma_source_type_round_trip(t: SourceType)
    ensures
        SourceType::spec_from_str(t.spec_as_str()) == Some(t),
{
    reveal_strlit("donation");
    reveal_strlit("purchase");
    assert("donation"@[0] != "purchase"@[0]);
}

/// Only a source type's own stored identifier parses to it.
pub proof fn lemma_source_type_from_str_exact(s: Seq<char>)
    ensures
        SourceType::spec_from_str(s) matches Some(t) ==> t.spec_as_str() == s,
{
}

/// Inventory item joined with its category name and a human-readable source
/// description (donor name / "Anonymous" for donations, channel for
/// purchases), for list display.
#[derive(Clone)]
pub struct InventoryItemRow {
    pub id: i64,
    pub name: String,
    pub category_id: i64,
    pub category_name: String,
    pub source_type: SourceType,
    pub source_donation_id: Option<i64>,
    pub source_purchase_id: Option<i64>,
    pub source_desc: String,
    /// Date the item was acquired: the donation's receipt date for
    /// donations, the purchase date for purchases. `None` only if the
    /// source row itself is missing.
    pub acquired_date: Option<String>,
    pub location: Location,
    pub status: ItemStatus,
    pub notes: Option<String>,
}

/// An inventory item as entered on a form, before it is stored.
#[derive(Clone)]
pub struct InventoryItemDraft {
    pub name: String,
    pub category_id: Option<i64>,
    pub source_type: SourceType,
    pub source_donation_id: Option<i64>,
    pub source_purchase_id: Option<i64>,
    pub location: Location,
    pub status: ItemStatus,
    pub notes: String,
}

impl Default for InventoryItemDraft {
    fn default() -> (d: Self)
        ensures
            d.name@ == Seq::<char>::empty(),
            d.category_id is None,
            d.source_type == SourceType::Donation,
            d.source_donation_id is None,
            d.source_purchase_id is None,
            d.location == Location::Germany,
            d.status == ItemStatus::Available,
            d.notes@ == Seq::<char>::empty(),
    {
        InventoryItemDraft {
            name: String::new(),
            category_id: None,
            source_type: SourceType::Donation,
            source_donation_id: None,
            source_purchase_id: None,
            location: Location::Germany,
            status: ItemStatus::Available,
            notes: String::new(),
        }
    }
}

} // verus!
