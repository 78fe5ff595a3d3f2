//! Reading inventory rows back, and the single-item purchase rule.
use vstd::prelude::*;

use crate::model::inventory::{InventoryItemDraft, InventoryItemRow, ItemStatus, Location, SourceType};
use crate::reporting::text_or;
use crate::text::{debug_quoted, spec_trim, str_debug, str_eq, trim};

verus! {

/// An inventory row as the list query returns it, before its text
/// columns are read as enums and its source is described.
pub struct RawInventoryRow {
    pub id: i64,
    pub name: String,
    pub category_id: i64,
    pub category_name: String,
    pub source_type: String,
    pub source_donation_id: Option<i64>,
    pub source_purchase_id: Option<i64>,
    pub donor_name: Option<String>,
    pub date_received: Option<String>,
    pub purchase_channel: Option<String>,
    pub purchase_date: Option<String>,
    pub location: String,
    pub status: String,
    pub notes: Option<String>,
}

/// A stored text column that names no known variant.
#[derive(Debug)]
pub struct UnknownDiscriminant {
    /// Zero-based column of the list query.
    pub column: usize,
    pub value: String,
}

impl UnknownDiscriminant {
    /// The text the bad value is reported with.
    pub fn message(&self) -> (m: String)
        ensures
            m@ == "unknown discriminant: "@ + str_debug(self.value@),
    {
        let mut m = String::from_str("unknown discriminant: ");
        let q = debug_quoted(self.value.as_str());
        m.append(q.as_str());
        m
    }
}

/// How an item's source reads in lists: the donor's name (or an
/// anonymous donation with its date) for donations, the channel for
/// purchases.
pub open spec fn spec_source_desc(
    source_type: SourceType,
    donor_name: Option<String>,
    date_received: Option<String>,
    purchase_channel: Option<String>,
) -> Seq<char> {
    match source_type {
        SourceType::Donation => match (donor_name, date_received) {
            (Some(n), _) => n@,
            (None, Some(d)) => "Anonymous donation ("@ + d@ + ")"@,
            (None, None) => "Donation"@,
        },
        SourceType::Purchase => text_or(purchase_channel, "Purchase"@),
    }
}

fn source_desc(
    source_type: SourceType,
    donor_name: Option<String>,
    date_received: &Option<String>,
    purchase_channel: Option<String>,
) -> (r: String)
    ensures
        r@ == spec_source_desc(source_type, donor_name, *date_received, purchase_channel),
{
    match source_type {
        SourceType::Donation => match donor_name {
            Some(n) => n,
            None => match date_received {
                Some(d) => {
                    let mut s = String::from_str("Anonymous donation (");
                    s.append(d.as_str());
                    s.append(")");
                    s
                },
                None => String::from_str("Donation"),
            },
        },
        SourceType::Purchase => match purchase_channel {
            Some(c) => c,
            None => String::from_str("Purchase"),
        },
    }
}

/// The item a raw row describes, or the first column (source type,
/// location, status, in that order) holding an unknown value. The
/// acquired date is the donation's receipt date for donated items and
/// the purchase date for bought ones.
pub fn item_row_from_raw(raw: RawInventoryRow) -> (r: Result<InventoryItemRow, UnknownDiscriminant>)
    ensures
        SourceType::spec_from_str(raw.source_type@) is None ==> (r matches Err(e) && e.column == 4
            && e.value == raw.source_type),
        SourceType::spec_from_str(raw.source_type@) is Some && Location::spec_from_str(raw.location@)
            is None ==> (r matches Err(e) && e.column == 10 && e.value == raw.location),
        SourceType::spec_from_str(raw.source_type@) is Some && Location::spec_from_str(raw.location@)
            is Some && ItemStatus::spec_from_str(raw.status@) is None ==> (r matches Err(e)
            && e.column == 11 && e.value == raw.status),
        r matches Ok(row) ==> {
            &&& SourceType::spec_from_str(raw.source_type@) == Some(row.source_type)
            &&& Location::spec_from_str(raw.location@) == Some(row.location)
            &&& ItemStatus::spec_from_str(raw.status@) == Some(row.status)
            &&& row.id == raw.id
            &&& row.name == raw.name
            &&& row.category_id == raw.category_id
            &&& row.category_name == raw.category_name
            &&& row.source_donation_id == raw.source_donation_id
            &&& row.source_purchase_id == raw.source_purchase_id
            &&& row.acquired_date == (match row.source_type {
                SourceType::Donation => raw.date_received,
                SourceType::Purchase => raw.purchase_date,
            })
            &&& row.source_desc@ == spec_source_desc(
                row.source_type,
                raw.donor_name,
                raw.date_received,
                raw.purchase_channel,
            )
            &&& row.notes == raw.notes
        },
        (SourceType::spec_from_str(raw.source_type@) is Some && Location::spec_from_str(raw.location@)
            is Some && ItemStatus::spec_from_str(raw.status@) is Some) ==> r is Ok,
{
    let source_type = match SourceType::from_str(raw.source_type.as_str()) {
        Some(t) => t,
        None => return Err(UnknownDiscriminant { column: 4, value: raw.source_type }),
    };
    let location = match Location::from_str(raw.location.as_str()) {
        Some(l) => l,
        None => return Err(UnknownDiscriminant { column: 10, value: raw.location }),
    };
    let status = match ItemStatus::from_str(raw.status.as_str()) {
        Some(s) => s,
        None => return Err(UnknownDiscriminant { column: 11, value: raw.status }),
    };
    let source_desc = source_desc(source_type, raw.donor_name, &raw.date_received, raw.purchase_channel);
    let acquired_date = match source_type {
        SourceType::Donation => raw.date_received,
        SourceType::Purchase => raw.purchase_date,
    };
    Ok(
        InventoryItemRow {
            id: raw.id,
            name: raw.name,
            category_id: raw.category_id,
            category_name: raw.category_name,
            source_type,
            source_donation_id: raw.source_donation_id,
            source_purchase_id: raw.source_purchase_id,
            source_desc,
            acquired_date,
            location,
            status,
            notes: raw.notes,
        },
    )
}

/// The purchase whose single-item rule storing `draft` must check: its
/// source purchase, when it is purchase-sourced; none otherwise.
pub fn purchase_source_to_check(draft: &InventoryItemDraft) -> (r: Option<i64>)
    ensures
        r == (match draft.source_type {
            SourceType::Purchase => draft.source_purchase_id,
            SourceType::Donation => None,
        }),
{
    match draft.source_type {
        SourceType::Purchase => draft.source_purchase_id,
        SourceType::Donation => None,
    }
}

/// Whether storing an item sourced from a purchase would give a
/// single-item purchase a second item: the purchase is not marked
/// `multiple_items` and some item linked to it (`linked_item_ids`) is
/// another one than `edit_id`, the item being edited (`None` when one is
/// being created, compared as the id `-1`).
pub fn single_item_conflict(multiple_items: bool, linked_item_ids: &[i64], edit_id: Option<i64>) -> (r: bool)
    ensures
        r == (!multiple_items && exists|i: int|
            0 <= i < linked_item_ids@.len() && #[trigger] linked_item_ids@[i] != (match edit_id {
                Some(e) => e,
                None => -1i64,
            })),
{
    if multiple_items {
        return false;
    }
    let own: i64 = match edit_id {
        Some(e) => e,
        None => -1i64,
    };
    let mut i: usize = 0;
    while i < linked_item_ids.len()
        invariant
            !multiple_items,
            i <= linked_item_ids@.len(),
            own == (match edit_id {
                Some(e) => e,
                None => -1i64,
            }),
            forall|k: int| 0 <= k < i ==> #[trigger] linked_item_ids@[k] == own,
        decreases linked_item_ids@.len() - i,
    {
        if linked_item_ids[i] != own {
            assert(linked_item_ids@[i as int] != own);
            return true;
        }
        i = i + 1;
    }
    false
}

/// A donated item keeps everything but its notes: `draft` changes
/// nothing else of `stored` (names compared trimmed, as stored).
pub open spec fn only_notes_change(stored: InventoryItemDraft, draft: InventoryItemDraft) -> bool {
    &&& spec_trim(draft.name@) == spec_trim(stored.name@)
    &&& draft.category_id == stored.category_id
    &&& draft.source_type == stored.source_type
    &&& draft.source_donation_id == stored.source_donation_id
    &&& draft.source_purchase_id == stored.source_purchase_id
    &&& draft.location == stored.location
    &&& draft.status == stored.status
}

/// The error an edit of a donated item's locked fields is refused with.
pub open spec fn donated_lock_message() -> Seq<char> {
    "this item has already been donated; only its notes can be changed"@
}

/// Whether `draft` may be saved over the stored item `stored`: always,
/// unless the stored item is donated and `draft` changes more than its
/// notes.
pub fn donated_edit_allowed(stored: &InventoryItemDraft, draft: &InventoryItemDraft) -> (r: Result<(), String>)
    ensures
        r is Ok <==> (stored.status != ItemStatus::Donated || only_notes_change(*stored, *draft)),
        r matches Err(e) ==> e@ == donated_lock_message(),
{
    if stored.status != ItemStatus::Donated {
        return Ok(());
    }
    let same = str_eq(trim(draft.name.as_str()), trim(stored.name.as_str()))
        && draft.category_id == stored.category_id && draft.source_type == stored.source_type
        && draft.source_donation_id == stored.source_donation_id
        && draft.source_purchase_id == stored.source_purchase_id && draft.location == stored.location
        && draft.status == stored.status;
    if same {
        Ok(())
    } else {
        proof {
            reveal_strlit("this item has already been donated; only its notes can be changed");
        }
        Err(String::from_str("this item has already been donated; only its notes can be changed"))
    }
}

/// The message a single-item purchase conflict is reported with.
pub fn purchase_conflict_message(channel: &str) -> (m: String)
    ensures
        m@ == "purchase ("@ + channel@ + ") is single-item and already linked to another item"@,
{
    let mut m = String::from_str("purchase (");
    m.append(channel);
    m.append(") is single-item and already linked to another item");
    m
}

} // verus!
