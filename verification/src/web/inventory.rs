//! Inventory pages: form parsing and picker options.
use vstd::prelude::*;

use crate::model::category::Category;
use crate::model::inventory::{InventoryItemDraft, InventoryItemRow, ItemStatus, Location, SourceType};
use crate::model::donor::{Donor, PhysicalDonation};
use crate::model::purchase::{Purchase, PurchaseStatus};
use crate::text::{parse_i64, spec_parse_i64, spec_trim, trim};
use crate::web::templates::{CategoryOption, DonationOption, PurchaseOption};

verus! {

/// An optional id field of a form: blank (after trimming) means none,
/// else whatever `i64` parsing yields (nothing when it fails).
pub open spec fn spec_parsed_id(s: Seq<char>) -> Option<i64> {
    let t = spec_trim(s);
    if t.len() == 0 {
        None
    } else {
        spec_parse_i64(t)
    }
}

/// Parses an optional id field: `None` for a blank or unparseable value.
pub fn parsed_id(s: &str) -> (r: Option<i64>)
    ensures
        r == spec_parsed_id(s@),
{
    let s = trim(s);
    if s.is_empty() {
        None
    } else {
        parse_i64(s)
    }
}

/// A single-item purchase already linked to an inventory item other than
/// `edit_id`.
pub open spec fn spec_purchase_source_blocked(
    items: Seq<InventoryItemRow>,
    p: Purchase,
    edit_id: Option<i64>,
) -> bool {
    !p.multiple_items && exists|i: int|
        0 <= i < items.len() && edit_id != Some((#[trigger] items[i]).id)
            && items[i].source_purchase_id == Some(p.id)
}

/// Whether `p` can't be picked as the source of the item being edited
/// (`edit_id`, `None` when creating): it is single-item and already backs
/// a different inventory item. Grey-out only; storing an item enforces
/// the same rule authoritatively.
pub fn purchase_source_blocked(items: &[InventoryItemRow], p: &Purchase, edit_id: Option<i64>) -> (r:
    bool)
    ensures
        r == spec_purchase_source_blocked(items@, *p, edit_id),
{
    if p.multiple_items {
        return false;
    }
    let mut i: usize = 0;
    while i < items.len()
        invariant
            i <= items@.len(),
            !p.multiple_items,
            forall|k: int|
                0 <= k < i ==> !(edit_id != Some((#[trigger] items@[k]).id)
                    && items@[k].source_purchase_id == Some(p.id)),
        decreases items@.len() - i,
    {
        let item = &items[i];
        let other_item = match edit_id {
            Some(e) => e != item.id,
            None => true,
        };
        let linked = match item.source_purchase_id {
            Some(pid) => pid == p.id,
            None => false,
        };
        if other_item && linked {
            assert(edit_id != Some(items@[i as int].id) && items@[i as int].source_purchase_id == Some(
                p.id,
            ));
            return true;
        }
        i = i + 1;
    }
    false
}

impl View for CategoryOption {
    type V = (i64, Seq<char>, bool);

    open spec fn view(&self) -> (i64, Seq<char>, bool) {
        (self.id, self.name@, self.selected)
    }
}

/// One option per category, in order, the one with id `selected` marked.
pub fn category_options(categories: &[Category], selected: Option<i64>) -> (r: Vec<CategoryOption>)
    ensures
        r@.len() == categories@.len(),
        forall|i: int|
            0 <= i < r@.len() ==> (#[trigger] r@[i])@ == (
                categories@[i].id,
                categories@[i].name@,
                selected == Some(categories@[i].id),
            ),
{
    let mut out: Vec<CategoryOption> = Vec::new();
    let mut i: usize = 0;
    while i < categories.len()
        invariant
            i <= categories@.len(),
            out@.len() == i,
            forall|k: int|
                0 <= k < i ==> (#[trigger] out@[k])@ == (
                    categories@[k].id,
                    categories@[k].name@,
                    selected == Some(categories@[k].id),
                ),
        decreases categories@.len() - i,
    {
        let c = &categories[i];
        let is_selected = match selected {
            Some(s) => s == c.id,
            None => false,
        };
        out.push(CategoryOption { id: c.id, name: c.name.clone(), selected: is_selected });
        i = i + 1;
    }
    out
}

/// The positions of the bought purchases in `purchases`, in order: the
/// purchases an item can be sourced from.
pub open spec fn bought_indices(purchases: Seq<Purchase>) -> Seq<int>
    decreases purchases.len(),
{
    if purchases.len() == 0 {
        Seq::empty()
    } else {
        let prev = bought_indices(purchases.drop_last());
        if purchases.last().status == PurchaseStatus::Bought {
            prev.push(purchases.len() - 1)
        } else {
            prev
        }
    }
}

proof fn lemma_bought_indices_bounded(purchases: Seq<Purchase>)
    ensures
        forall|i: int|
            0 <= i < bought_indices(purchases).len() ==> 0 <= #[trigger] bought_indices(purchases)[i]
                < purchases.len(),
    decreases purchases.len(),
{
    if purchases.len() > 0 {
        let prev = purchases.drop_last();
        lemma_bought_indices_bounded(prev);
        assert forall|i: int| 0 <= i < bought_indices(purchases).len() implies 0
            <= #[trigger] bought_indices(purchases)[i] < purchases.len() by {
            if i < bought_indices(prev).len() {
                assert(bought_indices(purchases)[i] == bought_indices(prev)[i]);
            }
        }
    }
}

/// The purchase picker of the inventory form: one option per bought
/// purchase, in order, marked selected when it is `selected` and blocked
/// when it is single-item and already backs an item other than `edit_id`.
/// `label` writes an option's text from its purchase and whether it is
/// blocked.
pub fn purchase_options<F>(
    purchases: &[Purchase],
    items: &[InventoryItemRow],
    edit_id: Option<i64>,
    selected: Option<i64>,
    label: F,
) -> (r: Vec<PurchaseOption>) where F: Fn(&Purchase, bool) -> String
    requires
        forall|p: &Purchase, b: bool| #[trigger] label.requires((p, b)),
    ensures
        r@.len() == bought_indices(purchases@).len(),
        forall|i: int|
            0 <= i < r@.len() ==> {
                let p = purchases@[#[trigger] bought_indices(purchases@)[i]];
                &&& r@[i].id == p.id
                &&& r@[i].selected == (selected == Some(p.id))
                &&& r@[i].blocked == spec_purchase_source_blocked(items@, p, edit_id)
                &&& label.ensures((&p, r@[i].blocked), r@[i].label)
            },
{
    let mut out: Vec<PurchaseOption> = Vec::new();
    let mut k: usize = 0;
    while k < purchases.len()
        invariant
            k <= purchases@.len(),
            forall|p: &Purchase, b: bool| #[trigger] label.requires((p, b)),
            out@.len() == bought_indices(purchases@.take(k as int)).len(),
            forall|i: int|
                0 <= i < out@.len() ==> {
                    let p = purchases@[#[trigger] bought_indices(purchases@.take(k as int))[i]];
                    &&& out@[i].id == p.id
                    &&& out@[i].selected == (selected == Some(p.id))
                    &&& out@[i].blocked == spec_purchase_source_blocked(items@, p, edit_id)
                    &&& label.ensures((&p, out@[i].blocked), out@[i].label)
                },
        decreases purchases@.len() - k,
    {
        let ghost before = purchases@.take(k as int);
        proof {
            assert(purchases@.take(k + 1).drop_last() =~= before);
            lemma_bought_indices_bounded(before);
        }
        let p = &purchases[k];
        if p.status == PurchaseStatus::Bought {
            let blocked = purchase_source_blocked(items, p, edit_id);
            let text = label(p, blocked);
            let is_selected = match selected {
                Some(s) => s == p.id,
                None => false,
            };
            out.push(PurchaseOption { id: p.id, label: text, selected: is_selected, blocked });
        }
        proof {
            let after = purchases@.take(k + 1);
            assert forall|i: int| 0 <= i < bought_indices(before).len() implies #[trigger] bought_indices(
                after,
            )[i] == bought_indices(before)[i] && purchases@[bought_indices(before)[i]] == after[bought_indices(before)[i]] by {}
        }
        k = k + 1;
    }
    proof {
        assert(purchases@.take(purchases@.len() as int) =~= purchases@);
    }
    out
}

/// The donation picker of the inventory form: one option per donation, in
/// order, marked selected when it is `selected`. `label` writes an
/// option's text from its donation.
pub fn donation_options<F>(donations: &[PhysicalDonation], selected: Option<i64>, label: F) -> (r: Vec<
    DonationOption,
>) where F: Fn(&PhysicalDonation) -> String
    requires
        forall|d: &PhysicalDonation| #[trigger] label.requires((d,)),
    ensures
        r@.len() == donations@.len(),
        forall|i: int|
            0 <= i < r@.len() ==> {
                &&& (#[trigger] r@[i]).id == donations@[i].id
                &&& r@[i].selected == (selected == Some(donations@[i].id))
                &&& label.ensures((&donations@[i],), r@[i].label)
            },
{
    let mut out: Vec<DonationOption> = Vec::new();
    let mut i: usize = 0;
    while i < donations.len()
        invariant
            i <= donations@.len(),
            forall|d: &PhysicalDonation| #[trigger] label.requires((d,)),
            out@.len() == i,
            forall|k: int|
                0 <= k < i ==> {
                    &&& (#[trigger] out@[k]).id == donations@[k].id
                    &&& out@[k].selected == (selected == Some(donations@[k].id))
                    &&& label.ensures((&donations@[k],), out@[k].label)
                },
        decreases donations@.len() - i,
    {
        let d = &donations[i];
        let text = label(d);
        let is_selected = match selected {
            Some(s) => s == d.id,
            None => false,
        };
        out.push(DonationOption { id: d.id, label: text, selected: is_selected });
        i = i + 1;
    }
    out
}

/// The donor picker: every donor as `(id, name, selected)`, in order.
pub fn donor_options(donors: &[Donor], selected: Option<i64>) -> (r: Vec<(i64, String, bool)>)
    ensures
        r@.len() == donors@.len(),
        forall|i: int|
            0 <= i < r@.len() ==> {
                &&& (#[trigger] r@[i]).0 == donors@[i].id
                &&& r@[i].1@ == donors@[i].name@
                &&& r@[i].2 == (selected == Some(donors@[i].id))
            },
{
    let mut out: Vec<(i64, String, bool)> = Vec::new();
    let mut i: usize = 0;
    while i < donors.len()
        invariant
            i <= donors@.len(),
            out@.len() == i,
            forall|k: int|
                0 <= k < i ==> {
                    &&& (#[trigger] out@[k]).0 == donors@[k].id
                    &&& out@[k].1@ == donors@[k].name@
                    &&& out@[k].2 == (selected == Some(donors@[k].id))
                },
        decreases donors@.len() - i,
    {
        let d = &donors[i];
        let is_selected = match selected {
            Some(s) => s == d.id,
            None => false,
        };
        out.push((d.id, d.name.clone(), is_selected));
        i = i + 1;
    }
    out
}

/// The fields of the inventory item form, as submitted.
pub struct InventoryForm {
    pub name: String,
    pub category_id: String,
    pub location: String,
    pub status: String,
    pub source_type: String,
    pub source_donation_id: String,
    pub source_purchase_id: String,
    pub notes: String,
}

/// The draft a submitted inventory form describes, for an already
/// validated `source_type`: only the source id matching the source type
/// is kept, an unknown location defaults to Germany and an unknown status
/// to Available.
pub fn draft_from_form(form: InventoryForm, source_type: SourceType) -> (d: InventoryItemDraft)
    ensures
        d.name == form.name,
        d.category_id == spec_parsed_id(form.category_id@),
        d.source_type == source_type,
        d.source_donation_id == (match source_type {
            SourceType::Donation => spec_parsed_id(form.source_donation_id@),
            SourceType::Purchase => None,
        }),
        d.source_purchase_id == (match source_type {
            SourceType::Donation => None,
            SourceType::Purchase => spec_parsed_id(form.source_purchase_id@),
        }),
        d.location == (match Location::spec_from_str(form.location@) {
            Some(l) => l,
            None => Location::Germany,
        }),
        d.status == (match ItemStatus::spec_from_str(form.status@) {
            Some(s) => s,
            None => ItemStatus::Available,
        }),
        d.notes == form.notes,
{
    let (source_donation_id, source_purchase_id) = match source_type {
        SourceType::Donation => (parsed_id(form.source_donation_id.as_str()), None),
        SourceType::Purchase => (None, parsed_id(form.source_purchase_id.as_str())),
    };
    let location = match Location::from_str(form.location.as_str()) {
        Some(l) => l,
        None => Location::Germany,
    };
    let status = match ItemStatus::from_str(form.status.as_str()) {
        Some(s) => s,
        None => ItemStatus::Available,
    };
    let category_id = parsed_id(form.category_id.as_str());
    InventoryItemDraft {
        name: form.name,
        category_id,
        source_type,
        source_donation_id,
        source_purchase_id,
        location,
        status,
        notes: form.notes,
    }
}

/// The edit form's draft for a stored item: its fields as stored, with
/// no notes as empty text.
pub fn draft_of_item(item: &InventoryItemRow) -> (d: InventoryItemDraft)
    ensures
        d.name@ == item.name@,
        d.category_id == Some(item.category_id),
        d.source_type == item.source_type,
        d.source_donation_id == item.source_donation_id,
        d.source_purchase_id == item.source_purchase_id,
        d.location == item.location,
        d.status == item.status,
        d.notes@ == (match item.notes {
            Some(n) => n@,
            None => Seq::<char>::empty(),
        }),
{
    let notes = match &item.notes {
        Some(n) => n.clone(),
        None => String::new(),
    };
    InventoryItemDraft {
        name: item.name.clone(),
        category_id: Some(item.category_id),
        source_type: item.source_type,
        source_donation_id: item.source_donation_id,
        source_purchase_id: item.source_purchase_id,
        location: item.location,
        status: item.status,
        notes,
    }
}

/// Whether some donation in `donations` has id `id`.
pub open spec fn has_donation(donations: Seq<PhysicalDonation>, id: i64) -> bool {
    exists|i: int| 0 <= i < donations.len() && (#[trigger] donations[i]).id == id
}

fn find_donation(donations: &[PhysicalDonation], id: i64) -> (r: bool)
    ensures
        r == has_donation(donations@, id),
{
    let mut i: usize = 0;
    while i < donations.len()
        invariant
            i <= donations@.len(),
            forall|k: int| 0 <= k < i ==> (#[trigger] donations@[k]).id != id,
        decreases donations@.len() - i,
    {
        if donations[i].id == id {
            return true;
        }
        i = i + 1;
    }
    false
}

/// The New Item form's starting draft, prefilled from what the page was
/// asked for (after a round trip through creating a donation): a
/// donation-sourced draft whose donation is the requested one only if it
/// exists, so a stale or hand-edited id never preselects a donation that
/// is not there. Also says whether the Source choice starts out made:
/// only when that donation exists.
pub fn new_item_draft(form: InventoryForm, donation_id: Option<i64>, donations: &[PhysicalDonation]) -> (r: (
    InventoryItemDraft,
    bool,
))
    ensures
        ({
            let valid = match donation_id {
                Some(id) => has_donation(donations@, id),
                None => false,
            };
            let d = r.0;
            &&& r.1 == valid
            &&& d.source_donation_id == (if valid {
                donation_id
            } else {
                None
            })
            &&& d.source_type == SourceType::Donation
            &&& d.source_purchase_id is None
            &&& d.name == form.name
            &&& d.category_id == spec_parsed_id(form.category_id@)
            &&& d.location == (match Location::spec_from_str(form.location@) {
                Some(l) => l,
                None => Location::Germany,
            })
            &&& d.status == (match ItemStatus::spec_from_str(form.status@) {
                Some(s) => s,
                None => ItemStatus::Available,
            })
            &&& d.notes == form.notes
        }),
{
    let valid = match donation_id {
        Some(id) => find_donation(donations, id),
        None => false,
    };
    let location = match Location::from_str(form.location.as_str()) {
        Some(l) => l,
        None => Location::Germany,
    };
    let status = match ItemStatus::from_str(form.status.as_str()) {
        Some(s) => s,
        None => ItemStatus::Available,
    };
    let category_id = parsed_id(form.category_id.as_str());
    let draft = InventoryItemDraft {
        name: form.name,
        category_id,
        source_type: SourceType::Donation,
        source_donation_id: if valid {
            donation_id
        } else {
            None
        },
        source_purchase_id: None,
        location,
        status,
        notes: form.notes,
    };
    (draft, valid)
}

} // verus!
