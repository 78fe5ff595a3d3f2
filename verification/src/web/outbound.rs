//! Outbound donation pages: recipient and item pickers.
use vstd::prelude::*;

use crate::model::inventory::{InventoryItemRow, ItemStatus};
use crate::model::outbound::RecipientProject;
use crate::money::Money;
use crate::text::{parse_i64, spec_parse_i64, spec_trim, str_eq, trim};
use crate::web::templates::{ItemOption, RecipientOption};

verus! {

impl View for RecipientOption {
    type V = (i64, Seq<char>, bool);

    open spec fn view(&self) -> (i64, Seq<char>, bool) {
        (self.id, self.name@, self.selected)
    }
}

impl View for ItemOption {
    type V = (i64, Seq<char>, bool);

    open spec fn view(&self) -> (i64, Seq<char>, bool) {
        (self.id, self.label@, self.selected)
    }
}

/// The recipient picker: active recipients, plus the selected one even
/// if inactive (so an event's current recipient stays keepable), in list
/// order.
pub open spec fn spec_recipient_options(recipients: Seq<RecipientProject>, selected: Option<i64>) -> Seq<
    (i64, Seq<char>, bool),
>
    decreases recipients.len(),
{
    if recipients.len() == 0 {
        Seq::empty()
    } else {
        let prev = spec_recipient_options(recipients.drop_last(), selected);
        let p = recipients.last();
        if p.active || selected == Some(p.id) {
            prev.push((p.id, p.name@, selected == Some(p.id)))
        } else {
            prev
        }
    }
}

pub fn recipient_options(recipients: &[RecipientProject], selected: Option<i64>) -> (r: Vec<
    RecipientOption,
>)
    ensures
        r@.map_values(|o: RecipientOption| o@) == spec_recipient_options(recipients@, selected),
{
    let mut out: Vec<RecipientOption> = Vec::new();
    let mut i: usize = 0;
    while i < recipients.len()
        invariant
            i <= recipients@.len(),
            out@.map_values(|o: RecipientOption| o@) == spec_recipient_options(
                recipients@.take(i as int),
                selected,
            ),
        decreases recipients@.len() - i,
    {
        let p = &recipients[i];
        proof {
            let t = recipients@.take(i + 1);
            assert(t.drop_last() =~= recipients@.take(i as int));
            assert(t.last() == recipients@[i as int]);
        }
        let is_selected = match selected {
            Some(s) => s == p.id,
            None => false,
        };
        if p.active || is_selected {
            let ghost before = out@;
            let o = RecipientOption { id: p.id, name: p.name.clone(), selected: is_selected };
            out.push(o);
            assert(out@.map_values(|o: RecipientOption| o@) =~= before.map_values(
                |o: RecipientOption| o@,
            ).push((p.id, p.name@, is_selected)));
        }
        i = i + 1;
    }
    assert(recipients@.take(recipients@.len() as int) =~= recipients@);
    out
}

/// An item's picker label: `{name} — {category} — {source}`.
pub open spec fn item_label(item: InventoryItemRow) -> Seq<char> {
    item.name@ + " \u{2014} "@ + item.category_name@ + " \u{2014} "@ + item.source_desc@
}

/// The item picker: available items, plus those already selected (so an
/// edited event keeps its own donated items), in list order.
pub open spec fn spec_item_options(items: Seq<InventoryItemRow>, selected_ids: Seq<i64>) -> Seq<
    (i64, Seq<char>, bool),
>
    decreases items.len(),
{
    if items.len() == 0 {
        Seq::empty()
    } else {
        let prev = spec_item_options(items.drop_last(), selected_ids);
        let item = items.last();
        if item.status == ItemStatus::Available || selected_ids.contains(item.id) {
            prev.push((item.id, item_label(item), selected_ids.contains(item.id)))
        } else {
            prev
        }
    }
}

fn contains_id(ids: &[i64], id: i64) -> (r: bool)
    ensures
        r == ids@.contains(id),
{
    let mut i: usize = 0;
    while i < ids.len()
        invariant
            i <= ids@.len(),
            forall|k: int| 0 <= k < i ==> ids@[k] != id,
        decreases ids@.len() - i,
    {
        if ids[i] == id {
            assert(ids@[i as int] == id);
            return true;
        }
        i = i + 1;
    }
    false
}

pub fn item_options(items: &[InventoryItemRow], selected_ids: &[i64]) -> (r: Vec<ItemOption>)
    ensures
        r@.map_values(|o: ItemOption| o@) == spec_item_options(items@, selected_ids@),
{
    let mut out: Vec<ItemOption> = Vec::new();
    let mut i: usize = 0;
    while i < items.len()
        invariant
            i <= items@.len(),
            out@.map_values(|o: ItemOption| o@) == spec_item_options(
                items@.take(i as int),
                selected_ids@,
            ),
        decreases items@.len() - i,
    {
        let item = &items[i];
        proof {
            let t = items@.take(i + 1);
            assert(t.drop_last() =~= items@.take(i as int));
            assert(t.last() == items@[i as int]);
        }
        let is_selected = contains_id(selected_ids, item.id);
        let available = match item.status {
            ItemStatus::Available => true,
            _ => false,
        };
        if available || is_selected {
            let mut label = item.name.clone();
            label.append(" \u{2014} ");
            label.append(item.category_name.as_str());
            label.append(" \u{2014} ");
            label.append(item.source_desc.as_str());
            assert(label@ =~= item_label(*item));
            let ghost before = out@;
            out.push(ItemOption { id: item.id, label, selected: is_selected });
            assert(out@.map_values(|o: ItemOption| o@) =~= before.map_values(|o: ItemOption| o@).push(
                (item.id, item_label(*item), is_selected),
            ));
        }
        i = i + 1;
    }
    assert(items@.take(items@.len() as int) =~= items@);
    out
}

/// Every recipient offered is active or the selected one.
pub proof fn lemma_recipient_options_offer_only_active_or_selected(
    recipients: Seq<RecipientProject>,
    selected: Option<i64>,
)
    ensures
        forall|i: int|
            0 <= i < spec_recipient_options(recipients, selected).len() ==> exists|k: int|
                0 <= k < recipients.len() && (#[trigger] spec_recipient_options(recipients, selected)[i]).0
                    == recipients[k].id && (recipients[k].active || selected == Some(recipients[k].id)),
    decreases recipients.len(),
{
    if recipients.len() > 0 {
        let prev = recipients.drop_last();
        lemma_recipient_options_offer_only_active_or_selected(prev, selected);
        let opts = spec_recipient_options(recipients, selected);
        assert forall|i: int| 0 <= i < opts.len() implies exists|k: int|
            0 <= k < recipients.len() && (#[trigger] opts[i]).0 == recipients[k].id && (
            recipients[k].active || selected == Some(recipients[k].id)) by {
            let popts = spec_recipient_options(prev, selected);
            if i < popts.len() {
                assert(opts[i] == popts[i]);
                let k = choose|k: int|
                    0 <= k < prev.len() && popts[i].0 == prev[k].id && (prev[k].active || selected
                        == Some(prev[k].id));
                assert(recipients[k] == prev[k]);
            } else {
                assert(recipients[recipients.len() - 1] == recipients.last());
            }
        }
    }
}

/// Every item offered is available or one of the selected items, so an
/// event can never newly pick a reserved or donated item.
pub proof fn lemma_item_options_offer_only_available_or_selected(
    items: Seq<InventoryItemRow>,
    selected_ids: Seq<i64>,
)
    ensures
        forall|i: int|
            0 <= i < spec_item_options(items, selected_ids).len() ==> exists|k: int|
                0 <= k < items.len() && (#[trigger] spec_item_options(items, selected_ids)[i]).0
                    == items[k].id && (items[k].status == ItemStatus::Available
                    || selected_ids.contains(items[k].id)),
    decreases items.len(),
{
    if items.len() > 0 {
        let prev = items.drop_last();
        lemma_item_options_offer_only_available_or_selected(prev, selected_ids);
        let opts = spec_item_options(items, selected_ids);
        assert forall|i: int| 0 <= i < opts.len() implies exists|k: int|
            0 <= k < items.len() && (#[trigger] opts[i]).0 == items[k].id && (items[k].status
                == ItemStatus::Available || selected_ids.contains(items[k].id)) by {
            let popts = spec_item_options(prev, selected_ids);
            if i < popts.len() {
                assert(opts[i] == popts[i]);
                let k = choose|k: int|
                    0 <= k < prev.len() && popts[i].0 == prev[k].id && (prev[k].status
                        == ItemStatus::Available || selected_ids.contains(prev[k].id));
                assert(items[k] == prev[k]);
            } else {
                assert(items[items.len() - 1] == items.last());
            }
        }
    }
}

/// What `form_urlencoded::parse(bytes)` yields: the decoded name/value
/// pairs of an `application/x-www-form-urlencoded` body, in order.
pub uninterp spec fn urlencoded_pairs(bytes: Seq<u8>) -> Seq<(Seq<char>, Seq<char>)>;

/// The name/value pairs of `pairs` as text.
pub open spec fn pair_views(pairs: Seq<(String, String)>) -> Seq<(Seq<char>, Seq<char>)> {
    pairs.map_values(|p: (String, String)| (p.0@, p.1@))
}

/// Calls `form_urlencoded::parse(bytes)` and collects the pairs as owned
/// strings. The pairs are `urlencoded_pairs` of the bytes.
#[verifier::external_body]
fn parse_pairs(bytes: &[u8]) -> (r: Vec<(String, String)>)
    ensures
        pair_views(r@) == urlencoded_pairs(bytes@),
{
    form_urlencoded::parse(bytes).into_owned().collect()
}

/// The fields of the outbound event form. The form repeats `item_ids`
/// once per ticked item, so it is read pair by pair rather than into a
/// map.
pub struct OutboundForm {
    pub date: String,
    pub recipient_project_id: Option<i64>,
    pub cash_amount_brl_str: String,
    pub notes: String,
    pub item_ids: Vec<i64>,
}

/// The form's fields as text and numbers: date, recipient, cash amount,
/// notes and ticked item ids.
pub open spec fn form_view(f: OutboundForm) -> (Seq<char>, Option<i64>, Seq<char>, Seq<char>, Seq<i64>) {
    (f.date@, f.recipient_project_id, f.cash_amount_brl_str@, f.notes@, f.item_ids@)
}

/// The form that a sequence of name/value pairs fills in: a later value
/// of a field replaces an earlier one, every `item_ids` value that reads
/// as an integer (ignoring surrounding whitespace) is added in order, the
/// recipient is its value read as an integer if it reads as one, and
/// unknown names are ignored.
pub open spec fn spec_outbound_form(pairs: Seq<(Seq<char>, Seq<char>)>) -> (
    Seq<char>,
    Option<i64>,
    Seq<char>,
    Seq<char>,
    Seq<i64>,
)
    decreases pairs.len(),
{
    if pairs.len() == 0 {
        (Seq::empty(), None, Seq::empty(), Seq::empty(), Seq::empty())
    } else {
        let f = spec_outbound_form(pairs.drop_last());
        let (k, v) = pairs.last();
        if k == "date"@ {
            (v, f.1, f.2, f.3, f.4)
        } else if k == "recipient_project_id"@ {
            (f.0, spec_parse_i64(spec_trim(v)), f.2, f.3, f.4)
        } else if k == "cash_amount_brl_str"@ {
            (f.0, f.1, v, f.3, f.4)
        } else if k == "notes"@ {
            (f.0, f.1, f.2, v, f.4)
        } else if k == "item_ids"@ {
            match spec_parse_i64(spec_trim(v)) {
                Some(id) => (f.0, f.1, f.2, f.3, f.4.push(id)),
                None => f,
            }
        } else {
            f
        }
    }
}

/// Reads the outbound event form from its decoded name/value pairs.
pub fn outbound_form_from_pairs(pairs: &[(String, String)]) -> (f: OutboundForm)
    ensures
        form_view(f) == spec_outbound_form(pair_views(pairs@)),
{
    let mut form = OutboundForm {
        date: String::new(),
        recipient_project_id: None,
        cash_amount_brl_str: String::new(),
        notes: String::new(),
        item_ids: Vec::new(),
    };
    let mut i: usize = 0;
    proof {
        reveal_strlit("date");
        reveal_strlit("recipient_project_id");
        reveal_strlit("cash_amount_brl_str");
        reveal_strlit("notes");
        reveal_strlit("item_ids");
        assert(pair_views(pairs@).take(0) =~= Seq::<(Seq<char>, Seq<char>)>::empty());
    }
    while i < pairs.len()
        invariant
            i <= pairs@.len(),
            form_view(form) == spec_outbound_form(pair_views(pairs@).take(i as int)),
        decreases pairs@.len() - i,
    {
        let key = pairs[i].0.as_str();
        let value = pairs[i].1.as_str();
        proof {
            assert(pair_views(pairs@).take(i + 1).drop_last() =~= pair_views(pairs@).take(i as int));
            assert(pair_views(pairs@).take(i + 1).last() == (key@, value@));
        }
        if str_eq(key, "date") {
            form.date = String::from_str(value);
        } else if str_eq(key, "recipient_project_id") {
            form.recipient_project_id = parse_i64(trim(value));
        } else if str_eq(key, "cash_amount_brl_str") {
            form.cash_amount_brl_str = String::from_str(value);
        } else if str_eq(key, "notes") {
            form.notes = String::from_str(value);
        } else if str_eq(key, "item_ids") {
            match parse_i64(trim(value)) {
                Some(id) => form.item_ids.push(id),
                None => {},
            }
        }
        i = i + 1;
    }
    proof {
        assert(pair_views(pairs@).take(pairs@.len() as int) =~= pair_views(pairs@));
    }
    form
}

/// Reads the outbound event form from its raw
/// `application/x-www-form-urlencoded` body.
pub fn parse_outbound_form(bytes: &[u8]) -> (f: OutboundForm)
    ensures
        form_view(f) == spec_outbound_form(urlencoded_pairs(bytes@)),
{
    let pairs = parse_pairs(bytes);
    outbound_form_from_pairs(pairs.as_slice())
}

/// The summary of an outbound event in the event list: `one` for a
/// single item, `other` of the count otherwise, followed by `cash_suffix`
/// of the cash gift when it is positive.
pub open spec fn is_event_summary<O, M, C>(
    s: Seq<char>,
    item_count: i64,
    cash: Option<Money>,
    one: O,
    other: M,
    cash_suffix: C,
) -> bool where O: Fn() -> String, M: Fn(i64) -> String, C: Fn(Money) -> String {
    exists|base: String|
        (if item_count == 1 {
            one.ensures((), base)
        } else {
            other.ensures((item_count,), base)
        }) && match cash {
            Some(c) => if c.spec_is_positive() {
                exists|suffix: String| #[trigger] cash_suffix.ensures((c,), suffix) && s == base@ + suffix@
            } else {
                s == base@
            },
            None => s == base@,
        }
}

/// The event list's summary of an outbound event, worded by the caller's
/// localised messages.
pub fn event_summary<O, M, C>(item_count: i64, cash: Option<Money>, one: O, other: M, cash_suffix: C) -> (s:
    String) where O: Fn() -> String, M: Fn(i64) -> String, C: Fn(Money) -> String
    requires
        one.requires(()),
        forall|n: i64| #[trigger] other.requires((n,)),
        forall|m: Money| #[trigger] cash_suffix.requires((m,)),
    ensures
        is_event_summary(s@, item_count, cash, one, other, cash_suffix),
{
    let base = if item_count == 1 {
        one()
    } else {
        other(item_count)
    };
    let ghost g_base = base;
    let mut s = base;
    match cash {
        Some(c) => {
            if c.is_positive() {
                let suffix = cash_suffix(c);
                s.append(suffix.as_str());
                assert(cash_suffix.ensures((c,), suffix));
            }
        },
        None => {},
    }
    s
}

} // verus!
