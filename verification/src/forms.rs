//! Decisions the purchase form makes before anything is saved: whether it
//! may be submitted, which label a newly picked document starts with, and
//! how many staged documents failed to attach.
use vstd::prelude::*;

use crate::date::{parse_date_input, spec_parse_date_input};
use crate::money::Money;
use crate::service::AttachmentOutcome;
use crate::text::{spec_trim, trim};

verus! {

/// The purchase form may be saved: its date parses, its channel is not
/// blank, and its cost parsed to a positive amount.
pub open spec fn spec_purchase_form_ok(date: Seq<char>, channel: Seq<char>, cost: Option<Money>) -> bool {
    &&& spec_parse_date_input(date) is Some
    &&& spec_trim(channel).len() > 0
    &&& cost matches Some(c) && c.spec_is_positive()
}

/// Whether the purchase form's Save (and Mark as bought) may be pressed,
/// given the typed date and channel and the cost as parsed from its field.
pub fn purchase_form_ok(date: &str, channel: &str, cost: Option<Money>) -> (r: bool)
    ensures
        r == spec_purchase_form_ok(date@, channel@, cost),
{
    let cost_ok = match cost {
        Some(c) => c.is_positive(),
        None => false,
    };
    parse_date_input(date).is_some() && !trim(channel).is_empty() && cost_ok
}

/// The label a newly picked document starts with: the first configured
/// label, or `other` when none is configured.
pub fn default_doc_label(labels: &[String]) -> (r: String)
    ensures
        labels@.len() > 0 ==> r@ == labels@[0]@,
        labels@.len() == 0 ==> r@ == "other"@,
{
    if labels.len() > 0 {
        labels[0].clone()
    } else {
        String::from_str("other")
    }
}

/// The number of failed outcomes among `outcomes`.
pub open spec fn spec_failed_count(outcomes: Seq<AttachmentOutcome>) -> nat
    decreases outcomes.len(),
{
    if outcomes.len() == 0 {
        0
    } else {
        spec_failed_count(outcomes.drop_last()) + if outcomes.last().result is Err {
            1nat
        } else {
            0nat
        }
    }
}

proof fn lemma_failed_count_bound(outcomes: Seq<AttachmentOutcome>)
    ensures
        spec_failed_count(outcomes) <= outcomes.len(),
    decreases outcomes.len(),
{
    if outcomes.len() > 0 {
        lemma_failed_count_bound(outcomes.drop_last());
    }
}

/// How many staged documents failed to attach; the form reports the
/// count and keeps those documents staged for a retry.
pub fn failed_attachments(outcomes: &[AttachmentOutcome]) -> (n: usize)
    ensures
        n == spec_failed_count(outcomes@),
{
    let mut n: usize = 0;
    let mut i: usize = 0;
    while i < outcomes.len()
        invariant
            i <= outcomes@.len(),
            n == spec_failed_count(outcomes@.take(i as int)),
        decreases outcomes@.len() - i,
    {
        proof {
            assert(outcomes@.take(i + 1).drop_last() =~= outcomes@.take(i as int));
            lemma_failed_count_bound(outcomes@.take(i as int));
        }
        if outcomes[i].result.is_err() {
            n = n + 1;
        }
        i = i + 1;
    }
    proof {
        assert(outcomes@.take(outcomes@.len() as int) =~= outcomes@);
    }
    n
}

/// `r` is the staged entry at position `j`, which failed to attach, with
/// its error.
pub open spec fn failed_entry<T>(r: (T, String), j: int, staged: Seq<T>, outcomes: Seq<AttachmentOutcome>) -> bool {
    &&& 0 <= j < staged.len()
    &&& outcomes[j].result is Err
    &&& r.0 == staged[j]
    &&& r.1@ == outcomes[j].result->Err_0@
}

/// The staged entries whose document failed to attach, each with its
/// error, in order: what a partially failed save keeps staged for a
/// retry. `staged[i]` is the entry `outcomes[i]` reports on.
pub fn failed_entries<T>(staged: Vec<T>, outcomes: &[AttachmentOutcome]) -> (r: Vec<(T, String)>)
    requires
        staged@.len() == outcomes@.len(),
    ensures
        r@.len() == spec_failed_count(outcomes@),
        exists|js: Seq<int>|
            js.len() == r@.len() && (forall|a: int, b: int|
                0 <= a < b < js.len() ==> #[trigger] js[a] < #[trigger] js[b]) && forall|k: int|
                0 <= k < js.len() ==> failed_entry(#[trigger] r@[k], js[k], staged@, outcomes@),
{
    let ghost all = staged@;
    let ghost mut js: Seq<int> = Seq::empty();
    let mut rest = staged;
    let mut out: Vec<(T, String)> = Vec::new();
    let mut i: usize = 0;
    proof {
        assert(outcomes@.take(0) =~= Seq::<AttachmentOutcome>::empty());
    }
    while rest.len() > 0
        invariant
            all.len() == outcomes@.len(),
            i + rest@.len() == all.len(),
            rest@ == all.subrange(i as int, all.len() as int),
            out@.len() == spec_failed_count(outcomes@.take(i as int)),
            js.len() == out@.len(),
            forall|a: int, b: int| 0 <= a < b < js.len() ==> #[trigger] js[a] < #[trigger] js[b],
            forall|k: int| 0 <= k < js.len() ==> js[k] < i,
            forall|k: int| 0 <= k < js.len() ==> failed_entry(#[trigger] out@[k], js[k], all, outcomes@),
        decreases rest@.len(),
    {
        let entry = rest.remove(0);
        proof {
            assert(outcomes@.take(i + 1).drop_last() =~= outcomes@.take(i as int));
            assert(entry == all[i as int]);
            assert(rest@ =~= all.subrange(i + 1, all.len() as int));
        }
        match &outcomes[i].result {
            Err(e) => {
                out.push((entry, e.clone()));
                proof {
                    js = js.push(i as int);
                    assert(failed_entry(out@[out@.len() - 1], i as int, all, outcomes@));
                }
            },
            Ok(_) => {},
        }
        i = i + 1;
    }
    proof {
        assert(outcomes@.take(outcomes@.len() as int) =~= outcomes@);
    }
    out
}

} // verus!
