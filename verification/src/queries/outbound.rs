//! Rules of outbound donation events.
use vstd::prelude::*;

use crate::money::{decimal_from_str, from_repr, parse_decimal, Money};
use crate::text::{debug_quoted, int_digits, push_i64_digits, spec_trim, str_debug, str_eq, trim};

verus! {

/// An event's cash amount as typed into its form field: none when the
/// field is blank, else the decimal it reads as (none where it does not
/// read as one), ignoring surrounding whitespace.
pub fn parse_cash(s: &str) -> (r: Option<Money>)
    ensures
        spec_trim(s@).len() == 0 ==> r is None,
        spec_trim(s@).len() > 0 ==> r == from_repr(decimal_from_str(spec_trim(s@))),
        r matches Some(m) ==> m.wf(),
{
    let t = trim(s);
    if t.is_empty() {
        None
    } else {
        parse_decimal(t)
    }
}

/// An outbound event needs at least one item or a positive cash amount.
pub open spec fn spec_is_gift(item_ids: Seq<i64>, cash_amount: Option<Money>) -> bool {
    item_ids.len() > 0 || (cash_amount matches Some(c) && c.spec_is_positive())
}

/// Authoritative guard: an outbound event needs at least one item or a
/// positive cash amount, or it's a no-op donation to nobody.
pub fn require_gift(item_ids: &[i64], cash_amount: Option<Money>) -> (r: Result<(), String>)
    ensures
        r is Ok <==> spec_is_gift(item_ids@, cash_amount),
        r matches Err(e) ==> e@ == "an outbound event needs at least one item or a cash amount"@,
{
    let has_cash = match cash_amount {
        Some(c) => c.is_positive(),
        None => false,
    };
    if item_ids.len() == 0 && !has_cash {
        return Err(String::from_str("an outbound event needs at least one item or a cash amount"));
    }
    Ok(())
}

/// The ledger entry an event's cash gift gets: its amount when positive,
/// none otherwise.
pub fn cash_gift_entry(cash_amount: Option<Money>) -> (r: Option<Money>)
    ensures
        r == (match cash_amount {
            Some(c) => if c.spec_is_positive() {
                Some(c)
            } else {
                None
            },
            None => None,
        }),
{
    match cash_amount {
        Some(c) => if c.is_positive() {
            Some(c)
        } else {
            None
        },
        None => None,
    }
}

/// Linking an item to an event is only allowed while it is available:
/// the guard against donating an item twice or taking a reserved one.
pub fn may_link_item(status: &str) -> (r: bool)
    ensures
        r == (status@ == "available"@),
{
    crate::text::str_eq(status, "available")
}

/// The error an item that is not available is refused with.
pub open spec fn unavailable_message(item_id: i64, status: Seq<char>) -> Seq<char> {
    "item "@ + int_digits(item_id as int) + " is not available (status: "@ + str_debug(status) + ")"@
}

fn unavailable_error(item_id: i64, status: &str) -> (e: String)
    ensures
        e@ == unavailable_message(item_id, status@),
{
    let mut e = String::from_str("item ");
    push_i64_digits(&mut e, item_id);
    e.append(" is not available (status: ");
    let q = debug_quoted(status);
    e.append(q.as_str());
    e.append(")");
    e
}

/// The `i`-th item passed the guard: its status read as `available` and
/// linking it succeeded.
pub open spec fn item_linked<S, L>(status_of: S, link: L, item_id: i64) -> bool where
    S: Fn(i64) -> Result<String, String>,
    L: Fn(i64) -> Result<(), String>,
 {
    &&& exists|st: Result<String, String>|
        st is Ok && st->Ok_0@ == "available"@ && #[trigger] status_of.ensures((item_id,), st)
    &&& exists|o: Result<(), String>| o is Ok && #[trigger] link.ensures((item_id,), o)
}

/// Why linking stopped at item `item_id`: reading its status failed with
/// `e`, its status is not `available` (and `e` says so), or linking it
/// failed with `e`.
pub open spec fn item_refused<S, L>(status_of: S, link: L, item_id: i64, e: Seq<char>) -> bool where
    S: Fn(i64) -> Result<String, String>,
    L: Fn(i64) -> Result<(), String>,
 {
    exists|st: Result<String, String>|
        #[trigger] status_of.ensures((item_id,), st) && match st {
            Err(x) => x@ == e,
            Ok(s) => if s@ == "available"@ {
                exists|o: Result<(), String>|
                    o is Err && o->Err_0@ == e && #[trigger] link.ensures((item_id,), o)
            } else {
                e == unavailable_message(item_id, s@)
            },
        }
}

/// Some read of item `item_id`'s status gave `available`.
pub open spec fn read_available<S>(status_of: S, item_id: i64) -> bool where
    S: Fn(i64) -> Result<String, String>,
 {
    exists|st: Result<String, String>|
        st is Ok && st->Ok_0@ == "available"@ && #[trigger] status_of.ensures((item_id,), st)
}

/// Links each item of `item_ids` to an event, in order, only if it is
/// currently available: `status_of` reads an item's stored status and
/// `link` links it and marks it donated. This is the authoritative guard
/// against donating an item twice or taking a reserved one. The first
/// item that is not available, or the first failure of either step, ends
/// the run with that error; the caller's transaction then rolls back
/// everything linked before it. `link` is only ever handed an item whose
/// status was read as `available`.
pub fn link_items<S, L>(item_ids: &[i64], status_of: S, link: L) -> (r: Result<(), String>) where
    S: Fn(i64) -> Result<String, String>,
    L: Fn(i64) -> Result<(), String>,

    requires
        forall|id: i64| #[trigger] status_of.requires((id,)),
        forall|id: i64| read_available(status_of, id) ==> #[trigger] link.requires((id,)),
    ensures
        r is Ok ==> forall|i: int|
            0 <= i < item_ids@.len() ==> item_linked(status_of, link, #[trigger] item_ids@[i]),
        r is Err ==> exists|i: int|
            0 <= i < item_ids@.len() && (forall|k: int|
                0 <= k < i ==> item_linked(status_of, link, #[trigger] item_ids@[k])) && item_refused(
                status_of,
                link,
                #[trigger] item_ids@[i],
                r->Err_0@,
            ),
{
    let mut i: usize = 0;
    proof {
        reveal_strlit("available");
    }
    while i < item_ids.len()
        invariant
            i <= item_ids@.len(),
            forall|id: i64| #[trigger] status_of.requires((id,)),
            forall|id: i64| read_available(status_of, id) ==> #[trigger] link.requires((id,)),
            forall|k: int| 0 <= k < i ==> item_linked(status_of, link, #[trigger] item_ids@[k]),
        decreases item_ids@.len() - i,
    {
        let id = item_ids[i];
        let st = status_of(id);
        assert(status_of.ensures((id,), st));
        match st {
            Err(e) => {
                assert(item_refused(status_of, link, item_ids@[i as int], e@));
                return Err(e);
            },
            Ok(s) => {
                if !may_link_item(s.as_str()) {
                    let e = unavailable_error(id, s.as_str());
                    assert(item_refused(status_of, link, item_ids@[i as int], e@));
                    return Err(e);
                }
                assert(read_available(status_of, id));
                let o = link(id);
                assert(link.ensures((id,), o));
                match o {
                    Err(e) => {
                        assert(item_refused(status_of, link, item_ids@[i as int], e@));
                        return Err(e);
                    },
                    Ok(()) => {
                        assert(item_linked(status_of, link, item_ids@[i as int]));
                    },
                }
            },
        }
        i = i + 1;
    }
    Ok(())
}

} // verus!
