//! The validation and row-shaping rules of the database layer. The SQL
//! itself runs in the front-end; these functions decide what is stored
//! and how stored rows are read back.
use vstd::prelude::*;

use crate::text::{spec_trim, trim};

pub mod inventory;
pub mod outbound;
pub mod transfers;

verus! {

/// Converts an empty-or-whitespace string to `None`, anything else to
/// `Some` of its trimmed text — how optional text fields of a draft map to
/// nullable columns.
pub fn opt(s: &str) -> (r: Option<&str>)
    ensures
        spec_trim(s@).len() == 0 ==> r is None,
        spec_trim(s@).len() > 0 ==> (r matches Some(t) && t@ == spec_trim(s@)),
{
    let t = trim(s);
    if t.is_empty() {
        None
    } else {
        Some(t)
    }
}

/// Authoritative guard for name-like fields (category, document label,
/// donor name) that a form marks required but a raw request can still
/// send blank: the trimmed name, or an error naming `field`.
pub fn require_name<'a>(field: &str, s: &'a str) -> (r: Result<&'a str, String>)
    ensures
        spec_trim(s@).len() == 0 ==> (r matches Err(e) && e@ == field@ + " must not be empty"@),
        spec_trim(s@).len() > 0 ==> (r matches Ok(t) && t@ == spec_trim(s@)),
{
    let t = trim(s);
    if t.is_empty() {
        let mut e = String::from_str(field);
        e.append(" must not be empty");
        return Err(e);
    }
    Ok(t)
}

} // verus!
