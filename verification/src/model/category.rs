//! Item categories.
use vstd::prelude::*;

verus! {

/// A category inventory items are filed under.
#[derive(Clone)]
pub struct Category {
    pub id: i64,
    pub name: String,
}

} // verus!
