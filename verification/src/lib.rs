use vstd::prelude::*;

pub mod model;
pub mod text;
pub mod date;
pub mod config;
pub mod money;
pub mod queries;
pub mod docs_fs;
pub mod service;
pub mod forms;
pub mod reporting;
pub mod web;

verus! {

} // verus!
