use vstd::prelude::*;

pub mod labels;
pub mod text;
pub mod numbers;
pub mod value_map;
pub mod ids;
pub mod dates;
pub mod json;
pub mod display;
pub mod audit;
pub mod validation;
pub mod extract;
pub mod forms;
pub mod dashboard;
pub mod poller;
pub mod timeline;
pub mod requests;
pub mod allocations;
pub mod report_cells;
pub mod access;
pub mod laws;
pub mod dashboard_laws;
pub mod shown_text;

verus! {

} // verus!
