//! A data-file explorer's core: sort and filter state, text editing,
//! search navigation, column layout and the SQL it sends to its engine.
use vstd::prelude::*;

pub mod cell_filter;
pub mod diff_sql;
pub mod event;
pub mod handlers;
pub mod input;
pub mod layout;
pub mod mode;
pub mod query;
pub mod search;
pub mod session;
pub mod state;
pub mod status;
pub mod table_view;
pub mod text;

verus! {
} // verus!
