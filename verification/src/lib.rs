//! A headless engine for sortable tables: which column orders the rows and in
//! which direction, the comparison that follows from that choice, a stable
//! sort under it, and a row filter that never touches the sort state.

pub mod order;
pub mod field;
pub mod placement;
pub mod comparator;
pub mod sort;
pub mod state;
pub mod filter;
pub mod text;
pub mod price;
pub mod purchase;
pub mod table;
