//! Table model: cell values, sort order, row sorting and widget actions.

pub mod actions;
pub mod cell;
pub mod comparison;
pub mod laws;
pub mod sort_rows;
pub mod sort_state;
pub mod sorting;
pub mod window;

pub use actions::{TableHeaderClickAction, TableRangeAction, TableRowClickAction, TableRowOutcome};
pub use cell::{CellValue, Identifiable, TableRow};
pub use sort_state::{SortDescriptor, SortDirection, SortOrder};
