//! Table widget actions and the keyboard and row-range decisions behind them.

use std::ops::Range;
use vstd::prelude::*;

use super::sort_state::{flipped, order_columns, SortDirection, SortOrder};
use crate::selection::SelectionModifiers;

verus! {

/// Action sent when the range of loaded rows must change.
#[derive(Debug, PartialEq, Eq)]
pub struct TableRangeAction {
    /// Previous active range.
    pub old_range: Range<usize>,
    /// New target range to load.
    pub target_range: Range<usize>,
}

impl Clone for TableRangeAction {
    fn clone(&self) -> (a: TableRangeAction)
        ensures
            a == *self,
    {
        TableRangeAction {
            old_range: Range { start: self.old_range.start, end: self.old_range.end },
            target_range: Range { start: self.target_range.start, end: self.target_range.end },
        }
    }
}

/// Action sent when a row is clicked (or reached by keyboard).
#[derive(Debug, Clone, Copy, PartialEq, Eq, Structural)]
pub struct TableRowClickAction {
    /// Row index that was clicked.
    pub row_index: usize,
    /// Click count (1 = single, 2 = double).
    pub click_count: u32,
    /// Whether Shift was held.
    pub shift: bool,
    /// Whether Command (macOS) or Ctrl was held.
    pub command: bool,
}

/// Action sent when a header column is clicked.
#[derive(Debug, Clone, PartialEq, Eq)]
pub struct TableHeaderClickAction {
    /// Column index that was clicked.
    pub column_index: usize,
    /// Column key.
    pub column_key: String,
}

/// Arrow keys that move the focused row.
#[derive(Debug, Clone, Copy, PartialEq, Eq, Structural)]
pub enum RowStep {
    /// Arrow up: the row above.
    Up,
    /// Arrow down: the row below.
    Down,
}

/// The row an arrow key moves the focus to, in a table of `item_count`
/// rows (at least one) whose focused row is `focused`: one row up or down,
/// kept within the rows; with no focused row, the first row.
pub open spec fn stepped_row(focused: Option<usize>, item_count: usize, step: RowStep) -> int {
    match focused {
        None => 0,
        Some(i) => match step {
            RowStep::Up => if i == 0 { 0 } else { i - 1 },
            RowStep::Down => if i + 1 < item_count - 1 { i + 1 } else { item_count - 1 },
        },
    }
}

/// Keyboard navigation: the row click an arrow key produces. An empty
/// table ignores the key; otherwise the focus moves as [`stepped_row`]
/// says, and the move is reported as a single click with the held
/// modifiers (Meta or Ctrl counting as Command).
pub fn keyboard_row_click(
    focused: Option<usize>,
    item_count: usize,
    step: RowStep,
    shift: bool,
    meta: bool,
    ctrl: bool,
) -> (a: Option<TableRowClickAction>)
    ensures
        item_count == 0 ==> a is None,
        item_count > 0 ==> a == Some(TableRowClickAction {
            row_index: stepped_row(focused, item_count, step) as usize,
            click_count: 1,
            shift,
            command: meta || ctrl,
        }),
{
    if item_count == 0 {
        return None;
    }
    let max_idx = item_count - 1;
    let row_index = match focused {
        None => 0,
        Some(i) => match step {
            RowStep::Up => if i == 0 { 0 } else { i - 1 },
            RowStep::Down => if i < max_idx && i + 1 < max_idx { i + 1 } else { max_idx },
        },
    };
    Some(TableRowClickAction { row_index, click_count: 1, shift, command: meta || ctrl })
}

/// The row click a pointer press on row `row_index` reports: the press's
/// click count, Shift as held, and Meta or Ctrl counting as Command.
pub fn pointer_row_click(row_index: usize, count: u8, shift: bool, meta: bool, ctrl: bool) -> (a: TableRowClickAction)
    ensures
        a == (TableRowClickAction { row_index, click_count: count as u32, shift, command: meta || ctrl }),
{
    TableRowClickAction { row_index, click_count: count as u32, shift, command: meta || ctrl }
}

/// The row-range action a layout pass emits: when the target range differs
/// from the active one and no earlier action is still being handled, an
/// action from the active to the target range.
pub fn range_change(active: &Range<usize>, target: &Range<usize>, pending: bool) -> (a: Option<TableRangeAction>)
    ensures
        (active.start != target.start || active.end != target.end) && !pending ==> a == Some(
            TableRangeAction { old_range: *active, target_range: *target },
        ),
        (active.start == target.start && active.end == target.end) || pending ==> a is None,
{
    if (active.start != target.start || active.end != target.end) && !pending {
        Some(TableRangeAction { old_range: Range { start: active.start, end: active.end }, target_range: Range { start: target.start, end: target.end } })
    } else {
        None
    }
}

/// What a click on a table row asks of the application.
#[derive(Debug, Clone, Copy, PartialEq, Eq, Structural)]
pub enum TableRowOutcome {
    /// Select the row, with the modifiers that were held.
    Select(usize, SelectionModifiers),
    /// Activate the row (double-click).
    Activate(usize),
}

/// What a row click becomes: a double (or further) click activates the
/// row; a single click selects it with Shift and Command as held (Alt is
/// not tracked by row clicks).
pub fn row_click_outcome(click: &TableRowClickAction) -> (r: TableRowOutcome)
    ensures
        click.click_count >= 2 ==> r == TableRowOutcome::Activate(click.row_index),
        click.click_count < 2 ==> r == TableRowOutcome::Select(
            click.row_index,
            SelectionModifiers { shift: click.shift, command: click.command, alt: false },
        ),
{
    if click.click_count >= 2 {
        TableRowOutcome::Activate(click.row_index)
    } else {
        TableRowOutcome::Select(click.row_index, SelectionModifiers { shift: click.shift, command: click.command, alt: false })
    }
}

/// The sort a click on the header of `column_key` asks for. `sortable` is
/// whether that column is sortable, `None` when the table has no such
/// column. A sortable column's direction flips if it is in the sort order,
/// otherwise it sorts ascending; any other click asks for nothing.
pub fn header_click_sort(order: &SortOrder, column_key: &str, sortable: Option<bool>) -> (r: Option<SortDirection>)
    ensures
        sortable == Some(true) ==> r == Some(
            match order_columns(order@).index_of_first(column_key@) {
                Some(p) => flipped(order@[p].1),
                None => SortDirection::Ascending,
            },
        ),
        sortable != Some(true) ==> r is None,
{
    match sortable {
        Some(true) => {
            let d = match order.direction_for(column_key) {
                Some(d) => d.toggle(),
                None => SortDirection::Ascending,
            };
            Some(d)
        },
        _ => None,
    }
}

} // verus!
