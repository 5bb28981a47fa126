use xilem_extras::table::actions::{header_click_sort, keyboard_row_click, pointer_row_click, range_change, row_click_outcome, RowStep};
use xilem_extras::table::window::{data_index, row_is_striped, rows_to_remove};
use xilem_extras::{
    SelectionModifiers, SortDirection, SortOrder, TableHeaderClickAction, TableRangeAction, TableRowClickAction,
    TableRowOutcome,
};

#[test]
fn arrow_keys_move_focus_within_rows() {
    let down = keyboard_row_click(Some(3), 10, RowStep::Down, false, false, false).unwrap();
    assert_eq!(down.row_index, 4);
    assert_eq!(down.click_count, 1);
    let up = keyboard_row_click(Some(3), 10, RowStep::Up, true, false, true).unwrap();
    assert_eq!(up, TableRowClickAction { row_index: 2, click_count: 1, shift: true, command: true });
    assert_eq!(keyboard_row_click(Some(9), 10, RowStep::Down, false, false, false).unwrap().row_index, 9);
    assert_eq!(keyboard_row_click(Some(0), 10, RowStep::Up, false, false, false).unwrap().row_index, 0);
    assert_eq!(keyboard_row_click(None, 10, RowStep::Down, false, true, false).unwrap().row_index, 0);
    assert!(keyboard_row_click(None, 10, RowStep::Down, false, true, false).unwrap().command);
    assert_eq!(keyboard_row_click(Some(2), 0, RowStep::Down, false, false, false), None);
}

#[test]
fn range_change_only_when_needed() {
    let a = range_change(&(0..10), &(5..20), false).unwrap();
    assert_eq!(a, TableRangeAction { old_range: 0..10, target_range: 5..20 });
    assert_eq!(a.clone(), a);
    assert_eq!(range_change(&(0..10), &(0..10), false), None);
    assert_eq!(range_change(&(0..10), &(5..20), true), None);
}

#[test]
fn header_click_action_holds_key() {
    let h = TableHeaderClickAction { column_index: 1, column_key: "age".to_string() };
    assert_eq!(h.clone(), h);
}

#[test]
fn range_change_removes_rows_left_behind() {
    let down = TableRangeAction { old_range: 0..10, target_range: 5..20 };
    assert_eq!(rows_to_remove(&down), vec![0, 1, 2, 3, 4]);
    let up = TableRangeAction { old_range: 5..20, target_range: 0..10 };
    assert_eq!(rows_to_remove(&up), (10..20).collect::<Vec<usize>>());
    let jump = TableRangeAction { old_range: 0..3, target_range: 50..60 };
    assert_eq!(rows_to_remove(&jump), vec![0, 1, 2]);
    let grow = TableRangeAction { old_range: 2..4, target_range: 0..10 };
    assert!(rows_to_remove(&grow).is_empty());
}

#[test]
fn visual_rows_map_through_sorted_positions() {
    let sorted = [2, 0, 1];
    assert_eq!(data_index(&sorted, 0), 2);
    assert_eq!(data_index(&sorted, 2), 1);
    assert_eq!(data_index(&sorted, 7), 7);
    assert_eq!(data_index(&[], 4), 4);
    assert!(row_is_striped(true, 3));
    assert!(!row_is_striped(true, 4));
    assert!(!row_is_striped(false, 3));
}

#[test]
fn double_click_activates_single_click_selects() {
    let single = TableRowClickAction { row_index: 4, click_count: 1, shift: true, command: false };
    assert_eq!(
        row_click_outcome(&single),
        TableRowOutcome::Select(4, SelectionModifiers { command: false, shift: true, alt: false })
    );
    let double = TableRowClickAction { row_index: 4, click_count: 2, shift: false, command: true };
    assert_eq!(row_click_outcome(&double), TableRowOutcome::Activate(4));
    let press = pointer_row_click(7, 3, false, false, true);
    assert_eq!(press, TableRowClickAction { row_index: 7, click_count: 3, shift: false, command: true });
    assert_eq!(row_click_outcome(&press), TableRowOutcome::Activate(7));
}

#[test]
fn header_click_flips_or_starts_ascending() {
    let order = SortOrder::single("name", SortDirection::Ascending);
    assert_eq!(header_click_sort(&order, "name", Some(true)), Some(SortDirection::Descending));
    assert_eq!(header_click_sort(&order, "age", Some(true)), Some(SortDirection::Ascending));
    assert_eq!(header_click_sort(&order, "name", Some(false)), None);
    assert_eq!(header_click_sort(&order, "missing", None), None);
    let desc = SortOrder::single("name", SortDirection::Descending);
    assert_eq!(header_click_sort(&desc, "name", Some(true)), Some(SortDirection::Ascending));
}
