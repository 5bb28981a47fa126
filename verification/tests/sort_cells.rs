use std::cmp::Ordering;

use xilem_extras::{CellValue, Identifiable, SortDescriptor, SortDirection, SortOrder, TableRow};

struct Person {
    id: u32,
    name: &'static str,
    height: f64,
}

impl Identifiable for Person {
    type Id = u32;
    fn id(&self) -> u32 {
        self.id
    }
}

impl TableRow for Person {
    fn cell(&self, column: &str) -> CellValue {
        match column {
            "name" => CellValue::Text(self.name.to_string()),
            "height" => CellValue::float_bits(self.height.to_bits(), 1),
            _ => CellValue::Empty,
        }
    }
}

fn text(s: &str) -> CellValue {
    CellValue::Text(s.to_string())
}

#[test]
fn arrange_cells_is_stable_and_filters() {
    let order = SortOrder::single("k", SortDirection::Ascending);
    let cells = vec![
        vec![CellValue::Integer(3)],
        vec![CellValue::Integer(1)],
        vec![CellValue::Integer(3)],
        vec![CellValue::Integer(2)],
    ];
    assert_eq!(order.arrange_cells(&cells, &[true, true, true, true]), vec![1, 3, 0, 2]);
    assert_eq!(order.arrange_cells(&cells, &[true, false, true, true]), vec![3, 0, 2]);
    assert_eq!(order.arrange_cells(&cells, &[false, false, false, false]), Vec::<usize>::new());
}

#[test]
fn descending_reverses_but_keeps_ties_in_order() {
    let order = SortOrder::single("k", SortDirection::Descending);
    let cells = vec![
        vec![CellValue::Integer(3)],
        vec![CellValue::Integer(1)],
        vec![CellValue::Integer(3)],
        vec![CellValue::Integer(2)],
    ];
    assert_eq!(order.arrange_cells(&cells, &[true, true, true, true]), vec![0, 2, 3, 1]);
}

#[test]
fn kinds_sort_by_rank_then_value() {
    let order = SortOrder::single("k", SortDirection::Ascending);
    let cells = vec![
        vec![text("b")],
        vec![CellValue::Float(1.5f64.to_bits(), 2)],
        vec![CellValue::Integer(-4)],
        vec![CellValue::Empty],
        vec![text("a")],
        vec![CellValue::Float((-2.0f64).to_bits(), 2)],
    ];
    assert_eq!(order.arrange_cells(&cells, &[true; 6]), vec![3, 2, 5, 1, 4, 0]);
}

#[test]
fn text_orders_by_bytes_prefix_first() {
    let order = SortOrder::single("k", SortDirection::Ascending);
    let cells = vec![vec![text("abc")], vec![text("ab")], vec![text("B")], vec![text("é")], vec![text("")]];
    assert_eq!(order.arrange_cells(&cells, &[true; 5]), vec![4, 2, 1, 0, 3]);
}

#[test]
fn floats_follow_total_order() {
    let order = SortOrder::single("k", SortDirection::Ascending);
    let vals = [0.0f64, -0.0, f64::INFINITY, -1.0, 2.5, f64::NEG_INFINITY];
    let cells: Vec<Vec<CellValue>> = vals.iter().map(|v| vec![CellValue::float_bits(v.to_bits(), 0)]).collect();
    // -inf, -1, -0, 0, 2.5, inf
    assert_eq!(order.arrange_cells(&cells, &[true; 6]), vec![5, 3, 1, 0, 4, 2]);
}

#[test]
fn second_level_breaks_ties() {
    let order = SortOrder::multi([SortDescriptor::ascending("a"), SortDescriptor::descending("b")]);
    let cells = vec![
        vec![CellValue::Integer(1), CellValue::Integer(5)],
        vec![CellValue::Integer(0), CellValue::Integer(1)],
        vec![CellValue::Integer(1), CellValue::Integer(9)],
    ];
    assert_eq!(order.arrange_cells(&cells, &[true; 3]), vec![1, 2, 0]);
    assert_eq!(order.compare_cell_rows(&cells[0], &cells[2]), 1);
    assert_eq!(order.compare_cell_rows(&cells[1], &cells[0]), -1);
    assert_eq!(order.compare_cell_rows(&cells[2], &cells[2]), 0);
}

#[test]
fn descriptor_compares_cells() {
    let asc = SortDescriptor::ascending("name");
    let desc = SortDescriptor::descending("name");
    assert_eq!(asc.compare_values(&text("a"), &text("b")), Ordering::Less);
    assert_eq!(desc.compare_values(&text("a"), &text("b")), Ordering::Greater);
    assert_eq!(asc.compare_values(&CellValue::Integer(2), &CellValue::Integer(2)), Ordering::Equal);
}

#[test]
fn compare_rows_through_cells() {
    let a = Person { id: 1, name: "Ann", height: 1.7 };
    let b = Person { id: 2, name: "Ben", height: 1.6 };
    assert_eq!(a.id(), 1);
    assert_eq!(SortDescriptor::ascending("name").compare(&a, &b), Ordering::Less);
    assert_eq!(SortDescriptor::ascending("height").compare(&a, &b), Ordering::Greater);
    let order = SortOrder::multi([SortDescriptor::ascending("none"), SortDescriptor::descending("height")]);
    assert_eq!(order.compare(&a, &b), Ordering::Less);
    assert_eq!(SortOrder::new().compare(&a, &b), Ordering::Equal);
}

#[test]
fn toggle_primary_twice_restores() {
    let mut order = SortOrder::multi([SortDescriptor::descending("name"), SortDescriptor::ascending("age")]);
    order.toggle_column("name", false);
    assert_eq!(order.direction(), Some(SortDirection::Ascending));
    assert_eq!(order.len(), 2);
    order.toggle_column("name", false);
    assert_eq!(order.direction(), Some(SortDirection::Descending));
    assert_eq!(order.direction_for("age"), Some(SortDirection::Ascending));
}

#[test]
fn shift_toggle_keeps_primary() {
    let mut order = SortOrder::single("name", SortDirection::Ascending);
    order.toggle_column("age", true);
    order.toggle_column("age", true);
    assert_eq!(order.primary_column(), Some("name"));
    assert_eq!(order.direction_for("age"), Some(SortDirection::Descending));
    assert_eq!(order.position_of("age"), Some(1));
    let copy = order.clone();
    assert_eq!(copy.len(), 2);
    assert_eq!(copy.direction_for("age"), Some(SortDirection::Descending));
}

#[test]
fn reversed_is_toggle() {
    assert_eq!(SortDirection::Ascending.reversed(), SortDirection::Descending);
    assert_eq!(SortDirection::Descending.reversed().reversed(), SortDirection::Descending);
    assert_eq!(SortDirection::default(), SortDirection::Ascending);
}

#[test]
fn sort_indices_where_keeps_selected_rows() {
    let rows = vec![
        Person { id: 1, name: "Cy", height: 1.8 },
        Person { id: 2, name: "Al", height: 1.5 },
        Person { id: 3, name: "Bo", height: 1.6 },
    ];
    let order = SortOrder::single("name", SortDirection::Ascending);
    assert_eq!(order.sort_indices_where(&rows, &[true, false, true]), vec![2, 0]);
}
