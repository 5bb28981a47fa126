use xilem_extras::{CellValue, Identifiable, SortDescriptor, SortDirection, SortOrder, TableRow};

#[derive(Debug, Clone)]
struct TestRow {
    id: u64,
    name: String,
    age: i64,
    score: f64,
}

impl Identifiable for TestRow {
    type Id = u64;
    fn id(&self) -> Self::Id {
        self.id
    }
}

impl TableRow for TestRow {
    fn cell(&self, column: &str) -> CellValue {
        match column {
            "name" => CellValue::Text(self.name.clone()),
            "age" => CellValue::Integer(self.age),
            "score" => CellValue::float_bits(self.score.to_bits(), 2),
            _ => CellValue::Empty,
        }
    }
}

fn test_data() -> Vec<TestRow> {
    vec![
        TestRow { id: 1, name: "Alice".into(), age: 30, score: 85.5 },
        TestRow { id: 2, name: "Bob".into(), age: 25, score: 92.0 },
        TestRow { id: 3, name: "Charlie".into(), age: 35, score: 78.3 },
        TestRow { id: 4, name: "Alice".into(), age: 28, score: 88.0 },
    ]
}

#[test]
fn sort_direction_toggle() {
    assert_eq!(SortDirection::Ascending.toggle(), SortDirection::Descending);
    assert_eq!(SortDirection::Descending.toggle(), SortDirection::Ascending);
}

#[test]
fn sort_descriptor_ascending() {
    let desc = SortDescriptor::ascending("name");
    assert_eq!(desc.column, "name");
    assert_eq!(desc.direction, SortDirection::Ascending);
}

#[test]
fn sort_descriptor_descending() {
    let desc = SortDescriptor::descending("age");
    assert_eq!(desc.column, "age");
    assert_eq!(desc.direction, SortDirection::Descending);
}

#[test]
fn sort_order_empty() {
    let order = SortOrder::new();
    assert!(order.is_empty());
    assert_eq!(order.len(), 0);
    assert_eq!(order.primary_column(), None);
}

#[test]
fn sort_order_single() {
    let order = SortOrder::single("name", SortDirection::Ascending);
    assert_eq!(order.len(), 1);
    assert_eq!(order.primary_column(), Some("name"));
    assert_eq!(order.direction(), Some(SortDirection::Ascending));
}

#[test]
fn sort_order_toggle_same_column() {
    let mut order = SortOrder::single("name", SortDirection::Ascending);
    order.toggle_column("name", false);
    assert_eq!(order.direction(), Some(SortDirection::Descending));
}

#[test]
fn sort_order_toggle_different_column() {
    let mut order = SortOrder::single("name", SortDirection::Ascending);
    order.toggle_column("age", false);
    assert_eq!(order.primary_column(), Some("age"));
    assert_eq!(order.direction(), Some(SortDirection::Ascending));
}

#[test]
fn sort_order_multi_column_with_shift() {
    let mut order = SortOrder::single("name", SortDirection::Ascending);
    order.toggle_column("age", true);
    assert_eq!(order.len(), 2);
    assert_eq!(order.primary_column(), Some("name"));
    assert_eq!(order.direction_for("age"), Some(SortDirection::Ascending));
}

#[test]
fn sort_order_toggle_existing_multi_column() {
    let mut order = SortOrder::multi([
        SortDescriptor::ascending("name"),
        SortDescriptor::ascending("age"),
    ]);
    order.toggle_column("age", true);
    assert_eq!(order.direction_for("age"), Some(SortDirection::Descending));
}

#[test]
fn sort_by_name_ascending() {
    let data = test_data();
    let order = SortOrder::single("name", SortDirection::Ascending);
    let sorted = order.sorted(&data);

    let names: Vec<_> = sorted.iter().map(|r| r.name.as_str()).collect();
    assert_eq!(names, vec!["Alice", "Alice", "Bob", "Charlie"]);
}

#[test]
fn sort_by_name_descending() {
    let data = test_data();
    let order = SortOrder::single("name", SortDirection::Descending);
    let sorted = order.sorted(&data);

    let names: Vec<_> = sorted.iter().map(|r| r.name.as_str()).collect();
    assert_eq!(names, vec!["Charlie", "Bob", "Alice", "Alice"]);
}

#[test]
fn sort_by_age_ascending() {
    let data = test_data();
    let order = SortOrder::single("age", SortDirection::Ascending);
    let sorted = order.sorted(&data);

    let ages: Vec<_> = sorted.iter().map(|r| r.age).collect();
    assert_eq!(ages, vec![25, 28, 30, 35]);
}

#[test]
fn sort_multi_column() {
    let data = test_data();
    let order = SortOrder::multi([
        SortDescriptor::ascending("name"),
        SortDescriptor::ascending("age"),
    ]);
    let sorted = order.sorted(&data);

    // Alice(28), Alice(30), Bob(25), Charlie(35)
    let results: Vec<_> = sorted.iter().map(|r| (&r.name, r.age)).collect();
    assert_eq!(results[0], (&"Alice".to_string(), 28));
    assert_eq!(results[1], (&"Alice".to_string(), 30));
    assert_eq!(results[2], (&"Bob".to_string(), 25));
    assert_eq!(results[3], (&"Charlie".to_string(), 35));
}

#[test]
fn sort_indices() {
    let data = test_data();
    let order = SortOrder::single("age", SortDirection::Ascending);
    let indices = order.sort_indices(&data);

    // Bob(25) is at index 1, Alice(28) at 3, Alice(30) at 0, Charlie(35) at 2
    assert_eq!(indices, vec![1, 3, 0, 2]);
}

#[test]
fn iter_sorted() {
    let data = test_data();
    let order = SortOrder::single("age", SortDirection::Ascending);
    let ages: Vec<_> = order.iter_sorted(&data).map(|r| r.age).collect();
    assert_eq!(ages, vec![25, 28, 30, 35]);
}

#[test]
fn filter_sorted() {
    let data = test_data();
    let order = SortOrder::single("age", SortDirection::Ascending);
    let filtered = order.filter_sorted(&data, |r| r.age >= 28);

    let ages: Vec<_> = filtered.iter().map(|r| r.age).collect();
    assert_eq!(ages, vec![28, 30, 35]);
}

#[test]
fn sort_empty_slice() {
    let data: Vec<TestRow> = vec![];
    let order = SortOrder::single("name", SortDirection::Ascending);
    let sorted = order.sorted(&data);
    assert!(sorted.is_empty());
}

#[test]
fn sort_unsorted() {
    let data = test_data();
    let order = SortOrder::new();
    let sorted = order.sorted(&data);

    // Order should be preserved
    let ids: Vec<_> = sorted.iter().map(|r| r.id).collect();
    assert_eq!(ids, vec![1, 2, 3, 4]);
}

#[test]
fn position_of_column() {
    let order = SortOrder::multi([
        SortDescriptor::ascending("name"),
        SortDescriptor::ascending("age"),
        SortDescriptor::descending("score"),
    ]);

    assert_eq!(order.position_of("name"), Some(0));
    assert_eq!(order.position_of("age"), Some(1));
    assert_eq!(order.position_of("score"), Some(2));
    assert_eq!(order.position_of("unknown"), None);
}

#[test]
fn clear_sort_order() {
    let mut order = SortOrder::single("name", SortDirection::Ascending);
    order.clear();
    assert!(order.is_empty());
}

#[test]
fn sort_by_float() {
    let data = test_data();
    let order = SortOrder::single("score", SortDirection::Descending);
    let sorted = order.sorted(&data);

    let scores: Vec<_> = sorted.iter().map(|r| r.score).collect();
    assert_eq!(scores, vec![92.0, 88.0, 85.5, 78.3]);
}

#[test]
fn sort_slice_in_place() {
    let mut data = test_data();
    let order = SortOrder::single("age", SortDirection::Ascending);
    order.sort_slice(&mut data);

    let ages: Vec<_> = data.iter().map(|r| r.age).collect();
    assert_eq!(ages, vec![25, 28, 30, 35]);
}

#[test]
fn sorting_functions_agree_on_one_order() {
    let items = test_data();
    let order = SortOrder::multi([SortDescriptor::descending("age"), SortDescriptor::ascending("name")]);
    let idx = order.sort_indices(&items);
    let by_iter: Vec<u64> = order.iter_sorted(&items).map(|r| r.id).collect();
    let by_idx: Vec<u64> = idx.iter().map(|&i| items[i].id).collect();
    let by_copy: Vec<u64> = order.sorted(&items).iter().map(|r| r.id).collect();
    let mut in_place = items.clone();
    order.sort_slice(&mut in_place);
    let by_slice: Vec<u64> = in_place.iter().map(|r| r.id).collect();
    assert_eq!(by_iter, by_idx);
    assert_eq!(by_copy, by_idx);
    assert_eq!(by_slice, by_idx);
}

#[test]
fn filter_sorted_is_sorted_of_kept_rows() {
    let items = test_data();
    let order = SortOrder::single("age", SortDirection::Ascending);
    let filtered: Vec<u64> = order.filter_sorted(&items, |r| r.age >= 28).iter().map(|r| r.id).collect();
    let kept: Vec<TestRow> = items.iter().filter(|r| r.age >= 28).cloned().collect();
    let sorted_kept: Vec<u64> = order.sorted(&kept).iter().map(|r| r.id).collect();
    assert_eq!(filtered, sorted_kept);
}

#[test]
fn multi_vec_keeps_descriptor_order() {
    let order = SortOrder::multi_vec(vec![SortDescriptor::descending("age"), SortDescriptor::ascending("name")]);
    assert_eq!(order.len(), 2);
    assert_eq!(order.primary_column(), Some("age"));
    assert_eq!(order.direction(), Some(SortDirection::Descending));
    assert_eq!(order.position_of("name"), Some(1));
}
