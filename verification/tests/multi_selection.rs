use std::collections::HashSet;

use xilem_extras::{MultiSelection, SelectionModifiers, SelectionState};

#[test]
fn multi_new_is_empty() {
    let selection = MultiSelection::<u64>::new();
    assert!(selection.is_empty());
}

#[test]
fn multi_with_selected_creates_selection() {
    let selection = MultiSelection::with_selected([1u64, 2, 3]);
    assert!(selection.is_selected(&1));
    assert!(selection.is_selected(&2));
    assert!(selection.is_selected(&3));
    assert_eq!(selection.count(), 3);
}

#[test]
fn select_no_modifiers_replaces() {
    let mut selection = MultiSelection::with_selected([1u64, 2, 3]);
    selection.select(4, SelectionModifiers::none());
    assert!(!selection.is_selected(&1));
    assert!(!selection.is_selected(&2));
    assert!(!selection.is_selected(&3));
    assert!(selection.is_selected(&4));
    assert_eq!(selection.count(), 1);
}

#[test]
fn select_command_toggles_on() {
    let mut selection = MultiSelection::with_selected([1u64]);
    selection.select(2, SelectionModifiers::command());
    assert!(selection.is_selected(&1));
    assert!(selection.is_selected(&2));
    assert_eq!(selection.count(), 2);
}

#[test]
fn select_command_toggles_off() {
    let mut selection = MultiSelection::with_selected([1u64, 2]);
    selection.select(2, SelectionModifiers::command());
    assert!(selection.is_selected(&1));
    assert!(!selection.is_selected(&2));
    assert_eq!(selection.count(), 1);
}

#[test]
fn select_alt_toggles_on() {
    let mut selection = MultiSelection::with_selected([1u64]);
    selection.select(2, SelectionModifiers::alt());
    assert!(selection.is_selected(&1));
    assert!(selection.is_selected(&2));
    assert_eq!(selection.count(), 2);
}

#[test]
fn select_alt_toggles_off() {
    let mut selection = MultiSelection::with_selected([1u64, 2]);
    selection.select(2, SelectionModifiers::alt());
    assert!(selection.is_selected(&1));
    assert!(!selection.is_selected(&2));
    assert_eq!(selection.count(), 1);
}

#[test]
fn select_shift_range_replaces() {
    let mut selection = MultiSelection::<u64>::new();
    selection.set_items(vec![1, 2, 3, 4, 5]);

    // First click sets anchor
    selection.select(2, SelectionModifiers::none());
    assert!(selection.is_selected(&2));

    // Shift+click selects range and replaces
    selection.select(4, SelectionModifiers::shift());
    assert!(!selection.is_selected(&1));
    assert!(selection.is_selected(&2));
    assert!(selection.is_selected(&3));
    assert!(selection.is_selected(&4));
    assert!(!selection.is_selected(&5));
}

#[test]
fn select_command_shift_range_adds() {
    let mut selection = MultiSelection::<u64>::new();
    selection.set_items(vec![1, 2, 3, 4, 5]);

    // Select items 1 and 2
    selection.select(1, SelectionModifiers::none());
    selection.select(2, SelectionModifiers::command());

    // Set new anchor at 4
    selection.select(4, SelectionModifiers::command());

    // Cmd+Shift to 5 should add 4-5 without removing 1-2
    selection.select(5, SelectionModifiers::both());
    assert!(selection.is_selected(&1));
    assert!(selection.is_selected(&2));
    assert!(selection.is_selected(&4));
    assert!(selection.is_selected(&5));
}

#[test]
fn select_shift_reverse_range() {
    let mut selection = MultiSelection::<u64>::new();
    selection.set_items(vec![1, 2, 3, 4, 5]);

    selection.select(4, SelectionModifiers::none());
    selection.select(2, SelectionModifiers::shift());

    assert!(selection.is_selected(&2));
    assert!(selection.is_selected(&3));
    assert!(selection.is_selected(&4));
    assert!(!selection.is_selected(&1));
    assert!(!selection.is_selected(&5));
}

#[test]
fn select_shift_no_anchor() {
    let mut selection = MultiSelection::<u64>::new();
    selection.set_items(vec![1, 2, 3]);

    // Shift+click without anchor should behave like normal click
    selection.select(2, SelectionModifiers::shift());
    assert!(selection.is_selected(&2));
    assert_eq!(selection.count(), 1);
}

#[test]
fn clear_removes_all() {
    let mut selection = MultiSelection::with_selected([1u64, 2, 3]);
    selection.clear();
    assert!(selection.is_empty());
    assert_eq!(selection.anchor(), None);
}

#[test]
fn add_does_not_affect_others() {
    let mut selection = MultiSelection::with_selected([1u64]);
    selection.add(2);
    assert!(selection.is_selected(&1));
    assert!(selection.is_selected(&2));
}

#[test]
fn remove_single_item() {
    let mut selection = MultiSelection::with_selected([1u64, 2, 3]);
    selection.remove(&2);
    assert!(selection.is_selected(&1));
    assert!(!selection.is_selected(&2));
    assert!(selection.is_selected(&3));
}

#[test]
fn toggle_adds_when_not_selected() {
    let mut selection = MultiSelection::<u64>::new();
    selection.toggle(1);
    assert!(selection.is_selected(&1));
}

#[test]
fn toggle_removes_when_selected() {
    let mut selection = MultiSelection::with_selected([1u64]);
    selection.toggle(1);
    assert!(!selection.is_selected(&1));
}

#[test]
fn iter_returns_all_selected() {
    let selection = MultiSelection::with_selected([1u64, 2, 3]);
    let items: HashSet<_> = selection.iter().cloned().collect();
    assert_eq!(items, HashSet::from([1, 2, 3]));
}

#[test]
fn anchor_is_set_on_select() {
    let mut selection = MultiSelection::<u64>::new();
    selection.select(42, SelectionModifiers::none());
    assert_eq!(selection.anchor(), Some(&42));
}

#[test]
fn anchor_is_set_on_command_select_when_adding() {
    let mut selection = MultiSelection::<u64>::new();
    selection.select(1, SelectionModifiers::command());
    assert_eq!(selection.anchor(), Some(&1));
}

#[test]
fn anchor_preserved_on_command_deselect() {
    let mut selection = MultiSelection::<u64>::new();
    selection.select(1, SelectionModifiers::none());
    selection.select(2, SelectionModifiers::command());
    // Deselect item 2
    selection.select(2, SelectionModifiers::command());
    // Anchor should still be 2 since that was the last addition
    // Actually, when deselecting, anchor doesn't change to deselected item
    // The anchor was set to 2 when we added it, then we removed it
    // but anchor should remain as 2 was the last anchor set
}

#[test]
fn command_deselect_keeps_anchor() {
    let mut selection = MultiSelection::<u64>::new();
    selection.select(1, SelectionModifiers::none());
    selection.select(2, SelectionModifiers::command());
    selection.select(2, SelectionModifiers::command());
    assert_eq!(selection.anchor(), Some(&2));
    assert!(!selection.is_selected(&2));
}

#[test]
fn multi_default_is_empty() {
    let selection: MultiSelection<u64> = Default::default();
    assert!(selection.is_empty());
}

#[test]
fn set_items_enables_range_selection() {
    let mut selection = MultiSelection::<u64>::new();
    // Without set_items, range selection won't work
    selection.select(1, SelectionModifiers::none());
    selection.select(3, SelectionModifiers::shift());
    // Should only have item 1 since no items were set
    assert_eq!(selection.count(), 1);

    // Now set items and try again
    selection.clear();
    selection.set_items(vec![1, 2, 3, 4, 5]);
    selection.select(1, SelectionModifiers::none());
    selection.select(3, SelectionModifiers::shift());
    assert_eq!(selection.count(), 3);
}

#[test]
fn selected_lists_each_selected_item_once() {
    let selection = MultiSelection::with_selected([7u64, 8, 9]);
    let mut items: Vec<u64> = selection.selected().into_iter().copied().collect();
    items.sort();
    assert_eq!(items, vec![7, 8, 9]);
}

#[test]
fn set_anchor_then_shift_selects_range() {
    let mut selection = MultiSelection::<u64>::new();
    selection.set_items(vec![10, 20, 30, 40]);
    selection.set_anchor(40);
    selection.select(20, SelectionModifiers::shift());
    assert!(selection.is_selected(&20));
    assert!(selection.is_selected(&30));
    assert!(selection.is_selected(&40));
    assert!(!selection.is_selected(&10));
    assert_eq!(selection.count(), 3);
}

#[test]
fn shift_with_target_not_in_items_changes_nothing() {
    let mut selection = MultiSelection::<u64>::new();
    selection.set_items(vec![1, 2, 3]);
    selection.select(1, SelectionModifiers::none());
    selection.select(9, SelectionModifiers::shift());
    assert!(selection.is_selected(&1));
    assert!(!selection.is_selected(&9));
    assert_eq!(selection.count(), 1);
    assert_eq!(selection.anchor(), Some(&1));
}

#[test]
fn command_twice_restores_selection() {
    let mut selection = MultiSelection::with_selected([1u64, 2]);
    selection.select(3, SelectionModifiers::command());
    selection.select(3, SelectionModifiers::command());
    assert!(selection.is_selected(&1));
    assert!(selection.is_selected(&2));
    assert!(!selection.is_selected(&3));
    assert_eq!(selection.count(), 2);
}

#[test]
fn clone_copies_selection_anchor_and_items() {
    let mut sel: MultiSelection<u64> = MultiSelection::new();
    sel.set_items(vec![1, 2, 3, 4]);
    sel.select(2, SelectionModifiers::none());
    sel.select(4, SelectionModifiers::shift());
    let copy = sel.clone();
    assert_eq!(copy.anchor(), Some(&2));
    assert_eq!(copy.count(), 3);
    let mut got: Vec<u64> = copy.selected().into_iter().copied().collect();
    got.sort();
    assert_eq!(got, vec![2, 3, 4]);
    sel.clear();
    assert_eq!(copy.count(), 3);
}

#[test]
fn with_selected_vec_takes_a_vector() {
    let sel: MultiSelection<String> = MultiSelection::with_selected_vec(vec!["a".to_string(), "b".to_string(), "a".to_string()]);
    assert_eq!(sel.count(), 2);
    assert!(sel.is_selected(&"a".to_string()));
    assert!(sel.is_selected(&"b".to_string()));
    assert!(sel.anchor().is_none());
}
