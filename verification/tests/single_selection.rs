use xilem_extras::{SelectionModifiers, SelectionState, SingleSelection};

#[test]
fn single_new_is_empty() {
    let selection = SingleSelection::<u64>::new();
    assert!(selection.is_empty());
    assert_eq!(selection.selected(), None);
}

#[test]
fn single_with_selected_creates_selection() {
    let selection = SingleSelection::with_selected(42u64);
    assert!(selection.is_selected(&42));
    assert_eq!(selection.selected(), Some(&42));
}

#[test]
fn select_adds_item() {
    let mut selection = SingleSelection::<u64>::new();
    selection.select(1, SelectionModifiers::none());
    assert!(selection.is_selected(&1));
    assert_eq!(selection.count(), 1);
}

#[test]
fn select_replaces_previous() {
    let mut selection = SingleSelection::<u64>::new();
    selection.select(1, SelectionModifiers::none());
    selection.select(2, SelectionModifiers::none());
    assert!(!selection.is_selected(&1));
    assert!(selection.is_selected(&2));
    assert_eq!(selection.count(), 1);
}

#[test]
fn select_same_toggles_off() {
    let mut selection = SingleSelection::<u64>::new();
    selection.select(1, SelectionModifiers::none());
    selection.select(1, SelectionModifiers::none());
    assert!(!selection.is_selected(&1));
    assert!(selection.is_empty());
}

#[test]
fn clear_removes_selection() {
    let mut selection = SingleSelection::with_selected(42u64);
    selection.clear();
    assert!(selection.is_empty());
}

#[test]
fn modifiers_are_ignored() {
    let mut selection = SingleSelection::<u64>::new();
    selection.select(1, SelectionModifiers::command());
    selection.select(2, SelectionModifiers::shift());
    // Still behaves as single selection
    assert!(!selection.is_selected(&1));
    assert!(selection.is_selected(&2));
}

#[test]
fn set_bypasses_toggle() {
    let mut selection = SingleSelection::<u64>::new();
    selection.set(Some(1));
    assert!(selection.is_selected(&1));
    selection.set(Some(1)); // Same item, no toggle
    assert!(selection.is_selected(&1));
}

#[test]
fn set_none_clears() {
    let mut selection = SingleSelection::with_selected(42u64);
    selection.set(None);
    assert!(selection.is_empty());
}

#[test]
fn single_default_is_empty() {
    let selection: SingleSelection<u64> = Default::default();
    assert!(selection.is_empty());
}

#[test]
fn is_empty_when_count_zero() {
    let selection = SingleSelection::<u64>::new();
    assert!(selection.is_empty());
    assert_eq!(selection.count(), 0);
}

#[test]
fn not_empty_when_selected() {
    let selection = SingleSelection::with_selected(1u64);
    assert!(!selection.is_empty());
    assert_eq!(selection.count(), 1);
}

#[test]
fn select_with_alt_on_other_item_replaces() {
    let mut selection = SingleSelection::with_selected(5u64);
    selection.select(6, SelectionModifiers::alt());
    assert_eq!(selection.selected(), Some(&6));
    selection.select(6, SelectionModifiers::both());
    assert_eq!(selection.selected(), None);
}
