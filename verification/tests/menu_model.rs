use xilem_extras::menu::data::{entry_item_data, items_from_labels, press_for_click, submenu_hover, SubmenuHover};
use xilem_extras::{group, menu_item, separator, submenu, Group, MenuButtonPress, MenuItem, MenuItemData, Submenu};

struct TestState {
    called: String,
}

#[test]
fn menu_item_builders() {
    let item = menu_item("Rename", |s: &mut TestState| {
        s.called = "rename".to_string();
    })
    .is_editable(true)
    .checked(false);
    assert!(item.editable());
    assert_eq!(item.is_checked(), Some(false));
    assert_eq!(item.label(), "Rename");

    let plain = MenuItem::new("Open", |_: &mut TestState| {});
    assert!(!plain.editable());
    assert_eq!(plain.is_checked(), None);
}

#[test]
fn menu_item_action_runs() {
    let item = menu_item("Test", |s: &mut TestState| {
        s.called = "test".to_string();
    });
    let copy = item.clone();
    let mut state = TestState { called: String::new() };
    (copy.action())(&mut state);
    assert_eq!(state.called, "test");
}

#[test]
fn menu_item_data_for_entries() {
    let item = menu_item("Dark Mode", |_: &mut TestState| {}).checked(true);
    match item.item_data() {
        MenuItemData::Action { label, checked } => {
            assert_eq!(label, "Dark Mode");
            assert_eq!(checked, Some(true));
        }
        other => panic!("unexpected {:?}", other),
    }
    let sep = separator::<TestState, ()>();
    assert!(matches!(sep.item_data(), MenuItemData::Separator));
}

#[test]
fn submenu_and_group_hold_items() {
    let sub: Submenu<TestState, (), (MenuItem<TestState, (), _>,)> =
        submenu("Format", (menu_item("Bold", |_: &mut TestState| {}),));
    assert_eq!(sub.label(), "Format");
    assert_eq!(sub.items().0.label(), "Bold");
    let g: Group<TestState, (), (MenuItem<TestState, (), _>, MenuItem<TestState, (), _>)> =
        group((menu_item("A", |_: &mut TestState| {}), menu_item("B", |_: &mut TestState| {})));
    let (a, b) = g.into_items();
    assert_eq!(a.label(), "A");
    assert_eq!(b.label(), "B");
    let g2: Group<TestState, (), u8> = Group::new(7u8);
    assert_eq!(*g2.items(), 7);
}

#[test]
fn menu_item_data_constructors() {
    assert_eq!(MenuItemData::action("Open").label(), Some("Open"));
    assert_eq!(MenuItemData::separator().label(), None);
    let sub = MenuItemData::submenu("Recent", vec![MenuItemData::action("a.rs")]);
    assert!(sub.is_submenu());
    assert_eq!(sub.label(), Some("Recent"));
    assert!(!MenuItemData::action_checked("Grid", true).is_submenu());
    match MenuItemData::action_checked("Grid", true) {
        MenuItemData::Action { checked, .. } => assert_eq!(checked, Some(true)),
        _ => panic!("not an action"),
    }
    match sub.clone() {
        MenuItemData::Submenu { label, children } => {
            assert_eq!(label, "Recent");
            assert_eq!(children.len(), 1);
            assert_eq!(children[0].label(), Some("a.rs"));
        }
        _ => panic!("not a submenu"),
    }
}

#[test]
fn labels_with_dashes_become_separators() {
    let items = items_from_labels(vec!["New".to_string(), "---".to_string(), "Quit".to_string(), "--".to_string()]);
    assert_eq!(items.len(), 4);
    assert_eq!(items[0].label(), Some("New"));
    assert!(matches!(items[1], MenuItemData::Separator));
    assert_eq!(items[2].label(), Some("Quit"));
    assert_eq!(items[3].label(), Some("--"));
}

#[test]
fn entry_data_kinds() {
    let d = entry_item_data(true, false, Some("More"), None, vec![MenuItemData::separator()]);
    assert!(d.is_submenu());
    assert_eq!(d.label(), Some("More"));
    let d = entry_item_data(false, true, Some("Save"), Some(false), vec![]);
    match d {
        MenuItemData::Action { label, checked } => {
            assert_eq!(label, "Save");
            assert_eq!(checked, Some(false));
        }
        _ => panic!("not an action"),
    }
    assert!(matches!(entry_item_data(false, true, None, None, vec![]), MenuItemData::Separator));
    assert!(matches!(entry_item_data(false, false, Some("x"), None, vec![]), MenuItemData::Separator));
}

fn sample_items() -> Vec<MenuItemData> {
    vec![
        MenuItemData::action("Cut"),
        MenuItemData::separator(),
        MenuItemData::submenu("Format", vec![MenuItemData::action("Bold")]),
        MenuItemData::action("Paste"),
    ]
}

#[test]
fn click_on_submenu_row_is_no_press() {
    let items = sample_items();
    assert_eq!(press_for_click(&items, 0), Some(MenuButtonPress { index: 0 }));
    assert_eq!(press_for_click(&items, 2), None);
    assert_eq!(press_for_click(&items, 3), Some(MenuButtonPress { index: 3 }));
}

#[test]
fn hovering_submenu_row_opens_it() {
    let items = sample_items();
    assert_eq!(
        submenu_hover(&items, Some(2), None),
        SubmenuHover { close_open: true, open: Some(2), hovered: Some(2) }
    );
    // Moving onto a plain row closes the open submenu.
    assert_eq!(
        submenu_hover(&items, Some(3), Some(2)),
        SubmenuHover { close_open: true, open: None, hovered: None }
    );
    // Leaving all rows keeps the submenu open.
    assert_eq!(
        submenu_hover(&items, None, Some(2)),
        SubmenuHover { close_open: false, open: None, hovered: Some(2) }
    );
    // Staying on the same submenu row changes nothing.
    assert_eq!(
        submenu_hover(&items, Some(2), Some(2)),
        SubmenuHover { close_open: false, open: None, hovered: Some(2) }
    );
}

#[test]
fn execute_runs_the_action_once_and_returns_its_result() {
    let item = menu_item("Count", |s: &mut TestState| {
        s.called.push('x');
        s.called.len()
    });
    let mut state = TestState { called: String::new() };
    assert!(item.is_actionable());
    assert_eq!(item.execute(&mut state), Some(1));
    assert_eq!(state.called, "x");
    assert_eq!(item.execute(&mut state), Some(2));
}

#[test]
fn separators_and_submenus_run_nothing() {
    let sep: xilem_extras::SeparatorEntry<TestState, ()> = separator();
    let mut state = TestState { called: String::from("kept") };
    assert_eq!(sep.label(), None);
    assert!(!sep.is_actionable());
    assert_eq!(sep.execute(&mut state), None);
    let sub: Submenu<TestState, (), ()> = submenu("More", ());
    assert!(!sub.is_actionable());
    assert!(sub.is_submenu());
    assert_eq!(sub.execute(&mut state), None);
    assert_eq!(state.called, "kept");
}
