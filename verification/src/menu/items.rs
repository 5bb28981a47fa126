//! Menu entries built from tuples: clickable items, separators, submenus
//! and transparent groups.

use std::marker::PhantomData;
use std::sync::Arc;
use vstd::prelude::*;

use super::data::MenuItemData;

verus! {

/// A clickable menu item with a label and an action callback.
///
/// The action is held in an `Arc`, so the item clones cheaply. Use
/// `is_editable(true)` for items that start inline editing (such as
/// Rename), and `checked(..)` for items that show a checkmark.
pub struct MenuItem<State, Action, F> {
    label: String,
    action: Arc<F>,
    editable: bool,
    checked: Option<bool>,
    _phantom: PhantomData<(State, Action)>,
}

impl<State, Action, F> MenuItem<State, Action, F> {
    /// The item's label.
    pub closed spec fn spec_label(&self) -> Seq<char> {
        self.label@
    }

    /// Whether the item starts inline editing.
    pub closed spec fn spec_editable(&self) -> bool {
        self.editable
    }

    /// The item's checkmark state: `None` shows no checkmark area.
    pub closed spec fn spec_checked(&self) -> Option<bool> {
        self.checked
    }

    /// The item's action.
    pub closed spec fn spec_action(&self) -> F {
        *self.action
    }
}

impl<State, Action, F: Fn(&mut State) -> Action> MenuItem<State, Action, F> {
    /// Creates a new menu item with the given label and action.
    pub fn new(label: &str, action: F) -> (m: Self)
        ensures
            m.spec_label() == label@,
            !m.spec_editable(),
            m.spec_checked() is None,
            m.spec_action() == action,
    {
        MenuItem { label: label.to_owned(), action: Arc::new(action), editable: false, checked: None, _phantom: PhantomData }
    }

    /// Sets whether this item starts inline editing mode.
    pub fn is_editable(self, editable: bool) -> (m: Self)
        ensures
            m.spec_editable() == editable,
            m.spec_label() == self.spec_label(),
            m.spec_checked() == self.spec_checked(),
            m.spec_action() == self.spec_action(),
    {
        MenuItem { editable, ..self }
    }

    /// Returns whether this item starts inline editing mode.
    pub fn editable(&self) -> (b: bool)
        ensures
            b == self.spec_editable(),
    {
        self.editable
    }

    /// Shows a checkmark (`true`) or the empty checkmark space (`false`).
    pub fn checked(self, is_checked: bool) -> (m: Self)
        ensures
            m.spec_checked() == Some(is_checked),
            m.spec_label() == self.spec_label(),
            m.spec_editable() == self.spec_editable(),
            m.spec_action() == self.spec_action(),
    {
        MenuItem { checked: Some(is_checked), ..self }
    }

    /// Returns the checkmark state of this item.
    pub fn is_checked(&self) -> (c: Option<bool>)
        ensures
            c == self.spec_checked(),
    {
        self.checked
    }

    /// The item's label.
    pub fn label(&self) -> (l: &str)
        ensures
            l@ == self.spec_label(),
    {
        self.label.as_str()
    }

    /// The item's action callback.
    pub fn action(&self) -> (f: &F)
        ensures
            *f == self.spec_action(),
    {
        &*self.action
    }

    /// Whether choosing the item runs an action: always, for an item.
    pub fn is_actionable(&self) -> (b: bool)
        ensures
            b,
    {
        true
    }

    /// Runs the item's action on `state` and returns what it gave back.
    pub fn execute(&self, state: &mut State) -> (r: Option<Action>)
        requires
            forall|s: &mut State| #[trigger] self.spec_action().requires((s,)),
        ensures
            r is Some,
            exists|s: &mut State|
                *s == *old(state) && *final(s) == *final(state) && #[trigger] self.spec_action().ensures((s,), r->0),
    {
        let f: &F = &*self.action;
        assert(*f == self.spec_action());
        assert(forall|s: &mut State| #[trigger] f.requires((s,)));
        let a = f(state);
        proof {
            assert(exists|s: &mut State| *s == *old(state) && *final(s) == *final(state) && #[trigger] f.ensures((s,), a));
            let s0 = choose|s: &mut State| *s == *old(state) && *final(s) == *final(state) && #[trigger] f.ensures((s,), a);
            assert(self.spec_action().ensures((s0,), a));
            assert(exists|s: &mut State| *s == *old(state) && *final(s) == *final(state) && #[trigger] self.spec_action().ensures((s,), a));
        }
        let r = Some(a);
        assert(r->0 == a);
        r
    }

    /// What a menu button shows for this item: its label and checkmark state.
    pub fn item_data(&self) -> (d: MenuItemData)
        ensures
            d matches MenuItemData::Action { label, checked } && label@ == self.spec_label() && checked == self.spec_checked(),
    {
        MenuItemData::Action { label: self.label.clone(), checked: self.checked }
    }
}

impl<State, Action, F> Clone for MenuItem<State, Action, F> {
    fn clone(&self) -> (m: Self)
        ensures
            m.spec_label() == self.spec_label(),
            m.spec_editable() == self.spec_editable(),
            m.spec_checked() == self.spec_checked(),
            m.spec_action() == self.spec_action(),
    {
        MenuItem {
            label: self.label.clone(),
            action: Arc::clone(&self.action),
            editable: self.editable,
            checked: self.checked,
            _phantom: PhantomData,
        }
    }
}

/// Creates a menu item with a label and an action callback.
pub fn menu_item<State, Action, F: Fn(&mut State) -> Action>(label: &str, action: F) -> (m: MenuItem<State, Action, F>)
    ensures
        m.spec_label() == label@,
        !m.spec_editable(),
        m.spec_checked() is None,
        m.spec_action() == action,
{
    MenuItem::new(label, action)
}

/// A visual separator line in a menu. It has no label and no action.
pub struct SeparatorEntry<State, Action> {
    _phantom: PhantomData<(State, Action)>,
}

impl<State, Action> Clone for SeparatorEntry<State, Action> {
    fn clone(&self) -> (s: Self) {
        SeparatorEntry { _phantom: PhantomData }
    }
}

impl<State, Action> Copy for SeparatorEntry<State, Action> {}

impl<State, Action> Default for SeparatorEntry<State, Action> {
    fn default() -> (s: Self) {
        SeparatorEntry { _phantom: PhantomData }
    }
}

impl<State, Action> SeparatorEntry<State, Action> {
    /// A separator has no label.
    pub fn label(&self) -> (l: Option<&str>)
        ensures
            l is None,
    {
        None
    }

    /// A separator runs no action.
    pub fn is_actionable(&self) -> (b: bool)
        ensures
            !b,
    {
        false
    }

    /// Choosing a separator does nothing and gives no action back.
    pub fn execute(&self, state: &mut State) -> (r: Option<Action>)
        ensures
            r is None,
            *final(state) == *old(state),
    {
        None
    }

    /// What a menu button shows for a separator.
    pub fn item_data(&self) -> (d: MenuItemData)
        ensures
            d is Separator,
    {
        MenuItemData::Separator
    }
}

/// Creates a visual separator line for menus.
pub fn separator<State, Action>() -> (s: SeparatorEntry<State, Action>) {
    SeparatorEntry::default()
}

/// A submenu entry: a label and nested menu items.
pub struct Submenu<State, Action, Items> {
    label: String,
    items: Items,
    _phantom: PhantomData<(State, Action)>,
}

impl<State, Action, Items> Submenu<State, Action, Items> {
    /// The submenu's label.
    pub closed spec fn spec_label(&self) -> Seq<char> {
        self.label@
    }

    /// The nested items.
    pub closed spec fn spec_items(&self) -> Items {
        self.items
    }

    /// Creates a new submenu with the given label and nested items.
    pub fn new(label: &str, items: Items) -> (s: Self)
        ensures
            s.spec_label() == label@,
            s.spec_items() == items,
    {
        Submenu { label: label.to_owned(), items, _phantom: PhantomData }
    }

    /// Returns the nested items.
    pub fn items(&self) -> (i: &Items)
        ensures
            *i == self.spec_items(),
    {
        &self.items
    }

    /// The submenu's label.
    pub fn label(&self) -> (l: &str)
        ensures
            l@ == self.spec_label(),
    {
        self.label.as_str()
    }

    /// A submenu opens its items rather than running an action.
    pub fn is_actionable(&self) -> (b: bool)
        ensures
            !b,
    {
        false
    }

    /// Whether this entry is a submenu: always, for a submenu.
    pub fn is_submenu(&self) -> (b: bool)
        ensures
            b,
    {
        true
    }

    /// Choosing a submenu runs no action and gives no action back.
    pub fn execute(&self, state: &mut State) -> (r: Option<Action>)
        ensures
            r is None,
            *final(state) == *old(state),
    {
        None
    }
}

impl<State, Action, Items: Clone> Clone for Submenu<State, Action, Items> {
    fn clone(&self) -> (s: Self)
        ensures
            s.spec_label() == self.spec_label(),
            cloned(self.spec_items(), s.spec_items()),
    {
        Submenu { label: self.label.clone(), items: self.items.clone(), _phantom: PhantomData }
    }
}

/// Creates a submenu with nested menu items.
pub fn submenu<State, Action, Items>(label: &str, items: Items) -> (s: Submenu<State, Action, Items>)
    ensures
        s.spec_label() == label@,
        s.spec_items() == items,
{
    Submenu::new(label, items)
}

/// A transparent wrapper that groups menu items without creating a visual
/// submenu: its items are flattened into the parent menu.
pub struct Group<State, Action, Items> {
    items: Items,
    _phantom: PhantomData<(State, Action)>,
}

impl<State, Action, Items> Group<State, Action, Items> {
    /// The grouped items.
    pub closed spec fn spec_items(&self) -> Items {
        self.items
    }

    /// Creates a new group with the given items.
    pub fn new(items: Items) -> (g: Self)
        ensures
            g.spec_items() == items,
    {
        Group { items, _phantom: PhantomData }
    }

    /// Returns the grouped items.
    pub fn items(&self) -> (i: &Items)
        ensures
            *i == self.spec_items(),
    {
        &self.items
    }

    /// Hands the grouped items over, to be flattened into the parent menu.
    pub fn into_items(self) -> (i: Items)
        ensures
            i == self.spec_items(),
    {
        self.items
    }
}

impl<State, Action, Items: Clone> Clone for Group<State, Action, Items> {
    fn clone(&self) -> (g: Self)
        ensures
            cloned(self.spec_items(), g.spec_items()),
    {
        Group { items: self.items.clone(), _phantom: PhantomData }
    }
}

/// Creates a transparent group of menu items.
pub fn group<State, Action, Items>(items: Items) -> (g: Group<State, Action, Items>)
    ensures
        g.spec_items() == items,
{
    Group::new(items)
}

} // verus!
