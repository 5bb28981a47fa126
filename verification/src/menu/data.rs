//! Menu item data shown by a menu button, and the decisions its dropdown
//! makes on clicks and hovers.

use vstd::prelude::*;

use crate::text::str_equal;

verus! {

/// Action emitted when an item of a menu button's dropdown is clicked.
#[derive(PartialEq, Debug)]
pub struct MenuButtonPress {
    /// Index of the selected menu item.
    pub index: usize,
}

/// Data for a menu item, including submenus.
#[derive(Debug)]
pub enum MenuItemData {
    /// A clickable action item with a label.
    Action { label: String, checked: Option<bool> },
    /// A visual separator.
    Separator,
    /// A submenu with nested items.
    Submenu { label: String, children: Vec<MenuItemData> },
}

/// Two items show the same: same kind, labels, checkmarks and children.
pub open spec fn same_item(a: MenuItemData, b: MenuItemData) -> bool
    decreases a,
{
    match (a, b) {
        (MenuItemData::Action { label: l1, checked: c1 }, MenuItemData::Action { label: l2, checked: c2 }) => l1@ == l2@ && c1 == c2,
        (MenuItemData::Separator, MenuItemData::Separator) => true,
        (MenuItemData::Submenu { label: l1, children: k1 }, MenuItemData::Submenu { label: l2, children: k2 }) => {
            &&& l1@ == l2@
            &&& k1@.len() == k2@.len()
            &&& forall|i: int| 0 <= i < k1@.len() ==> same_item(#[trigger] k1@[i], k2@[i])
        },
        _ => false,
    }
}

/// A copy of `item` and of all its children.
fn copy_item(item: &MenuItemData) -> (r: MenuItemData)
    ensures
        same_item(*item, r),
    decreases item,
{
    match item {
        MenuItemData::Action { label, checked } => MenuItemData::Action { label: label.clone(), checked: *checked },
        MenuItemData::Separator => MenuItemData::Separator,
        MenuItemData::Submenu { label, children } => {
            let mut copies: Vec<MenuItemData> = Vec::new();
            let mut i: usize = 0;
            assert(*item == MenuItemData::Submenu { label: *label, children: *children });
            while i < children.len()
                invariant
                    *item == (MenuItemData::Submenu { label: *label, children: *children }),
                    i <= children@.len(),
                    copies@.len() == i,
                    forall|k: int| 0 <= k < i ==> same_item(#[trigger] children@[k], copies@[k]),
                decreases children@.len() - i,
            {
                proof {
                    assert(item->Submenu_children == *children);
                    assert(decreases_to!(*item => item->Submenu_children));
                    assert(decreases_to!(*children => children@));
                    assert(decreases_to!(children@ => children@[i as int]));
                }
                copies.push(copy_item(&children[i]));
                i = i + 1;
            }
            MenuItemData::Submenu { label: label.clone(), children: copies }
        },
    }
}

impl Clone for MenuItemData {
    fn clone(&self) -> (r: MenuItemData)
        ensures
            same_item(*self, r),
    {
        copy_item(self)
    }
}

/// The label of an item, or `None` for a separator.
pub open spec fn item_label(item: MenuItemData) -> Option<Seq<char>> {
    match item {
        MenuItemData::Action { label, .. } => Some(label@),
        MenuItemData::Submenu { label, .. } => Some(label@),
        MenuItemData::Separator => None,
    }
}

impl MenuItemData {
    /// Creates an action item.
    pub fn action(label: &str) -> (d: MenuItemData)
        ensures
            d matches MenuItemData::Action { label: l, checked } && l@ == label@ && checked is None,
    {
        MenuItemData::Action { label: label.to_owned(), checked: None }
    }

    /// Creates an action item with checked state.
    pub fn action_checked(label: &str, checked: bool) -> (d: MenuItemData)
        ensures
            d matches MenuItemData::Action { label: l, checked: c } && l@ == label@ && c == Some(checked),
    {
        MenuItemData::Action { label: label.to_owned(), checked: Some(checked) }
    }

    /// Creates a separator.
    pub fn separator() -> (d: MenuItemData)
        ensures
            d is Separator,
    {
        MenuItemData::Separator
    }

    /// Creates a submenu.
    pub fn submenu(label: &str, children: Vec<MenuItemData>) -> (d: MenuItemData)
        ensures
            d matches MenuItemData::Submenu { label: l, children: c } && l@ == label@ && c@ == children@,
    {
        MenuItemData::Submenu { label: label.to_owned(), children }
    }

    /// Returns the display label, or `None` for separators.
    pub fn label(&self) -> (l: Option<&str>)
        ensures
            match item_label(*self) {
                Some(s) => l is Some && l->0@ == s,
                None => l is None,
            },
    {
        match self {
            MenuItemData::Action { label, .. } => Some(label.as_str()),
            MenuItemData::Submenu { label, .. } => Some(label.as_str()),
            MenuItemData::Separator => None,
        }
    }

    /// Returns true if this is a submenu.
    pub fn is_submenu(&self) -> (b: bool)
        ensures
            b == (*self is Submenu),
    {
        match self {
            MenuItemData::Submenu { .. } => true,
            _ => false,
        }
    }
}

/// The label that stands for a separator in the plain-label menu form.
pub open spec fn is_separator_label(label: Seq<char>) -> bool {
    label == "---"@
}

/// Item data for a plain list of labels: `"---"` becomes a separator,
/// every other label an unchecked action item, in order.
pub fn items_from_labels(labels: Vec<String>) -> (items: Vec<MenuItemData>)
    ensures
        items@.len() == labels@.len(),
        forall|k: int| 0 <= k < labels@.len() ==> if is_separator_label(labels@[k]@) {
            #[trigger] items@[k] is Separator
        } else {
            items@[k] matches MenuItemData::Action { label, checked } && label@ == labels@[k]@ && checked is None
        },
{
    let mut items: Vec<MenuItemData> = Vec::new();
    let mut i: usize = 0;
    while i < labels.len()
        invariant
            i <= labels@.len(),
            items@.len() == i,
            forall|k: int| 0 <= k < i ==> if is_separator_label(labels@[k]@) {
                #[trigger] items@[k] is Separator
            } else {
                items@[k] matches MenuItemData::Action { label, checked } && label@ == labels@[k]@ && checked is None
            },
        decreases labels@.len() - i,
    {
        if str_equal(labels[i].as_str(), "---") {
            items.push(MenuItemData::Separator);
        } else {
            items.push(MenuItemData::Action { label: labels[i].clone(), checked: None });
        }
        i = i + 1;
    }
    items
}

/// The item data a menu entry contributes: a submenu (with its children's
/// data) if it is one; an action item with its label and checkmark if it
/// is actionable and labelled; a separator otherwise.
pub fn entry_item_data(
    is_submenu: bool,
    is_actionable: bool,
    label: Option<&str>,
    checked: Option<bool>,
    children: Vec<MenuItemData>,
) -> (d: MenuItemData)
    ensures
        is_submenu ==> (d matches MenuItemData::Submenu { label: l, children: c }
            && l@ == (match label { Some(s) => s@, None => Seq::<char>::empty() }) && c@ == children@),
        !is_submenu && is_actionable && label is Some ==> (d matches MenuItemData::Action { label: l, checked: c }
            && l@ == label->0@ && c == checked),
        !is_submenu && !(is_actionable && label is Some) ==> d is Separator,
{
    if is_submenu {
        let l = match label {
            Some(s) => s.to_owned(),
            None => String::new(),
        };
        MenuItemData::Submenu { label: l, children }
    } else if is_actionable {
        match label {
            Some(s) => MenuItemData::Action { label: s.to_owned(), checked },
            None => MenuItemData::Separator,
        }
    } else {
        MenuItemData::Separator
    }
}

/// Whether the dropdown row at `index` opens a submenu.
pub open spec fn opens_submenu(items: Seq<MenuItemData>, index: int) -> bool {
    0 <= index < items.len() && items[index] is Submenu
}

/// What a click on dropdown row `index` does: a press on any row but a
/// submenu row (which opens its submenu instead).
pub fn press_for_click(items: &Vec<MenuItemData>, index: usize) -> (p: Option<MenuButtonPress>)
    ensures
        opens_submenu(items@, index as int) ==> p is None,
        !opens_submenu(items@, index as int) ==> p == Some(MenuButtonPress { index }),
{
    if index < items.len() && items[index].is_submenu() {
        None
    } else {
        Some(MenuButtonPress { index })
    }
}

/// What a pointer move over a dropdown changes about its submenus.
#[derive(Debug, Clone, Copy, PartialEq, Eq)]
pub struct SubmenuHover {
    /// Close the submenu that is open now.
    pub close_open: bool,
    /// Open the submenu of this row.
    pub open: Option<usize>,
    /// The submenu row counted as hovered afterwards.
    pub hovered: Option<usize>,
}

/// The submenu row under the pointer, if the pointer is over a submenu row.
pub open spec fn hovered_submenu_row(items: Seq<MenuItemData>, hit: Option<usize>) -> Option<usize> {
    match hit {
        Some(i) => if opens_submenu(items, i as int) { Some(i) } else { None },
        None => None,
    }
}

/// Decides a pointer move over a dropdown whose pointer is over row `hit`
/// (`None`: over no row) while row `hovered` counts as hovered. When the
/// submenu row under the pointer differs from `hovered`: over some row,
/// the open submenu closes and the new row becomes the hovered one; the
/// new row's submenu, if any, opens. Over no row the hovered row stays,
/// so the pointer can travel to an open submenu. Otherwise nothing changes.
pub fn submenu_hover(items: &Vec<MenuItemData>, hit: Option<usize>, hovered: Option<usize>) -> (h: SubmenuHover)
    ensures
        ({
            let new_row = hovered_submenu_row(items@, hit);
            if new_row != hovered {
                h == SubmenuHover {
                    close_open: hit is Some,
                    open: new_row,
                    hovered: if hit is Some { new_row } else { hovered },
                }
            } else {
                h == SubmenuHover { close_open: false, open: None, hovered: hovered }
            }
        }),
{
    let new_row = match hit {
        Some(i) => if i < items.len() && items[i].is_submenu() { Some(i) } else { None },
        None => None,
    };
    if new_row != hovered {
        let over_row = hit.is_some();
        SubmenuHover { close_open: over_row, open: new_row, hovered: if over_row { new_row } else { hovered } }
    } else {
        SubmenuHover { close_open: false, open: None, hovered }
    }
}

/// Every submenu row, wherever it stands in the dropdown (the last row
/// included), opens its submenu: a click on it is no press, and the
/// pointer moving onto it from elsewhere closes the open submenu and opens
/// this one. A click on any other row, or past the rows, is a press.
pub proof fn lemma_submenu_rows_open(items: Seq<MenuItemData>, index: usize, hovered: Option<usize>)
    ensures
        index < items.len() && items[index as int] is Submenu ==> {
            &&& opens_submenu(items, index as int)
            &&& hovered_submenu_row(items, Some(index)) == Some(index)
            &&& hovered != Some(index) ==> hovered_submenu_row(items, Some(index)) != hovered
        },
        !(index < items.len() && items[index as int] is Submenu) ==> {
            &&& !opens_submenu(items, index as int)
            &&& hovered_submenu_row(items, Some(index)) is None
        },
{
}

} // verus!
