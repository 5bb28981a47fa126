//! Multi-item selection with Command/Alt toggling and Shift range selection.

use std::collections::HashSet;
use std::hash::Hash;
use vstd::prelude::*;
use vstd::laws_eq::obeys_concrete_eq;
use vstd::std_specs::iter::IteratorSpec;

use super::{clone_id, id_model, SelectionModifiers, SelectionState};

verus! {

broadcast use vstd::std_specs::hash::group_hash_axioms;

/// The abstract state of a [`MultiSelection`].
#[verifier::reject_recursive_types(Id)]
pub struct MultiSelectionModel<Id> {
    /// Selected ids.
    pub selected: Set<Id>,
    /// Anchor for range selection.
    pub anchor: Option<Id>,
    /// All items in display order, for range selection.
    pub items: Seq<Id>,
}

/// The ids at positions `lo..hi` (end excluded) of `items`.
pub open spec fn items_between<Id>(items: Seq<Id>, lo: int, hi: int) -> Set<Id> {
    Set::new(|x: Id| exists|k: int| lo <= k < hi && items[k] == x)
}

/// The ids between the first occurrences of `a` and `t` in `items`, both
/// ends included, or `None` when either is missing.
pub open spec fn range_between<Id>(items: Seq<Id>, a: Id, t: Id) -> Option<Set<Id>> {
    match (items.index_of_first(a), items.index_of_first(t)) {
        (Some(i), Some(j)) => Some(
            if i <= j {
                items_between(items, i, j + 1)
            } else {
                items_between(items, j, i + 1)
            },
        ),
        _ => None,
    }
}

/// Range selection from the anchor to `target`: with an anchor and both
/// ids among the items, the range is added to the selection (or replaces
/// it when `replace`); otherwise nothing changes.
pub open spec fn spec_select_range<Id>(m: MultiSelectionModel<Id>, target: Id, replace: bool) -> MultiSelectionModel<Id> {
    match m.anchor {
        None => m,
        Some(a) => match range_between(m.items, a, target) {
            None => m,
            Some(r) => MultiSelectionModel {
                selected: if replace { r } else { m.selected.union(r) },
                anchor: m.anchor,
                items: m.items,
            },
        },
    }
}

/// The state after a click on `id`:
/// - no modifier: `id` alone is selected and becomes the anchor;
/// - Command or Alt: `id` is toggled, and becomes the anchor if now selected;
/// - Shift: the range from the anchor replaces the selection (without an
///   anchor, a plain click);
/// - Command/Alt with Shift: the range from the anchor is added (without an
///   anchor, `id` is added and becomes the anchor).
pub open spec fn spec_select<Id>(m: MultiSelectionModel<Id>, id: Id, mods: SelectionModifiers) -> MultiSelectionModel<Id> {
    let toggle = mods.command || mods.alt;
    if !toggle && !mods.shift {
        MultiSelectionModel { selected: Set::empty().insert(id), anchor: Some(id), items: m.items }
    } else if toggle && !mods.shift {
        let sel = if m.selected.contains(id) { m.selected.remove(id) } else { m.selected.insert(id) };
        MultiSelectionModel {
            selected: sel,
            anchor: if sel.contains(id) { Some(id) } else { m.anchor },
            items: m.items,
        }
    } else if !toggle {
        if m.anchor is Some {
            spec_select_range(m, id, true)
        } else {
            MultiSelectionModel { selected: Set::empty().insert(id), anchor: Some(id), items: m.items }
        }
    } else {
        if m.anchor is Some {
            spec_select_range(m, id, false)
        } else {
            MultiSelectionModel { selected: m.selected.insert(id), anchor: Some(id), items: m.items }
        }
    }
}

/// Multi-item selection state with modifier support.
///
/// - No modifiers: replace the selection with the clicked item.
/// - Cmd/Ctrl or Alt: toggle the clicked item.
/// - Shift: select the range from the anchor to the clicked item.
/// - Cmd/Ctrl + Shift: add that range to the selection.
#[derive(Debug)]
pub struct MultiSelection<Id: Clone + Eq + Hash> {
    selected: HashSet<Id>,
    /// The anchor for range selection (set on non-shift clicks).
    anchor: Option<Id>,
    /// All items in order (for range selection).
    all_items: Vec<Id>,
}

impl<Id: Clone + Eq + Hash> View for MultiSelection<Id> {
    type V = MultiSelectionModel<Id>;

    closed spec fn view(&self) -> MultiSelectionModel<Id> {
        MultiSelectionModel { selected: self.selected@, anchor: self.anchor, items: self.all_items@ }
    }
}

/// Position of the first occurrence of `x` in `items`.
fn position_of_id<Id: Clone + Eq + Hash>(items: &Vec<Id>, x: &Id) -> (r: Option<usize>)
    ensures
        r matches Some(i) ==> i < items@.len(),
        id_model::<Id>() ==> match items@.index_of_first(*x) {
            Some(i) => r is Some && r->0 == i,
            None => r is None,
        },
{
    proof {
        reveal(obeys_concrete_eq);
        items@.index_of_first_ensures(*x);
    }
    let mut i: usize = 0;
    while i < items.len()
        invariant
            i <= items@.len(),
            id_model::<Id>() ==> forall|k: int| 0 <= k < i ==> items@[k] != *x,
            id_model::<Id>() ==> match items@.index_of_first(*x) {
                Some(j) => i <= j && 0 <= j < items@.len() && items@[j] == *x
                    && forall|k: int| 0 <= k < j ==> items@[k] != *x,
                None => !items@.contains(*x),
            },
        decreases items@.len() - i,
    {
        proof {
            reveal(obeys_concrete_eq);
        }
        if items[i] == *x {
            return Some(i);
        }
        i = i + 1;
    }
    None
}

impl<Id: Clone + Eq + Hash> MultiSelection<Id> {
    /// Creates a new empty multi-selection.
    pub fn new() -> (s: Self)
        ensures
            s@.selected == Set::<Id>::empty(),
            s@.anchor is None,
            s@.items == Seq::<Id>::empty(),
    {
        MultiSelection { selected: HashSet::new(), anchor: None, all_items: Vec::new() }
    }

    /// A hash set holding a copy of each of `items`.
    fn set_of(items: &[Id]) -> (selected: HashSet<Id>)
        ensures
            id_model::<Id>() ==> selected@ == items@.to_set(),
    {
        let n = items.len();
        let mut selected: HashSet<Id> = HashSet::new();
        let mut i: usize = 0;
        while i < n
            invariant
                i <= n,
                n == items@.len(),
                id_model::<Id>() ==> selected@ == items_between(items@, 0, i as int),
            decreases n - i,
        {
            let v = clone_id(&items[i]);
            selected.insert(v);
            proof {
                if id_model::<Id>() {
                    assert(selected@ =~= items_between(items@, 0, i + 1)) by {
                        assert forall|x: Id| items_between(items@, 0, i + 1).contains(x) implies #[trigger] selected@.contains(x) by {
                            let k = choose|k: int| 0 <= k < i + 1 && items@[k] == x;
                            if k < i {
                                assert(items_between(items@, 0, i as int).contains(x));
                            }
                        }
                        assert forall|x: Id| #[trigger] selected@.contains(x) implies items_between(items@, 0, i + 1).contains(x) by {
                            if x != v {
                                let k = choose|k: int| 0 <= k < i && items@[k] == x;
                                assert(0 <= k < i + 1 && items@[k] == x);
                            } else {
                                assert(0 <= i < i + 1 && items@[i as int] == x);
                            }
                        }
                    }
                }
            }
            i = i + 1;
        }
        proof {
            if id_model::<Id>() {
                assert(selected@ =~= items@.to_set()) by {
                    assert forall|x: Id| #[trigger] selected@.contains(x) <==> items@.to_set().contains(x) by {
                        if selected@.contains(x) {
                            let k = choose|k: int| 0 <= k < n && items@[k] == x;
                            assert(items@.contains(x));
                        }
                        if items@.to_set().contains(x) {
                            let k = choose|k: int| 0 <= k < items@.len() && items@[k] == x;
                            assert(0 <= k < n && items@[k] == x);
                        }
                    }
                }
            }
        }
        selected
    }

    /// Creates a multi-selection with initial selected items.
    pub fn with_selected<const N: usize>(items: [Id; N]) -> (s: Self)
        ensures
            id_model::<Id>() ==> s@.selected == items@.to_set(),
            s@.anchor is None,
            s@.items == Seq::<Id>::empty(),
    {
        let selected = Self::set_of(items.as_slice());
        MultiSelection { selected, anchor: None, all_items: Vec::new() }
    }

    /// Creates a multi-selection with initial selected items, from a vector.
    pub fn with_selected_vec(items: Vec<Id>) -> (s: Self)
        ensures
            id_model::<Id>() ==> s@.selected == items@.to_set(),
            s@.anchor is None,
            s@.items == Seq::<Id>::empty(),
    {
        let selected = Self::set_of(items.as_slice());
        MultiSelection { selected, anchor: None, all_items: Vec::new() }
    }

    /// Sets the ordered list of all items, used by Shift range selection.
    pub fn set_items(&mut self, items: Vec<Id>)
        ensures
            final(self)@.items == items@,
            final(self)@.selected == old(self)@.selected,
            final(self)@.anchor == old(self)@.anchor,
    {
        self.all_items = items;
    }

    /// Returns an iterator over the selected items, in the set's walk order.
    pub fn iter(&self) -> (it: std::collections::hash_set::Iter<'_, Id>)
        ensures
            id_model::<Id>() ==> {
                &&& it.remaining().unref().to_set() == self@.selected
                &&& it.remaining().no_duplicates()
                &&& it.remaining().len() == self@.selected.len()
            },
    {
        self.selected.iter()
    }

    /// Returns all selected items (in no particular order).
    ///
    /// Walking the set is known to finish only for ids that obey
    /// [`id_model`], so this asks for it.
    pub fn selected(&self) -> (v: Vec<&Id>)
        requires
            id_model::<Id>(),
        ensures
            v@.len() == self@.selected.len(),
            v@.no_duplicates(),
            forall|k: int| 0 <= k < v@.len() ==> self@.selected.contains(*#[trigger] v@[k]),
            forall|x: Id| self@.selected.contains(x) ==> exists|k: int| 0 <= k < v@.len() && *v@[k] == x,
    {
        let mut v: Vec<&Id> = Vec::new();
        let it0 = self.selected.iter();
        let ghost elems = it0.remaining();
        for x in it: it0
            invariant
                it.seq() == elems,
                v@ == elems.take(it.index() as int),
        {
            v.push(x);
        }
        proof {
            assert(v@ =~= elems);
            assert forall|k: int| 0 <= k < v@.len() implies self@.selected.contains(*#[trigger] v@[k]) by {
                assert(elems.unref().to_set().contains(elems.unref()[k]));
            }
            assert forall|x: Id| self@.selected.contains(x) implies exists|k: int| 0 <= k < v@.len() && *v@[k] == x by {
                assert(elems.unref().to_set().contains(x));
                let k = choose|k: int| 0 <= k < elems.unref().len() && elems.unref()[k] == x;
                assert(*v@[k] == x);
            }
        }
        v
    }

    /// Adds an item to the selection, leaving the others as they are.
    pub fn add(&mut self, id: Id)
        ensures
            id_model::<Id>() ==> final(self)@.selected == old(self)@.selected.insert(id),
            final(self)@.anchor == old(self)@.anchor,
            final(self)@.items == old(self)@.items,
    {
        self.selected.insert(id);
    }

    /// Removes an item from the selection.
    pub fn remove(&mut self, id: &Id)
        ensures
            id_model::<Id>() ==> final(self)@.selected == old(self)@.selected.remove(*id),
            final(self)@.anchor == old(self)@.anchor,
            final(self)@.items == old(self)@.items,
    {
        self.selected.remove(id);
    }

    /// Toggles an item's selection state.
    pub fn toggle(&mut self, id: Id)
        ensures
            id_model::<Id>() ==> final(self)@.selected == (if old(self)@.selected.contains(id) {
                old(self)@.selected.remove(id)
            } else {
                old(self)@.selected.insert(id)
            }),
            final(self)@.anchor == old(self)@.anchor,
            final(self)@.items == old(self)@.items,
    {
        if self.selected.contains(&id) {
            self.selected.remove(&id);
        } else {
            self.selected.insert(id);
        }
    }

    /// Returns the anchor item for range selection.
    pub fn anchor(&self) -> (r: Option<&Id>)
        ensures
            r == match self@.anchor {
                Some(a) => Some(&a),
                None => None::<&Id>,
            },
    {
        match &self.anchor {
            Some(a) => Some(a),
            None => None,
        }
    }

    /// Sets the anchor for range selection.
    pub fn set_anchor(&mut self, id: Id)
        ensures
            final(self)@.anchor == Some(id),
            final(self)@.selected == old(self)@.selected,
            final(self)@.items == old(self)@.items,
    {
        self.anchor = Some(id);
    }

    /// Selects the items from the anchor to `target`, both included.
    fn select_range(&mut self, target: &Id, replace: bool)
        ensures
            id_model::<Id>() ==> final(self)@ == spec_select_range(old(self)@, *target, replace),
            final(self)@.anchor == old(self)@.anchor,
            final(self)@.items == old(self)@.items,
    {
        let anchor = match &self.anchor {
            Some(a) => clone_id(a),
            None => return,
        };
        let anchor_idx = position_of_id(&self.all_items, &anchor);
        let target_idx = position_of_id(&self.all_items, target);
        proof {
            self.all_items@.index_of_first_ensures(anchor);
            self.all_items@.index_of_first_ensures(*target);
        }
        match (anchor_idx, target_idx) {
            (Some(a), Some(t)) => {
                let (start, end) = if a <= t { (a, t) } else { (t, a) };
                let ghost base = if replace { Set::<Id>::empty() } else { self.selected@ };
                if replace {
                    self.selected.clear();
                }
                let mut idx = start;
                while idx <= end
                    invariant
                        start <= idx <= end + 1,
                        end < self.all_items.len(),
                        self.anchor == old(self).anchor,
                        self.all_items@ == old(self).all_items@,
                        id_model::<Id>() ==> self.selected@ == base.union(items_between(self.all_items@, start as int, idx as int)),
                    decreases end + 1 - idx,
                {
                    let v = clone_id(&self.all_items[idx]);
                    let ghost before = self.selected@;
                    self.selected.insert(v);
                    proof {
                        if id_model::<Id>() {
                            let items = self.all_items@;
                            assert(self.selected@ =~= base.union(items_between(items, start as int, idx + 1))) by {
                                assert forall|x: Id| items_between(items, start as int, idx + 1).contains(x) implies #[trigger] self.selected@.contains(x) by {
                                    let k = choose|k: int| start <= k < idx + 1 && items[k] == x;
                                    if k < idx {
                                        assert(items_between(items, start as int, idx as int).contains(x));
                                    }
                                }
                                assert forall|x: Id| #[trigger] self.selected@.contains(x) && !base.contains(x) implies items_between(items, start as int, idx + 1).contains(x) by {
                                    if x != v {
                                        let k = choose|k: int| start <= k < idx && items[k] == x;
                                        assert(start <= k < idx + 1 && items[k] == x);
                                    } else {
                                        assert(start <= idx < idx + 1 && items[idx as int] == x);
                                    }
                                }
                            }
                        }
                    }
                    idx = idx + 1;
                }
                proof {
                    if id_model::<Id>() {
                        let r = items_between(self.all_items@, start as int, end + 1);
                        if replace {
                            assert(self.selected@ =~= r);
                        }
                    }
                }
            },
            _ => {},
        }
    }
}

/// A copy of a hash set, made by `HashSet::clone`, which clones every
/// element. When cloning an id gives that id back (as [`id_model`] says),
/// the copy holds the same ids.
#[verifier::external_body]
fn clone_set<Id: Clone + Eq + Hash>(s: &HashSet<Id>) -> (r: HashSet<Id>)
    ensures
        id_model::<Id>() ==> r@ == s@,
{
    s.clone()
}

impl<Id: Clone + Eq + Hash> Clone for MultiSelection<Id> {
    /// A copy of the selection: the same selected ids, anchor and items
    /// (for id types whose `clone` gives the id back).
    fn clone(&self) -> (r: Self)
        ensures
            id_model::<Id>() ==> r@ == self@,
    {
        let selected = clone_set(&self.selected);
        let anchor = self.anchor.clone();
        let all_items = self.all_items.clone();
        proof {
            if id_model::<Id>() {
                assert(all_items@ =~= self.all_items@) by {
                    assert forall|i: int| 0 <= i < all_items@.len() implies all_items@[i] == self.all_items@[i] by {
                        assert(cloned(self.all_items[i], all_items[i]));
                    }
                }
                if self.anchor.is_some() {
                    assert(cloned(self.anchor.unwrap(), anchor.unwrap()));
                }
            }
        }
        MultiSelection { selected, anchor, all_items }
    }
}

impl<Id: Clone + Eq + Hash> Default for MultiSelection<Id> {
    fn default() -> (s: Self)
        ensures
            s@.selected == Set::<Id>::empty(),
            s@.anchor is None,
            s@.items == Seq::<Id>::empty(),
    {
        Self::new()
    }
}

impl<Id: Clone + Eq + Hash> SelectionState<Id> for MultiSelection<Id> {
    open spec fn selection(&self) -> Set<Id> {
        self@.selected
    }

    fn is_selected(&self, id: &Id) -> (b: bool) {
        self.selected.contains(id)
    }

    fn select(&mut self, id: Id, modifiers: SelectionModifiers)
        ensures
            id_model::<Id>() ==> final(self)@ == spec_select(old(self)@, id, modifiers),
            final(self)@.items == old(self)@.items,
    {
        let toggle_modifier = modifiers.toggles();
        if !toggle_modifier && !modifiers.shift {
            self.selected.clear();
            self.selected.insert(clone_id(&id));
            self.anchor = Some(id);
        } else if toggle_modifier && !modifiers.shift {
            self.toggle(clone_id(&id));
            if self.selected.contains(&id) {
                self.anchor = Some(id);
            }
        } else if !toggle_modifier {
            if self.anchor.is_some() {
                self.select_range(&id, true);
            } else {
                self.selected.clear();
                self.selected.insert(clone_id(&id));
                self.anchor = Some(id);
            }
        } else {
            if self.anchor.is_some() {
                self.select_range(&id, false);
            } else {
                self.selected.insert(clone_id(&id));
                self.anchor = Some(id);
            }
        }
    }

    fn clear(&mut self)
        ensures
            final(self)@.anchor is None,
            final(self)@.items == old(self)@.items,
    {
        self.selected.clear();
        self.anchor = None;
    }

    fn count(&self) -> (n: usize) {
        self.selected.len()
    }
}

} // verus!
