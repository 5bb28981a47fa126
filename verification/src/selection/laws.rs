//! Properties of selection that hold across clicks.

use std::hash::Hash;
use vstd::prelude::*;

use super::multi::{items_between, range_between, spec_select, MultiSelectionModel};
use super::single::SingleSelection;
use super::{SelectionModifiers, SelectionState};

verus! {

/// A click without modifiers selects the clicked id alone and anchors there.
pub proof fn lemma_plain_click_selects_only<Id>(m: MultiSelectionModel<Id>, id: Id, mods: SelectionModifiers)
    requires
        !mods.command && !mods.alt && !mods.shift,
    ensures
        spec_select(m, id, mods).selected == Set::empty().insert(id),
        spec_select(m, id, mods).anchor == Some(id),
{
}

/// Command (or Alt) clicks toggle: clicking the same id twice restores the
/// selection, and other ids keep their state.
pub proof fn lemma_toggle_click_twice<Id>(m: MultiSelectionModel<Id>, id: Id, mods: SelectionModifiers, other: Id)
    requires
        (mods.command || mods.alt) && !mods.shift,
        other != id,
    ensures
        spec_select(spec_select(m, id, mods), id, mods).selected == m.selected,
        spec_select(m, id, mods).selected.contains(id) == !m.selected.contains(id),
        spec_select(m, id, mods).selected.contains(other) == m.selected.contains(other),
{
    assert(spec_select(spec_select(m, id, mods), id, mods).selected =~= m.selected);
}

/// A Command+Shift click never deselects anything.
pub proof fn lemma_add_range_keeps_selection<Id>(m: MultiSelectionModel<Id>, id: Id, mods: SelectionModifiers)
    requires
        (mods.command || mods.alt) && mods.shift,
    ensures
        m.selected.subset_of(spec_select(m, id, mods).selected),
{
}

/// No click changes the ordered item list.
pub proof fn lemma_click_keeps_items<Id>(m: MultiSelectionModel<Id>, id: Id, mods: SelectionModifiers)
    ensures
        spec_select(m, id, mods).items == m.items,
{
}

/// A range between two listed ids is the same whichever end is the anchor,
/// holds both ends, and holds exactly the ids listed between them.
pub proof fn lemma_range_between_ends<Id>(items: Seq<Id>, a: Id, t: Id)
    requires
        items.contains(a),
        items.contains(t),
    ensures
        range_between(items, a, t) == range_between(items, t, a),
        range_between(items, a, t) is Some,
        range_between(items, a, t)->0.contains(a),
        range_between(items, a, t)->0.contains(t),
{
    items.index_of_first_ensures(a);
    items.index_of_first_ensures(t);
    let i = items.index_of_first(a)->0;
    let j = items.index_of_first(t)->0;
    let r = range_between(items, a, t)->0;
    if i <= j {
        assert(items_between(items, i, j + 1).contains(items[i]));
        assert(items_between(items, i, j + 1).contains(items[j]));
    } else {
        assert(items_between(items, j, i + 1).contains(items[i]));
        assert(items_between(items, j, i + 1).contains(items[j]));
    }
}

/// A single selection never holds more than one id.
pub proof fn lemma_single_at_most_one<Id: Clone + Eq + Hash>(s: SingleSelection<Id>)
    ensures
        s.selection().len() <= 1,
        s.selection().finite(),
{
    broadcast use vstd::set::group_set_axioms;
}

/// Clicking the selected id of a single selection deselects it, and
/// clicking it again selects it once more.
pub proof fn lemma_single_click_same_toggles<Id>(id: Id)
    ensures
        SingleSelection::<Id>::spec_click(Some(id), id) == None::<Id>,
        SingleSelection::<Id>::spec_click(SingleSelection::<Id>::spec_click(Some(id), id), id) == Some(id),
{
}

/// `p` is the first position of `x` in `items`.
pub open spec fn first_at<Id>(items: Seq<Id>, x: Id, p: int) -> bool {
    &&& 0 <= p < items.len()
    &&& items[p] == x
    &&& forall|j: int| 0 <= j < p ==> items[j] != x
}

proof fn lemma_first_at_index<Id>(items: Seq<Id>, x: Id, p: int)
    requires
        first_at(items, x, p),
    ensures
        items.index_of_first(x) == Some(p),
{
    items.index_of_first_ensures(x);
    assert(items.contains(x));
    let q = items.index_of_first(x)->0;
    if q < p {
        assert(items[q] != x);
    }
    if p < q {
        assert(items[p] != x);
    }
}

/// A Shift click (without Command or Alt) on an id, with an anchor, when
/// both are listed: the selection becomes exactly the listed ids from the
/// anchor's position to the id's position, both included, whichever comes
/// first; everything selected before outside that stretch is deselected,
/// and the anchor stays.
pub proof fn lemma_shift_click_selects_exactly_the_range<Id>(
    m: MultiSelectionModel<Id>,
    id: Id,
    mods: SelectionModifiers,
    pa: int,
    pt: int,
)
    requires
        !mods.command && !mods.alt && mods.shift,
        m.anchor is Some,
        first_at(m.items, m.anchor->0, pa),
        first_at(m.items, id, pt),
    ensures
        forall|x: Id| #[trigger] spec_select(m, id, mods).selected.contains(x) <==> exists|k: int|
            (pa <= k <= pt || pt <= k <= pa) && m.items[k] == x,
        spec_select(m, id, mods).anchor == m.anchor,
{
    lemma_first_at_index(m.items, m.anchor->0, pa);
    lemma_first_at_index(m.items, id, pt);
    let after = spec_select(m, id, mods).selected;
    assert forall|x: Id| #[trigger] after.contains(x) <==> exists|k: int| (pa <= k <= pt || pt <= k <= pa) && m.items[k] == x by {
        if after.contains(x) {
            let k = choose|k: int| (if pa <= pt { pa <= k < pt + 1 } else { pt <= k < pa + 1 }) && m.items[k] == x;
            assert((pa <= k <= pt || pt <= k <= pa) && m.items[k] == x);
        }
        if exists|k: int| (pa <= k <= pt || pt <= k <= pa) && m.items[k] == x {
            let k = choose|k: int| (pa <= k <= pt || pt <= k <= pa) && m.items[k] == x;
            if pa <= pt {
                assert(pa <= k < pt + 1 && m.items[k] == x);
            } else {
                assert(pt <= k < pa + 1 && m.items[k] == x);
            }
        }
    }
}

/// A Command+Shift (or Alt+Shift) click on an id, with an anchor, when both
/// are listed: the listed ids from the anchor's position to the id's
/// position are added, and everything selected before stays selected.
pub proof fn lemma_command_shift_click_adds_the_range<Id>(
    m: MultiSelectionModel<Id>,
    id: Id,
    mods: SelectionModifiers,
    pa: int,
    pt: int,
)
    requires
        (mods.command || mods.alt) && mods.shift,
        m.anchor is Some,
        first_at(m.items, m.anchor->0, pa),
        first_at(m.items, id, pt),
    ensures
        forall|x: Id| #[trigger] spec_select(m, id, mods).selected.contains(x) <==> m.selected.contains(x) || exists|k: int|
            (pa <= k <= pt || pt <= k <= pa) && m.items[k] == x,
        spec_select(m, id, mods).anchor == m.anchor,
{
    lemma_first_at_index(m.items, m.anchor->0, pa);
    lemma_first_at_index(m.items, id, pt);
    let after = spec_select(m, id, mods).selected;
    assert forall|x: Id| #[trigger] after.contains(x) <==> m.selected.contains(x) || exists|k: int|
        (pa <= k <= pt || pt <= k <= pa) && m.items[k] == x by {
        if after.contains(x) && !m.selected.contains(x) {
            let k = choose|k: int| (if pa <= pt { pa <= k < pt + 1 } else { pt <= k < pa + 1 }) && m.items[k] == x;
            assert((pa <= k <= pt || pt <= k <= pa) && m.items[k] == x);
        }
        if exists|k: int| (pa <= k <= pt || pt <= k <= pa) && m.items[k] == x {
            let k = choose|k: int| (pa <= k <= pt || pt <= k <= pa) && m.items[k] == x;
            if pa <= pt {
                assert(pa <= k < pt + 1 && m.items[k] == x);
            } else {
                assert(pt <= k < pa + 1 && m.items[k] == x);
            }
        }
    }
}

/// A Shift click (with or without Command/Alt) whose anchor or target is not
/// listed changes nothing.
pub proof fn lemma_shift_click_off_the_list_changes_nothing<Id>(m: MultiSelectionModel<Id>, id: Id, mods: SelectionModifiers)
    requires
        mods.shift,
        m.anchor is Some,
        !m.items.contains(m.anchor->0) || !m.items.contains(id),
    ensures
        spec_select(m, id, mods) == m,
{
    m.items.index_of_first_ensures(m.anchor->0);
    m.items.index_of_first_ensures(id);
}

/// A Shift click without an anchor acts as a plain click (Shift alone:
/// the id alone is selected) or adds the id (with Command/Alt); either way
/// the id becomes the anchor.
pub proof fn lemma_shift_click_without_anchor<Id>(m: MultiSelectionModel<Id>, id: Id, mods: SelectionModifiers)
    requires
        mods.shift,
        m.anchor is None,
    ensures
        spec_select(m, id, mods).anchor == Some(id),
        forall|x: Id| #[trigger] spec_select(m, id, mods).selected.contains(x) <==> x == id || ((mods.command
            || mods.alt) && m.selected.contains(x)),
{
}

/// A Command (or Alt) click without Shift toggles the id; it becomes the
/// anchor when it gets selected, and the anchor stays when it gets
/// deselected.
pub proof fn lemma_toggle_click_anchor<Id>(m: MultiSelectionModel<Id>, id: Id, mods: SelectionModifiers)
    requires
        (mods.command || mods.alt) && !mods.shift,
    ensures
        !m.selected.contains(id) ==> spec_select(m, id, mods).anchor == Some(id),
        m.selected.contains(id) ==> spec_select(m, id, mods).anchor == m.anchor,
{
}

} // verus!
