//! Single-item selection: at most one id, re-clicking deselects it.

use std::hash::Hash;
use vstd::prelude::*;
use vstd::laws_eq::obeys_concrete_eq;

use super::{id_model, SelectionModifiers, SelectionState};

verus! {

/// Single-item selection state. Only one item can be selected at a time;
/// clicking the selected item again deselects it.
#[derive(Debug, Clone, PartialEq, Eq)]
pub struct SingleSelection<Id> {
    selected: Option<Id>,
}

impl<Id> View for SingleSelection<Id> {
    type V = Option<Id>;

    open spec fn view(&self) -> Option<Id> {
        self.spec_selected()
    }
}

impl<Id> SingleSelection<Id> {
    /// The selected id, if any.
    pub closed spec fn spec_selected(&self) -> Option<Id> {
        self.selected
    }

    /// The selection after a click on `id`: deselected if it was the
    /// selected id, otherwise `id` becomes the selection. Modifiers play no part.
    pub open spec fn spec_click(before: Option<Id>, id: Id) -> Option<Id> {
        if before == Some(id) {
            None
        } else {
            Some(id)
        }
    }

    /// Creates a new empty single selection.
    pub fn new() -> (s: Self)
        ensures
            s@ == None::<Id>,
    {
        SingleSelection { selected: None }
    }

    /// Creates a single selection with an initial selection.
    pub fn with_selected(id: Id) -> (s: Self)
        ensures
            s@ == Some(id),
    {
        SingleSelection { selected: Some(id) }
    }

    /// Returns the currently selected item, if any.
    pub fn selected(&self) -> (r: Option<&Id>)
        ensures
            r == match self@ {
                Some(v) => Some(&v),
                None => None::<&Id>,
            },
    {
        match &self.selected {
            Some(v) => Some(v),
            None => None,
        }
    }

    /// Sets the selection directly, without toggling.
    pub fn set(&mut self, id: Option<Id>)
        ensures
            final(self)@ == id,
    {
        self.selected = id;
    }
}

impl<Id> Default for SingleSelection<Id> {
    fn default() -> (s: Self)
        ensures
            s@ == None::<Id>,
    {
        Self::new()
    }
}

impl<Id: Clone + Eq + Hash> SingleSelection<Id> {
    /// Whether the selection holds exactly `id`.
    fn holds(&self, id: &Id) -> (b: bool)
        ensures
            id_model::<Id>() ==> b == (self@ == Some(*id)),
    {
        proof {
            reveal(obeys_concrete_eq);
        }
        match &self.selected {
            Some(v) => *v == *id,
            None => false,
        }
    }
}

impl<Id: Clone + Eq + Hash> SelectionState<Id> for SingleSelection<Id> {
    open spec fn selection(&self) -> Set<Id> {
        match self@ {
            Some(v) => Set::empty().insert(v),
            None => Set::empty(),
        }
    }

    fn is_selected(&self, id: &Id) -> (b: bool) {
        self.holds(id)
    }

    fn select(&mut self, id: Id, modifiers: SelectionModifiers)
        ensures
            id_model::<Id>() ==> final(self)@ == Self::spec_click(old(self)@, id),
            final(self)@ is None || final(self)@ == Some(id),
    {
        if self.holds(&id) {
            self.selected = None;
        } else {
            self.selected = Some(id);
        }
    }

    fn clear(&mut self)
        ensures
            final(self)@ == None::<Id>,
    {
        self.selected = None;
    }

    fn count(&self) -> (n: usize) {
        proof {
            broadcast use vstd::set::group_set_axioms;
        }
        match &self.selected {
            Some(_) => 1,
            None => 0,
        }
    }
}

} // verus!
