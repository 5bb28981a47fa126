//! Selection state for lists, trees and tables.

use std::hash::Hash;
use std::collections::hash_map::RandomState;
use vstd::prelude::*;
use vstd::laws_eq::obeys_concrete_eq;
use vstd::std_specs::hash::builds_valid_hashers;
use vstd::std_specs::hash::obeys_key_model;

pub mod laws;
pub mod multi;
pub mod single;

verus! {

/// Keyboard modifiers that shape what a click does to a selection.
#[derive(Debug, Clone, Copy, PartialEq, Eq, Structural)]
pub struct SelectionModifiers {
    /// Cmd on macOS, Ctrl elsewhere.
    pub command: bool,
    /// Shift.
    pub shift: bool,
    /// Alt / Option; toggles like `command`.
    pub alt: bool,
}

impl SelectionModifiers {
    /// No modifier held.
    pub fn none() -> (m: SelectionModifiers)
        ensures
            m == (SelectionModifiers { command: false, shift: false, alt: false }),
    {
        SelectionModifiers { command: false, shift: false, alt: false }
    }

    /// Command (or Ctrl) held.
    pub fn command() -> (m: SelectionModifiers)
        ensures
            m == (SelectionModifiers { command: true, shift: false, alt: false }),
    {
        SelectionModifiers { command: true, shift: false, alt: false }
    }

    /// Shift held.
    pub fn shift() -> (m: SelectionModifiers)
        ensures
            m == (SelectionModifiers { command: false, shift: true, alt: false }),
    {
        SelectionModifiers { command: false, shift: true, alt: false }
    }

    /// Alt held.
    pub fn alt() -> (m: SelectionModifiers)
        ensures
            m == (SelectionModifiers { command: false, shift: false, alt: true }),
    {
        SelectionModifiers { command: false, shift: false, alt: true }
    }

    /// Command and Shift held together.
    pub fn both() -> (m: SelectionModifiers)
        ensures
            m == (SelectionModifiers { command: true, shift: true, alt: false }),
    {
        SelectionModifiers { command: true, shift: true, alt: false }
    }

    /// Whether the click toggles single items (Command or Alt).
    pub open spec fn spec_toggles(self) -> bool {
        self.command || self.alt
    }

    /// Whether the click toggles single items (Command or Alt).
    pub fn toggles(&self) -> (b: bool)
        ensures
            b == self.spec_toggles(),
    {
        self.command || self.alt
    }
}

/// What an id type must satisfy for the selection contracts to speak of it:
/// it hashes and compares as a plain value (`==` is identity), and cloning
/// copies it exactly. Every primitive integer type satisfies it.
pub open spec fn id_model<Id: Clone + Eq + Hash>() -> bool {
    &&& obeys_key_model::<Id>()
    &&& builds_valid_hashers::<RandomState>()
    &&& obeys_concrete_eq::<Id>()
    &&& forall|a: Id, b: Id| #[trigger] cloned(a, b) ==> a == b
}

/// `u64` ids satisfy the id model.
pub proof fn lemma_u64_id_model()
    ensures
        id_model::<u64>(),
{
    broadcast use vstd::std_specs::hash::group_hash_axioms;
    broadcast use vstd::laws_eq::group_laws_eq;
    assert(obeys_concrete_eq::<u64>());
}

/// A copy of `x`, made by `clone`: `x` itself for ids that obey the model.
pub(crate) fn clone_id<Id: Clone + Eq + Hash>(x: &Id) -> (r: Id)
    ensures
        id_model::<Id>() ==> r == *x,
{
    let r = x.clone();
    assert(cloned(*x, r));
    r
}

/// A selection strategy: which ids are selected, and how a click changes it.
///
/// The contracts speak of ids that obey [`id_model`] (they hash and compare
/// as plain values); for other id types they promise nothing of the result.
pub trait SelectionState<Id: Clone + Eq + Hash>: Sized {
    /// The ids currently selected.
    spec fn selection(&self) -> Set<Id>;

    /// Whether `id` is selected.
    fn is_selected(&self, id: &Id) -> (b: bool)
        ensures
            id_model::<Id>() ==> b == self.selection().contains(*id),
    ;

    /// Applies a click on `id` with the given modifiers.
    fn select(&mut self, id: Id, modifiers: SelectionModifiers);

    /// Deselects everything.
    fn clear(&mut self)
        ensures
            final(self).selection() == Set::<Id>::empty(),
    ;

    /// Number of selected ids.
    fn count(&self) -> (n: usize)
        ensures
            id_model::<Id>() ==> n == self.selection().len(),
    ;

    /// Whether nothing is selected.
    fn is_empty(&self) -> (b: bool)
        ensures
            id_model::<Id>() ==> b == (self.selection().len() == 0),
    {
        self.count() == 0
    }
}

} // verus!
