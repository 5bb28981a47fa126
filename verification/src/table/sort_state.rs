//! Sort state of a table: sort direction, descriptors and multi-column order.

use vstd::prelude::*;

use crate::text::str_equal;

verus! {

/// Sort direction for a column.
#[derive(Debug, Clone, Copy, PartialEq, Eq, Structural)]
pub enum SortDirection {
    /// Smallest first.
    Ascending,
    /// Largest first.
    Descending,
}

/// The other direction.
pub open spec fn flipped(d: SortDirection) -> SortDirection {
    match d {
        SortDirection::Ascending => SortDirection::Descending,
        SortDirection::Descending => SortDirection::Ascending,
    }
}

impl SortDirection {
    /// Toggles between ascending and descending.
    pub fn toggle(self) -> (r: SortDirection)
        ensures
            r == flipped(self),
    {
        match self {
            SortDirection::Ascending => SortDirection::Descending,
            SortDirection::Descending => SortDirection::Ascending,
        }
    }

    /// Returns the opposite direction.
    pub fn reversed(self) -> (r: SortDirection)
        ensures
            r == flipped(self),
    {
        self.toggle()
    }
}

impl Default for SortDirection {
    fn default() -> (d: SortDirection)
        ensures
            d == SortDirection::Ascending,
    {
        SortDirection::Ascending
    }
}

/// A single sort descriptor (column + direction). Descriptors chain for
/// multi-column sorting.
#[derive(Debug, PartialEq, Eq)]
pub struct SortDescriptor {
    /// The column key to sort by.
    pub column: String,
    /// The sort direction.
    pub direction: SortDirection,
}

impl View for SortDescriptor {
    type V = (Seq<char>, SortDirection);

    open spec fn view(&self) -> (Seq<char>, SortDirection) {
        (self.column@, self.direction)
    }
}

impl Clone for SortDescriptor {
    fn clone(&self) -> (d: SortDescriptor)
        ensures
            d@ == self@,
    {
        SortDescriptor { column: self.column.clone(), direction: self.direction }
    }
}

impl SortDescriptor {
    /// Creates a new sort descriptor.
    pub fn new(column: &str, direction: SortDirection) -> (d: SortDescriptor)
        ensures
            d@ == (column@, direction),
    {
        SortDescriptor { column: column.to_owned(), direction }
    }

    /// Creates an ascending sort descriptor.
    pub fn ascending(column: &str) -> (d: SortDescriptor)
        ensures
            d@ == (column@, SortDirection::Ascending),
    {
        Self::new(column, SortDirection::Ascending)
    }

    /// Creates a descending sort descriptor.
    pub fn descending(column: &str) -> (d: SortDescriptor)
        ensures
            d@ == (column@, SortDirection::Descending),
    {
        Self::new(column, SortDirection::Descending)
    }
}

/// The column keys of a sort order, in order.
pub open spec fn order_columns(order: Seq<(Seq<char>, SortDirection)>) -> Seq<Seq<char>> {
    order.map_values(|d: (Seq<char>, SortDirection)| d.0)
}

/// The order after a click on the header of `column`:
/// - with Shift: the column's direction flips if it is in the order,
///   otherwise it is appended ascending;
/// - without Shift: the primary direction flips if the column is primary,
///   otherwise the order becomes this column alone, ascending.
pub open spec fn spec_toggle_column(order: Seq<(Seq<char>, SortDirection)>, column: Seq<char>, shift_held: bool) -> Seq<(Seq<char>, SortDirection)> {
    if shift_held {
        match order_columns(order).index_of_first(column) {
            Some(p) => order.update(p, (order[p].0, flipped(order[p].1))),
            None => order.push((column, SortDirection::Ascending)),
        }
    } else if order.len() > 0 && order[0].0 == column {
        order.update(0, (order[0].0, flipped(order[0].1)))
    } else {
        seq![(column, SortDirection::Ascending)]
    }
}

/// Current sort state for a table: a list of sort descriptors, the first
/// the primary sort, the others tiebreakers in turn.
#[derive(Debug)]
pub struct SortOrder {
    /// Ordered list of sort descriptors.
    descriptors: Vec<SortDescriptor>,
}

impl View for SortOrder {
    type V = Seq<(Seq<char>, SortDirection)>;

    closed spec fn view(&self) -> Seq<(Seq<char>, SortDirection)> {
        self.descriptors@.map_values(|d: SortDescriptor| d@)
    }
}

impl Clone for SortOrder {
    fn clone(&self) -> (o: SortOrder)
        ensures
            o@ == self@,
    {
        let mut descriptors: Vec<SortDescriptor> = Vec::new();
        let mut i: usize = 0;
        while i < self.descriptors.len()
            invariant
                i <= self.descriptors@.len(),
                descriptors@.len() == i,
                forall|k: int| 0 <= k < i ==> #[trigger] descriptors@[k]@ == self.descriptors@[k]@,
            decreases self.descriptors@.len() - i,
        {
            descriptors.push(self.descriptors[i].clone());
            i = i + 1;
        }
        let o = SortOrder { descriptors };
        assert(o@ =~= self@);
        o
    }
}

impl Default for SortOrder {
    fn default() -> (o: SortOrder)
        ensures
            o@ == Seq::<(Seq<char>, SortDirection)>::empty(),
    {
        Self::new()
    }
}

impl SortOrder {
    /// The descriptors, as exec values whose views make up the order.
    pub(crate) fn descriptors(&self) -> (d: &Vec<SortDescriptor>)
        ensures
            d@.map_values(|x: SortDescriptor| x@) == self@,
    {
        &self.descriptors
    }

    /// Creates an empty sort order (unsorted).
    pub fn new() -> (o: SortOrder)
        ensures
            o@ == Seq::<(Seq<char>, SortDirection)>::empty(),
    {
        let o = SortOrder { descriptors: Vec::new() };
        assert(o@ =~= Seq::<(Seq<char>, SortDirection)>::empty());
        o
    }

    /// Creates a sort order with a single descriptor.
    pub fn single(column: &str, direction: SortDirection) -> (o: SortOrder)
        ensures
            o@ == seq![(column@, direction)],
    {
        let mut descriptors: Vec<SortDescriptor> = Vec::new();
        descriptors.push(SortDescriptor::new(column, direction));
        let o = SortOrder { descriptors };
        assert(o@ =~= seq![(column@, direction)]);
        o
    }

    /// Creates a sort order with multiple descriptors, in the given order.
    pub fn multi<const N: usize>(descriptors: [SortDescriptor; N]) -> (o: SortOrder)
        ensures
            o@ == descriptors@.map_values(|d: SortDescriptor| d@),
    {
        let mut v: Vec<SortDescriptor> = Vec::new();
        let mut i: usize = 0;
        while i < N
            invariant
                i <= N,
                N == descriptors@.len(),
                v@.len() == i,
                forall|k: int| 0 <= k < i ==> #[trigger] v@[k]@ == descriptors@[k]@,
            decreases N - i,
        {
            v.push(descriptors[i].clone());
            i = i + 1;
        }
        let o = SortOrder { descriptors: v };
        assert(o@ =~= descriptors@.map_values(|d: SortDescriptor| d@));
        o
    }

    /// Creates a sort order from a vector of descriptors, in the given order.
    pub fn multi_vec(descriptors: Vec<SortDescriptor>) -> (o: SortOrder)
        ensures
            o@ == descriptors@.map_values(|d: SortDescriptor| d@),
    {
        SortOrder { descriptors }
    }

    /// Returns the primary (first) sort column, if any.
    pub fn primary_column(&self) -> (r: Option<&str>)
        ensures
            self@.len() == 0 ==> r is None,
            self@.len() > 0 ==> r is Some && r->0@ == self@[0].0,
    {
        if self.descriptors.len() == 0 {
            None
        } else {
            Some(self.descriptors[0].column.as_str())
        }
    }

    /// Returns the sort direction of the primary column.
    pub fn direction(&self) -> (r: Option<SortDirection>)
        ensures
            r == (if self@.len() == 0 { None } else { Some(self@[0].1) }),
    {
        if self.descriptors.len() == 0 {
            None
        } else {
            Some(self.descriptors[0].direction)
        }
    }

    /// Returns the position of a column in the sort order (0-indexed).
    pub fn position_of(&self, column: &str) -> (r: Option<usize>)
        ensures
            match order_columns(self@).index_of_first(column@) {
                Some(p) => r is Some && r->0 == p,
                None => r is None,
            },
    {
        let ghost cols = order_columns(self@);
        proof {
            cols.index_of_first_ensures(column@);
        }
        let mut i: usize = 0;
        while i < self.descriptors.len()
            invariant
                i <= self.descriptors@.len(),
                cols == order_columns(self@),
                cols.len() == self.descriptors@.len(),
                forall|k: int| 0 <= k < i ==> cols[k] != column@,
                match cols.index_of_first(column@) {
                    Some(j) => i <= j && 0 <= j < cols.len() && cols[j] == column@
                        && forall|k: int| 0 <= k < j ==> cols[k] != column@,
                    None => !cols.contains(column@),
                },
            decreases self.descriptors@.len() - i,
        {
            assert(cols[i as int] == self.descriptors@[i as int].column@);
            if str_equal(self.descriptors[i].column.as_str(), column) {
                return Some(i);
            }
            i = i + 1;
        }
        None
    }

    /// Returns the sort direction of a column, if it is in the sort order.
    pub fn direction_for(&self, column: &str) -> (r: Option<SortDirection>)
        ensures
            r == match order_columns(self@).index_of_first(column@) {
                Some(p) => Some(self@[p].1),
                None => None,
            },
    {
        proof {
            order_columns(self@).index_of_first_ensures(column@);
        }
        match self.position_of(column) {
            Some(p) => {
                assert(self@[p as int] == self.descriptors@[p as int]@);
                Some(self.descriptors[p].direction)
            },
            None => None,
        }
    }

    /// Returns the number of sort descriptors.
    pub fn len(&self) -> (n: usize)
        ensures
            n == self@.len(),
    {
        self.descriptors.len()
    }

    /// Returns whether there are no sort descriptors.
    pub fn is_empty(&self) -> (b: bool)
        ensures
            b == (self@.len() == 0),
    {
        self.descriptors.len() == 0
    }

    /// Clears all sort descriptors.
    pub fn clear(&mut self)
        ensures
            final(self)@ == Seq::<(Seq<char>, SortDirection)>::empty(),
    {
        self.descriptors.clear();
        assert(self@ =~= Seq::<(Seq<char>, SortDirection)>::empty());
    }

    /// Handles a click on the header of `column`; see [`spec_toggle_column`].
    pub fn toggle_column(&mut self, column: &str, shift_held: bool)
        ensures
            final(self)@ == spec_toggle_column(old(self)@, column@, shift_held),
    {
        let ghost before = self@;
        proof {
            order_columns(before).index_of_first_ensures(column@);
        }
        if shift_held {
            match self.position_of(column) {
                Some(pos) => {
                    let d = self.descriptors[pos].direction.toggle();
                    let c = self.descriptors[pos].column.clone();
                    self.descriptors.set(pos, SortDescriptor { column: c, direction: d });
                    assert(self@ =~= before.update(pos as int, (before[pos as int].0, flipped(before[pos as int].1))));
                },
                None => {
                    self.descriptors.push(SortDescriptor::ascending(column));
                    assert(self@ =~= before.push((column@, SortDirection::Ascending)));
                },
            }
        } else {
            let same = match self.primary_column() {
                Some(p) => str_equal(p, column),
                None => false,
            };
            if same {
                let d = self.descriptors[0].direction.toggle();
                let c = self.descriptors[0].column.clone();
                self.descriptors.set(0, SortDescriptor { column: c, direction: d });
                assert(self@ =~= before.update(0, (before[0].0, flipped(before[0].1))));
            } else {
                self.descriptors.clear();
                self.descriptors.push(SortDescriptor::ascending(column));
                assert(self@ =~= seq![(column@, SortDirection::Ascending)]);
            }
        }
    }
}

} // verus!
