//! Row comparisons returned as `std::cmp::Ordering`.

use std::cmp::Ordering;
use vstd::prelude::*;

use super::cell::{cell_compare, compare_cells, lemma_cell_compare_sign, CellValue, TableRow};
use super::sort_rows::{reports, row_reports, rows_compare};
use super::sort_state::{SortDescriptor, SortDirection, SortOrder};
use super::sorting::directed;

verus! {

/// The `Ordering` a comparison sign stands for.
pub open spec fn ordering_of(c: int) -> Ordering {
    if c < 0 {
        Ordering::Less
    } else if c > 0 {
        Ordering::Greater
    } else {
        Ordering::Equal
    }
}

fn ordering_from_sign(c: i8) -> (r: Ordering)
    ensures
        c < 0 ==> r == Ordering::Less,
        c > 0 ==> r == Ordering::Greater,
        c == 0 ==> r == Ordering::Equal,
{
    if c < 0 {
        Ordering::Less
    } else if c > 0 {
        Ordering::Greater
    } else {
        Ordering::Equal
    }
}

impl SortDescriptor {
    /// Compares two cells in this descriptor's direction.
    pub fn compare_values(&self, a: &CellValue, b: &CellValue) -> (r: Ordering)
        ensures
            r == ordering_of(directed(self.direction, cell_compare(*a, *b))),
    {
        let c = compare_cells(a, b);
        proof {
            lemma_cell_compare_sign(*a, *b);
        }
        let d = match self.direction {
            SortDirection::Ascending => c,
            SortDirection::Descending => -c,
        };
        ordering_from_sign(d)
    }

    /// Compares two rows by the cells they show in this descriptor's
    /// column, in its direction.
    pub fn compare<R: TableRow>(&self, a: &R, b: &R) -> (r: Ordering)
        ensures
            exists|ca: CellValue, cb: CellValue|
                reports(a, self.column@, ca) && reports(b, self.column@, cb)
                    && r == #[trigger] ordering_of(directed(self.direction, cell_compare(ca, cb))),
    {
        let key = self.column.as_str();
        let a_val = a.cell(key);
        let b_val = b.cell(key);
        proof {
            assert(call_ensures(R::cell, (a, key), a_val));
            assert(call_ensures(R::cell, (b, key), b_val));
        }
        self.compare_values(&a_val, &b_val)
    }
}

impl SortOrder {
    /// Compares two rows by all descriptors in order: the first one under
    /// which their cells differ decides.
    pub fn compare<R: TableRow>(&self, a: &R, b: &R) -> (r: Ordering)
        ensures
            exists|ca: Seq<CellValue>, cb: Seq<CellValue>|
                row_reports(self@, a, ca) && row_reports(self@, b, cb) && r == #[trigger] ordering_of(rows_compare(self@, ca, cb)),
    {
        let c = self.compare_rows(a, b);
        let r = ordering_from_sign(c);
        proof {
            let (ca, cb) = choose|ca: Seq<CellValue>, cb: Seq<CellValue>|
                row_reports(self@, a, ca) && row_reports(self@, b, cb) && c == #[trigger] rows_compare(self@, ca, cb);
            assert(r == ordering_of(rows_compare(self@, ca, cb)));
        }
        r
    }
}

} // verus!
