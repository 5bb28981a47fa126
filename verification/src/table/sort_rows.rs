//! Sorting table rows by a [`SortOrder`].

use vstd::prelude::*;
use vstd::std_specs::iter::IteratorSpec;

use super::cell::{CellValue, TableRow};
use super::sort_state::{SortDescriptor, SortDirection, SortOrder};
use super::sorting::{compare_keys, distinct, key_before, keys_compare, sort_positions};

verus! {

broadcast use vstd::std_specs::vec::axiom_spec_into_iter;

/// The directions of a sort order, level by level.
pub open spec fn order_dirs(order: Seq<(Seq<char>, SortDirection)>) -> Seq<SortDirection> {
    order.map_values(|d: (Seq<char>, SortDirection)| d.1)
}

/// How two rows compare under a sort order, given the cells each row
/// shows in the order's columns (level by level), as a sign: the first
/// level whose cells differ decides, in its direction; rows whose cells
/// agree on every level compare equal.
pub open spec fn rows_compare(order: Seq<(Seq<char>, SortDirection)>, a: Seq<CellValue>, b: Seq<CellValue>) -> int {
    keys_compare(order_dirs(order), a, b)
}

/// Row `i` goes before row `j`: it compares lower, or equal and earlier
/// (the sort is stable). `cells[i]` are the cells of row `i`.
pub open spec fn row_before(order: Seq<(Seq<char>, SortDirection)>, cells: Seq<Seq<CellValue>>, i: int, j: int) -> bool {
    let c = rows_compare(order, cells[i], cells[j]);
    c < 0 || (c == 0 && i < j)
}

/// The cells of each row, as sequences.
pub open spec fn cell_rows(cells: Seq<Vec<CellValue>>) -> Seq<Seq<CellValue>> {
    cells.map_values(|v: Vec<CellValue>| v@)
}

/// Every row holds one cell per level of the order.
pub open spec fn cells_fit(order: Seq<(Seq<char>, SortDirection)>, cells: Seq<Seq<CellValue>>) -> bool {
    forall|i: int| 0 <= i < cells.len() ==> #[trigger] cells[i].len() == order.len()
}

/// `idx` lists, each once, exactly the rows `i` with `keep[i]`, in the
/// stable sort order of their cells. Exactly one such list exists for
/// given `order`, `cells` and `keep`.
pub open spec fn is_sorted_arrangement(
    order: Seq<(Seq<char>, SortDirection)>,
    cells: Seq<Seq<CellValue>>,
    keep: Seq<bool>,
    idx: Seq<usize>,
) -> bool {
    &&& keep.len() == cells.len()
    &&& forall|k: int| 0 <= k < idx.len() ==> idx[k] < cells.len() && keep[idx[k] as int]
    &&& distinct(idx)
    &&& forall|i: int| 0 <= i < cells.len() && keep[i] ==> idx.contains(i as usize)
    &&& forall|a: int, b: int| 0 <= a < b < idx.len() ==> row_before(order, cells, idx[a] as int, idx[b] as int)
}

/// Every row is kept.
pub open spec fn all_kept(n: nat) -> Seq<bool> {
    Seq::new(n, |i: int| true)
}

/// The positions `i` with `keep[i]`, in increasing order.
pub open spec fn kept_positions(keep: Seq<bool>) -> Seq<int>
    decreases keep.len(),
{
    if keep.len() == 0 {
        Seq::empty()
    } else {
        let rest = kept_positions(keep.drop_last());
        if keep.last() {
            rest.push(keep.len() - 1)
        } else {
            rest
        }
    }
}

/// `c` is a cell that `row` reports for `column`: a result that a call of
/// [`TableRow::cell`] on `row`, with a key whose text is `column`, can give.
pub open spec fn reports<R: TableRow>(row: &R, column: Seq<char>, c: CellValue) -> bool {
    exists|key: &str| key@ == column && #[trigger] call_ensures(R::cell, (row, key), c)
}

/// `cells` are cells that `row` reports for the columns of `order`, level
/// by level.
pub open spec fn row_reports<R: TableRow>(order: Seq<(Seq<char>, SortDirection)>, row: &R, cells: Seq<CellValue>) -> bool {
    &&& cells.len() == order.len()
    &&& forall|k: int| 0 <= k < order.len() ==> reports(row, order[k].0, #[trigger] cells[k])
}

/// `cells[i]` are cells that `items[i]` reports for the columns of
/// `order`, row by row.
pub open spec fn table_reports<R: TableRow>(order: Seq<(Seq<char>, SortDirection)>, items: Seq<R>, cells: Seq<Seq<CellValue>>) -> bool {
    &&& cells.len() == items.len()
    &&& forall|i: int| 0 <= i < items.len() ==> row_reports(order, &items[i], #[trigger] cells[i])
}

/// Exchanges two elements of a slice.
#[verifier::external_body]
fn swap_in_slice<T>(items: &mut [T], i: usize, j: usize)
    requires
        i < old(items)@.len(),
        j < old(items)@.len(),
    ensures
        final(items)@ == old(items)@.update(i as int, old(items)@[j as int]).update(j as int, old(items)@[i as int]),
{
    items.swap(i, j)
}

impl SortOrder {
    /// The direction of each descriptor, in order.
    fn directions(&self) -> (dirs: Vec<SortDirection>)
        ensures
            dirs@ == order_dirs(self@),
    {
        let ds = self.descriptors();
        let mut dirs: Vec<SortDirection> = Vec::new();
        let mut k: usize = 0;
        while k < ds.len()
            invariant
                k <= ds@.len(),
                ds@.map_values(|x: SortDescriptor| x@) == self@,
                dirs@.len() == k,
                forall|l: int| 0 <= l < k ==> #[trigger] dirs@[l] == self@[l].1,
            decreases ds@.len() - k,
        {
            assert(self@[k as int] == ds@[k as int]@);
            dirs.push(ds[k].direction);
            k = k + 1;
        }
        assert(dirs@ =~= order_dirs(self@));
        dirs
    }

    /// The cells `row` shows in the sort order's columns, asked in order.
    fn cells_of<R: TableRow>(&self, row: &R) -> (cells: Vec<CellValue>)
        ensures
            row_reports(self@, row, cells@),
    {
        let ds = self.descriptors();
        let mut cells: Vec<CellValue> = Vec::new();
        let mut k: usize = 0;
        while k < ds.len()
            invariant
                k <= ds@.len(),
                ds@.map_values(|x: SortDescriptor| x@) == self@,
                cells@.len() == k,
                forall|l: int| 0 <= l < k ==> reports(row, self@[l].0, #[trigger] cells@[l]),
            decreases ds@.len() - k,
        {
            let key = ds[k].column.as_str();
            let c = row.cell(key);
            proof {
                assert(self@[k as int] == ds@[k as int]@);
                assert(key@ == self@[k as int].0);
                assert(call_ensures(R::cell, (row, key), c));
            }
            cells.push(c);
            k = k + 1;
        }
        cells
    }

    /// The cells of every row in the sort order's columns.
    fn cells_of_all<R: TableRow>(&self, items: &[R]) -> (cells: Vec<Vec<CellValue>>)
        ensures
            cells@.len() == items@.len(),
            cells_fit(self@, cell_rows(cells@)),
            table_reports(self@, items@, cell_rows(cells@)),
    {
        let mut cells: Vec<Vec<CellValue>> = Vec::new();
        let mut i: usize = 0;
        while i < items.len()
            invariant
                i <= items@.len(),
                cells@.len() == i,
                forall|l: int| 0 <= l < i ==> #[trigger] cells@[l]@.len() == self@.len(),
                forall|l: int| 0 <= l < i ==> row_reports(self@, &items@[l], #[trigger] cells@[l]@),
            decreases items@.len() - i,
        {
            cells.push(self.cells_of(&items[i]));
            i = i + 1;
        }
        proof {
            let rows = cell_rows(cells@);
            assert forall|l: int| 0 <= l < items@.len() implies row_reports(self@, &items@[l], #[trigger] rows[l]) by {
                assert(rows[l] == cells@[l]@);
            }
        }
        cells
    }

    /// How two rows compare, as a sign, by the cells they show.
    pub(crate) fn compare_rows<R: TableRow>(&self, a: &R, b: &R) -> (r: i8)
        ensures
            exists|ca: Seq<CellValue>, cb: Seq<CellValue>|
                row_reports(self@, a, ca) && row_reports(self@, b, cb) && r == #[trigger] rows_compare(self@, ca, cb),
    {
        let ca = self.cells_of(a);
        let cb = self.cells_of(b);
        self.compare_cell_rows(&ca, &cb)
    }

    /// How two rows compare, as a sign, given the cells they show in the
    /// sort order's columns.
    pub fn compare_cell_rows(&self, a: &Vec<CellValue>, b: &Vec<CellValue>) -> (r: i8)
        requires
            a@.len() == self@.len(),
            b@.len() == self@.len(),
        ensures
            r == rows_compare(self@, a@, b@),
    {
        let dirs = self.directions();
        compare_keys(&dirs, a, b)
    }

    /// The rows `i` with `keep[i]`, in stable sort order, given the cells
    /// each row shows in the sort order's columns.
    ///
    /// This is the order every sorting method below returns, given the
    /// cells the rows report (and, for [`SortOrder::filter_sorted`], the
    /// predicate's answers).
    pub fn arrange_cells(&self, cells: &Vec<Vec<CellValue>>, keep: &[bool]) -> (idx: Vec<usize>)
        requires
            keep@.len() == cells@.len(),
            cells_fit(self@, cell_rows(cells@)),
        ensures
            is_sorted_arrangement(self@, cell_rows(cells@), keep@, idx@),
    {
        let n = cells.len();
        let mut perm: Vec<usize> = Vec::new();
        let mut i: usize = 0;
        while i < n
            invariant
                i <= n,
                n == cells@.len(),
                keep@.len() == n,
                forall|k: int| 0 <= k < perm@.len() ==> perm@[k] < i && keep@[perm@[k] as int],
                forall|a: int, b: int| 0 <= a < b < perm@.len() ==> perm@[a] < perm@[b],
                forall|l: int| 0 <= l < i && keep@[l] ==> perm@.contains(l as usize),
            decreases n - i,
        {
            let ghost prev = perm@;
            if keep[i] {
                perm.push(i);
                proof {
                    assert(perm@[perm@.len() - 1] == i);
                    assert(perm@.contains(i));
                    assert forall|l: int| 0 <= l < i && keep@[l] implies perm@.contains(l as usize) by {
                        let w = choose|w: int| 0 <= w < prev.len() && prev[w] == l as usize;
                        assert(perm@[w] == l as usize);
                    }
                }
            }
            i = i + 1;
        }
        let dirs = self.directions();
        let ghost unsorted = perm@;
        let ghost rows = cell_rows(cells@);
        proof {
            assert forall|r: int| 0 <= r < cells@.len() implies #[trigger] cells@[r]@.len() == dirs@.len() by {
                assert(rows[r] == cells@[r]@);
            }
        }
        if !self.is_empty() {
            sort_positions(&mut perm, &dirs, cells);
        }
        proof {
            assert forall|a: int, b: int| 0 <= a < b < perm@.len() implies row_before(self@, rows, perm@[a] as int, perm@[b] as int) by {
                let (x, y) = (perm@[a] as int, perm@[b] as int);
                assert(rows[x] == cells@[x]@);
                assert(rows[y] == cells@[y]@);
                if self@.len() > 0 {
                    assert(key_before(dirs@, cells@, x, y));
                } else {
                    assert(rows_compare(self@, rows[x], rows[y]) == 0);
                }
            }
            assert forall|l: int| 0 <= l < rows.len() && keep@[l] implies perm@.contains(l as usize) by {
                assert(unsorted.contains(l as usize));
            }
            assert forall|k: int| 0 <= k < perm@.len() implies perm@[k] < rows.len() && keep@[perm@[k] as int] by {
                assert(unsorted.contains(perm@[k]));
            }
        }
        perm
    }

    /// The rows `i` of `items` with `keep[i]`, in stable sort order of the
    /// cells the rows report.
    pub fn sort_indices_where<R: TableRow>(&self, items: &[R], keep: &[bool]) -> (idx: Vec<usize>)
        requires
            keep@.len() == items@.len(),
        ensures
            exists|cells: Seq<Seq<CellValue>>| {
                &&& table_reports(self@, items@, cells)
                &&& #[trigger] is_sorted_arrangement(self@, cells, keep@, idx@)
            },
    {
        let cells = self.cells_of_all(items);
        self.arrange_cells(&cells, keep)
    }

    /// Returns the row positions of `items` in stable sort order.
    ///
    /// Useful for virtual lists that must not copy their data.
    pub fn sort_indices<R: TableRow>(&self, items: &[R]) -> (idx: Vec<usize>)
        ensures
            exists|cells: Seq<Seq<CellValue>>| {
                &&& table_reports(self@, items@, cells)
                &&& #[trigger] is_sorted_arrangement(self@, cells, all_kept(items@.len()), idx@)
            },
    {
        let mut keep: Vec<bool> = Vec::new();
        let mut i: usize = 0;
        while i < items.len()
            invariant
                i <= items@.len(),
                keep@ == all_kept(i as nat),
            decreases items@.len() - i,
        {
            keep.push(true);
            i = i + 1;
            assert(keep@ =~= all_kept(i as nat));
        }
        self.sort_indices_where(items, keep.as_slice())
    }

    /// Returns a sorted copy of the items: clones, in stable sort order.
    pub fn sorted<R: TableRow + Clone>(&self, items: &[R]) -> (out: Vec<R>)
        ensures
            exists|cells: Seq<Seq<CellValue>>, idx: Seq<usize>| {
                &&& table_reports(self@, items@, cells)
                &&& #[trigger] is_sorted_arrangement(self@, cells, all_kept(items@.len()), idx)
                &&& out@.len() == idx.len()
                &&& forall|k: int| 0 <= k < idx.len() ==> cloned(items@[idx[k] as int], #[trigger] out@[k])
            },
    {
        let idx = self.sort_indices(items);
        let mut out: Vec<R> = Vec::new();
        let mut k: usize = 0;
        while k < idx.len()
            invariant
                k <= idx@.len(),
                forall|j: int| 0 <= j < idx@.len() ==> #[trigger] idx@[j] < items@.len(),
                out@.len() == k,
                forall|l: int| 0 <= l < k ==> cloned(items@[idx@[l] as int], #[trigger] out@[l]),
            decreases idx@.len() - k,
        {
            out.push(items[idx[k]].clone());
            k = k + 1;
        }
        out
    }

    /// References to the items, in stable sort order.
    fn sorted_refs<'a, R: TableRow>(&self, items: &'a [R]) -> (out: Vec<&'a R>)
        ensures
            exists|cells: Seq<Seq<CellValue>>, idx: Seq<usize>| {
                &&& table_reports(self@, items@, cells)
                &&& #[trigger] is_sorted_arrangement(self@, cells, all_kept(items@.len()), idx)
                &&& out@.len() == idx.len()
                &&& forall|k: int| 0 <= k < idx.len() ==> *#[trigger] out@[k] == items@[idx[k] as int]
            },
    {
        let idx = self.sort_indices(items);
        let mut out: Vec<&'a R> = Vec::new();
        let mut k: usize = 0;
        while k < idx.len()
            invariant
                k <= idx@.len(),
                forall|j: int| 0 <= j < idx@.len() ==> #[trigger] idx@[j] < items@.len(),
                out@.len() == k,
                forall|l: int| 0 <= l < k ==> *#[trigger] out@[l] == items@[idx@[l] as int],
            decreases idx@.len() - k,
        {
            out.push(&items[idx[k]]);
            k = k + 1;
        }
        out
    }

    /// Yields the items in stable sort order.
    pub fn iter_sorted<'a, R: TableRow>(&self, items: &'a [R]) -> (it: std::vec::IntoIter<&'a R>)
        ensures
            exists|cells: Seq<Seq<CellValue>>, idx: Seq<usize>| {
                &&& table_reports(self@, items@, cells)
                &&& #[trigger] is_sorted_arrangement(self@, cells, all_kept(items@.len()), idx)
                &&& it.remaining().len() == idx.len()
                &&& forall|k: int| 0 <= k < idx.len() ==> *#[trigger] it.remaining()[k] == items@[idx[k] as int]
            },
    {
        self.sorted_refs(items).into_iter()
    }

    /// The items for which `predicate` holds, in stable sort order.
    pub fn filter_sorted<'a, R: TableRow, P: Fn(&R) -> bool>(&self, items: &'a [R], predicate: P) -> (out: Vec<&'a R>)
        requires
            forall|i: int| 0 <= i < items@.len() ==> predicate.requires((&items@[i],)),
        ensures
            exists|keep: Seq<bool>, cells: Seq<Seq<CellValue>>, idx: Seq<usize>| {
                &&& keep.len() == items@.len()
                &&& forall|i: int| 0 <= i < items@.len() ==> predicate.ensures((&items@[i],), #[trigger] keep[i])
                &&& table_reports(self@, items@, cells)
                &&& #[trigger] is_sorted_arrangement(self@, cells, keep, idx)
                &&& out@.len() == idx.len()
                &&& forall|k: int| 0 <= k < idx.len() ==> *#[trigger] out@[k] == items@[idx[k] as int]
            },
    {
        let mut keep: Vec<bool> = Vec::new();
        let mut i: usize = 0;
        while i < items.len()
            invariant
                i <= items@.len(),
                keep@.len() == i,
                forall|l: int| 0 <= l < items@.len() ==> predicate.requires((&items@[l],)),
                forall|l: int| 0 <= l < i ==> predicate.ensures((&items@[l],), #[trigger] keep@[l]),
            decreases items@.len() - i,
        {
            let b = predicate(&items[i]);
            keep.push(b);
            i = i + 1;
        }
        let idx = self.sort_indices_where(items, keep.as_slice());
        let mut out: Vec<&'a R> = Vec::new();
        let mut k: usize = 0;
        while k < idx.len()
            invariant
                k <= idx@.len(),
                forall|j: int| 0 <= j < idx@.len() ==> #[trigger] idx@[j] < items@.len(),
                out@.len() == k,
                forall|l: int| 0 <= l < k ==> *#[trigger] out@[l] == items@[idx@[l] as int],
            decreases idx@.len() - k,
        {
            out.push(&items[idx[k]]);
            k = k + 1;
        }
        out
    }

    /// Sorts the items in place, in stable sort order.
    pub fn sort_slice<R: TableRow>(&self, items: &mut [R])
        ensures
            exists|cells: Seq<Seq<CellValue>>, idx: Seq<usize>| {
                &&& table_reports(self@, old(items)@, cells)
                &&& #[trigger] is_sorted_arrangement(self@, cells, all_kept(old(items)@.len()), idx)
                &&& final(items)@.len() == idx.len()
                &&& forall|k: int| 0 <= k < idx.len() ==> #[trigger] final(items)@[k] == old(items)@[idx[k] as int]
            },
    {
        let ghost orig = items@;
        let idx = self.sort_indices(items);
        let ghost cells = choose|cells: Seq<Seq<CellValue>>| {
            &&& table_reports(self@, orig, cells)
            &&& #[trigger] is_sorted_arrangement(self@, cells, all_kept(orig.len()), idx@)
        };
        let n = items.len();
        // where_now[o]: current position of the element first at position o;
        // at[c]: first position of the element now at position c.
        let mut where_now: Vec<usize> = Vec::new();
        let mut at: Vec<usize> = Vec::new();
        let mut i: usize = 0;
        while i < n
            invariant
                i <= n,
                n == items@.len(),
                where_now@.len() == i,
                at@.len() == i,
                forall|l: int| 0 <= l < i ==> where_now@[l] == l && at@[l] == l,
            decreases n - i,
        {
            where_now.push(i);
            at.push(i);
            i = i + 1;
        }
        proof {
            assert(idx@.len() == n) by {
                assert forall|l: usize| l < n implies #[trigger] idx@.contains(l) by {
                    assert(all_kept(n as nat)[l as int]);
                }
                lemma_distinct_cover(idx@, n as int);
            }
        }
        let mut k: usize = 0;
        while k < n
            invariant
                k <= n,
                n == items@.len(),
                n == idx@.len(),
                orig.len() == n,
                is_sorted_arrangement(self@, cells, all_kept(n as nat), idx@),
                where_now@.len() == n,
                at@.len() == n,
                forall|c: int| 0 <= c < n ==> #[trigger] at@[c] < n,
                forall|o: int| 0 <= o < n ==> #[trigger] where_now@[o] < n,
                forall|c: int| 0 <= c < n ==> where_now@[#[trigger] at@[c] as int] == c,
                forall|o: int| 0 <= o < n ==> at@[#[trigger] where_now@[o] as int] == o,
                forall|c: int| 0 <= c < n ==> #[trigger] items@[c] == orig[at@[c] as int],
                forall|c: int| 0 <= c < k ==> #[trigger] at@[c] == idx@[c],
            decreases n - k,
        {
            let o = idx[k];
            let c = where_now[o];
            proof {
                if c < k {
                    assert(at@[c as int] == idx@[c as int]);
                    assert(at@[c as int] == o);
                    assert(idx@[c as int] == idx@[k as int]);
                }
            }
            let moved = at[k];
            swap_in_slice(items, k, c);
            at.set(k, o);
            at.set(c, moved);
            where_now.set(o, k);
            where_now.set(moved, c);
            k = k + 1;
        }
    }
}

/// `n` distinct values below `n`, every one of them present, make a
/// sequence of length `n`.
proof fn lemma_distinct_cover(s: Seq<usize>, n: int)
    requires
        0 <= n <= usize::MAX,
        distinct(s),
        forall|k: int| 0 <= k < s.len() ==> s[k] < n,
        forall|l: usize| l < n ==> #[trigger] s.contains(l),
    ensures
        s.len() == n,
{
    vstd::set_lib::lemma_int_range(0, n);
    let as_int = s.map_values(|v: usize| v as int);
    assert(as_int.to_set() =~= vstd::set_lib::set_int_range(0, n)) by {
        assert forall|x: int| as_int.to_set().contains(x) <==> vstd::set_lib::set_int_range(0, n).contains(x) by {
            if as_int.to_set().contains(x) {
                let k = choose|k: int| 0 <= k < as_int.len() && as_int[k] == x;
            }
            if 0 <= x < n {
                assert(s.contains(x as usize));
                let k = choose|k: int| 0 <= k < s.len() && s[k] == x as usize;
                assert(as_int[k] == x);
            }
        }
    }
    assert(as_int.no_duplicates());
    as_int.unique_seq_to_set();
}

} // verus!
