//! Properties of sorting and of the sort state that hold across calls.

use vstd::prelude::*;

use super::cell::{cell_compare, lemma_cell_compare_sign, CellValue, TableRow};
use super::sort_rows::{all_kept, kept_positions, is_sorted_arrangement, order_dirs, reports, row_before, row_reports, rows_compare, table_reports};
use super::actions::{stepped_row, RowStep};
use super::sort_state::{flipped, order_columns, spec_toggle_column, SortDirection};
use crate::text::{bytes_compare, text_bytes};
use super::sorting::{distinct, keys_compare, keys_compare_from, lemma_keys_compare_sign, lemma_keys_compare_transitive};

verus! {

/// Toggling a direction twice gives it back.
pub proof fn lemma_flip_twice(d: SortDirection)
    ensures
        flipped(flipped(d)) == d,
        flipped(d) != d,
{
}

/// Rows of a table compare as a total preorder: two rows compare in
/// opposite ways when swapped, every row equals itself, and comparing is
/// transitive.
pub proof fn lemma_rows_compare_total_preorder(order: Seq<(Seq<char>, SortDirection)>, a: Seq<CellValue>, b: Seq<CellValue>, c: Seq<CellValue>)
    ensures
        -1 <= rows_compare(order, a, b) <= 1,
        rows_compare(order, a, b) == -rows_compare(order, b, a),
        rows_compare(order, a, a) == 0,
        rows_compare(order, a, b) <= 0 && rows_compare(order, b, c) <= 0 ==> rows_compare(order, a, c) <= 0,
{
    let dirs = order_dirs(order);
    lemma_keys_compare_sign(dirs, a, b, 0);
    lemma_keys_compare_sign(dirs, a, a, 0);
    if rows_compare(order, a, b) <= 0 && rows_compare(order, b, c) <= 0 {
        lemma_keys_compare_transitive(dirs, a, b, c, 0);
    }
}

proof fn lemma_row_before_order(order: Seq<(Seq<char>, SortDirection)>, items: Seq<Seq<CellValue>>, i: int, j: int, l: int)
    ensures
        row_before(order, items, i, j) ==> !row_before(order, items, j, i),
        i != j ==> row_before(order, items, i, j) || row_before(order, items, j, i),
        row_before(order, items, i, j) && row_before(order, items, j, l) ==> row_before(order, items, i, l),
{
    let dirs = order_dirs(order);
    let (ki, kj, kl) = (items[i], items[j], items[l]);
    lemma_keys_compare_sign(dirs, ki, kj, 0);
    lemma_keys_compare_sign(dirs, kj, kl, 0);
    lemma_keys_compare_sign(dirs, ki, kl, 0);
    if row_before(order, items, i, j) && row_before(order, items, j, l) {
        lemma_keys_compare_transitive(dirs, ki, kj, kl, 0);
    }
}

/// A stably sorted arrangement is unique: any two lists that each hold,
/// once, exactly the kept positions in sorted order are the same list. So,
/// given the cells the rows report, the contracts of the sorting functions
/// fix their results completely.
pub proof fn lemma_sorted_arrangement_unique(
    order: Seq<(Seq<char>, SortDirection)>,
    items: Seq<Seq<CellValue>>,
    keep: Seq<bool>,
    x: Seq<usize>,
    y: Seq<usize>,
)
    requires
        is_sorted_arrangement(order, items, keep, x),
        is_sorted_arrangement(order, items, keep, y),
    ensures
        x == y,
{
    assert forall|v: usize| #[trigger] x.contains(v) <==> y.contains(v) by {
        if x.contains(v) {
            let k = choose|k: int| 0 <= k < x.len() && x[k] == v;
            assert(keep[v as int]);
        }
        if y.contains(v) {
            let k = choose|k: int| 0 <= k < y.len() && y[k] == v;
            assert(keep[v as int]);
        }
    }
    assert(x.to_set() =~= y.to_set()) by {
        assert forall|v: usize| x.to_set().contains(v) <==> y.to_set().contains(v) by {
            assert(x.contains(v) <==> y.contains(v));
        }
    }
    assert(x.no_duplicates());
    assert(y.no_duplicates());
    x.unique_seq_to_set();
    y.unique_seq_to_set();
    assert forall|k: int| 0 <= k < x.len() implies x[k] == y[k] by {
        lemma_same_at(order, items, keep, x, y, k);
    }
    assert(x =~= y);
}

proof fn lemma_same_at(
    order: Seq<(Seq<char>, SortDirection)>,
    items: Seq<Seq<CellValue>>,
    keep: Seq<bool>,
    x: Seq<usize>,
    y: Seq<usize>,
    k: int,
)
    requires
        is_sorted_arrangement(order, items, keep, x),
        is_sorted_arrangement(order, items, keep, y),
        x.len() == y.len(),
        forall|v: usize| #[trigger] x.contains(v) <==> y.contains(v),
        0 <= k < x.len(),
    ensures
        x[k] == y[k],
    decreases k,
{
    assert forall|j: int| 0 <= j < k implies x[j] == y[j] by {
        lemma_same_at(order, items, keep, x, y, j);
    }
    if x[k] != y[k] {
        let a = x[k];
        let b = y[k];
        assert(x.contains(b)) by {
            assert(y.contains(b));
        }
        assert(y.contains(a)) by {
            assert(x.contains(a));
        }
        let p = choose|p: int| 0 <= p < x.len() && x[p] == b;
        let q = choose|q: int| 0 <= q < y.len() && y[q] == a;
        if p < k {
            assert(y[p] == b);
        }
        if q < k {
            assert(x[q] == a);
        }
        assert(p > k);
        assert(q > k);
        assert(row_before(order, items, a as int, b as int));
        assert(row_before(order, items, b as int, a as int));
        lemma_row_before_order(order, items, a as int, b as int, a as int);
    }
}

/// Sorting by an empty order keeps the original order.
pub proof fn lemma_empty_order_keeps_order(items: Seq<Seq<CellValue>>, idx: Seq<usize>)
    requires
        items.len() <= usize::MAX,
        is_sorted_arrangement(Seq::empty(), items, all_kept(items.len()), idx),
    ensures
        idx.len() == items.len(),
        forall|k: int| 0 <= k < idx.len() ==> idx[k] == k,
{
    let ident = Seq::new(items.len(), |k: int| k as usize);
    assert(is_sorted_arrangement(Seq::empty(), items, all_kept(items.len()), ident)) by {
        assert forall|i: int| 0 <= i < items.len() && all_kept(items.len())[i] implies ident.contains(i as usize) by {
            assert(ident[i] == i as usize);
        }
        assert forall|a: int, b: int| 0 <= a < b < ident.len() implies row_before(Seq::empty(), items, ident[a] as int, ident[b] as int) by {
            assert(ident[a] as int == a);
            assert(ident[b] as int == b);
            assert(rows_compare(Seq::<(Seq<char>, SortDirection)>::empty(), items[a], items[b]) == 0);
        }
        assert forall|k: int| 0 <= k < ident.len() implies ident[k] < items.len() && all_kept(items.len())[ident[k] as int] by {
            assert(ident[k] as int == k);
        }
        assert(distinct(ident));
    }
    lemma_sorted_arrangement_unique(Seq::empty(), items, all_kept(items.len()), idx, ident);
}

/// Under a single-column order, descending compares rows exactly opposite
/// to ascending, and ascending compares them by their cells.
pub proof fn lemma_descending_reverses(column: Seq<char>, a: CellValue, b: CellValue)
    ensures
        rows_compare(seq![(column, SortDirection::Descending)], seq![a], seq![b]) == -rows_compare(
            seq![(column, SortDirection::Ascending)],
            seq![a],
            seq![b],
        ),
        rows_compare(seq![(column, SortDirection::Ascending)], seq![a], seq![b]) == cell_compare(a, b),
{
    let asc = seq![(column, SortDirection::Ascending)];
    let desc = seq![(column, SortDirection::Descending)];
    lemma_cell_compare_sign(a, b);
    assert(order_dirs(asc) =~= seq![SortDirection::Ascending]);
    assert(order_dirs(desc) =~= seq![SortDirection::Descending]);
    assert(keys_compare_from(order_dirs(asc), seq![a], seq![b], 1) == 0);
    assert(keys_compare_from(order_dirs(desc), seq![a], seq![b], 1) == 0);
}

/// A plain click on the primary column's header flips its direction, and a
/// second plain click restores the order.
pub proof fn lemma_toggle_primary_twice(order: Seq<(Seq<char>, SortDirection)>, column: Seq<char>)
    requires
        order.len() > 0,
        order[0].0 == column,
    ensures
        spec_toggle_column(order, column, false)[0].1 == flipped(order[0].1),
        spec_toggle_column(spec_toggle_column(order, column, false), column, false) == order,
{
    assert(spec_toggle_column(spec_toggle_column(order, column, false), column, false) =~= order);
}

/// A plain click on a header that is not the primary column makes that
/// column the only, ascending, sort key.
pub proof fn lemma_toggle_other_resets(order: Seq<(Seq<char>, SortDirection)>, column: Seq<char>)
    requires
        order.len() == 0 || order[0].0 != column,
    ensures
        spec_toggle_column(order, column, false) == seq![(column, SortDirection::Ascending)],
{
}

/// A Shift-click keeps the primary column and every other column in place;
/// only the clicked column's direction flips, or the column is appended
/// ascending when it was not sorted on.
pub proof fn lemma_shift_toggle_keeps_columns(order: Seq<(Seq<char>, SortDirection)>, column: Seq<char>)
    ensures
        ({
            let after = spec_toggle_column(order, column, true);
            &&& after.len() >= order.len()
            &&& forall|k: int| 0 <= k < order.len() ==> after[k].0 == order[k].0
            &&& forall|k: int| 0 <= k < order.len() && order[k].0 != column ==> after[k] == order[k]
        }),
{
    super::sort_state::order_columns(order).index_of_first_ensures(column);
}

/// `TableRow::cell` of `R` answers like a function: one row, asked twice
/// for keys with the same text, reports the same cell.
pub open spec fn cell_is_function<R: TableRow>() -> bool {
    forall|row: &R, k1: &str, k2: &str, c1: CellValue, c2: CellValue|
        k1@ == k2@ && #[trigger] call_ensures(R::cell, (row, k1), c1) && #[trigger] call_ensures(R::cell, (row, k2), c2)
            ==> c1 == c2
}

proof fn lemma_row_reports_unique<R: TableRow>(
    order: Seq<(Seq<char>, SortDirection)>,
    row: &R,
    c1: Seq<CellValue>,
    c2: Seq<CellValue>,
)
    requires
        cell_is_function::<R>(),
        row_reports(order, row, c1),
        row_reports(order, row, c2),
    ensures
        c1 == c2,
{
    assert forall|k: int| 0 <= k < c1.len() implies c1[k] == c2[k] by {
        assert(reports(row, order[k].0, c1[k]));
        assert(reports(row, order[k].0, c2[k]));
        let k1 = choose|key: &str| key@ == order[k].0 && #[trigger] call_ensures(R::cell, (row, key), c1[k]);
        let k2 = choose|key: &str| key@ == order[k].0 && #[trigger] call_ensures(R::cell, (row, key), c2[k]);
    }
    assert(c1 =~= c2);
}

/// For rows whose `cell` answers like a function, the cells they report
/// are determined, so all sorting functions (`sort_indices`, `sorted`,
/// `iter_sorted`, `sort_slice`, and `filter_sorted` for the same kept rows)
/// put the rows in one and the same order.
pub proof fn lemma_sorts_agree<R: TableRow>(
    order: Seq<(Seq<char>, SortDirection)>,
    items: Seq<R>,
    keep: Seq<bool>,
    cells1: Seq<Seq<CellValue>>,
    cells2: Seq<Seq<CellValue>>,
    x: Seq<usize>,
    y: Seq<usize>,
)
    requires
        cell_is_function::<R>(),
        table_reports(order, items, cells1),
        table_reports(order, items, cells2),
        is_sorted_arrangement(order, cells1, keep, x),
        is_sorted_arrangement(order, cells2, keep, y),
    ensures
        cells1 == cells2,
        x == y,
{
    assert forall|i: int| 0 <= i < cells1.len() implies cells1[i] == cells2[i] by {
        assert(row_reports(order, &items[i], cells1[i]));
        assert(row_reports(order, &items[i], cells2[i]));
        lemma_row_reports_unique(order, &items[i], cells1[i], cells2[i]);
    }
    assert(cells1 =~= cells2);
    lemma_sorted_arrangement_unique(order, cells1, keep, x, y);
}

proof fn lemma_kept_positions(keep: Seq<bool>)
    ensures
        forall|k: int| 0 <= k < kept_positions(keep).len() ==> 0 <= #[trigger] kept_positions(keep)[k] < keep.len()
            && keep[kept_positions(keep)[k]],
        forall|a: int, b: int| 0 <= a < b < kept_positions(keep).len() ==> kept_positions(keep)[a] < kept_positions(keep)[b],
        forall|i: int| 0 <= i < keep.len() && keep[i] ==> #[trigger] kept_positions(keep).contains(i),
        kept_positions(keep).len() <= keep.len(),
    decreases keep.len(),
{
    if keep.len() > 0 {
        let init = keep.drop_last();
        lemma_kept_positions(init);
        let rest = kept_positions(init);
        let pos = kept_positions(keep);
        assert forall|k: int| 0 <= k < rest.len() implies keep[rest[k]] by {
            assert(init[rest[k]] == keep[rest[k]]);
        }
        assert forall|i: int| 0 <= i < keep.len() && keep[i] implies #[trigger] pos.contains(i) by {
            if i < keep.len() - 1 {
                assert(init[i] == keep[i]);
                assert(rest.contains(i));
                let w = choose|w: int| 0 <= w < rest.len() && rest[w] == i;
                assert(pos[w] == i);
            } else {
                assert(pos[pos.len() - 1] == i);
            }
        }
    }
}

/// Filtering, then sorting: the kept rows in the stable order of `cells`
/// are the kept rows, listed in position order, sorted stably by their
/// own cells. So `filter_sorted` gives what `sorted` gives on the rows the
/// predicate keeps. `y` sorts the kept rows, whose cells are `sub_cells`;
/// mapped back to positions it is `x`.
pub proof fn lemma_filter_then_sort(
    order: Seq<(Seq<char>, SortDirection)>,
    cells: Seq<Seq<CellValue>>,
    keep: Seq<bool>,
    x: Seq<usize>,
    sub_cells: Seq<Seq<CellValue>>,
    y: Seq<usize>,
)
    requires
        cells.len() <= usize::MAX,
        is_sorted_arrangement(order, cells, keep, x),
        sub_cells == kept_positions(keep).map_values(|p: int| cells[p]),
        is_sorted_arrangement(order, sub_cells, all_kept(sub_cells.len()), y),
    ensures
        x == y.map_values(|j: usize| kept_positions(keep)[j as int] as usize),
{
    let pos = kept_positions(keep);
    lemma_kept_positions(keep);
    let z = y.map_values(|j: usize| pos[j as int] as usize);
    assert forall|k: int| 0 <= k < z.len() implies z[k] < cells.len() && keep[z[k] as int] by {
        assert(y[k] < sub_cells.len());
        assert(0 <= pos[y[k] as int] < keep.len());
    }
    assert(distinct(z)) by {
        assert forall|a: int, b: int| 0 <= a < z.len() && 0 <= b < z.len() && a != b implies z[a] != z[b] by {
            assert(y[a] != y[b]);
            assert(y[a] < pos.len() && y[b] < pos.len());
            if y[a] < y[b] {
                assert(pos[y[a] as int] < pos[y[b] as int]);
            } else {
                assert(pos[y[b] as int] < pos[y[a] as int]);
            }
        }
    }
    assert forall|i: int| 0 <= i < cells.len() && keep[i] implies z.contains(i as usize) by {
        assert(pos.contains(i));
        let j = choose|j: int| 0 <= j < pos.len() && pos[j] == i;
        assert(all_kept(sub_cells.len())[j]);
        assert(y.contains(j as usize));
        let k = choose|k: int| 0 <= k < y.len() && y[k] == j as usize;
        assert(z[k] == i as usize);
    }
    assert forall|a: int, b: int| 0 <= a < b < z.len() implies row_before(order, cells, z[a] as int, z[b] as int) by {
        let (ja, jb) = (y[a] as int, y[b] as int);
        assert(row_before(order, sub_cells, ja, jb));
        assert(ja < pos.len() && jb < pos.len());
        assert(sub_cells[ja] == cells[pos[ja]]);
        assert(sub_cells[jb] == cells[pos[jb]]);
        if ja < jb {
            assert(pos[ja] < pos[jb]);
        }
    }
    assert(is_sorted_arrangement(order, cells, keep, z));
    lemma_sorted_arrangement_unique(order, cells, keep, x, z);
}

/// `filter_sorted` gives what `sorted` gives on the rows the predicate
/// keeps, for rows whose `cell` answers like a function: the kept rows of
/// `items` in the stable order of the cells they report (`x`) are the kept
/// rows, taken out in position order and sorted on their own (`y`), mapped
/// back to their positions.
pub proof fn lemma_filter_sorted_is_sorted_of_kept<R: TableRow>(
    order: Seq<(Seq<char>, SortDirection)>,
    items: Seq<R>,
    keep: Seq<bool>,
    cells: Seq<Seq<CellValue>>,
    x: Seq<usize>,
    sub_cells: Seq<Seq<CellValue>>,
    y: Seq<usize>,
)
    requires
        cell_is_function::<R>(),
        items.len() <= usize::MAX,
        table_reports(order, items, cells),
        is_sorted_arrangement(order, cells, keep, x),
        table_reports(order, kept_positions(keep).map_values(|p: int| items[p]), sub_cells),
        is_sorted_arrangement(order, sub_cells, all_kept(sub_cells.len()), y),
    ensures
        x == y.map_values(|j: usize| kept_positions(keep)[j as int] as usize),
{
    let pos = kept_positions(keep);
    lemma_kept_positions(keep);
    let kept = pos.map_values(|p: int| items[p]);
    assert(sub_cells =~= pos.map_values(|p: int| cells[p])) by {
        assert forall|j: int| 0 <= j < sub_cells.len() implies sub_cells[j] == cells[pos[j]] by {
            assert(row_reports(order, &kept[j], sub_cells[j]));
            assert(kept[j] == items[pos[j]]);
            assert(row_reports(order, &items[pos[j]], cells[pos[j]]));
            lemma_row_reports_unique(order, &items[pos[j]], sub_cells[j], cells[pos[j]]);
        }
    }
    lemma_filter_then_sort(order, cells, keep, x, sub_cells, y);
}

/// Arrow-key navigation in a table of `n` rows (at least one): Down from
/// row `i` goes to the next row, or stays on the last row; Up goes to the
/// previous row, or stays on the first; with no focused row, the first
/// row. A focused row in the table stays in the table.
pub proof fn lemma_arrow_keys_step_one_row(i: usize, n: usize)
    requires
        n > 0,
    ensures
        i + 1 < n ==> stepped_row(Some(i), n, RowStep::Down) == i + 1,
        i + 1 >= n ==> stepped_row(Some(i), n, RowStep::Down) == n - 1,
        i > 0 ==> stepped_row(Some(i), n, RowStep::Up) == i - 1,
        i == 0 ==> stepped_row(Some(i), n, RowStep::Up) == 0,
        stepped_row(None, n, RowStep::Up) == 0,
        stepped_row(None, n, RowStep::Down) == 0,
        i < n ==> 0 <= stepped_row(Some(i), n, RowStep::Up) < n,
        0 <= stepped_row(Some(i), n, RowStep::Down) < n,
{
}

/// A Shift-click on a header: a column not yet sorted on is appended as
/// the last level, ascending, all other levels kept; a column already in
/// the order has its direction flipped at its level, all other levels
/// kept.
pub proof fn lemma_shift_click_appends_or_flips(order: Seq<(Seq<char>, SortDirection)>, column: Seq<char>, p: int)
    ensures
        !order_columns(order).contains(column) ==> {
            let after = spec_toggle_column(order, column, true);
            &&& after.len() == order.len() + 1
            &&& after[order.len() as int] == (column, SortDirection::Ascending)
            &&& forall|k: int| 0 <= k < order.len() ==> after[k] == order[k]
        },
        0 <= p < order.len() && order[p].0 == column && (forall|q: int| 0 <= q < p ==> order[q].0 != column) ==> {
            let after = spec_toggle_column(order, column, true);
            &&& after.len() == order.len()
            &&& after[p] == (column, flipped(order[p].1))
            &&& after[p].1 != order[p].1
            &&& forall|k: int| 0 <= k < order.len() && k != p ==> after[k] == order[k]
        },
{
    let cols = order_columns(order);
    cols.index_of_first_ensures(column);
    if 0 <= p < order.len() && order[p].0 == column && (forall|q: int| 0 <= q < p ==> order[q].0 != column) {
        assert(cols[p] == column);
        assert(cols.contains(column));
        let f = cols.index_of_first(column)->0;
        if f < p {
            assert(cols[f] == order[f].0);
        }
        if p < f {
            assert(cols[p] != column);
        }
    }
}

/// Integer cells sort by numeric value.
pub proof fn lemma_integer_cells_by_value(x: i64, y: i64)
    ensures
        cell_compare(CellValue::Integer(x), CellValue::Integer(y)) < 0 <==> x < y,
        cell_compare(CellValue::Integer(x), CellValue::Integer(y)) == 0 <==> x == y,
        cell_compare(CellValue::Integer(x), CellValue::Integer(y)) > 0 <==> x > y,
{
}

/// Kinds of cells sort as: empty, then integers, then floats, then text;
/// all empty cells are equal.
pub proof fn lemma_cell_kinds_in_order(i: i64, bits: u64, precision: usize, t: String)
    ensures
        cell_compare(CellValue::Empty, CellValue::Empty) == 0,
        cell_compare(CellValue::Empty, CellValue::Integer(i)) < 0,
        cell_compare(CellValue::Integer(i), CellValue::Float(bits, precision)) < 0,
        cell_compare(CellValue::Float(bits, precision), CellValue::Text(t)) < 0,
        cell_compare(CellValue::Empty, CellValue::Text(t)) < 0,
{
}

/// Float cells sort in the IEEE 754 total order of their bit patterns:
/// every pattern with the sign bit set (negative) before every pattern
/// without it; non-negative patterns in increasing order of their bits,
/// negative ones in decreasing order; the display precision plays no part.
pub proof fn lemma_float_cells_total_order(x: u64, px: usize, y: u64, py: usize)
    ensures
        x < 0x8000_0000_0000_0000u64 && y < 0x8000_0000_0000_0000u64 ==> (cell_compare(
            CellValue::Float(x, px),
            CellValue::Float(y, py),
        ) < 0 <==> x < y),
        x >= 0x8000_0000_0000_0000u64 && y >= 0x8000_0000_0000_0000u64 ==> (cell_compare(
            CellValue::Float(x, px),
            CellValue::Float(y, py),
        ) < 0 <==> x > y),
        x >= 0x8000_0000_0000_0000u64 && y < 0x8000_0000_0000_0000u64 ==> cell_compare(
            CellValue::Float(x, px),
            CellValue::Float(y, py),
        ) < 0,
        cell_compare(CellValue::Float(x, px), CellValue::Float(y, py)) == 0 <==> x == y,
{
}

proof fn lemma_bytes_first_difference(a: Seq<u8>, b: Seq<u8>, k: int)
    requires
        0 <= k <= a.len(),
        k <= b.len(),
        forall|j: int| 0 <= j < k ==> a[j] == b[j],
        (k < a.len() && k < b.len() && a[k] < b[k]) || (k == a.len() && k < b.len()),
    ensures
        bytes_compare(a, b) == -1,
    decreases k,
{
    if k > 0 {
        assert(a[0] == b[0]);
        lemma_bytes_first_difference(a.drop_first(), b.drop_first(), k - 1);
    }
}

/// Text cells sort by the bytes of their UTF-8 encoding: at the first
/// byte where the encodings differ, the smaller byte sorts first, and an
/// encoding that is a proper prefix of the other sorts first.
pub proof fn lemma_text_cells_by_bytes(s: String, t: String, k: int)
    requires
        0 <= k <= text_bytes(s@).len(),
        k <= text_bytes(t@).len(),
        forall|j: int| 0 <= j < k ==> text_bytes(s@)[j] == text_bytes(t@)[j],
        (k < text_bytes(s@).len() && k < text_bytes(t@).len() && text_bytes(s@)[k] < text_bytes(t@)[k]) || (k
            == text_bytes(s@).len() && k < text_bytes(t@).len()),
    ensures
        cell_compare(CellValue::Text(s), CellValue::Text(t)) < 0,
        cell_compare(CellValue::Text(t), CellValue::Text(s)) > 0,
{
    lemma_bytes_first_difference(text_bytes(s@), text_bytes(t@), k);
    lemma_cell_compare_sign(CellValue::Text(s), CellValue::Text(t));
}

} // verus!
