//! Row virtualization: which row widgets a change of the loaded range tears
//! down, and what each loaded row shows.

use std::ops::Range;
use vstd::prelude::*;

use super::actions::TableRangeAction;

verus! {

/// Whether row `i` lies in the range `r` (end excluded).
pub open spec fn in_range(r: Range<usize>, i: int) -> bool {
    r.start <= i < r.end
}

/// The rows of the old range that the target range no longer holds: their
/// row widgets are torn down when the action is handled. They come in
/// increasing order, each once.
pub fn rows_to_remove(action: &TableRangeAction) -> (v: Vec<usize>)
    ensures
        forall|k: int| 0 <= k < v@.len() ==> in_range(action.old_range, #[trigger] v@[k] as int)
            && !in_range(action.target_range, v@[k] as int),
        forall|i: int| in_range(action.old_range, i) && !in_range(action.target_range, i) ==> #[trigger] v@.contains(
            i as usize,
        ),
        forall|a: int, b: int| 0 <= a < b < v@.len() ==> v@[a] < v@[b],
{
    let old = &action.old_range;
    let target = &action.target_range;
    let mut v: Vec<usize> = Vec::new();
    let mut i = old.start;
    while i < old.end
        invariant
            old.start <= i,
            *old == action.old_range,
            *target == action.target_range,
            forall|k: int| 0 <= k < v@.len() ==> in_range(*old, #[trigger] v@[k] as int) && !in_range(*target, v@[k] as int)
                && v@[k] < i,
            forall|j: int| old.start <= j < i && !in_range(*target, j) ==> #[trigger] v@.contains(j as usize),
            forall|a: int, b: int| 0 <= a < b < v@.len() ==> v@[a] < v@[b],
        decreases old.end - i,
    {
        let ghost prev = v@;
        if !(target.start <= i && i < target.end) {
            v.push(i);
            proof {
                assert(v@[v@.len() - 1] == i);
                assert forall|j: int| old.start <= j < i + 1 && !in_range(*target, j) implies #[trigger] v@.contains(
                    j as usize,
                ) by {
                    if j < i {
                        assert(prev.contains(j as usize));
                        let w = choose|w: int| 0 <= w < prev.len() && prev[w] == j as usize;
                        assert(v@[w] == j as usize);
                    }
                }
            }
        }
        i = i + 1;
    }
    v
}

/// The data row that visual row `visual` shows: its entry in the sorted
/// positions, or the row itself beyond them.
pub open spec fn data_row(sorted: Seq<usize>, visual: int) -> int {
    if 0 <= visual < sorted.len() {
        sorted[visual] as int
    } else {
        visual
    }
}

/// The data row that visual row `visual` shows; see [`data_row`].
pub fn data_index(sorted: &[usize], visual: usize) -> (d: usize)
    ensures
        d == data_row(sorted@, visual as int),
{
    if visual < sorted.len() {
        sorted[visual]
    } else {
        visual
    }
}

/// Whether visual row `visual` is drawn with the stripe background: with
/// striping on, every odd row.
pub fn row_is_striped(striped: bool, visual: usize) -> (b: bool)
    ensures
        b == (striped && visual % 2 == 1),
{
    striped && visual % 2 == 1
}

} // verus!
