//! Stable multi-column sorting of table rows.

use vstd::prelude::*;

use super::cell::{cell_compare, compare_cells, lemma_cell_compare_sign, lemma_cell_compare_transitive, CellValue};
use super::sort_state::SortDirection;

verus! {

/// A comparison sign, turned around for descending order.
pub open spec fn directed(dir: SortDirection, c: int) -> int {
    match dir {
        SortDirection::Ascending => c,
        SortDirection::Descending => -c,
    }
}

/// Lexicographic comparison of two key rows from level `k` on: the first
/// level whose cells differ decides, in that level's direction.
pub open spec fn keys_compare_from(dirs: Seq<SortDirection>, a: Seq<CellValue>, b: Seq<CellValue>, k: int) -> int
    decreases dirs.len() - k,
{
    if k < 0 || k >= dirs.len() {
        0
    } else {
        let c = directed(dirs[k], cell_compare(a[k], b[k]));
        if c != 0 {
            c
        } else {
            keys_compare_from(dirs, a, b, k + 1)
        }
    }
}

/// Lexicographic comparison of two key rows over all levels.
pub open spec fn keys_compare(dirs: Seq<SortDirection>, a: Seq<CellValue>, b: Seq<CellValue>) -> int {
    keys_compare_from(dirs, a, b, 0)
}

/// Position `i` sorts before position `j`: its keys compare lower, or
/// equal with `i` coming first (the order is stable).
pub open spec fn key_before(dirs: Seq<SortDirection>, keys: Seq<Vec<CellValue>>, i: int, j: int) -> bool {
    let c = keys_compare(dirs, keys[i]@, keys[j]@);
    c < 0 || (c == 0 && i < j)
}

proof fn lemma_directed(dir: SortDirection, a: CellValue, b: CellValue, c: CellValue)
    ensures
        -1 <= directed(dir, cell_compare(a, b)) <= 1,
        directed(dir, cell_compare(a, b)) == -directed(dir, cell_compare(b, a)),
        directed(dir, cell_compare(a, b)) <= 0 && directed(dir, cell_compare(b, c)) <= 0 ==> {
            &&& directed(dir, cell_compare(a, c)) <= 0
            &&& (directed(dir, cell_compare(a, b)) < 0 || directed(dir, cell_compare(b, c)) < 0) ==> directed(dir, cell_compare(a, c)) < 0
        },
{
    lemma_cell_compare_sign(a, b);
    lemma_cell_compare_sign(b, c);
    lemma_cell_compare_sign(a, c);
    if directed(dir, cell_compare(a, b)) <= 0 && directed(dir, cell_compare(b, c)) <= 0 {
        match dir {
            SortDirection::Ascending => lemma_cell_compare_transitive(a, b, c),
            SortDirection::Descending => lemma_cell_compare_transitive(c, b, a),
        }
    }
}

/// `keys_compare_from` is a sign and swapping its arguments negates it.
pub proof fn lemma_keys_compare_sign(dirs: Seq<SortDirection>, a: Seq<CellValue>, b: Seq<CellValue>, k: int)
    ensures
        -1 <= keys_compare_from(dirs, a, b, k) <= 1,
        keys_compare_from(dirs, a, b, k) == -keys_compare_from(dirs, b, a, k),
        keys_compare_from(dirs, a, a, k) == 0,
    decreases dirs.len() - k,
{
    if 0 <= k < dirs.len() {
        lemma_directed(dirs[k], a[k], b[k], b[k]);
        lemma_cell_compare_sign(a[k], a[k]);
        lemma_keys_compare_sign(dirs, a, b, k + 1);
    }
}

/// `keys_compare_from` orders transitively, strictly when either step is strict.
pub proof fn lemma_keys_compare_transitive(dirs: Seq<SortDirection>, a: Seq<CellValue>, b: Seq<CellValue>, c: Seq<CellValue>, k: int)
    requires
        keys_compare_from(dirs, a, b, k) <= 0,
        keys_compare_from(dirs, b, c, k) <= 0,
    ensures
        keys_compare_from(dirs, a, c, k) <= 0,
        keys_compare_from(dirs, a, b, k) < 0 || keys_compare_from(dirs, b, c, k) < 0 ==> keys_compare_from(dirs, a, c, k) < 0,
    decreases dirs.len() - k,
{
    if 0 <= k < dirs.len() {
        let d = dirs[k];
        lemma_directed(d, a[k], b[k], c[k]);
        lemma_directed(d, c[k], b[k], a[k]);
        lemma_directed(d, a[k], c[k], c[k]);
        lemma_directed(d, b[k], c[k], c[k]);
        let x = directed(d, cell_compare(a[k], b[k]));
        let y = directed(d, cell_compare(b[k], c[k]));
        if x == 0 && y == 0 {
            lemma_keys_compare_transitive(dirs, a, b, c, k + 1);
        }
    }
}

/// `key_before` is a strict total order on positions.
pub proof fn lemma_key_before_order(dirs: Seq<SortDirection>, keys: Seq<Vec<CellValue>>, i: int, j: int, l: int)
    ensures
        key_before(dirs, keys, i, j) ==> !key_before(dirs, keys, j, i),
        i != j ==> key_before(dirs, keys, i, j) || key_before(dirs, keys, j, i),
        key_before(dirs, keys, i, j) && key_before(dirs, keys, j, l) ==> key_before(dirs, keys, i, l),
{
    lemma_keys_compare_sign(dirs, keys[i]@, keys[j]@, 0);
    lemma_keys_compare_sign(dirs, keys[j]@, keys[l]@, 0);
    lemma_keys_compare_sign(dirs, keys[i]@, keys[l]@, 0);
    if key_before(dirs, keys, i, j) && key_before(dirs, keys, j, l) {
        lemma_keys_compare_transitive(dirs, keys[i]@, keys[j]@, keys[l]@, 0);
    }
}

/// Compares two key rows, as [`keys_compare`].
pub fn compare_keys(dirs: &Vec<SortDirection>, a: &Vec<CellValue>, b: &Vec<CellValue>) -> (r: i8)
    requires
        a@.len() == dirs@.len(),
        b@.len() == dirs@.len(),
    ensures
        r == keys_compare(dirs@, a@, b@),
{
    let mut k: usize = 0;
    while k < dirs.len()
        invariant
            k <= dirs@.len(),
            a@.len() == dirs@.len(),
            b@.len() == dirs@.len(),
            keys_compare(dirs@, a@, b@) == keys_compare_from(dirs@, a@, b@, k as int),
        decreases dirs@.len() - k,
    {
        let c = compare_cells(&a[k], &b[k]);
        if c != 0 {
            proof {
                lemma_cell_compare_sign(a@[k as int], b@[k as int]);
            }
            return match dirs[k] {
                SortDirection::Ascending => c,
                SortDirection::Descending => -c,
            };
        }
        k = k + 1;
    }
    0
}

/// Whether no value occurs twice.
pub open spec fn distinct(s: Seq<usize>) -> bool {
    forall|a: int, b: int| 0 <= a < s.len() && 0 <= b < s.len() && a != b ==> s[a] != s[b]
}

/// Sorts `perm` (distinct positions into `keys`) by [`key_before`], with an
/// insertion sort: adjacent swaps of out-of-order neighbours.
pub fn sort_positions(perm: &mut Vec<usize>, dirs: &Vec<SortDirection>, keys: &Vec<Vec<CellValue>>)
    requires
        distinct(old(perm)@),
        forall|k: int| 0 <= k < old(perm)@.len() ==> old(perm)@[k] < keys@.len(),
        forall|i: int| 0 <= i < keys@.len() ==> #[trigger] keys@[i]@.len() == dirs@.len(),
    ensures
        final(perm)@.len() == old(perm)@.len(),
        forall|m: usize| final(perm)@.contains(m) <==> old(perm)@.contains(m),
        distinct(final(perm)@),
        forall|k: int| 0 <= k < final(perm)@.len() ==> final(perm)@[k] < keys@.len(),
        forall|a: int, b: int| 0 <= a < b < final(perm)@.len() ==> key_before(dirs@, keys@, final(perm)@[a] as int, final(perm)@[b] as int),
{
    let n = perm.len();
    let ghost orig = perm@;
    let mut i: usize = 0;
    while i < n
        invariant
            i <= n,
            n == perm@.len(),
            forall|m: usize| perm@.contains(m) <==> orig.contains(m),
            distinct(perm@),
            forall|k: int| 0 <= k < perm@.len() ==> perm@[k] < keys@.len(),
            forall|i: int| 0 <= i < keys@.len() ==> #[trigger] keys@[i]@.len() == dirs@.len(),
            forall|a: int, b: int| 0 <= a < b < i ==> key_before(dirs@, keys@, perm@[a] as int, perm@[b] as int),
        decreases n - i,
    {
        let x = perm[i];
        let mut j: usize = i;
        loop
            invariant
                0 <= j <= i < n,
                n == perm@.len(),
                perm@[j as int] == x,
                forall|m: usize| perm@.contains(m) <==> orig.contains(m),
                distinct(perm@),
                forall|k: int| 0 <= k < perm@.len() ==> perm@[k] < keys@.len(),
                forall|i: int| 0 <= i < keys@.len() ==> #[trigger] keys@[i]@.len() == dirs@.len(),
                forall|a: int, b: int| 0 <= a < b < j ==> key_before(dirs@, keys@, perm@[a] as int, perm@[b] as int),
                forall|a: int, b: int| j < a < b <= i ==> key_before(dirs@, keys@, perm@[a] as int, perm@[b] as int),
                forall|a: int, b: int| 0 <= a < j && j < b <= i ==> key_before(dirs@, keys@, perm@[a] as int, perm@[b] as int),
                forall|b: int| j < b <= i ==> key_before(dirs@, keys@, x as int, perm@[b] as int),
            ensures
                n == perm@.len(),
                forall|m: usize| perm@.contains(m) <==> orig.contains(m),
                distinct(perm@),
                forall|k: int| 0 <= k < perm@.len() ==> perm@[k] < keys@.len(),
                forall|a: int, b: int| 0 <= a < b <= i ==> key_before(dirs@, keys@, perm@[a] as int, perm@[b] as int),
            decreases j,
        {
            if j == 0 {
                break;
            }
            let y = perm[j - 1];
            let c = compare_keys(dirs, &keys[x], &keys[y]);
            let goes_before = c < 0 || (c == 0 && x < y);
            if !goes_before {
                proof {
                    lemma_key_before_order(dirs@, keys@, x as int, y as int, x as int);
                    assert(key_before(dirs@, keys@, y as int, x as int));
                    assert forall|a: int| 0 <= a < j - 1 implies key_before(dirs@, keys@, perm@[a] as int, x as int) by {
                        lemma_key_before_order(dirs@, keys@, perm@[a] as int, y as int, x as int);
                    }
                }
                break;
            }
            let ghost before_swap = perm@;
            perm.set(j, y);
            perm.set(j - 1, x);
            proof {
                assert forall|m: usize| perm@.contains(m) <==> before_swap.contains(m) by {
                    if perm@.contains(m) {
                        let k = choose|k: int| 0 <= k < perm@.len() && perm@[k] == m;
                        if k == j {
                            assert(before_swap[j - 1] == m);
                        } else if k == j - 1 {
                            assert(before_swap[j as int] == m);
                        } else {
                            assert(before_swap[k] == m);
                        }
                    }
                    if before_swap.contains(m) {
                        let k = choose|k: int| 0 <= k < before_swap.len() && before_swap[k] == m;
                        if k == j {
                            assert(perm@[j - 1] == m);
                        } else if k == j - 1 {
                            assert(perm@[j as int] == m);
                        } else {
                            assert(perm@[k] == m);
                        }
                    }
                }
            }
            j = j - 1;
        }
        i = i + 1;
    }
}

} // verus!
