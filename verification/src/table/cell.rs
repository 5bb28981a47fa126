//! Cell values of table rows, and the order in which they sort.

use vstd::prelude::*;

use crate::text::{bytes_compare, compare_text, lemma_bytes_compare_sign, lemma_bytes_compare_transitive, text_bytes, text_compare};

verus! {

/// The value a table row shows in one column.
#[derive(Debug, Clone, PartialEq)]
pub enum CellValue {
    /// Text, sorted by the byte order of its UTF-8 encoding.
    Text(String),
    /// A signed integer.
    Integer(i64),
    /// A binary64 float, held as its IEEE 754 bit pattern (`f64::to_bits`),
    /// with the number of decimals to display. Floats sort in the IEEE 754
    /// total order (`f64::total_cmp`).
    Float(u64, usize),
    /// No value.
    Empty,
}

/// The value that orders a float bit pattern as `f64::total_cmp` does:
/// non-negative patterns in their own order, negative ones (sign bit set)
/// below them and reversed.
pub open spec fn float_order_key(bits: u64) -> int {
    if bits < 0x8000_0000_0000_0000u64 {
        bits as int
    } else {
        -1 - (bits - 0x8000_0000_0000_0000u64)
    }
}

/// Computes [`float_order_key`].
pub fn float_key(bits: u64) -> (k: i64)
    ensures
        k == float_order_key(bits),
{
    if bits < 0x8000_0000_0000_0000u64 {
        bits as i64
    } else {
        let m: u64 = bits - 0x8000_0000_0000_0000u64;
        -1 - (m as i64)
    }
}

/// The sign of an integer: -1, 0 or 1.
pub open spec fn sign(x: int) -> int {
    if x < 0 {
        -1
    } else if x > 0 {
        1
    } else {
        0
    }
}

/// Sort rank of a cell's kind: empty cells first, then integers, floats, text.
pub open spec fn cell_rank(v: CellValue) -> int {
    match v {
        CellValue::Empty => 0,
        CellValue::Integer(_) => 1,
        CellValue::Float(_, _) => 2,
        CellValue::Text(_) => 3,
    }
}

/// The order of cell values, as a sign: kinds by [`cell_rank`]; within a
/// kind, integers by value, floats by [`float_order_key`], text by
/// [`text_compare`]; empty cells are all equal. A float's display
/// precision plays no part.
pub open spec fn cell_compare(a: CellValue, b: CellValue) -> int {
    match (a, b) {
        (CellValue::Integer(x), CellValue::Integer(y)) => sign(x - y),
        (CellValue::Float(x, _), CellValue::Float(y, _)) => sign(float_order_key(x) - float_order_key(y)),
        (CellValue::Text(s), CellValue::Text(t)) => text_compare(s@, t@),
        _ => sign(cell_rank(a) - cell_rank(b)),
    }
}

/// `cell_compare` is a sign and swapping its arguments negates it.
pub proof fn lemma_cell_compare_sign(a: CellValue, b: CellValue)
    ensures
        -1 <= cell_compare(a, b) <= 1,
        cell_compare(a, b) == -cell_compare(b, a),
        cell_compare(a, a) == 0,
{
    if let (CellValue::Text(s), CellValue::Text(t)) = (a, b) {
        lemma_bytes_compare_sign(text_bytes(s@), text_bytes(t@));
    }
    if let CellValue::Text(s) = a {
        lemma_bytes_compare_sign(text_bytes(s@), text_bytes(s@));
    }
}

/// `cell_compare` orders transitively: `a <= b <= c` gives `a <= c`, strictly
/// when either step is strict.
pub proof fn lemma_cell_compare_transitive(a: CellValue, b: CellValue, c: CellValue)
    requires
        cell_compare(a, b) <= 0,
        cell_compare(b, c) <= 0,
    ensures
        cell_compare(a, c) <= 0,
        cell_compare(a, b) < 0 || cell_compare(b, c) < 0 ==> cell_compare(a, c) < 0,
{
    if let (CellValue::Text(s), CellValue::Text(t), CellValue::Text(u)) = (a, b, c) {
        let (x, y, z) = (text_bytes(s@), text_bytes(t@), text_bytes(u@));
        lemma_bytes_compare_sign(x, y);
        lemma_bytes_compare_sign(y, z);
        lemma_bytes_compare_sign(x, z);
        if bytes_compare(x, y) < 0 && bytes_compare(y, z) < 0 {
            lemma_bytes_compare_transitive(x, y, z);
        }
    }
}

/// Compares two cell values, as [`cell_compare`].
pub fn compare_cells(a: &CellValue, b: &CellValue) -> (r: i8)
    ensures
        r == cell_compare(*a, *b),
{
    match (a, b) {
        (CellValue::Integer(x), CellValue::Integer(y)) => {
            if *x < *y {
                -1
            } else if *x > *y {
                1
            } else {
                0
            }
        },
        (CellValue::Float(x, _), CellValue::Float(y, _)) => {
            let kx = float_key(*x);
            let ky = float_key(*y);
            if kx < ky {
                -1
            } else if kx > ky {
                1
            } else {
                0
            }
        },
        (CellValue::Text(s), CellValue::Text(t)) => compare_text(s.as_str(), t.as_str()),
        _ => {
            let ra = rank_of(a);
            let rb = rank_of(b);
            if ra < rb {
                -1
            } else if ra > rb {
                1
            } else {
                0
            }
        },
    }
}

fn rank_of(v: &CellValue) -> (r: u8)
    ensures
        r == cell_rank(*v),
{
    match v {
        CellValue::Empty => 0,
        CellValue::Integer(_) => 1,
        CellValue::Float(_, _) => 2,
        CellValue::Text(_) => 3,
    }
}

impl CellValue {
    /// A float cell from a binary64 bit pattern (`f64::to_bits`) and the
    /// number of decimals to display.
    pub fn float_bits(bits: u64, precision: usize) -> (v: CellValue)
        ensures
            v == CellValue::Float(bits, precision),
    {
        CellValue::Float(bits, precision)
    }
}

/// Items with a stable identity.
pub trait Identifiable {
    /// The identity type.
    type Id;

    /// The item's identity.
    fn id(&self) -> Self::Id;
}

/// A row of a table: one cell value per column key.
///
/// Sorting asks each row once per sort column for its cell, and orders
/// the rows by the cells it got back.
pub trait TableRow: Identifiable {
    /// The cell this row shows in `column`.
    fn cell(&self, column: &str) -> CellValue;
}



} // verus!
