//! Layout options: flow direction, column alignment and resize mode.

use vstd::prelude::*;

verus! {

/// Which direction content flows in: left-to-right or right-to-left.
#[derive(Debug, Clone, Copy, PartialEq, Eq, Structural)]
pub enum FlowDirection {
    /// Left to right. Default.
    Ltr,
    /// Right to left.
    Rtl,
}

impl FlowDirection {
    /// Returns whether this is right-to-left.
    pub fn is_rtl(&self) -> (b: bool)
        ensures
            b == (*self == FlowDirection::Rtl),
    {
        match self {
            FlowDirection::Rtl => true,
            FlowDirection::Ltr => false,
        }
    }
}

impl Default for FlowDirection {
    fn default() -> (d: FlowDirection)
        ensures
            d == FlowDirection::Ltr,
    {
        FlowDirection::Ltr
    }
}

/// Column content alignment.
#[derive(Debug, Clone, Copy, PartialEq, Eq, Structural)]
pub enum Alignment {
    /// Leading edge. Default.
    Start,
    /// Centered.
    Center,
    /// Trailing edge.
    End,
}

impl Default for Alignment {
    fn default() -> (a: Alignment)
        ensures
            a == Alignment::Start,
    {
        Alignment::Start
    }
}

/// How a table's columns behave when their configured widths add up to
/// more than the viewport.
#[derive(Debug, Clone, Copy, PartialEq, Eq, Structural)]
pub enum ColumnResizeMode {
    /// Columns keep their configured width and the table overflows. Default.
    Overflow,
    /// The table never exceeds its container: growing a column compresses
    /// the columns after it, down to a minimum width each.
    FixedViewport,
}

impl Default for ColumnResizeMode {
    fn default() -> (m: ColumnResizeMode)
        ensures
            m == ColumnResizeMode::Overflow,
    {
        ColumnResizeMode::Overflow
    }
}

} // verus!
