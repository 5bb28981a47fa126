//! Plain options and actions of the controls, and the click rules of the
//! switch and radio controls.

use vstd::prelude::*;

verus! {

/// How a parameter selector lays out its control and text.
#[derive(Clone, Copy, Debug, PartialEq, Eq, Structural)]
pub enum LabelAlign {
    /// Text left of the control.
    Left,
    /// Text right of the control.
    Right,
    /// Alternating sides.
    Alternating,
}

/// How an icon scales relative to its container.
#[derive(Debug, Clone, Copy, PartialEq, Eq, Structural)]
pub enum ScaleMode {
    /// Fill the container, keeping the aspect ratio. Default.
    AspectFill,
    /// Fit inside the container, keeping the aspect ratio.
    AspectFit,
}

impl Default for ScaleMode {
    fn default() -> (m: ScaleMode)
        ensures
            m == ScaleMode::AspectFill,
    {
        ScaleMode::AspectFill
    }
}

/// Sizes of the hexagonal busy indicator.
#[derive(Clone, Copy, PartialEq, Eq, Debug, Structural)]
pub enum BusyHexSize {
    /// Default size.
    Normal,
    /// Sized to sit inline with body text.
    Small,
}

impl Default for BusyHexSize {
    fn default() -> (s: BusyHexSize)
        ensures
            s == BusyHexSize::Normal,
    {
        BusyHexSize::Normal
    }
}

/// Sizes of the round progress indicator.
#[derive(Clone, Copy, PartialEq, Eq, Debug, Structural)]
pub enum RoundProgressSize {
    /// Default size.
    Normal,
    /// Sized to match body text height.
    Small,
}

impl Default for RoundProgressSize {
    fn default() -> (s: RoundProgressSize)
        ensures
            s == RoundProgressSize::Normal,
    {
        RoundProgressSize::Normal
    }
}

/// Orientation of a progress bar.
#[derive(Clone, Copy, PartialEq, Eq, Debug, Structural)]
pub enum ProgressOrientation {
    /// Fills left to right.
    Horizontal,
    /// Fills bottom to top.
    Vertical,
}

/// Visual style of a progress bar.
#[derive(Clone, Copy, PartialEq, Eq, Debug, Structural)]
pub enum ProgressStyle {
    /// Three-zone coloured bar (green / orange / red). Default.
    Gradient,
    /// Single colour, interpolated through the same bands.
    Tint,
    /// Single fixed colour.
    Monochrome,
}

impl Default for ProgressStyle {
    fn default() -> (s: ProgressStyle)
        ensures
            s == ProgressStyle::Gradient,
    {
        ProgressStyle::Gradient
    }
}

/// Stock chart rendering mode.
#[derive(Debug, Clone, Copy, PartialEq, Eq, Structural)]
pub enum StockChartMode {
    /// Candlesticks with filled bodies. Default.
    Candlestick,
    /// OHLC bars with tick marks.
    OhlcBar,
    /// A line through the close prices.
    Line,
    /// The close-price line with a filled area below.
    Area,
}

impl Default for StockChartMode {
    fn default() -> (m: StockChartMode)
        ensures
            m == StockChartMode::Candlestick,
    {
        StockChartMode::Candlestick
    }
}

/// Action emitted when a sheet is dismissed.
#[derive(PartialEq, Debug, Clone, Copy, Eq, Structural)]
pub enum SheetAction {
    /// The sheet was dismissed (backdrop click or Escape).
    Dismissed,
}

/// Action emitted by a radio button on click: its new state.
#[derive(Debug, Clone, Copy, PartialEq, Eq, Structural)]
pub struct RadioToggled(pub bool);

/// Action emitted by a switch when it flips: its new state.
#[derive(Debug, Clone, Copy, PartialEq, Eq, Structural)]
pub struct SwitchToggled(pub bool);

/// What a pointer release decides for a two-state control (switch or
/// radio button) that is `on`: it flips only when enabled, and only when
/// the press started on it (`active`) and the pointer is still over it
/// (`hovered`). Returns the new state when it flips.
pub open spec fn release_flip(on: bool, disabled: bool, active: bool, hovered: bool) -> Option<bool> {
    if !disabled && active && hovered {
        Some(!on)
    } else {
        None
    }
}

/// The state of a compact on/off switch.
#[derive(Debug, Clone, Copy, PartialEq, Eq, Structural)]
pub struct SwitchWidget {
    on: bool,
}

impl SwitchWidget {
    /// Whether the switch is on.
    pub closed spec fn spec_on(&self) -> bool {
        self.on
    }

    /// Creates a switch in the given state.
    pub fn new(on: bool) -> (s: SwitchWidget)
        ensures
            s.spec_on() == on,
    {
        SwitchWidget { on }
    }

    /// Whether the switch is on.
    pub fn is_on(&self) -> (b: bool)
        ensures
            b == self.spec_on(),
    {
        self.on
    }

    /// Sets the state directly. Returns whether it changed (the control
    /// then needs repainting).
    pub fn set_on(&mut self, on: bool) -> (changed: bool)
        ensures
            final(self).spec_on() == on,
            changed == (old(self).spec_on() != on),
    {
        let changed = self.on != on;
        self.on = on;
        changed
    }

    /// A pointer release: flips the switch as [`release_flip`] decides and
    /// returns the action to emit.
    pub fn release(&mut self, disabled: bool, active: bool, hovered: bool) -> (a: Option<SwitchToggled>)
        ensures
            match release_flip(old(self).spec_on(), disabled, active, hovered) {
                Some(n) => a == Some(SwitchToggled(n)) && final(self).spec_on() == n,
                None => a is None && final(self).spec_on() == old(self).spec_on(),
            },
    {
        if !disabled && active && hovered {
            self.on = !self.on;
            Some(SwitchToggled(self.on))
        } else {
            None
        }
    }

    /// An accessibility click: flips the switch and returns the action to emit.
    pub fn access_click(&mut self) -> (a: SwitchToggled)
        ensures
            final(self).spec_on() == !old(self).spec_on(),
            a == SwitchToggled(!old(self).spec_on()),
    {
        self.on = !self.on;
        SwitchToggled(self.on)
    }
}

/// A pointer release on a radio button in state `selected`: the action to
/// emit, as [`release_flip`] decides.
pub fn radio_release(selected: bool, disabled: bool, active: bool, hovered: bool) -> (a: Option<RadioToggled>)
    ensures
        match release_flip(selected, disabled, active, hovered) {
            Some(n) => a == Some(RadioToggled(n)),
            None => a is None,
        },
{
    if !disabled && active && hovered {
        Some(RadioToggled(!selected))
    } else {
        None
    }
}

} // verus!
