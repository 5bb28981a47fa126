//! Selection, sorting, menu-model and theming logic for table, list, tree and
//! menu widgets, with contracts checked by Verus.

pub mod layout;
pub mod menu;
pub mod selection;
pub mod table;
pub mod tabs;
pub mod text;
pub mod theme;
pub mod widgets;

pub use layout::{Alignment, ColumnResizeMode, FlowDirection};
pub use menu::{group, menu_item, separator, submenu, Group, MenuButtonPress, MenuItem, MenuItemData, SeparatorEntry, Submenu};
pub use selection::multi::MultiSelection;
pub use selection::single::SingleSelection;
pub use selection::{SelectionModifiers, SelectionState};
pub use table::{
    CellValue, Identifiable, SortDescriptor, SortDirection, SortOrder, TableHeaderClickAction, TableRangeAction,
    TableRow, TableRowClickAction, TableRowOutcome,
};
pub use tabs::{SimpleTab, TabItem};
pub use theme::{Rgb8, Theme};
pub use widgets::{
    BusyHexSize, LabelAlign, ProgressOrientation, ProgressStyle, RadioToggled, RoundProgressSize, ScaleMode, SheetAction,
    StockChartMode, SwitchToggled, SwitchWidget,
};
