//! Menu model: entries with their actions, and the item data a menu
//! button shows.

pub mod data;
pub mod items;

pub use data::{MenuButtonPress, MenuItemData};
pub use items::{group, menu_item, separator, submenu, Group, MenuItem, SeparatorEntry, Submenu};
