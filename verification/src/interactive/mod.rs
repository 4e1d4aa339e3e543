//! Interactive controls: buttons, toggles, checkboxes, inputs, selects,
//! pagination, clipboard buttons, search bar and segmented control.

pub mod button;
pub mod checkbox;
pub mod clipboard;
pub mod hringrpagination;
pub mod hrungnirsegmented;
pub mod input;
pub mod mimir_search;
pub mod select;
pub mod textarea;
pub mod galdra_menu;
